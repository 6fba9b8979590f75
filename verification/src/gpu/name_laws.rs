//! What names come to: process names on Windows, adapter names, and the readings of Metal.
use crate::gpu::dxgi::{decode_description, without_nuls};
use crate::gpu::metal::{
    device_count, is_footprint_name, list_compute_processes, metal_entries, metal_entry,
    no_footprint_in, path_name, pids_written, process_gpu_info, query, read_graphics_footprint,
    read_proc_pidpath_basename, read_sysctl_string, read_sysctl_u64,
    resolve_graphics_footprint_index, rows_returned, without_zeros, MetalQueryResult, PidReading,
    SysctlText,
};
use crate::gpu::names::{
    basename, basename_from_path, first_name, law_basename_has_no_separator, name_from_pid_windows,
    named, resolve_names_via_snapshot, resolved_or_fallback, szexefile_to_string, table_names,
    ProcessTableEntry,
};
use crate::gpu::nvml::zero_index;
use crate::snapshot::{entry_models, GpuProcessEntry, GpuQuerySource, ProcessGpuInfo};
use crate::text::{after_last, find_text, opt_text};
use crate::text_laws::{law_find_text, law_nul_ends};
use crate::utf::utf16_text;
use vstd::prelude::*;
use vstd::utf8::{decode_utf8, encode_utf8, valid_utf8};

verus! {

// ---------------------------------------------------------------------------
// Paths
// ---------------------------------------------------------------------------

/// Whether a name is the last component of a path whose separators are `seps`: the path
/// ends with it, it holds no separator, and it is the whole path or stands behind one.
pub open spec fn is_last_component(name: Seq<char>, path: Seq<char>, seps: Seq<char>) -> bool {
    let start = path.len() - name.len();
    &&& start >= 0
    &&& path.skip(start) == name
    &&& forall|k: int| 0 <= k < name.len() ==> !seps.contains(#[trigger] name[k])
    &&& start > 0 ==> seps.contains(path[start - 1])
}

proof fn lemma_after_last_separator(s: Seq<char>, c: char)
    ensures
        0 <= after_last(s, c) <= s.len(),
        forall|k: int| after_last(s, c) <= k < s.len() ==> s[k] != c,
        after_last(s, c) > 0 ==> s[after_last(s, c) - 1] == c,
    decreases s.len(),
{
    if s.len() > 0 && s.last() != c {
        let t = s.drop_last();
        lemma_after_last_separator(t, c);
        assert forall|k: int| after_last(s, c) <= k < s.len() implies s[k] != c by {
            if k < s.len() - 1 {
                assert(t[k] == s[k]);
            }
        }
    }
}

proof fn lemma_basename(path: Seq<char>)
    ensures
        is_last_component(basename(path), path, seq!['\\', '/']),
{
    lemma_after_last_separator(path, '\\');
    lemma_after_last_separator(path, '/');
    law_basename_has_no_separator(path);
    let seps = seq!['\\', '/'];
    assert(seps[0] == '\\' && seps[1] == '/');
    assert forall|k: int| 0 <= k < basename(path).len() implies !seps.contains(
        #[trigger] basename(path)[k],
    ) by {}
}

/// The last component of a path on Windows.
pub proof fn law_last_component(path: &str, s: String)
    requires
        call_ensures(basename_from_path, (path,), s),
    ensures
        is_last_component(s@, path@, seq!['\\', '/']),
{
    lemma_basename(path@);
}

/// The name of a process on Windows: process 4 is the kernel; any other is named by the
/// last component of what the call wrote, if that is not empty.
pub proof fn law_windows_name(pid: u32, buffer: &[u16], size: u32, r: Option<String>)
    requires
        call_ensures(name_from_pid_windows, (pid, Some((buffer, size))), r),
    ensures
        pid == 4 ==> (r matches Some(s) && s@ == "[kernel]"@),
        pid != 4 && size <= buffer@.len() ==> match r {
            Some(s) => s@.len() > 0 && is_last_component(
                s@,
                utf16_text(buffer@.take(size as int)),
                seq!['\\', '/'],
            ),
            None => is_last_component(
                seq![],
                utf16_text(buffer@.take(size as int)),
                seq!['\\', '/'],
            ),
        },
{
    let path = utf16_text(buffer@.take(size as int));
    lemma_basename(path);
    if basename(path).len() == 0 {
        assert(basename(path) =~= seq![]);
    }
}

/// A process whose image could not be read has no direct name, but for the kernel.
pub proof fn law_windows_name_unread(pid: u32, r: Option<String>)
    requires
        call_ensures(name_from_pid_windows, (pid, None), r),
    ensures
        pid == 4 ==> (r matches Some(s) && s@ == "[kernel]"@),
        pid != 4 ==> r is None,
{
}

// ---------------------------------------------------------------------------
// The process table
// ---------------------------------------------------------------------------

/// The executable name of a table row is what precedes the first NUL.
pub proof fn law_table_row_name(buf: &[u16], n: int, s: String)
    requires
        call_ensures(szexefile_to_string, (buf,), s),
        0 <= n <= buf@.len(),
        forall|k: int| 0 <= k < n ==> buf@[k] != 0,
        n < buf@.len() ==> buf@[n] == 0,
    ensures
        s@ == utf16_text(buf@.take(n)),
{
    law_nul_ends(buf@, n);
}

proof fn lemma_row_named(table: Seq<ProcessTableEntry>, pids: Seq<u32>, i: int, n: int) -> (k: int)
    requires
        0 <= i < table.len(),
        pids.contains(table[i].pid),
        0 <= n <= table[i].exe_file@.len(),
        forall|k: int| 0 <= k < n ==> table[i].exe_file@[k] != 0,
        n < table[i].exe_file@.len() ==> table[i].exe_file@[n] == 0,
        utf16_text(table[i].exe_file@.take(n)).len() > 0,
    ensures
        0 <= k < table_names(table, pids).len(),
        table_names(table, pids)[k] == (table[i].pid, utf16_text(table[i].exe_file@.take(n))),
    decreases table.len(),
{
    law_nul_ends(table[i].exe_file@, n);
    if i == table.len() - 1 {
        table_names(table, pids).len() - 1
    } else {
        lemma_row_named(table.drop_last(), pids, i, n)
    }
}

/// Every wanted process that the table has gets the name of its row: what precedes the
/// first NUL, unless that is empty.
pub proof fn law_table_names_are_taken(
    pids: &[u32],
    table: Option<Vec<ProcessTableEntry>>,
    r: Option<Vec<(u32, String)>>,
    i: int,
    n: int,
) -> (k: int)
    requires
        call_ensures(resolve_names_via_snapshot, (pids, &table), r),
        table is Some,
        0 <= i < table->0@.len(),
        pids@.contains(table->0@[i].pid),
        0 <= n <= table->0@[i].exe_file@.len(),
        forall|k: int| 0 <= k < n ==> table->0@[i].exe_file@[k] != 0,
        n < table->0@[i].exe_file@.len() ==> table->0@[i].exe_file@[n] == 0,
        utf16_text(table->0@[i].exe_file@.take(n)).len() > 0,
    ensures
        r is Some,
        0 <= k < r->0@.len(),
        (r->0@[k]).0 == table->0@[i].pid,
        (r->0@[k]).1@ == utf16_text(table->0@[i].exe_file@.take(n)),
{
    let k = lemma_row_named(table->0@, pids@, i, n);
    assert(named(r->0@)[k] == ((r->0@[k]).0, (r->0@[k]).1@));
    k
}

proof fn lemma_names_are_wanted(table: Seq<ProcessTableEntry>, pids: Seq<u32>)
    ensures
        forall|k: int|
            0 <= k < table_names(table, pids).len() ==> pids.contains(
                (#[trigger] table_names(table, pids)[k]).0,
            ) && table_names(table, pids)[k].1.len() > 0,
    decreases table.len(),
{
    if table.len() > 0 {
        let init = table_names(table.drop_last(), pids);
        lemma_names_are_wanted(table.drop_last(), pids);
        assert forall|k: int| 0 <= k < table_names(table, pids).len() implies pids.contains(
            (#[trigger] table_names(table, pids)[k]).0,
        ) && table_names(table, pids)[k].1.len() > 0 by {
            if k < init.len() {
                assert(table_names(table, pids)[k] == init[k]);
                assert(pids.contains(init[k].0));
            }
        }
    }
}

/// The names from the table are those of wanted processes, and none is empty; without a
/// table there are none to be had.
pub proof fn law_table_names_are_wanted(
    pids: &[u32],
    table: Option<Vec<ProcessTableEntry>>,
    r: Option<Vec<(u32, String)>>,
    k: int,
)
    requires
        call_ensures(resolve_names_via_snapshot, (pids, &table), r),
    ensures
        r is None <==> pids@.len() > 0 && table is None,
        r is Some && 0 <= k < r->0@.len() ==> pids@.contains((r->0@[k]).0) && (
        r->0@[k]).1@.len() > 0,
{
    if r is Some && pids@.len() > 0 && 0 <= k < r->0@.len() {
        lemma_names_are_wanted(table->0@, pids@);
        let names = table_names(table->0@, pids@);
        assert(named(r->0@)[k] == ((r->0@[k]).0, (r->0@[k]).1@));
        assert(pids@.contains(names[k].0));
    }
}

proof fn lemma_first_name(pairs: Seq<(u32, Seq<char>)>, pid: u32, i: int)
    requires
        0 <= i < pairs.len(),
        pairs[i].0 == pid,
        forall|k: int| 0 <= k < i ==> pairs[k].0 != pid,
    ensures
        first_name(pairs, pid) == Some(pairs[i].1),
    decreases pairs.len(),
{
    if i > 0 {
        assert(pairs[0].0 != pid);
        assert forall|k: int| 0 <= k < i - 1 implies pairs.skip(1)[k].0 != pid by {
            assert(pairs.skip(1)[k] == pairs[k + 1]);
        }
        lemma_first_name(pairs.skip(1), pid, i - 1);
    }
}

proof fn lemma_no_name(pairs: Seq<(u32, Seq<char>)>, pid: u32)
    requires
        forall|k: int| 0 <= k < pairs.len() ==> (#[trigger] pairs[k]).0 != pid,
    ensures
        first_name(pairs, pid) is None,
    decreases pairs.len(),
{
    if pairs.len() > 0 {
        assert(pairs[0].0 != pid);
        assert forall|k: int| 0 <= k < pairs.skip(1).len() implies (#[trigger] pairs.skip(1)[k]).0
            != pid by {
            assert(pairs.skip(1)[k] == pairs[k + 1]);
        }
        lemma_no_name(pairs.skip(1), pid);
    }
}

/// A direct name is kept; without one, no table means `[protected]`.
pub proof fn law_direct_name_is_kept(
    direct: Option<String>,
    pid: u32,
    snapshot: Option<Vec<(u32, String)>>,
    s: String,
)
    requires
        call_ensures(resolved_or_fallback, (direct, pid, &snapshot), s),
    ensures
        direct matches Some(n) ==> s@ == n@,
        direct is None && snapshot is None ==> s@ == "[protected]"@,
{
}

/// Without a direct name the first name that the table has for the process is taken.
pub proof fn law_table_name_is_taken(
    pid: u32,
    snapshot: Option<Vec<(u32, String)>>,
    i: int,
    s: String,
)
    requires
        call_ensures(resolved_or_fallback, (None, pid, &snapshot), s),
        snapshot is Some,
        0 <= i < snapshot->0@.len(),
        (snapshot->0@[i]).0 == pid,
        forall|k: int| 0 <= k < i ==> (#[trigger] snapshot->0@[k]).0 != pid,
    ensures
        s@ == (snapshot->0@[i]).1@,
{
    let pairs = named(snapshot->0@);
    assert forall|k: int| 0 <= k < i implies pairs[k].0 != pid by {
        assert(pairs[k].0 == (snapshot->0@[k]).0);
    }
    lemma_first_name(pairs, pid, i);
}

/// A process that the table does not have has exited.
pub proof fn law_absent_process_has_exited(
    pid: u32,
    snapshot: Option<Vec<(u32, String)>>,
    s: String,
)
    requires
        call_ensures(resolved_or_fallback, (None, pid, &snapshot), s),
        snapshot is Some,
        forall|k: int| 0 <= k < snapshot->0@.len() ==> (#[trigger] snapshot->0@[k]).0 != pid,
    ensures
        s@ == "[exited]"@,
{
    let pairs = named(snapshot->0@);
    assert forall|k: int| 0 <= k < pairs.len() implies (#[trigger] pairs[k]).0 != pid by {
        assert(pairs[k].0 == (snapshot->0@[k]).0);
    }
    lemma_no_name(pairs, pid);
}

// ---------------------------------------------------------------------------
// Adapter names
// ---------------------------------------------------------------------------

proof fn lemma_without_nuls(s: Seq<char>)
    ensures
        without_nuls(s).len() <= s.len(),
        s.take(without_nuls(s).len() as int) == without_nuls(s),
        forall|k: int| without_nuls(s).len() <= k < s.len() ==> s[k] == '\0',
        without_nuls(s).len() > 0 ==> without_nuls(s).last() != '\0',
    decreases s.len(),
{
    if s.len() > 0 && s.last() == '\0' {
        let t = s.drop_last();
        lemma_without_nuls(t);
        assert(s.take(without_nuls(s).len() as int) =~= t.take(without_nuls(t).len() as int));
        assert forall|k: int| without_nuls(s).len() <= k < s.len() implies s[k] == '\0' by {
            if k < s.len() - 1 {
                assert(t[k] == s[k]);
            }
        }
    } else {
        assert(s.take(s.len() as int) =~= s);
    }
}

/// The name of an adapter is its description up to the NULs that fill it up; a description
/// of nothing but NULs names nothing.
pub proof fn law_adapter_name(units: &[u16], r: Option<String>)
    requires
        call_ensures(decode_description, (units,), r),
    ensures
        match r {
            Some(s) => {
                let text = utf16_text(units@);
                &&& 0 < s@.len() <= text.len()
                &&& text.take(s@.len() as int) == s@
                &&& s@.last() != '\0'
                &&& forall|k: int| s@.len() <= k < text.len() ==> text[k] == '\0'
            },
            None => forall|k: int|
                0 <= k < utf16_text(units@).len() ==> utf16_text(units@)[k] == '\0',
        },
{
    lemma_without_nuls(utf16_text(units@));
}

// ---------------------------------------------------------------------------
// Metal
// ---------------------------------------------------------------------------

/// Metal answers for device 0 alone, and only where the memory is known. What it says is
/// what was read; the working set defaults to all memory, the name to `Apple GPU`.
pub proof fn law_metal_query(
    idx: u32,
    memory: Option<u64>,
    brand: Option<String>,
    working_set: Option<u64>,
    r: Option<MetalQueryResult>,
)
    requires
        call_ensures(query, (idx, memory, brand, working_set), r),
    ensures
        idx != 0 || memory is None ==> r is None,
        idx == 0 && memory is Some ==> r is Some,
        r is Some ==> r->0.dedicated_video_memory == memory->0,
        r is Some && working_set is Some ==> r->0.recommended_max_working_set == working_set->0,
        r is Some && working_set is None ==> r->0.recommended_max_working_set == memory->0,
        r is Some && brand is Some ==> r->0.adapter_name@ == brand->0@,
        r is Some && brand is None ==> r->0.adapter_name@ == "Apple GPU"@,
{
}

/// There is one Metal device exactly where the processor's brand holds `Apple`.
pub proof fn law_metal_count(brand: Option<String>, r: Option<u32>)
    requires
        call_ensures(device_count, (&brand,), r),
    ensures
        r is Some ==> r->0 == 1,
        r is Some <==> brand is Some && exists|i: int|
            0 <= i && i + 5 <= brand->0@.len() && #[trigger] brand->0@.subrange(i, i + 5)
                == "Apple"@,
{
    reveal_strlit("Apple");
    if let Some(b) = brand {
        law_find_text(b@, "Apple"@);
        if let Some(i) = find_text(b@, "Apple"@) {
            assert(b@.subrange(i, i + 5) == "Apple"@);
        }
    }
}

/// The figure of the calling process is that of its ledger, and its own.
pub proof fn law_metal_process(
    device_index: u32,
    footprint: Option<u64>,
    r: Option<ProcessGpuInfo>,
)
    requires
        call_ensures(process_gpu_info, (device_index, footprint), r),
    ensures
        r is Some <==> device_index == 0 && footprint is Some,
        r is Some ==> r->0.used_bytes == footprint->0 && r->0.is_per_process && r->0.source
            == GpuQuerySource::Metal,
{
}

/// The resident GPU bytes are the balance of the row that was found, where the system
/// returned that row and the balance is not negative.
pub proof fn law_footprint_is_the_balance(
    index: Option<usize>,
    rc: i32,
    count: i32,
    balances: Vec<i64>,
    r: Option<u64>,
)
    requires
        call_ensures(read_graphics_footprint, (index, rc, count, &balances), r),
    ensures
        r is Some ==> index is Some && rc == 0 && index->0 < balances@.len() && index->0 < count
            && r->0 == balances@[index->0 as int],
        index is Some && rc == 0 && index->0 < balances@.len() && index->0 < count && index->0 < 128
            && balances@[index->0 as int] >= 0 ==> r is Some,
{
}

proof fn lemma_zero_index(b: Seq<u8>, n: int)
    requires
        0 <= n <= b.len(),
        forall|k: int| 0 <= k < n ==> b[k] != 0,
        n < b.len() ==> b[n] == 0,
    ensures
        zero_index(b) == n,
    decreases b.len(),
{
    if n > 0 {
        assert forall|k: int| 0 <= k < n - 1 implies b.skip(1)[k] != 0 by {
            assert(b.skip(1)[k] == b[k + 1]);
        }
        if n < b.len() {
            assert(b.skip(1)[n - 1] == b[n]);
        }
        lemma_zero_index(b.skip(1), n - 1);
    }
}

/// The row for GPU memory is found by its name `graphics_footprint`, zero-terminated, if it
/// is among the rows that the system returned.
#[verifier::spinoff_prover]
pub proof fn law_footprint_row_is_found(
    rc: i32,
    count: i32,
    names: &Vec<Vec<u8>>,
    r: Option<usize>,
    i: int,
    n: int,
)
    requires
        call_ensures(resolve_graphics_footprint_index, (rc, count, names), r),
        rc == 0,
        0 <= i < names@.len(),
        i < count,
        i < 128,
        0 <= n <= names@[i]@.len(),
        forall|k: int| 0 <= k < n ==> names@[i]@[k] != 0,
        n < names@[i]@.len() ==> names@[i]@[n] == 0,
        names@[i]@.take(n) == encode_utf8("graphics_footprint"@),
    ensures
        r is Some,
        r->0 <= i,
        r->0 == i || names@[r->0 as int]@.take(zero_index(names@[r->0 as int]@)) == encode_utf8(
            "graphics_footprint"@,
        ),
{
    lemma_zero_index(names@[i]@, n);
    assert(is_footprint_name(names@[i]@));
    assert(i < rows_returned(count, names@.len()));
    assert(rc == 0 && count > 0);
    match r {
        Some(j) => {
            assert(j < rows_returned(count, names@.len()));
            assert(is_footprint_name(names@[j as int]@));
            assert(j > i ==> !is_footprint_name(names@[i]@));
        },
        None => {
            assert(no_footprint_in(names@, rows_returned(count, names@.len())));
            assert(!is_footprint_name(names@[i]@));
        },
    }
}

/// A failed ledger call finds no row.
pub proof fn law_failed_ledger_finds_nothing(
    rc: i32,
    count: i32,
    names: Vec<Vec<u8>>,
    r: Option<usize>,
)
    requires
        call_ensures(resolve_graphics_footprint_index, (rc, count, &names), r),
        rc != 0 || count <= 0,
    ensures
        r is None,
{
}

/// A 64-bit system variable is read where the call succeeded and wrote eight bytes.
pub proof fn law_sysctl_value(rc: i32, len: usize, value: u64, r: Option<u64>)
    requires
        call_ensures(read_sysctl_u64, (rc, len, value), r),
    ensures
        r is Some <==> rc == 0 && len == 8,
        r is Some ==> r->0 == value,
{
}

proof fn lemma_without_zeros(b: Seq<u8>, n: int)
    requires
        0 <= n <= b.len(),
        n > 0 ==> b[n - 1] != 0,
        forall|k: int| n <= k < b.len() ==> b[k] == 0,
    ensures
        without_zeros(b) == b.take(n),
    decreases b.len(),
{
    if n < b.len() {
        assert(b.last() == 0);
        assert forall|k: int| n <= k < b.drop_last().len() implies b.drop_last()[k] == 0 by {
            assert(b.drop_last()[k] == b[k]);
        }
        lemma_without_zeros(b.drop_last(), n);
        assert(b.drop_last().take(n) =~= b.take(n));
    } else {
        assert(b.take(n) =~= b);
    }
}

/// The text of a system variable is what stands before the zeros at its end, where both
/// calls succeeded and there is something.
pub proof fn law_sysctl_text(t: SysctlText, n: int, r: Option<String>)
    requires
        call_ensures(read_sysctl_string, (&t,), r),
        0 <= n <= t.buffer@.len(),
        n > 0 ==> t.buffer@[n - 1] != 0,
        forall|k: int| n <= k < t.buffer@.len() ==> t.buffer@[k] == 0,
    ensures
        r is Some <==> t.probe_rc == 0 && t.probe_len > 0 && t.fetch_rc == 0 && valid_utf8(
            t.buffer@.take(n),
        ),
        r is Some ==> r->0@ == decode_utf8(t.buffer@.take(n)),
{
    lemma_without_zeros(t.buffer@, n);
}

/// The name of a process on macOS is the last component of the path that the system wrote,
/// unless it is empty.
pub proof fn law_macos_name(len: i32, buffer: &[u8], r: Option<String>)
    requires
        call_ensures(read_proc_pidpath_basename, (len, buffer), r),
    ensures
        r is Some ==> 0 < len && r->0@.len() > 0,
        r is Some && len <= 4096 ==> len <= buffer@.len() && valid_utf8(buffer@.take(len as int))
            && is_last_component(r->0@, decode_utf8(buffer@.take(len as int)), seq!['/']),
        r is None && 0 < len <= 4096 && len <= buffer@.len() && valid_utf8(
            buffer@.take(len as int),
        ) ==> is_last_component(seq![], decode_utf8(buffer@.take(len as int)), seq!['/']),
{
    if 0 < len <= 4096 && len <= buffer@.len() {
        let path = decode_utf8(buffer@.take(len as int));
        let name = path.skip(after_last(path, '/'));
        lemma_after_last_separator(path, '/');
        let seps = seq!['/'];
        assert(seps[0] == '/');
        assert forall|k: int| 0 <= k < name.len() implies !seps.contains(#[trigger] name[k]) by {
            assert(name[k] == path[after_last(path, '/') + k]);
        }
        assert(is_last_component(name, path, seps));
        if name.len() == 0 {
            assert(name =~= seq![]);
        }
    }
}

/// Whether an entry shows a process as Metal reports it.
pub open spec fn shows_pid(e: GpuProcessEntry, p: PidReading) -> bool {
    &&& e.pid == p.pid
    &&& opt_text(e.name) == path_name(p.path_len, p.path@)
    &&& Some(e.used_bytes) == p.footprint
    &&& e.shared_used_bytes == 0
    &&& e.source == GpuQuerySource::Metal
}

proof fn lemma_pid_listed(pids: Seq<PidReading>, i: int) -> (k: int)
    requires
        0 <= i < pids.len(),
        pids[i].pid > 0,
        pids[i].footprint is Some,
        pids[i].footprint->0 > 0,
    ensures
        0 <= k < metal_entries(pids).len(),
        metal_entries(pids)[k].pid == pids[i].pid,
        metal_entries(pids)[k].name == path_name(pids[i].path_len, pids[i].path@),
        metal_entries(pids)[k].used_bytes == pids[i].footprint->0,
        metal_entries(pids)[k].shared_used_bytes == 0,
        metal_entries(pids)[k].source == GpuQuerySource::Metal,
    decreases pids.len(),
{
    if i == pids.len() - 1 {
        assert(metal_entry(pids.last()) is Some);
        metal_entries(pids).len() - 1
    } else {
        lemma_pid_listed(pids.drop_last(), i)
    }
}

proof fn lemma_entry_from_pid(pids: Seq<PidReading>, k: int) -> (i: int)
    requires
        0 <= k < metal_entries(pids).len(),
    ensures
        0 <= i < pids.len(),
        pids[i].pid > 0,
        pids[i].footprint is Some,
        pids[i].footprint->0 > 0,
        metal_entries(pids)[k].pid == pids[i].pid,
        metal_entries(pids)[k].used_bytes == pids[i].footprint->0,
    decreases pids.len(),
{
    let n = metal_entries(pids.drop_last()).len();
    if k < n {
        assert(metal_entries(pids)[k] == metal_entries(pids.drop_last())[k]);
        lemma_entry_from_pid(pids.drop_last(), k)
    } else {
        pids.len() - 1
    }
}

/// A process that the system listed and that holds GPU memory is in the listing, with the
/// bytes of its ledger. The second call lists four bytes per process.
pub proof fn law_metal_processes_are_listed(
    size_bytes: i32,
    written_bytes: i32,
    pids: Vec<PidReading>,
    r: Option<Vec<GpuProcessEntry>>,
    i: int,
) -> (k: int)
    requires
        call_ensures(list_compute_processes, (0u32, size_bytes, written_bytes, &pids), r),
        0 <= i < pids@.len(),
        4 * (i + 1) <= written_bytes,
        4 * (i + 1) <= size_bytes,
        pids@[i].pid > 0,
        pids@[i].footprint is Some,
        pids@[i].footprint->0 > 0,
    ensures
        r is Some,
        0 <= k < r->0@.len(),
        shows_pid(r->0@[k], pids@[i]),
{
    let n = pids_written(size_bytes, written_bytes, pids@.len());
    let shown = pids@.take(n);
    assert(shown[i] == pids@[i]);
    let k = lemma_pid_listed(shown, i);
    assert(entry_models(r->0@)[k] == r->0@[k]@);
    k
}

/// Every entry of the listing shows a process that holds GPU memory.
pub proof fn law_metal_listing_shows_processes(
    device_index: u32,
    size_bytes: i32,
    written_bytes: i32,
    pids: Vec<PidReading>,
    r: Option<Vec<GpuProcessEntry>>,
    k: int,
) -> (i: int)
    requires
        call_ensures(list_compute_processes, (device_index, size_bytes, written_bytes, &pids), r),
        r is Some,
        0 <= k < r->0@.len(),
    ensures
        device_index == 0,
        0 <= i < pids@.len(),
        pids@[i].pid > 0,
        pids@[i].footprint matches Some(b) && b > 0,
        r->0@[k].pid == pids@[i].pid,
        Some(r->0@[k].used_bytes) == pids@[i].footprint,
{
    let n = pids_written(size_bytes, written_bytes, pids@.len());
    let shown = pids@.take(n);
    assert(entry_models(r->0@)[k] == r->0@[k]@);
    let i = lemma_entry_from_pid(shown, k);
    assert(shown[i] == pids@[i]);
    i
}

/// There is no listing for another device, nor where a listing call failed.
pub proof fn law_metal_listing_needs_its_calls(
    device_index: u32,
    size_bytes: i32,
    written_bytes: i32,
    pids: Vec<PidReading>,
    r: Option<Vec<GpuProcessEntry>>,
)
    requires
        call_ensures(list_compute_processes, (device_index, size_bytes, written_bytes, &pids), r),
    ensures
        device_index != 0 || size_bytes <= 0 || written_bytes <= 0 ==> r is None,
        device_index == 0 && size_bytes >= 4 && written_bytes > 0 ==> r is Some,
{
}

} // verus!
