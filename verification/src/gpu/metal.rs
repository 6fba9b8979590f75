//! Apple Metal: what the system calls' results mean.
use crate::gpu::nvml::{bytes_before_zero, nonempty, nonempty_text, zero_index};
use crate::snapshot::{entry_models, EntryModel, GpuProcessEntry, GpuQuerySource, ProcessGpuInfo};
use crate::text::{
    after_last, chars_of, find_text, index_after_last, opt_text, split_once, string_of,
};
use crate::utf::{decode_utf8_strict, strict_text};
use vstd::prelude::*;
use vstd::slice::slice_subrange;
use vstd::utf8::encode_utf8;

verus! {

/// The most ledger entries that are asked for.
pub const LEDGER_TEMPLATE_BUF_CAP: usize = 128;

/// The longest path, in bytes, that the system returns.
pub const PROC_PIDPATHINFO_MAXSIZE: usize = 4096;

/// The value of a 64-bit system variable, from the return code and the length written.
pub fn read_sysctl_u64(rc: i32, len: usize, value: u64) -> (r: Option<u64>)
    ensures
        r == (if rc == 0 && len == 8 {
            Some(value)
        } else {
            None
        }),
{
    if rc == 0 && len == 8 {
        Some(value)
    } else {
        None
    }
}

/// Bytes without the zeros at their end.
pub open spec fn without_zeros(b: Seq<u8>) -> Seq<u8>
    decreases b.len(),
{
    if b.len() > 0 && b.last() == 0 {
        without_zeros(b.drop_last())
    } else {
        b
    }
}

/// What the two calls that read a text variable returned: the length query, and the
/// fetch.
pub struct SysctlText {
    /// Return code of the length query.
    pub probe_rc: i32,
    /// Length that it reports.
    pub probe_len: usize,
    /// Return code of the fetch.
    pub fetch_rc: i32,
    /// The buffer that the fetch filled.
    pub buffer: Vec<u8>,
}

/// The text of a system variable; `None` where a call failed, there is nothing, or the
/// bytes are not UTF-8.
pub open spec fn sysctl_text(t: SysctlText) -> Option<Seq<char>> {
    if t.probe_rc == 0 && t.probe_len > 0 && t.fetch_rc == 0 {
        strict_text(without_zeros(t.buffer@))
    } else {
        None
    }
}

/// The text of a system variable.
pub fn read_sysctl_string(t: &SysctlText) -> (r: Option<String>)
    ensures
        opt_text(r) == sysctl_text(*t),
{
    if t.probe_rc != 0 || t.probe_len == 0 || t.fetch_rc != 0 {
        return None;
    }
    let b = t.buffer.as_slice();
    let mut n: usize = b.len();
    assert(b@.take(n as int) =~= b@);
    while n > 0 && b[n - 1] == 0
        invariant
            n <= b@.len(),
            without_zeros(b@) == without_zeros(b@.take(n as int)),
        decreases n,
    {
        assert(b@.take(n as int).last() == b@[n - 1]);
        assert(b@.take(n as int).drop_last() =~= b@.take(n - 1));
        n -= 1;
    }
    assert(n > 0 ==> b@.take(n as int).last() == b@[n - 1]);
    let text = slice_subrange(b, 0, n);
    assert(text@ =~= b@.take(n as int));
    decode_utf8_strict(text)
}

/// The ledger rows that the system returned: as many as it reports, at most the buffer.
pub open spec fn rows_returned(count: i32, len: nat) -> int {
    let n = if count <= LEDGER_TEMPLATE_BUF_CAP {
        count as int
    } else {
        LEDGER_TEMPLATE_BUF_CAP as int
    };
    if n <= len {
        n
    } else {
        len as int
    }
}

/// Whether a ledger row is the one for GPU memory, by its zero-terminated name.
pub open spec fn is_footprint_name(name: Seq<u8>) -> bool {
    name.take(zero_index(name)) == encode_utf8("graphics_footprint"@)
}

/// Whether none of the first `n` ledger rows is the one for GPU memory.
pub open spec fn no_footprint_in(names: Seq<Vec<u8>>, n: int) -> bool {
    forall|k: int| 0 <= k < n ==> !is_footprint_name((#[trigger] names[k])@)
}

fn returned_rows(count: i32, len: usize) -> (n: usize)
    requires
        count > 0,
    ensures
        n == rows_returned(count, len as nat),
        n <= len,
{
    let n: usize = if count as i64 <= LEDGER_TEMPLATE_BUF_CAP as i64 {
        count as usize
    } else {
        LEDGER_TEMPLATE_BUF_CAP
    };
    if n <= len {
        n
    } else {
        len
    }
}

fn same_bytes(a: &[u8], b: &[u8]) -> (r: bool)
    ensures
        r == (a@ == b@),
{
    if a.len() != b.len() {
        return false;
    }
    let mut i: usize = 0;
    while i < a.len()
        invariant
            i <= a@.len(),
            a@.len() == b@.len(),
            forall|k: int| 0 <= k < i ==> a@[k] == b@[k],
        decreases a@.len() - i,
    {
        if a[i] != b[i] {
            return false;
        }
        i += 1;
    }
    assert(a@ =~= b@);
    true
}

/// The position of the ledger row for GPU memory, found by name among the rows that the
/// system returned; `None` when the call failed or there is no such row.
pub fn resolve_graphics_footprint_index(
    rc: i32,
    count: i32,
    names: &Vec<Vec<u8>>,
) -> (r: Option<usize>)
    ensures
        rc != 0 || count <= 0 ==> r is None,
        rc == 0 && count > 0 ==> match r {
            Some(i) => i < rows_returned(count, names@.len()) && is_footprint_name(
                names@[i as int]@,
            ) && forall|k: int| 0 <= k < i ==> !is_footprint_name((#[trigger] names@[k])@),
            None => forall|k: int|
                0 <= k < rows_returned(count, names@.len()) ==> !is_footprint_name(
                    (#[trigger] names@[k])@,
                ),
        },
        rc == 0 && count > 0 ==> no_footprint_in(
            names@,
            match r {
                Some(i) => i as int,
                None => rows_returned(count, names@.len()),
            },
        ),
{
    if rc != 0 || count <= 0 {
        return None;
    }
    let n = returned_rows(count, names.len());
    let mut i: usize = 0;
    while i < n
        invariant
            i <= n,
            rc == 0,
            count > 0,
            n == rows_returned(count, names@.len()),
            n <= names@.len(),
            forall|k: int| 0 <= k < i ==> !is_footprint_name((#[trigger] names@[k])@),
        decreases n - i,
    {
        if same_bytes(
            bytes_before_zero(names[i].as_slice()),
            "graphics_footprint".as_bytes(),
        ) {
            return Some(i);
        }
        i += 1;
    }
    None
}

/// The resident GPU bytes in a ledger: the balance of the row at `index`, where the call
/// succeeded, the row is there and the balance is not negative.
pub open spec fn footprint(
    index: Option<usize>,
    rc: i32,
    count: i32,
    balances: Seq<i64>,
) -> Option<u64> {
    match index {
        None => None,
        Some(i) => if rc == 0 && count > 0 && i < rows_returned(count, balances.len())
            && balances[i as int] >= 0 {
            Some(balances[i as int] as u64)
        } else {
            None
        },
    }
}

/// The resident GPU bytes of a process, from its ledger.
pub fn read_graphics_footprint(
    index: Option<usize>,
    rc: i32,
    count: i32,
    balances: &Vec<i64>,
) -> (r: Option<u64>)
    ensures
        r == footprint(index, rc, count, balances@),
{
    match index {
        None => None,
        Some(i) => {
            if rc != 0 || count <= 0 {
                return None;
            }
            if i >= returned_rows(count, balances.len()) {
                return None;
            }
            let balance: i64 = balances[i];
            if balance < 0 {
                None
            } else {
                Some(balance as u64)
            }
        },
    }
}

/// What Metal says about the device.
#[derive(Debug)]
pub struct MetalQueryResult {
    /// Physical memory in bytes, shared by the processor and the GPU.
    pub dedicated_video_memory: u64,
    /// The memory that the GPU can well hold resident, in bytes.
    pub recommended_max_working_set: u64,
    /// The processor's brand, which names the GPU too.
    pub adapter_name: String,
}

/// What Metal says about device `idx`: there is only device 0, and its memory must be
/// known. The working set defaults to all memory, the name to `Apple GPU`.
pub fn query(
    idx: u32,
    memory: Option<u64>,
    brand: Option<String>,
    working_set: Option<u64>,
) -> (r: Option<MetalQueryResult>)
    ensures
        r is Some <==> idx == 0 && memory is Some,
        r matches Some(q) ==> {
            &&& q.dedicated_video_memory == memory->0
            &&& q.recommended_max_working_set == (match working_set {
                Some(w) => w,
                None => memory->0,
            })
            &&& q.adapter_name@ == (match brand {
                Some(b) => b@,
                None => "Apple GPU"@,
            })
        },
{
    if idx != 0 {
        return None;
    }
    match memory {
        None => None,
        Some(m) => Some(
            MetalQueryResult {
                dedicated_video_memory: m,
                recommended_max_working_set: match working_set {
                    Some(w) => w,
                    None => m,
                },
                adapter_name: match brand {
                    Some(b) => b,
                    None => String::from_str("Apple GPU"),
                },
            },
        ),
    }
}

/// The number of Metal devices: one on Apple silicon, told by the processor's brand.
pub fn device_count(brand: &Option<String>) -> (r: Option<u32>)
    ensures
        r == (if (brand matches Some(b) && find_text(b@, "Apple"@) is Some) {
            Some(1u32)
        } else {
            None
        }),
{
    match brand {
        None => None,
        Some(b) => {
            let chars = chars_of(b.as_str());
            match split_once(chars.as_slice(), "Apple") {
                Some(_) => Some(1),
                None => None,
            }
        },
    }
}

/// GPU memory of the calling process on device `device_index`, from its ledger.
pub fn process_gpu_info(device_index: u32, footprint: Option<u64>) -> (r: Option<ProcessGpuInfo>)
    ensures
        r == (if device_index == 0 && footprint is Some {
            Some(
                ProcessGpuInfo {
                    used_bytes: footprint->0,
                    is_per_process: true,
                    source: GpuQuerySource::Metal,
                },
            )
        } else {
            None
        }),
{
    if device_index != 0 {
        return None;
    }
    match footprint {
        None => None,
        Some(used_bytes) => Some(
            ProcessGpuInfo { used_bytes, is_per_process: true, source: GpuQuerySource::Metal },
        ),
    }
}

/// The last component of an executable's path, from the length and buffer that the system
/// returned; `None` where the call failed, the bytes are not UTF-8, or nothing is left.
pub open spec fn path_name(len: i32, buffer: Seq<u8>) -> Option<Seq<char>> {
    let n = if len <= PROC_PIDPATHINFO_MAXSIZE {
        len as int
    } else {
        PROC_PIDPATHINFO_MAXSIZE as int
    };
    if len <= 0 || n > buffer.len() {
        None
    } else {
        match strict_text(buffer.take(n)) {
            None => None,
            Some(path) => nonempty_text(path.skip(after_last(path, '/'))),
        }
    }
}

/// The name of a process from its executable's path.
pub fn read_proc_pidpath_basename(len: i32, buffer: &[u8]) -> (r: Option<String>)
    ensures
        opt_text(r) == path_name(len, buffer@),
{
    if len <= 0 {
        return None;
    }
    let n: usize = if len as i64 <= PROC_PIDPATHINFO_MAXSIZE as i64 {
        len as usize
    } else {
        PROC_PIDPATHINFO_MAXSIZE
    };
    if n > buffer.len() {
        return None;
    }
    let bytes = slice_subrange(buffer, 0, n);
    assert(bytes@ =~= buffer@.take(n as int));
    match decode_utf8_strict(bytes) {
        None => None,
        Some(path) => {
            let chars = chars_of(path.as_str());
            let start = index_after_last(chars.as_slice(), '/');
            let base = slice_subrange(chars.as_slice(), start, chars.len());
            assert(base@ =~= path@.skip(start as int));
            nonempty(string_of(base))
        },
    }
}

/// What the system said about one process.
#[derive(Debug)]
pub struct PidReading {
    /// Process ID.
    pub pid: i32,
    /// Resident GPU bytes, where the ledger could be read.
    pub footprint: Option<u64>,
    /// Length of the executable's path, as returned.
    pub path_len: i32,
    /// Buffer with the executable's path.
    pub path: Vec<u8>,
}

/// The entry of a process: only for a proper process that holds GPU memory.
pub open spec fn metal_entry(p: PidReading) -> Option<EntryModel> {
    match p.footprint {
        Some(used) => if p.pid > 0 && used > 0 {
            Some(
                EntryModel {
                    pid: p.pid as u32,
                    name: path_name(p.path_len, p.path@),
                    used_bytes: used,
                    shared_used_bytes: 0,
                    source: GpuQuerySource::Metal,
                },
            )
        } else {
            None
        },
        None => None,
    }
}

/// The entries of the processes that hold GPU memory, in order.
pub open spec fn metal_entries(pids: Seq<PidReading>) -> Seq<EntryModel>
    decreases pids.len(),
{
    if pids.len() == 0 {
        seq![]
    } else {
        let init = metal_entries(pids.drop_last());
        match metal_entry(pids.last()) {
            Some(e) => init.push(e),
            None => init,
        }
    }
}

/// Every entry comes from Metal and carries no shared bytes.
pub proof fn lemma_metal_entries(pids: Seq<PidReading>)
    ensures
        forall|i: int|
            0 <= i < metal_entries(pids).len() ==> (#[trigger] metal_entries(pids)[i]).source
                == GpuQuerySource::Metal && metal_entries(pids)[i].shared_used_bytes == 0,
    decreases pids.len(),
{
    if pids.len() > 0 {
        lemma_metal_entries(pids.drop_last());
    }
}

/// How many processes the second listing call wrote, given the sizes of both calls in
/// bytes, four per process.
pub open spec fn pids_written(size_bytes: i32, written_bytes: i32, len: nat) -> int {
    let bytes = if written_bytes <= size_bytes {
        written_bytes as int
    } else {
        size_bytes as int
    };
    if bytes / 4 <= len {
        bytes / 4
    } else {
        len as int
    }
}

/// The processes that hold GPU memory on device `device_index`, from the listing calls and
/// what the system said about each process. `None` for another device than 0 or when a
/// listing call failed.
pub fn list_compute_processes(
    device_index: u32,
    size_bytes: i32,
    written_bytes: i32,
    pids: &Vec<PidReading>,
) -> (r: Option<Vec<GpuProcessEntry>>)
    ensures
        r is Some <==> device_index == 0 && size_bytes >= 4 && written_bytes > 0,
        r matches Some(v) ==> entry_models(v@) == metal_entries(
            pids@.take(pids_written(size_bytes, written_bytes, pids@.len())),
        ),
{
    if device_index != 0 || size_bytes < 4 || written_bytes <= 0 {
        return None;
    }
    let bytes: i32 = if written_bytes <= size_bytes {
        written_bytes
    } else {
        size_bytes
    };
    let mut n: usize = (bytes / 4) as usize;
    if n > pids.len() {
        n = pids.len();
    }
    let ghost seen = pids@.take(n as int);
    let mut out: Vec<GpuProcessEntry> = Vec::new();
    let mut i: usize = 0;
    assert(seen.take(0) =~= seq![]);
    assert(entry_models(out@) =~= seq![]);
    while i < n
        invariant
            i <= n,
            n <= pids@.len(),
            seen == pids@.take(n as int),
            entry_models(out@) == metal_entries(seen.take(i as int)),
        decreases n - i,
    {
        let p = &pids[i];
        assert(seen.take(i + 1).drop_last() =~= seen.take(i as int));
        assert(seen.take(i + 1).last() == *p);
        let ghost before = entry_models(out@);
        match p.footprint {
            Some(used_bytes) => {
                if p.pid > 0 && used_bytes > 0 {
                    let e = GpuProcessEntry {
                        pid: p.pid as u32,
                        name: read_proc_pidpath_basename(p.path_len, p.path.as_slice()),
                        used_bytes,
                        shared_used_bytes: 0,
                        source: GpuQuerySource::Metal,
                    };
                    let ghost m = e@;
                    out.push(e);
                    assert(entry_models(out@) =~= before.push(m));
                }
            },
            None => {},
        }
        i += 1;
    }
    assert(seen.take(n as int) =~= seen);
    Some(out)
}

} // verus!
