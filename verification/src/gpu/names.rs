//! Process names on Windows: image paths, the process table, and the names that stand for
//! what cannot be resolved.
use crate::gpu::nvml::{nonempty, nonempty_text};
use crate::text::{after_last, chars_of, index_after_last, opt_text, string_of};
use crate::utf::{decode_until_nul, decode_utf16, nul_index, utf16_text};
use vstd::prelude::*;
use vstd::slice::slice_subrange;

verus! {

/// The process that is the kernel.
pub const KERNEL_PID: u32 = 4;

/// The name that stands for the kernel; `None` for every other process.
pub fn kernel_name_for_pid(pid: u32) -> (r: Option<&'static str>)
    ensures
        r is Some <==> pid == KERNEL_PID,
        r matches Some(s) ==> s@ == "[kernel]"@,
{
    if pid == KERNEL_PID {
        Some("[kernel]")
    } else {
        None
    }
}

/// Where the last component of a path starts: after the last separator of either kind.
pub open spec fn basename_start(s: Seq<char>) -> int {
    if after_last(s, '\\') >= after_last(s, '/') {
        after_last(s, '\\')
    } else {
        after_last(s, '/')
    }
}

/// The last component of a path; the whole path where it has no separator.
pub open spec fn basename(s: Seq<char>) -> Seq<char> {
    s.skip(basename_start(s))
}

/// The last component of a path.
pub fn basename_from_path(path: &str) -> (s: String)
    ensures
        s@ == basename(path@),
{
    let chars = chars_of(path);
    let a = index_after_last(chars.as_slice(), '\\');
    let b = index_after_last(chars.as_slice(), '/');
    let start: usize = if a >= b {
        a
    } else {
        b
    };
    let base = slice_subrange(chars.as_slice(), start, chars.len());
    assert(base@ =~= path@.skip(start as int));
    string_of(base)
}

proof fn lemma_after_last(s: Seq<char>, c: char)
    ensures
        0 <= after_last(s, c) <= s.len(),
        forall|k: int| after_last(s, c) <= k < s.len() ==> s[k] != c,
    decreases s.len(),
{
    if s.len() > 0 && s.last() != c {
        lemma_after_last(s.drop_last(), c);
        assert forall|k: int| after_last(s, c) <= k < s.len() implies s[k] != c by {
            if k < s.len() - 1 {
                assert(s.drop_last()[k] == s[k]);
            }
        }
    }
}

/// A last component holds no separator, and is a suffix of the path.
pub proof fn law_basename_has_no_separator(s: Seq<char>)
    ensures
        0 <= basename_start(s) <= s.len(),
        forall|k: int|
            0 <= k < basename(s).len() ==> #[trigger] basename(s)[k] != '\\' && basename(s)[k]
                != '/',
{
    lemma_after_last(s, '\\');
    lemma_after_last(s, '/');
}

/// The name of a process from its image path: as many units of the buffer as the call
/// wrote.
pub open spec fn image_name(buffer: Seq<u16>, size: u32) -> Option<Seq<char>> {
    let n = if size <= buffer.len() {
        size as int
    } else {
        buffer.len() as int
    };
    nonempty_text(basename(utf16_text(buffer.take(n))))
}

/// The name of a process: the kernel's, or the last component of its image path, which is
/// `None` where it could not be read.
pub fn name_from_pid_windows(pid: u32, image: Option<(&[u16], u32)>) -> (r: Option<String>)
    ensures
        opt_text(r) == (if pid == KERNEL_PID {
            Some("[kernel]"@)
        } else {
            match image {
                Some((buffer, size)) => image_name(buffer@, size),
                None => None,
            }
        }),
{
    match kernel_name_for_pid(pid) {
        Some(s) => {
            return Some(String::from_str(s));
        },
        None => {},
    }
    match image {
        None => None,
        Some((buffer, size)) => {
            let n: usize = if size as u64 <= buffer.len() as u64 {
                size as usize
            } else {
                buffer.len()
            };
            let written = slice_subrange(buffer, 0, n);
            assert(written@ =~= buffer@.take(n as int));
            let path = decode_utf16(written);
            nonempty(basename_from_path(path.as_str()))
        },
    }
}

/// The executable name in a fixed buffer: what precedes the first NUL.
pub fn szexefile_to_string(buf: &[u16]) -> (s: String)
    ensures
        s@ == utf16_text(buf@.take(nul_index(buf@))),
{
    decode_until_nul(buf)
}

/// One row of the system's process table.
#[derive(Debug)]
pub struct ProcessTableEntry {
    /// Process ID.
    pub pid: u32,
    /// Executable name in a fixed buffer.
    pub exe_file: Vec<u16>,
}

/// The executable name of a table row.
pub open spec fn table_name(e: ProcessTableEntry) -> Seq<char> {
    utf16_text(e.exe_file@.take(nul_index(e.exe_file@)))
}

/// The names that the table has for the given processes, in table order; empty names are
/// skipped.
pub open spec fn table_names(
    table: Seq<ProcessTableEntry>,
    pids: Seq<u32>,
) -> Seq<(u32, Seq<char>)>
    decreases table.len(),
{
    if table.len() == 0 {
        seq![]
    } else {
        let init = table_names(table.drop_last(), pids);
        let e = table.last();
        if pids.contains(e.pid) && table_name(e).len() > 0 {
            init.push((e.pid, table_name(e)))
        } else {
            init
        }
    }
}

/// Process and name pairs, the names as characters.
pub open spec fn named(v: Seq<(u32, String)>) -> Seq<(u32, Seq<char>)> {
    v.map_values(|p: (u32, String)| (p.0, p.1@))
}

/// Whether a process is among the given ones.
pub fn contains_pid(pids: &[u32], pid: u32) -> (r: bool)
    ensures
        r == pids@.contains(pid),
{
    let mut i: usize = 0;
    while i < pids.len()
        invariant
            i <= pids@.len(),
            forall|k: int| 0 <= k < i ==> pids@[k] != pid,
        decreases pids@.len() - i,
    {
        if pids[i] == pid {
            return true;
        }
        i += 1;
    }
    false
}

/// The names of processes from the process table; `None` when the table could not be
/// taken. Without a process to name no table is needed.
pub fn resolve_names_via_snapshot(
    pids: &[u32],
    table: &Option<Vec<ProcessTableEntry>>,
) -> (r: Option<Vec<(u32, String)>>)
    ensures
        pids@.len() == 0 ==> (r matches Some(v) && v@.len() == 0),
        pids@.len() > 0 ==> match *table {
            None => r is None,
            Some(t) => r matches Some(v) && named(v@) == table_names(t@, pids@),
        },
{
    if pids.len() == 0 {
        return Some(Vec::new());
    }
    match table {
        None => None,
        Some(t) => {
            let mut v: Vec<(u32, String)> = Vec::new();
            let mut i: usize = 0;
            assert(t@.take(0) =~= seq![]);
            assert(named(v@) =~= seq![]);
            while i < t.len()
                invariant
                    i <= t@.len(),
                    named(v@) == table_names(t@.take(i as int), pids@),
                decreases t@.len() - i,
            {
                assert(t@.take(i + 1).drop_last() =~= t@.take(i as int));
                assert(t@.take(i + 1).last() == t@[i as int]);
                let ghost before = named(v@);
                if contains_pid(pids, t[i].pid) {
                    let name = szexefile_to_string(t[i].exe_file.as_slice());
                    if !name.as_str().is_empty() {
                        let ghost text = name@;
                        v.push((t[i].pid, name));
                        assert(named(v@) =~= before.push((t@[i as int].pid, text)));
                    }
                }
                i += 1;
            }
            assert(t@.take(i as int) =~= t@);
            Some(v)
        },
    }
}

/// The first name of a process among pairs.
pub open spec fn first_name(pairs: Seq<(u32, Seq<char>)>, pid: u32) -> Option<Seq<char>>
    decreases pairs.len(),
{
    if pairs.len() == 0 {
        None
    } else if pairs[0].0 == pid {
        Some(pairs[0].1)
    } else {
        first_name(pairs.skip(1), pid)
    }
}

/// The name of a process that could not be opened: the one from the process table;
/// `[exited]` where the table does not have it, `[protected]` where there is no table.
pub open spec fn fallback_name(
    snapshot: Option<Seq<(u32, Seq<char>)>>,
    pid: u32,
) -> Seq<char> {
    match snapshot {
        None => "[protected]"@,
        Some(pairs) => match first_name(pairs, pid) {
            Some(n) => n,
            None => "[exited]"@,
        },
    }
}

/// The pairs of an optional snapshot.
pub open spec fn opt_named(snapshot: Option<Vec<(u32, String)>>) -> Option<Seq<(u32, Seq<char>)>> {
    match snapshot {
        Some(v) => Some(named(v@)),
        None => None,
    }
}

/// The name of a process: the direct one, else the fallback. Every process gets a name.
pub fn resolved_or_fallback(
    direct: Option<String>,
    pid: u32,
    snapshot: &Option<Vec<(u32, String)>>,
) -> (s: String)
    ensures
        s@ == (match direct {
            Some(n) => n@,
            None => fallback_name(opt_named(*snapshot), pid),
        }),
{
    match direct {
        Some(n) => n,
        None => match snapshot {
            None => String::from_str("[protected]"),
            Some(v) => {
                let mut i: usize = 0;
                assert(named(v@).skip(0) =~= named(v@));
                while i < v.len()
                    invariant
                        i <= v@.len(),
                        first_name(named(v@), pid) == first_name(named(v@).skip(i as int), pid),
                        *snapshot == Some(*v),
                        direct is None,
                    decreases v@.len() - i,
                {
                    assert(named(v@).skip(i as int)[0] == (v@[i as int].0, v@[i as int].1@));
                    if v[i].0 == pid {
                        return v[i].1.clone();
                    }
                    assert(named(v@).skip(i as int).skip(1) =~= named(v@).skip(i + 1));
                    i += 1;
                }
                String::from_str("[exited]")
            },
        },
    }
}

} // verus!
