//! Resident memory of the process.
use crate::error::{HypomnesisError, Result};
use crate::number::{
    decimal, int_error_text, parse_unsigned, parsed_unsigned, push_decimal, push_signed,
    signed_decimal, IntError,
};
use crate::text::{
    chars_of, has_suffix, lines, lines_of, same_chars, slices, string_of, strip_prefix,
    stripped_prefix, trim, trimmed,
};
use vstd::prelude::*;
use vstd::slice::slice_subrange;

verus! {

/// What a process status file says about resident memory.
pub enum VmRss {
    /// There is no such line.
    Missing,
    /// The value on the line is no number.
    Malformed(Seq<char>, IntError),
    /// The value in kilobytes.
    Kilobytes(nat),
}

/// A text without any number of the suffix `p` at its end.
pub open spec fn without_suffixes(s: Seq<char>, p: Seq<char>) -> Seq<char>
    decreases s.len(),
{
    if p.len() > 0 && has_suffix(s, p) {
        without_suffixes(s.take(s.len() - p.len()), p)
    } else {
        s
    }
}

/// The value on a line, without the unit and the whitespace around it.
pub open spec fn value_text(rest: Seq<char>) -> Seq<char> {
    trimmed(without_suffixes(trimmed(rest), " kB"@))
}

/// What the first line that starts with `VmRSS:` says.
pub open spec fn vmrss_in(all: Seq<Seq<char>>) -> VmRss
    decreases all.len(),
{
    if all.len() == 0 {
        VmRss::Missing
    } else {
        match stripped_prefix(all[0], "VmRSS:"@) {
            Some(rest) => match parsed_unsigned(value_text(rest), 10, u64::MAX as nat) {
                Ok(kb) => VmRss::Kilobytes(kb),
                Err(e) => VmRss::Malformed(value_text(rest), e),
            },
            None => vmrss_in(all.skip(1)),
        }
    }
}

/// What a process status file says about resident memory.
pub open spec fn vmrss(status: Seq<char>) -> VmRss {
    vmrss_in(lines_of(status))
}

/// The message for a status file without a usable value.
pub open spec fn vmrss_error(v: VmRss) -> Seq<char> {
    match v {
        VmRss::Malformed(text, e) => "failed to parse VmRSS value '"@ + text + "': "@
            + int_error_text(e),
        _ => "VmRSS not found in /proc/self/status"@,
    }
}

/// Whether a result is the RAM error with the given message.
pub open spec fn ram_error<T>(r: Result<T>, message: Seq<char>) -> bool {
    r matches Err(HypomnesisError::Ram(m)) && m@ == message
}

fn strip_suffixes<'a>(s: &'a [char], p: &str) -> (r: &'a [char])
    requires
        p@.len() > 0,
    ensures
        r@ == without_suffixes(s@, p@),
{
    let pat = chars_of(p);
    let mut cur: &[char] = s;
    loop
        invariant
            pat@ == p@,
            p@.len() > 0,
            without_suffixes(s@, p@) == without_suffixes(cur@, p@),
        decreases cur.len(),
    {
        if pat.len() > cur.len() {
            return cur;
        }
        let cut: usize = cur.len() - pat.len();
        let tail = slice_subrange(cur, cut, cur.len());
        assert(tail@ =~= cur@.skip(cur@.len() - p@.len()));
        if !same_chars(tail, pat.as_slice()) {
            return cur;
        }
        let head = slice_subrange(cur, 0, cut);
        assert(head@ =~= cur@.take(cur@.len() - p@.len()));
        cur = head;
    }
}

/// The resident memory in kilobytes that a process status file states.
pub fn vmrss_kilobytes(status: &str) -> (r: Result<u64>)
    ensures
        match vmrss(status@) {
            VmRss::Kilobytes(kb) => r matches Ok(v) && v == kb,
            other => ram_error(r, vmrss_error(other)),
        },
{
    let chars = chars_of(status);
    let all = lines(chars.as_slice());
    let ghost ls = slices(all@);
    let mut i: usize = 0;
    assert(ls.skip(0) =~= ls);
    while i < all.len()
        invariant
            i <= all@.len(),
            ls == slices(all@),
            vmrss(status@) == vmrss_in(ls.skip(i as int)),
        decreases all@.len() - i,
    {
        assert(ls.skip(i as int)[0] == all@[i as int]@);
        match strip_prefix(all[i], "VmRSS:") {
            Some(rest) => {
                proof {
                    reveal_strlit(" kB");
                }
                let value = trim(strip_suffixes(trim(rest), " kB"));
                return match parse_unsigned(value, 10, u64::MAX) {
                    Ok(kb) => Ok(kb),
                    Err(e) => {
                        let mut m = String::from_str("failed to parse VmRSS value '");
                        let text = string_of(value);
                        m.append(text.as_str());
                        m.append("': ");
                        m.append(e.message());
                        Err(HypomnesisError::Ram(m))
                    },
                };
            },
            None => {},
        }
        assert(ls.skip(i as int).skip(1) =~= ls.skip(i + 1));
        i += 1;
    }
    Err(HypomnesisError::Ram(String::from_str("VmRSS not found in /proc/self/status")))
}

/// Whether the stated value still fits 64 bits when counted in bytes.
pub open spec fn vmrss_fits(status: Seq<char>) -> bool {
    vmrss(status) matches VmRss::Kilobytes(kb) ==> kb * 1024 <= u64::MAX
}

/// The resident memory in bytes that a process status file states in kilobytes.
pub fn parse_vmrss(status: &str) -> (r: Result<u64>)
    requires
        vmrss_fits(status@),
    ensures
        match vmrss(status@) {
            VmRss::Kilobytes(kb) => r matches Ok(v) && v == kb * 1024,
            other => ram_error(r, vmrss_error(other)),
        },
{
    match vmrss_kilobytes(status) {
        Ok(kb) => Ok(kb * 1024),
        Err(e) => Err(e),
    }
}

/// What the platform's memory query returned.
#[derive(Debug)]
pub enum RamReading {
    /// Windows: whether the call succeeded (not 0), the working set in bytes, and the
    /// last error.
    Windows {
        /// The return value.
        ok: i32,
        /// The working set.
        working_set: u64,
        /// The last error.
        last_error: u32,
    },
    /// Linux: the text of the status file.
    Linux(String),
    /// Linux: the status file could not be read; the text is that of the system's error.
    LinuxUnreadable(String),
    /// macOS: the return code and the physical footprint in bytes.
    Macos {
        /// The return code.
        kr: i32,
        /// The footprint.
        phys_footprint: u64,
    },
    /// Any other platform.
    Unsupported,
}

/// Resident memory of the process in bytes, from what the platform's query returned.
pub fn process_rss(reading: &RamReading) -> (r: Result<u64>)
    requires
        reading matches RamReading::Linux(status) ==> vmrss_fits(status@),
    ensures
        match *reading {
            RamReading::Windows { ok, working_set, last_error } => if ok != 0 {
                r == Ok::<u64, HypomnesisError>(working_set)
            } else {
                ram_error(
                    r,
                    "K32GetProcessMemoryInfo failed (GetLastError = "@ + decimal(
                        last_error as nat,
                    ) + ")"@,
                )
            },
            RamReading::Linux(status) => match vmrss(status@) {
                VmRss::Kilobytes(kb) => r matches Ok(v) && v == kb * 1024,
                other => ram_error(r, vmrss_error(other)),
            },
            RamReading::LinuxUnreadable(e) => ram_error(
                r,
                "failed to read /proc/self/status: "@ + e@,
            ),
            RamReading::Macos { kr, phys_footprint } => if kr == 0 {
                r == Ok::<u64, HypomnesisError>(phys_footprint)
            } else {
                ram_error(
                    r,
                    "task_info(TASK_VM_INFO_PURGEABLE) failed (kern_return = "@ + signed_decimal(
                        kr as int,
                    ) + ")"@,
                )
            },
            RamReading::Unsupported => ram_error(
                r,
                "RAM measurement not supported on this platform"@,
            ),
        },
{
    match reading {
        RamReading::Windows { ok, working_set, last_error } => {
            if *ok != 0 {
                return Ok(*working_set);
            }
            let mut m = String::from_str("K32GetProcessMemoryInfo failed (GetLastError = ");
            push_decimal(&mut m, *last_error as u64);
            m.append(")");
            Err(HypomnesisError::Ram(m))
        },
        RamReading::Linux(status) => parse_vmrss(status.as_str()),
        RamReading::LinuxUnreadable(e) => {
            let mut m = String::from_str("failed to read /proc/self/status: ");
            m.append(e.as_str());
            Err(HypomnesisError::Ram(m))
        },
        RamReading::Macos { kr, phys_footprint } => {
            if *kr == 0 {
                return Ok(*phys_footprint);
            }
            let mut m = String::from_str(
                "task_info(TASK_VM_INFO_PURGEABLE) failed (kern_return = ",
            );
            push_signed(&mut m, *kr as i64);
            m.append(")");
            Err(HypomnesisError::Ram(m))
        },
        RamReading::Unsupported => Err(
            HypomnesisError::Ram(
                String::from_str("RAM measurement not supported on this platform"),
            ),
        ),
    }
}

} // verus!
