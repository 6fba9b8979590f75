//! The output of the `nvidia-smi` program.
use crate::number::{parse_unsigned, parsed_unsigned};
use crate::text::{
    after_last, chars_of, find_first, index_after_last, index_of_first, lines, lines_of, opt_text,
    slices, string_of, trim, trimmed,
};
use crate::time::product_clamped;
use crate::units::MIB;
use crate::utf::{decode_utf8_lossy, utf8_text};
use vstd::prelude::*;
use vstd::slice::slice_subrange;

verus! {

/// Device-wide memory as `nvidia-smi` reports it.
#[derive(Debug, PartialEq, Eq)]
pub struct NvidiaSmiResult {
    /// Used memory in bytes.
    pub used_bytes: u64,
    /// Total memory in bytes.
    pub total_bytes: u64,
    /// Version of the driver; `None` where none was printed.
    pub driver_version: Option<String>,
}

/// Device-wide memory, the driver version as characters.
pub struct NvidiaSmiModel {
    /// Used memory in bytes.
    pub used_bytes: u64,
    /// Total memory in bytes.
    pub total_bytes: u64,
    /// Version of the driver.
    pub driver_version: Option<Seq<char>>,
}

impl View for NvidiaSmiResult {
    type V = NvidiaSmiModel;

    open spec fn view(&self) -> NvidiaSmiModel {
        NvidiaSmiModel {
            used_bytes: self.used_bytes,
            total_bytes: self.total_bytes,
            driver_version: opt_text(self.driver_version),
        }
    }
}

/// The model of an optional reading.
pub open spec fn opt_reading(r: Option<NvidiaSmiResult>) -> Option<NvidiaSmiModel> {
    match r {
        Some(r) => Some(r@),
        None => None,
    }
}

/// A decimal number of MiB as bytes, at most `u64::MAX`; `None` for any other text.
pub open spec fn mib_field(s: Seq<char>) -> Option<u64> {
    match parsed_unsigned(trimmed(s), 10, u64::MAX as nat) {
        Ok(v) => Some(product_clamped(v, MIB as nat) as u64),
        Err(_) => None,
    }
}

/// The text before the first comma, or all of it.
pub open spec fn field(s: Seq<char>) -> Seq<char> {
    s.take(find_first(s, ','))
}

/// The text behind the first comma; `None` where there is no comma.
pub open spec fn after_field(s: Seq<char>) -> Option<Seq<char>> {
    if find_first(s, ',') < s.len() {
        Some(s.skip(find_first(s, ',') + 1))
    } else {
        None
    }
}

/// Whether a text holds a decimal digit.
pub open spec fn has_digit(s: Seq<char>) -> bool {
    exists|i: int| 0 <= i < s.len() && '0' <= #[trigger] s[i] <= '9'
}

/// A driver version: the trimmed field, which holds a digit; `None` for any other text.
pub open spec fn version_field(s: Seq<char>) -> Option<Seq<char>> {
    if has_digit(trimmed(s)) {
        Some(trimmed(s))
    } else {
        None
    }
}

/// The driver version behind the total, where there is such a field.
pub open spec fn version_after(total_and_rest: Seq<char>) -> Option<Seq<char>> {
    match after_field(total_and_rest) {
        Some(rest) => version_field(field(rest)),
        None => None,
    }
}

/// What the memory query's output says: used and total MiB on the first line, and the
/// driver version where a third field gives one.
pub open spec fn memory_reading(out: Seq<char>) -> Option<NvidiaSmiModel> {
    if lines_of(out).len() == 0 {
        None
    } else {
        let line = trimmed(lines_of(out)[0]);
        match after_field(line) {
            None => None,
            Some(rest) => match (mib_field(field(line)), mib_field(field(rest))) {
                (Some(used_bytes), Some(total_bytes)) => Some(
                    NvidiaSmiModel {
                        used_bytes,
                        total_bytes,
                        driver_version: version_after(rest),
                    },
                ),
                _ => None,
            },
        }
    }
}

fn parse_mib(s: &[char]) -> (r: Option<u64>)
    ensures
        r == mib_field(s@),
{
    match parse_unsigned(trim(s), 10, u64::MAX) {
        Err(_) => None,
        Ok(v) => {
            let wide: u128 = v as u128 * MIB as u128;
            if wide <= u64::MAX as u128 {
                Some(wide as u64)
            } else {
                Some(u64::MAX)
            }
        },
    }
}

fn split_field<'a>(s: &'a [char]) -> (r: (&'a [char], Option<&'a [char]>))
    ensures
        r.0@ == field(s@),
        match r.1 {
            Some(rest) => after_field(s@) == Some(rest@),
            None => after_field(s@) is None,
        },
{
    let i = index_of_first(s, ',');
    let first = slice_subrange(s, 0, i);
    assert(first@ =~= s@.take(i as int));
    if i >= s.len() {
        return (first, None);
    }
    let rest = slice_subrange(s, i + 1, s.len());
    assert(rest@ =~= s@.skip(i + 1));
    (first, Some(rest))
}

fn parse_version(s: &[char]) -> (r: Option<String>)
    ensures
        opt_text(r) == version_field(s@),
{
    let t = trim(s);
    let mut i: usize = 0;
    while i < t.len()
        invariant
            i <= t@.len(),
            t@ == trimmed(s@),
            forall|k: int| 0 <= k < i ==> !('0' <= #[trigger] t@[k] <= '9'),
        decreases t@.len() - i,
    {
        if '0' <= t[i] && t[i] <= '9' {
            assert('0' <= t@[i as int] <= '9');
            assert(has_digit(t@));
            return Some(string_of(t));
        }
        i += 1;
    }
    None
}

/// Read the memory query's output.
pub fn read_memory(out: &str) -> (r: Option<NvidiaSmiResult>)
    ensures
        opt_reading(r) == memory_reading(out@),
{
    let chars = chars_of(out);
    let all = lines(chars.as_slice());
    if all.len() == 0 {
        return None;
    }
    assert(slices(all@)[0] == all@[0]@);
    let (used, rest) = split_field(trim(all[0]));
    match rest {
        None => None,
        Some(rest) => {
            let (total, tail) = split_field(rest);
            match (parse_mib(used), parse_mib(total)) {
                (Some(used_bytes), Some(total_bytes)) => {
                    let driver_version = match tail {
                        Some(tail) => parse_version(split_field(tail).0),
                        None => None,
                    };
                    Some(NvidiaSmiResult { used_bytes, total_bytes, driver_version })
                },
                _ => None,
            }
        },
    }
}

/// Device-wide memory from the bytes that the memory query printed; `None` when the
/// program could not be run, failed, or printed something else.
pub fn query(stdout: Option<&[u8]>) -> (r: Option<NvidiaSmiResult>)
    ensures
        match stdout {
            Some(b) => opt_reading(r) == memory_reading(utf8_text(b@)),
            None => r is None,
        },
{
    match stdout {
        Some(b) => read_memory(decode_utf8_lossy(b).as_str()),
        None => None,
    }
}

/// One compute process as `nvidia-smi` lists it.
#[derive(Debug)]
pub struct ComputeApp {
    /// Process ID.
    pub pid: u32,
    /// Process name; `None` where the field is empty.
    pub name: Option<String>,
    /// GPU memory in bytes.
    pub used_bytes: u64,
}

/// A compute process, its name as characters.
pub struct ComputeAppModel {
    /// Process ID.
    pub pid: u32,
    /// Process name.
    pub name: Option<Seq<char>>,
    /// GPU memory in bytes.
    pub used_bytes: u64,
}

impl View for ComputeApp {
    type V = ComputeAppModel;

    open spec fn view(&self) -> ComputeAppModel {
        ComputeAppModel {
            pid: self.pid,
            name: opt_text(self.name),
            used_bytes: self.used_bytes,
        }
    }
}

/// A trimmed field, `None` where nothing is left.
pub open spec fn name_field(s: Seq<char>) -> Option<Seq<char>> {
    if trimmed(s).len() > 0 {
        Some(trimmed(s))
    } else {
        None
    }
}

/// What one line of the process listing says: the process before the first comma, the
/// memory after the last, and the name, which may hold commas, between them.
pub open spec fn app_of_line(raw: Seq<char>) -> Option<ComputeAppModel> {
    let line = trimmed(raw);
    let last = after_last(line, ',');
    let rest = line.take(last - 1);
    let first = find_first(rest, ',');
    if last == 0 || first >= rest.len() {
        None
    } else {
        match (
            parsed_unsigned(trimmed(rest.take(first)), 10, u32::MAX as nat),
            mib_field(line.skip(last)),
        ) {
            (Ok(pid), Some(used_bytes)) => Some(
                ComputeAppModel {
                    pid: pid as u32,
                    name: name_field(rest.skip(first + 1)),
                    used_bytes,
                },
            ),
            _ => None,
        }
    }
}

/// The model of an optional process.
pub open spec fn opt_app(a: Option<ComputeApp>) -> Option<ComputeAppModel> {
    match a {
        Some(a) => Some(a@),
        None => None,
    }
}

fn parse_app(raw: &[char]) -> (r: Option<ComputeApp>)
    ensures
        opt_app(r) == app_of_line(raw@),
{
    let line = trim(raw);
    let last = index_after_last(line, ',');
    if last == 0 {
        return None;
    }
    let rest = slice_subrange(line, 0, last - 1);
    let used = slice_subrange(line, last, line.len());
    assert(rest@ =~= line@.take(last - 1));
    assert(used@ =~= line@.skip(last as int));
    let first = index_of_first(rest, ',');
    if first >= rest.len() {
        return None;
    }
    let pid_field = slice_subrange(rest, 0, first);
    let name = slice_subrange(rest, first + 1, rest.len());
    assert(pid_field@ =~= rest@.take(first as int));
    assert(name@ =~= rest@.skip(first + 1));
    match (parse_unsigned(trim(pid_field), 10, u32::MAX as u64), parse_mib(used)) {
        (Ok(pid), Some(used_bytes)) => {
            let t = trim(name);
            let name = if t.len() > 0 {
                Some(string_of(t))
            } else {
                None
            };
            Some(ComputeApp { pid: pid as u32, name, used_bytes })
        },
        _ => None,
    }
}

/// Read one line of the process listing; `None` where it is empty or malformed.
pub fn parse_compute_app_line(line_raw: &str) -> (r: Option<ComputeApp>)
    ensures
        opt_app(r) == app_of_line(line_raw@),
{
    parse_app(chars_of(line_raw).as_slice())
}

/// The processes of the well-formed lines, in order.
pub open spec fn apps_of_lines(all: Seq<Seq<char>>) -> Seq<ComputeAppModel>
    decreases all.len(),
{
    if all.len() == 0 {
        seq![]
    } else {
        let init = apps_of_lines(all.drop_last());
        match app_of_line(all.last()) {
            Some(a) => init.push(a),
            None => init,
        }
    }
}

/// The models of processes.
pub open spec fn app_models(v: Seq<ComputeApp>) -> Seq<ComputeAppModel> {
    v.map_values(|a: ComputeApp| a@)
}

/// Whether a line holds anything but white space.
pub open spec fn holds_text(line: Seq<char>) -> bool {
    trimmed(line).len() > 0
}

/// What the process listing says: the processes of the well-formed lines, in order. A
/// listing without text says that there are none; one with text and no well-formed line
/// says nothing.
pub open spec fn listing_reading(all: Seq<Seq<char>>) -> Option<Seq<ComputeAppModel>> {
    if apps_of_lines(all).len() == 0 && exists|i: int|
        0 <= i < all.len() && holds_text(#[trigger] all[i]) {
        None
    } else {
        Some(apps_of_lines(all))
    }
}

/// The models of an optional listing.
pub open spec fn opt_app_models(r: Option<Vec<ComputeApp>>) -> Option<Seq<ComputeAppModel>> {
    match r {
        Some(v) => Some(app_models(v@)),
        None => None,
    }
}

/// Read the process listing, line by line. Malformed lines are skipped; `None` where
/// there is text and every line is malformed.
pub fn read_compute_apps(out: &str) -> (r: Option<Vec<ComputeApp>>)
    ensures
        opt_app_models(r) == listing_reading(lines_of(out@)),
{
    let chars = chars_of(out);
    let all = lines(chars.as_slice());
    let ghost ls = slices(all@);
    let mut v: Vec<ComputeApp> = Vec::new();
    let mut text = false;
    let mut i: usize = 0;
    assert(ls.take(0) =~= seq![]);
    assert(app_models(v@) =~= seq![]);
    while i < all.len()
        invariant
            i <= all.len(),
            ls == slices(all@),
            app_models(v@) == apps_of_lines(ls.take(i as int)),
            text <==> exists|k: int| 0 <= k < i && holds_text(#[trigger] ls[k]),
        decreases all.len() - i,
    {
        assert(ls.take(i + 1).drop_last() =~= ls.take(i as int));
        assert(ls.take(i + 1).last() == all@[i as int]@);
        assert(ls[i as int] == all@[i as int]@);
        let ghost before = app_models(v@);
        if trim(all[i]).len() > 0 {
            text = true;
            assert(holds_text(ls[i as int]));
        }
        match parse_app(all[i]) {
            Some(a) => {
                v.push(a);
                assert(app_models(v@) =~= before.push(a@));
            },
            None => {},
        }
        i += 1;
    }
    assert(ls.take(i as int) =~= ls);
    if v.len() == 0 && text {
        None
    } else {
        Some(v)
    }
}

/// The compute processes from the bytes that the listing printed, none being a valid
/// answer; `None` when the program could not be run, failed, or printed text without one
/// well-formed line.
pub fn query_compute_apps(stdout: Option<&[u8]>) -> (r: Option<Vec<ComputeApp>>)
    ensures
        match stdout {
            Some(b) => opt_app_models(r) == listing_reading(lines_of(utf8_text(b@))),
            None => r is None,
        },
{
    match stdout {
        Some(b) => read_compute_apps(decode_utf8_lossy(b).as_str()),
        None => None,
    }
}

} // verus!
