//! What the lines of `nvidia-smi` are read as, said of the figures that were printed.
use crate::gpu::nvidia_smi::{
    after_field, app_models, app_of_line, apps_of_lines, field, has_digit, holds_text, mib_field,
    name_field, opt_app, opt_reading, parse_compute_app_line, query, query_compute_apps,
    version_after, version_field, ComputeApp, NvidiaSmiResult,
};
use crate::number::{decimal, law_decimal_round_trip};
use crate::text::{after_last, find_first, is_space, lines_of, trimmed};
use crate::text_laws::{
    all_space, is_tight, law_decimal_digits, law_first_line, law_first_of, law_last_of,
    law_last_of_none, law_trimmed,
};
use crate::utf::utf8_text;
use vstd::prelude::*;

verus! {

/// What separates two fields.
pub open spec fn field_gap() -> Seq<char> {
    seq![',', ' ']
}

/// Whether a text holds neither a comma nor a line feed, and is trimmed.
pub open spec fn is_plain_field(s: Seq<char>) -> bool {
    &&& is_tight(s)
    &&& forall|k: int| 0 <= k < s.len() ==> #[trigger] s[k] != ',' && s[k] != '\n'
}

proof fn lemma_number_is_plain(n: nat)
    ensures
        decimal(n).len() > 0,
        is_plain_field(decimal(n)),
        trimmed(decimal(n)) == decimal(n),
        trimmed(seq![' '] + decimal(n)) == decimal(n),
{
    law_decimal_digits(n);
    let d = decimal(n);
    assert forall|k: int| 0 <= k < d.len() implies #[trigger] d[k] != ',' && d[k] != '\n'
        && !is_space(d[k]) by {
        assert('0' as u32 <= d[k] as u32 <= '9' as u32);
    }
    assert(!is_space(d[0]) && !is_space(d[d.len() - 1]));
    lemma_trim_around(d);
}

proof fn lemma_trim_around(s: Seq<char>)
    requires
        is_tight(s),
    ensures
        trimmed(s) == s,
        trimmed(seq![' '] + s) == s,
{
    law_trimmed(seq![], s, seq![]);
    assert(seq![] + s + seq![] =~= s);
    law_trimmed(seq![' '], s, seq![]);
    assert(seq![' '] + s + seq![] =~= seq![' '] + s);
}

proof fn lemma_mib_read(n: nat, s: Seq<char>)
    requires
        trimmed(s) == decimal(n),
        n * 1_048_576 <= u64::MAX,
    ensures
        mib_field(s) == Some((n * 1_048_576) as u64),
{
    law_decimal_round_trip(n, u64::MAX as nat);
}

proof fn lemma_first_field(a: Seq<char>, b: Seq<char>)
    requires
        forall|k: int| 0 <= k < a.len() ==> a[k] != ',',
    ensures
        field(a + seq![','] + b) == a,
        after_field(a + seq![','] + b) == Some(b),
        field(a) == a,
        after_field(a) is None,
{
    let s = a + seq![','] + b;
    assert(s =~= a.push(',') + b);
    law_first_of(a, ',', b);
    assert(s.take(a.len() as int) =~= a);
    assert(s.skip(a.len() + 1int) =~= b);
    assert(a.take(a.len() as int) =~= a);
}

/// The line of the memory query: used and total MiB, and the driver's version.
pub open spec fn memory_line(used: nat, total: nat, version: Seq<char>) -> Seq<char> {
    decimal(used) + field_gap() + decimal(total) + field_gap() + version
}

/// Used and total memory are read in MiB, in this order, and the version behind them,
/// whatever follows the first line.
pub proof fn law_memory_is_read(
    used: nat,
    total: nat,
    version: Seq<char>,
    rest: Seq<char>,
    stdout: &[u8],
    r: Option<NvidiaSmiResult>,
)
    requires
        call_ensures(query, (Some(stdout),), r),
        used * 1_048_576 <= u64::MAX,
        total * 1_048_576 <= u64::MAX,
        version.len() > 0,
        is_plain_field(version),
        has_digit(version),
        utf8_text(stdout@) == memory_line(used, total, version).push('\n') + rest,
    ensures
        r matches Some(m) && m.used_bytes == used * 1_048_576 && m.total_bytes == total * 1_048_576
            && (m.driver_version matches Some(v) && v@ == version),
{
    let line = memory_line(used, total, version);
    let u = decimal(used);
    let t = decimal(total);
    lemma_number_is_plain(used);
    lemma_number_is_plain(total);
    assert(line.last() == version.last());
    assert(line[0] == u[0]);
    assert forall|k: int| 0 <= k < line.len() implies line[k] != '\n' by {
        let g = u.len() as int;
        let h = g + 2 + t.len();
        if k < g {
            assert(line[k] == u[k]);
        } else if g + 2 <= k < h {
            assert(line[k] == t[k - g - 2]);
        } else if k >= h + 2 {
            assert(line[k] == version[k - h - 2]);
        }
    }
    assert(is_space('\r'));
    law_first_line(line, rest);
    lemma_trim_around(line);
    let behind_used = seq![' '] + t + field_gap() + version;
    assert(line =~= u + seq![','] + behind_used);
    lemma_first_field(u, behind_used);
    lemma_mib_read(used, field(line));
    let spaced_total = seq![' '] + t;
    let spaced_version = seq![' '] + version;
    assert(behind_used =~= spaced_total + seq![','] + spaced_version);
    assert forall|k: int| 0 <= k < spaced_total.len() implies spaced_total[k] != ',' by {
        if k > 0 {
            assert(spaced_total[k] == t[k - 1]);
        }
    }
    lemma_first_field(spaced_total, spaced_version);
    lemma_mib_read(total, field(behind_used));
    assert forall|k: int| 0 <= k < spaced_version.len() implies spaced_version[k] != ',' by {
        if k > 0 {
            assert(spaced_version[k] == version[k - 1]);
        }
    }
    lemma_first_field(spaced_version, seq![]);
    lemma_trim_around(version);
    assert(version_field(spaced_version) == Some(version));
    assert(version_after(behind_used) == Some(version));
    assert(opt_reading(r) is Some);
}

/// Without a version the two figures are read just so.
pub proof fn law_memory_without_version(
    used: nat,
    total: nat,
    rest: Seq<char>,
    stdout: &[u8],
    r: Option<NvidiaSmiResult>,
)
    requires
        call_ensures(query, (Some(stdout),), r),
        used * 1_048_576 <= u64::MAX,
        total * 1_048_576 <= u64::MAX,
        utf8_text(stdout@) == (decimal(used) + field_gap() + decimal(total)).push('\n') + rest,
    ensures
        r matches Some(m) && m.used_bytes == used * 1_048_576 && m.total_bytes == total * 1_048_576
            && m.driver_version is None,
{
    let u = decimal(used);
    let t = decimal(total);
    let line = u + field_gap() + t;
    lemma_number_is_plain(used);
    lemma_number_is_plain(total);
    assert(line.last() == t.last());
    assert(line[0] == u[0]);
    assert forall|k: int| 0 <= k < line.len() implies line[k] != '\n' by {
        if k < u.len() {
            assert(line[k] == u[k]);
        } else if u.len() + 2 <= k {
            assert(line[k] == t[k - u.len() - 2]);
        }
    }
    assert(is_space('\r'));
    law_first_line(line, rest);
    lemma_trim_around(line);
    let spaced_total = seq![' '] + t;
    assert(line =~= u + seq![','] + spaced_total);
    lemma_first_field(u, spaced_total);
    lemma_mib_read(used, field(line));
    assert forall|k: int| 0 <= k < spaced_total.len() implies spaced_total[k] != ',' by {
        if k > 0 {
            assert(spaced_total[k] == t[k - 1]);
        }
    }
    lemma_first_field(spaced_total, seq![]);
    lemma_mib_read(total, field(spaced_total));
    assert(opt_reading(r) is Some);
}

/// A program that could not be run or failed says nothing, neither of the device nor of
/// its processes.
pub proof fn law_failed_program_says_nothing(
    r: Option<NvidiaSmiResult>,
    p: Option<Vec<ComputeApp>>,
)
    requires
        call_ensures(query, (None,), r),
        call_ensures(query_compute_apps, (None,), p),
    ensures
        r is None,
        p is None,
{
}

/// The line of a process: its ID, its name and its memory in MiB.
pub open spec fn app_line(pid: nat, name: Seq<char>, mib: nat) -> Seq<char> {
    decimal(pid) + field_gap() + name + field_gap() + decimal(mib)
}

proof fn lemma_app_is_read(pid: nat, name: Seq<char>, mib: nat)
    requires
        pid <= u32::MAX,
        mib * 1_048_576 <= u64::MAX,
        is_tight(name),
    ensures
        app_of_line(app_line(pid, name, mib)) matches Some(a) && a.pid == pid && a.used_bytes == mib
            * 1_048_576 && a.name == (if name.len() > 0 {
            Some(name)
        } else {
            None
        }),
{
    let line = app_line(pid, name, mib);
    let p = decimal(pid);
    let m = decimal(mib);
    lemma_number_is_plain(pid);
    lemma_number_is_plain(mib);
    assert(line[0] == p[0]);
    assert(line.last() == m.last());
    lemma_trim_around(line);
    let front = p + field_gap() + name;
    let back = seq![' '] + m;
    assert(line =~= front.push(',') + back);
    assert forall|k: int| 0 <= k < back.len() implies back[k] != ',' by {
        if k > 0 {
            assert(back[k] == m[k - 1]);
        }
    }
    law_last_of(front, ',', back);
    let last = after_last(line, ',');
    assert(line.skip(last) =~= back);
    assert(line.take(last - 1) =~= front);
    lemma_mib_read(mib, back);
    let spaced_name = seq![' '] + name;
    assert(front =~= p.push(',') + spaced_name);
    law_first_of(p, ',', spaced_name);
    let first = find_first(front, ',');
    assert(front.take(first) =~= p);
    assert(front.skip(first + 1) =~= spaced_name);
    lemma_trim_around(name);
    law_decimal_round_trip(pid, u32::MAX as nat);
    assert(name_field(spaced_name) == (if name.len() > 0 {
        Some(name)
    } else {
        None::<Seq<char>>
    }));
}

/// A line of the process listing is read as what it says: the process, its name, which may
/// hold commas, and its memory in MiB.
pub proof fn law_process_line_is_read(
    pid: nat,
    name: Seq<char>,
    mib: nat,
    line: &str,
    r: Option<ComputeApp>,
)
    requires
        call_ensures(parse_compute_app_line, (line,), r),
        pid <= u32::MAX,
        mib * 1_048_576 <= u64::MAX,
        is_tight(name),
        line@ == app_line(pid, name, mib),
    ensures
        r is Some,
        r->0.pid == pid,
        r->0.used_bytes == mib * 1_048_576,
        name.len() > 0 ==> (r->0.name matches Some(n) && n@ == name),
        name.len() == 0 ==> r->0.name is None,
{
    lemma_app_is_read(pid, name, mib);
    assert(opt_app(r) is Some);
}

/// A line with fewer than two commas lists no process.
pub proof fn law_line_without_fields(a: Seq<char>, b: Seq<char>, line: &str, r: Option<ComputeApp>)
    requires
        call_ensures(parse_compute_app_line, (line,), r),
        forall|k: int| 0 <= k < a.len() ==> a[k] != ',',
        forall|k: int| 0 <= k < b.len() ==> b[k] != ',',
        is_tight(line@),
        line@ == a || line@ == a + seq![','] + b,
    ensures
        r is None,
{
    lemma_trim_around(line@);
    if line@ == a {
        law_last_of_none(a, ',');
    } else {
        assert(line@ =~= a.push(',') + b);
        law_last_of(a, ',', b);
        assert(line@.take(a.len() as int) =~= a);
        law_first_of(a, ',', seq![]);
    }
    assert(opt_app(r) is None);
}

proof fn lemma_line_is_listed(all: Seq<Seq<char>>, i: int) -> (k: int)
    requires
        0 <= i < all.len(),
        app_of_line(all[i]) is Some,
    ensures
        0 <= k < apps_of_lines(all).len(),
        apps_of_lines(all)[k] == app_of_line(all[i])->0,
    decreases all.len(),
{
    if i == all.len() - 1 {
        apps_of_lines(all).len() - 1
    } else {
        lemma_line_is_listed(all.drop_last(), i)
    }
}

/// Every line of the output that says a process, a name and a memory figure gives a
/// process with these, whatever the other lines hold.
pub proof fn law_processes_are_read(
    stdout: &[u8],
    r: Option<Vec<ComputeApp>>,
    i: int,
    pid: nat,
    name: Seq<char>,
    mib: nat,
) -> (k: int)
    requires
        call_ensures(query_compute_apps, (Some(stdout),), r),
        0 <= i < lines_of(utf8_text(stdout@)).len(),
        lines_of(utf8_text(stdout@))[i] == app_line(pid, name, mib),
        pid <= u32::MAX,
        mib * 1_048_576 <= u64::MAX,
        is_tight(name),
    ensures
        r is Some,
        0 <= k < r->0@.len(),
        r->0@[k].pid == pid,
        r->0@[k].used_bytes == mib * 1_048_576,
        name.len() > 0 ==> (r->0@[k].name matches Some(n) && n@ == name),
        name.len() == 0 ==> r->0@[k].name is None,
{
    let all = lines_of(utf8_text(stdout@));
    lemma_app_is_read(pid, name, mib);
    let k = lemma_line_is_listed(all, i);
    assert(r is Some);
    assert(app_models(r->0@)[k] == r->0@[k]@);
    k
}

proof fn lemma_app_from_line(all: Seq<Seq<char>>, k: int) -> (i: int)
    requires
        0 <= k < apps_of_lines(all).len(),
    ensures
        0 <= i < all.len(),
        app_of_line(all[i]) == Some(apps_of_lines(all)[k]),
    decreases all.len(),
{
    let init = apps_of_lines(all.drop_last());
    if k < init.len() {
        let i = lemma_app_from_line(all.drop_last(), k);
        i
    } else {
        all.len() - 1
    }
}

/// Every process of the listing is what one line says of it.
pub proof fn law_processes_come_from_lines(
    stdout: &[u8],
    r: Option<Vec<ComputeApp>>,
    k: int,
    line: &str,
    one: Option<ComputeApp>,
) -> (i: int)
    requires
        call_ensures(query_compute_apps, (Some(stdout),), r),
        r is Some,
        0 <= k < r->0@.len(),
    ensures
        0 <= i < lines_of(utf8_text(stdout@)).len(),
        call_ensures(parse_compute_app_line, (line,), one) && line@ == lines_of(
            utf8_text(stdout@),
        )[i] ==> one is Some && one->0@ == r->0@[k]@,
{
    let all = lines_of(utf8_text(stdout@));
    assert(app_models(r->0@)[k] == r->0@[k]@);
    let i = lemma_app_from_line(all, k);
    if call_ensures(parse_compute_app_line, (line,), one) && line@ == all[i] {
        assert(opt_app(one) is Some);
    }
    i
}

proof fn lemma_blank_lines(all: Seq<Seq<char>>)
    requires
        forall|i: int| 0 <= i < all.len() ==> all_space(#[trigger] all[i]),
    ensures
        apps_of_lines(all).len() == 0,
        forall|i: int| 0 <= i < all.len() ==> !holds_text(#[trigger] all[i]),
    decreases all.len(),
{
    if all.len() > 0 {
        assert forall|i: int| 0 <= i < all.drop_last().len() implies all_space(
            #[trigger] all.drop_last()[i],
        ) by {
            assert(all.drop_last()[i] == all[i]);
        }
        lemma_blank_lines(all.drop_last());
        assert forall|i: int| 0 <= i < all.len() implies !holds_text(#[trigger] all[i]) by {
            law_trimmed(all[i], seq![], seq![]);
            assert(all[i] + seq![] + seq![] =~= all[i]);
        }
        assert(trimmed(all.last()).len() == 0) by {
            assert(!holds_text(all[all.len() - 1]));
        }
    }
}

/// An output of nothing but blank lines lists no process, which is an answer.
pub proof fn law_no_processes(stdout: &[u8], r: Option<Vec<ComputeApp>>)
    requires
        call_ensures(query_compute_apps, (Some(stdout),), r),
        forall|i: int|
            0 <= i < lines_of(utf8_text(stdout@)).len() ==> all_space(
                #[trigger] lines_of(utf8_text(stdout@))[i],
            ),
    ensures
        r is Some,
        r->0@.len() == 0,
{
    let all = lines_of(utf8_text(stdout@));
    lemma_blank_lines(all);
    assert(r is Some);
    assert(app_models(r->0@).len() == 0);
}

proof fn lemma_malformed_lines(all: Seq<Seq<char>>)
    requires
        forall|i: int| 0 <= i < all.len() ==> app_of_line(#[trigger] all[i]) is None,
    ensures
        apps_of_lines(all).len() == 0,
    decreases all.len(),
{
    if all.len() > 0 {
        let init = all.drop_last();
        assert forall|i: int| 0 <= i < init.len() implies app_of_line(#[trigger] init[i]) is None by {
            assert(init[i] == all[i]);
        }
        lemma_malformed_lines(init);
        assert(app_of_line(all[all.len() - 1]) is None);
    }
}

/// An output with text of which no line lists a process is no answer.
pub proof fn law_malformed_listing(stdout: &[u8], r: Option<Vec<ComputeApp>>, i: int)
    requires
        call_ensures(query_compute_apps, (Some(stdout),), r),
        0 <= i < lines_of(utf8_text(stdout@)).len(),
        is_tight(lines_of(utf8_text(stdout@))[i]),
        lines_of(utf8_text(stdout@))[i].len() > 0,
        forall|k: int|
            0 <= k < lines_of(utf8_text(stdout@)).len() ==> app_of_line(
                #[trigger] lines_of(utf8_text(stdout@))[k],
            ) is None,
    ensures
        r is None,
{
    let all = lines_of(utf8_text(stdout@));
    lemma_malformed_lines(all);
    lemma_trim_around(all[i]);
    assert(holds_text(all[i]));
    assert(r is None);
}

} // verus!
