//! What sizes and spans read as, in figures.
use crate::forge::argument_or;
use crate::number::{decimal, digit_char, law_decimal_round_trip};
use crate::rounding::{
    law_conversion_is_near, law_round_is_nearest, law_tenths_are_near, nearest_f64,
    round_half_even, seconds_tenths,
};
use crate::text_laws::{all_space, is_tight, law_decimal_digits, law_trimmed};
use crate::time::{
    digit_run, duration_ms, duration_reading, elapsed_label, format_secs, next_sleep_chunk,
    parse_duration, secs_text, unit_millis, Duration, DurationReading,
};
use crate::units::{
    bytes_to_mib, format_delta, format_vram, mib_delta_text, mib_nearest, signed_delta, vram_text,
};
use vstd::prelude::*;

verus! {

// ---------------------------------------------------------------------------
// Sizes
// ---------------------------------------------------------------------------

/// A size in whole MiB is the nearest one: at most half a MiB away, and for sizes beyond
/// 2^53 bytes no more than another 2 KiB.
pub proof fn law_whole_mib(bytes: u64)
    ensures
        bytes < 0x20_0000_0000_0000 ==> -1_048_576 <= 2 * (mib_nearest(bytes as nat) * 1_048_576
            - bytes) <= 1_048_576,
        -1_052_672 <= 2 * (mib_nearest(bytes as nat) * 1_048_576 - bytes) <= 1_052_672,
{
    law_conversion_is_near(bytes as nat);
    law_round_is_nearest(nearest_f64(bytes as nat), 1_048_576);
}

/// A difference in whole MiB is the nearest one, with the sign of the change.
pub proof fn law_whole_mib_change(before: u64, after: u64) -> (change: int)
    ensures
        before < 0x20_0000_0000_0000 && after < 0x20_0000_0000_0000 ==> -1_048_576 <= 2 * (change
            * 1_048_576 - (after - before)) <= 1_048_576,
        -1_064_960 <= 2 * (change * 1_048_576 - (after - before)) <= 1_064_960,
        change > 0 ==> mib_delta_text(before as nat, after as nat) == seq!['+'] + decimal(
            change as nat,
        ),
        change < 0 ==> mib_delta_text(before as nat, after as nat) == seq!['-'] + decimal(
            (-change) as nat,
        ),
        change == 0 ==> mib_delta_text(before as nat, after as nat) == seq!['+'] + decimal(0)
            || mib_delta_text(before as nat, after as nat) == seq!['-'] + decimal(0),
        before < 0x20_0000_0000_0000 && after < 0x20_0000_0000_0000 ==> (mib_delta_text(
            before as nat,
            after as nat,
        )[0] == '-' <==> after < before),
{
    let b = nearest_f64(before as nat);
    let a = nearest_f64(after as nat);
    law_conversion_is_near(before as nat);
    law_conversion_is_near(after as nat);
    let gap = if a < b {
        (b - a) as nat
    } else {
        (a - b) as nat
    };
    law_conversion_is_near(gap);
    law_round_is_nearest(nearest_f64(gap), 1_048_576);
    let size = round_half_even(nearest_f64(gap), 1_048_576) as int;
    if a < b {
        -size
    } else {
        size
    }
}

/// A size for people: below 1 GiB the whole MiB that fit into it.
pub proof fn law_small_size(bytes: u64, s: String) -> (mib: nat)
    requires
        call_ensures(format_vram, (bytes,), s),
        bytes < 1_073_741_824,
    ensures
        s@ == decimal(mib) + " MiB"@,
        mib * 1_048_576 <= bytes < (mib + 1) * 1_048_576,
{
    (bytes / 1_048_576) as nat
}

/// A size for people: from 1 GiB on the nearest tenth of a GiB.
pub proof fn law_large_size(bytes: u64, s: String) -> (tenths: nat)
    requires
        call_ensures(format_vram, (bytes,), s),
        bytes >= 1_073_741_824,
    ensures
        s@ == decimal(tenths / 10).push('.').push(digit_char(tenths % 10)) + " GiB"@,
        bytes < 0x20_0000_0000_0000 ==> -1_073_741_824 <= 2 * (tenths * 1_073_741_824 - 10 * bytes)
            <= 1_073_741_824,
        -1_073_782_784 <= 2 * (tenths * 1_073_741_824 - 10 * bytes) <= 1_073_782_784,
{
    let f = nearest_f64(bytes as nat);
    law_conversion_is_near(bytes as nat);
    law_round_is_nearest(10 * f, 1_073_741_824);
    assert(s@ == vram_text(bytes as nat));
    round_half_even(10 * f, 1_073_741_824)
}

/// A change for people: its sign, and its size. No change reads `+0 B`, and so does a
/// decrease of less than 1 MiB.
pub proof fn law_change_for_people(bytes: i64, s: String)
    requires
        call_ensures(format_delta, (bytes,), s),
    ensures
        bytes > 0 ==> s@ == seq!['+'] + vram_text(bytes as nat),
        bytes <= -1_048_576 ==> s@ == seq!['-'] + vram_text((-bytes) as nat),
        -1_048_576 < bytes <= 0 ==> s@ == "+0 B"@,
{
}

/// The change from one reading to the next is exact wherever it fits.
pub proof fn law_change_is_exact(current: u64, previous: u64, d: i64)
    requires
        call_ensures(signed_delta, (current, previous), d),
        -0x8000_0000_0000_0000 <= current - previous < 0x8000_0000_0000_0000,
    ensures
        d == current - previous,
{
}

/// Whole MiB: as many as fit.
pub proof fn law_mib_fit(bytes: u64, m: u64)
    requires
        call_ensures(bytes_to_mib, (bytes,), m),
    ensures
        m * 1_048_576 <= bytes < (m + 1) * 1_048_576,
{
}

// ---------------------------------------------------------------------------
// Spans
// ---------------------------------------------------------------------------

/// The milliseconds of a unit: `ms`, `s`, `m`, `h`, and none, which means seconds.
pub open spec fn is_unit(unit: Seq<char>, millis: nat) -> bool {
    ||| unit == "ms"@ && millis == 1
    ||| (unit == "s"@ || unit == ""@) && millis == 1_000
    ||| unit == "m"@ && millis == 60_000
    ||| unit == "h"@ && millis == 3_600_000
}

proof fn lemma_units(unit: Seq<char>, millis: nat)
    requires
        is_unit(unit, millis),
    ensures
        unit_millis(unit) == Some(millis),
        unit.len() > 0 ==> !(('0' as u32) <= (unit[0] as u32) <= ('9' as u32)),
        is_tight(unit),
{
    reveal_strlit("ms");
    reveal_strlit("s");
    reveal_strlit("");
    reveal_strlit("m");
    reveal_strlit("h");
    assert("ms"@ =~= seq!['m', 's']);
    assert("s"@ =~= seq!['s']);
    assert(""@ =~= Seq::<char>::empty());
    assert("m"@ =~= seq!['m']);
    assert("h"@ =~= seq!['h']);
    let ms = seq!['m', 's'];
    let s = seq!['s'];
    let m = seq!['m'];
    let h = seq!['h'];
    assert(ms[0] == 'm' && ms[1] == 's' && ms.len() == 2);
    assert(s[0] == 's' && s.len() == 1);
    assert(m[0] == 'm' && m.len() == 1);
    assert(h[0] == 'h' && h.len() == 1);
}

proof fn lemma_digit_run(a: Seq<char>, b: Seq<char>)
    requires
        forall|k: int| 0 <= k < a.len() ==> '0' as u32 <= #[trigger] a[k] as u32 <= '9' as u32,
        b.len() > 0 ==> !(('0' as u32) <= (b[0] as u32) <= ('9' as u32)),
    ensures
        digit_run(a + b) == a.len(),
    decreases a.len(),
{
    if a.len() == 0 {
        assert(a + b =~= b);
    } else {
        assert((a + b)[0] == a[0]);
        assert((a + b).drop_first() =~= a.drop_first() + b);
        assert forall|k: int| 0 <= k < a.drop_first().len() implies '0' as u32
            <= #[trigger] a.drop_first()[k] as u32 <= '9' as u32 by {
            assert(a.drop_first()[k] == a[k + 1]);
        }
        lemma_digit_run(a.drop_first(), b);
    }
}

proof fn lemma_duration(
    before: Seq<char>,
    text: Seq<char>,
    after: Seq<char>,
    n: nat,
    unit: Seq<char>,
    millis: nat,
)
    requires
        all_space(before),
        all_space(after),
        is_unit(unit, millis),
        text == decimal(n) + unit,
        n <= u64::MAX,
    ensures
        n > 0 && n * millis <= u64::MAX ==> duration_reading(before + text + after) == DurationReading::Millis(
            n * millis,
        ),
        n * millis > u64::MAX ==> duration_reading(before + text + after) == DurationReading::Millis(
            u64::MAX as nat,
        ),
        n == 0 ==> duration_reading(before + text + after) == DurationReading::NotPositive,
{
    let d = decimal(n);
    lemma_units(unit, millis);
    law_decimal_digits(n);
    law_decimal_round_trip(n, u64::MAX as nat);
    assert(0 * millis == 0);
    assert(text[0] == d[0]);
    assert('0' as u32 <= d[0] as u32 <= '9' as u32);
    assert('0' as u32 <= d[d.len() - 1] as u32 <= '9' as u32);
    if unit.len() > 0 {
        assert(text.last() == unit.last());
    } else {
        assert(text =~= d);
    }
    law_trimmed(before, text, after);
    lemma_digit_run(d, unit);
    assert(text.take(d.len() as int) =~= d);
    assert(text.skip(d.len() as int) =~= unit);
}

/// A positive number and a unit are that many units, digits without a unit that many
/// seconds; zero is refused, and what exceeds the largest number of milliseconds is that
/// number. Whitespace around does not matter.
pub proof fn law_duration_is_read(
    before: Seq<char>,
    after: Seq<char>,
    n: nat,
    unit: Seq<char>,
    millis: nat,
    s: &str,
    r: core::result::Result<Duration, String>,
)
    requires
        call_ensures(parse_duration, (s,), r),
        is_unit(unit, millis),
        all_space(before),
        all_space(after),
        s@ == before + (decimal(n) + unit) + after,
        n <= u64::MAX,
    ensures
        n > 0 && n * millis <= u64::MAX ==> (r matches Ok(d) && d@ == n * millis * 1_000_000),
        n * millis > u64::MAX ==> (r matches Ok(d) && d@ == u64::MAX * 1_000_000),
        n == 0 ==> r is Err,
{
    lemma_duration(before, decimal(n) + unit, after, n, unit, millis);
}

/// A text that does not start with a digit is no duration.
pub proof fn law_duration_needs_digits(s: &str, r: core::result::Result<Duration, String>)
    requires
        call_ensures(parse_duration, (s,), r),
        s@.len() > 0,
        !(('0' as u32) <= (s@[0] as u32) <= ('9' as u32)),
        is_tight(s@),
    ensures
        r is Err,
{
    law_trimmed(seq![], s@, seq![]);
    assert(seq![] + s@ + seq![] =~= s@);
    assert(digit_run(s@) == 0);
}

/// A sleep goes in pieces of at most 200 milliseconds that add up to it, and ends when
/// nothing is left or an interrupt came.
pub proof fn law_sleep_in_pieces(
    remaining: Duration,
    interrupted: bool,
    r: Option<(Duration, Duration)>,
)
    requires
        call_ensures(next_sleep_chunk, (remaining, interrupted), r),
    ensures
        interrupted || remaining@ == 0 ==> r is None,
        !interrupted && remaining@ > 0 ==> r is Some,
        r is Some ==> 0 < (r->0).0@ <= 200_000_000,
        r is Some ==> (r->0).0@ + (r->0).1@ == remaining@,
        r is Some && (r->0).1@ > 0 ==> (r->0).0@ == 200_000_000,
{
}

/// Milliseconds of a span: as many as fit, up to the largest 64-bit number.
pub proof fn law_millis_fit(d: Duration, ms: u64)
    requires
        call_ensures(duration_ms, (d,), ms),
    ensures
        ms * 1_000_000 <= d@,
        ms < u64::MAX ==> d@ < (ms + 1) * 1_000_000,
{
}

/// A span reads as its seconds with one decimal, the nearest tenth; time since the start
/// has a plus sign before it.
pub proof fn law_seconds(d: Duration, s: String, label: String) -> (tenths: nat)
    requires
        call_ensures(format_secs, (d,), s),
        call_ensures(elapsed_label, (d,), label),
        d@ < 0x1_0000_0000 * 1_000_000_000,
    ensures
        s@ == decimal(tenths / 10).push('.').push(digit_char(tenths % 10)).push('s'),
        label@ == seq!['+'] + s@,
        -50_000_500 <= tenths * 100_000_000 - d@ <= 50_000_500,
{
    let secs = d@ / 1_000_000_000;
    let nanos = d@ % 1_000_000_000;
    law_tenths_are_near(secs, nanos);
    assert(secs_text(d@) == s@);
    seconds_tenths(secs, nanos)
}

// ---------------------------------------------------------------------------
// Arguments
// ---------------------------------------------------------------------------

/// A numeric argument is read as the number; without one the default stands.
pub proof fn law_argument(n: nat, text: &str, default: u64, given: u64, missing: u64)
    requires
        call_ensures(argument_or, (Some(text), default), given),
        call_ensures(argument_or, (None, default), missing),
        n <= u64::MAX,
        text@ == decimal(n),
    ensures
        given == n,
        missing == default,
{
    law_decimal_round_trip(n, u64::MAX as nat);
}

} // verus!
