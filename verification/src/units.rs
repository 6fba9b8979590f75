//! Byte counts as text: whole MiB, GiB with one decimal, and signed differences.
use crate::number::{
    decimal, digit_char, lemma_no_leading_zero, magnitude, push_decimal, push_decimal_wide,
};
use crate::rounding::{
    div_half_even, lemma_conversion_keeps_half, nearest_f64, round_half_even, to_f64,
};
use vstd::prelude::*;

verus! {

/// Bytes in a MiB.
pub const MIB: u64 = 1_048_576;

/// Bytes in a GiB.
pub const GIB: u64 = 1_073_741_824;

/// A value held in tenths, with one digit behind the point.
pub open spec fn tenths_text(t: nat) -> Seq<char> {
    decimal(t / 10).push('.').push(digit_char(t % 10))
}

/// Append a value held in tenths.
pub fn push_tenths(out: &mut String, t: u128)
    ensures
        final(out)@ == old(out)@ + tenths_text(t as nat),
{
    push_decimal_wide(out, t / 10);
    out.push('.');
    let c = (48u8 + (t % 10) as u8) as char;
    out.push(c);
    assert(out@ =~= old(out)@ + tenths_text(t as nat));
}

/// `bytes` in whole MiB, through binary64, ties to even.
pub open spec fn mib_nearest(bytes: nat) -> nat {
    round_half_even(nearest_f64(bytes), MIB as nat)
}

/// Append `bytes` in whole MiB.
pub fn push_mib_nearest(out: &mut String, bytes: u64)
    ensures
        final(out)@ == old(out)@ + decimal(mib_nearest(bytes as nat)),
{
    let f = to_f64(bytes as u128);
    push_decimal_wide(out, div_half_even(f, MIB as u128));
}

/// The difference of two byte counts in whole MiB with its sign. Each count is converted
/// to binary64 and so is the difference; a decrease keeps its minus sign even where it
/// rounds to 0, and no change at all is `+0`.
pub open spec fn mib_delta_text(before: nat, after: nat) -> Seq<char> {
    let b = nearest_f64(before);
    let a = nearest_f64(after);
    if a < b {
        seq!['-'] + decimal(round_half_even(nearest_f64((b - a) as nat), MIB as nat))
    } else {
        seq!['+'] + decimal(round_half_even(nearest_f64((a - b) as nat), MIB as nat))
    }
}

/// Append the signed difference of two byte counts in whole MiB.
pub fn push_mib_delta(out: &mut String, before: u64, after: u64)
    ensures
        final(out)@ == old(out)@ + mib_delta_text(before as nat, after as nat),
{
    let b = to_f64(before as u128);
    let a = to_f64(after as u128);
    if a < b {
        out.push('-');
        push_decimal_wide(out, div_half_even(to_f64(b - a), MIB as u128));
    } else {
        out.push('+');
        push_decimal_wide(out, div_half_even(to_f64(a - b), MIB as u128));
    }
    assert(out@ =~= old(out)@ + mib_delta_text(before as nat, after as nat));
}

/// Whole MiB in `bytes`, rounded down.
pub fn bytes_to_mib(bytes: u64) -> (m: u64)
    ensures
        m == bytes / MIB,
{
    bytes / MIB
}

/// A byte count for people: whole MiB (rounded down) below 1 GiB, else GiB with one
/// decimal, through binary64.
pub open spec fn vram_text(bytes: nat) -> Seq<char> {
    if bytes >= GIB {
        tenths_text(round_half_even(10 * nearest_f64(bytes), GIB as nat)) + " GiB"@
    } else {
        decimal(bytes / (MIB as nat)) + " MiB"@
    }
}

/// A byte count for people: MiB below 1 GiB, else GiB with one decimal.
pub fn format_vram(bytes: u64) -> (s: String)
    ensures
        s@ == vram_text(bytes as nat),
{
    let mut s = String::new();
    if bytes >= GIB {
        let f = to_f64(bytes as u128);
        let t = div_half_even(10 * f, GIB as u128);
        push_tenths(&mut s, t);
        assert(s@ =~= tenths_text(t as nat));
        s.append(" GiB");
    } else {
        push_decimal(&mut s, bytes / MIB);
        assert(s@ =~= decimal((bytes / MIB) as nat));
        s.append(" MiB");
    }
    s
}

/// A signed byte difference for people: a sign and the size. No difference, and a decrease
/// of less than 1 MiB, is `+0 B`.
pub open spec fn delta_text(bytes: int) -> Seq<char> {
    if -MIB < bytes <= 0 {
        "+0 B"@
    } else if bytes < 0 {
        seq!['-'] + vram_text((-bytes) as nat)
    } else {
        seq!['+'] + vram_text(bytes as nat)
    }
}

/// A signed byte difference for people: `+700 MiB`, `-1.2 GiB`, `+0 B`.
pub fn format_delta(bytes: i64) -> (s: String)
    ensures
        s@ == delta_text(bytes as int),
{
    let size = magnitude(bytes);
    if bytes <= 0 && size < MIB {
        return String::from_str("+0 B");
    }
    let mut s = String::new();
    s.push(if bytes < 0 { '-' } else { '+' });
    let text = format_vram(size);
    s.append(text.as_str());
    assert(s@ =~= delta_text(bytes as int));
    s
}

/// No difference reads as minus zero: behind a minus sign stands a size of at least 1.
pub proof fn law_no_negative_zero(bytes: int)
    ensures
        !("-0"@.is_prefix_of(delta_text(bytes))),
{
    reveal_strlit("-0");
    reveal_strlit("+0 B");
    let text = delta_text(bytes);
    if bytes <= -MIB {
        let size = (-bytes) as nat;
        if size >= GIB {
            let f = nearest_f64(size);
            lemma_conversion_keeps_half(size);
            assert(f >= GIB);
            let t = round_half_even(10 * f, GIB as nat);
            assert(t >= 10);
            lemma_no_leading_zero(t / 10);
            assert(text[1] == decimal(t / 10)[0]);
        } else {
            lemma_no_leading_zero(size / (MIB as nat));
            assert(text[1] == decimal(size / (MIB as nat))[0]);
        }
        assert("-0"@[1] == '0');
    } else {
        assert(text[0] == '+');
        assert("-0"@[0] == '-');
    }
}

/// `current - previous` as a 64-bit signed integer, modulo 2^64.
pub open spec fn signed_difference(current: nat, previous: nat) -> int {
    let d = current - previous;
    if d >= 0x8000_0000_0000_0000 {
        d - 0x1_0000_0000_0000_0000
    } else if d < -0x8000_0000_0000_0000 {
        d + 0x1_0000_0000_0000_0000
    } else {
        d
    }
}

/// The signed difference `current - previous`. It is exact wherever it fits into 64
/// bits with its sign, and wraps around beyond.
pub fn signed_delta(current: u64, previous: u64) -> (d: i64)
    ensures
        d == signed_difference(current as nat, previous as nat),
{
    let wide: i128 = current as i128 - previous as i128;
    if wide >= 0x8000_0000_0000_0000 {
        (wide - 0x1_0000_0000_0000_0000) as i64
    } else if wide < -0x8000_0000_0000_0000 {
        (wide + 0x1_0000_0000_0000_0000) as i64
    } else {
        wide as i64
    }
}

} // verus!
