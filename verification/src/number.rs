//! Integers as text: decimal and hexadecimal digits, and integer parsing.
use vstd::prelude::*;
use vstd::slice::slice_subrange;

verus! {

/// The character of a decimal digit.
pub open spec fn digit_char(d: nat) -> char {
    ('0' as nat + d) as char
}

/// The decimal digits of `n`, without leading zeros.
pub open spec fn decimal(n: nat) -> Seq<char>
    decreases n,
{
    if n < 10 {
        seq![digit_char(n)]
    } else {
        decimal(n / 10).push(digit_char(n % 10))
    }
}

/// Only zero starts with the digit 0.
pub proof fn lemma_no_leading_zero(n: nat)
    ensures
        decimal(n).len() > 0,
        n > 0 ==> decimal(n)[0] != '0',
    decreases n,
{
    if n >= 10 {
        lemma_no_leading_zero(n / 10);
    }
}

/// The decimal digits of `n`, after a minus sign where `n` is negative.
pub open spec fn signed_decimal(n: int) -> Seq<char> {
    if n < 0 {
        seq!['-'] + decimal((-n) as nat)
    } else {
        decimal(n as nat)
    }
}

/// Append the decimal digits of `n`.
pub fn push_decimal(out: &mut String, n: u64)
    ensures
        final(out)@ == old(out)@ + decimal(n as nat),
{
    push_decimal_wide(out, n as u128);
}

/// Append the decimal digits of a 128-bit `n`.
pub fn push_decimal_wide(out: &mut String, n: u128)
    ensures
        final(out)@ == old(out)@ + decimal(n as nat),
    decreases n,
{
    if n >= 10 {
        push_decimal_wide(out, n / 10);
    }
    let c = (48u8 + (n % 10) as u8) as char;
    out.push(c);
}

/// The decimal digits of `n`.
pub fn decimal_string(n: u64) -> (s: String)
    ensures
        s@ == decimal(n as nat),
{
    let mut s = String::new();
    push_decimal(&mut s, n);
    assert(s@ =~= decimal(n as nat));
    s
}

/// The size of an integer without its sign.
pub fn magnitude(n: i64) -> (m: u64)
    ensures
        m == (if n < 0 {
            -n
        } else {
            n as int
        }),
{
    if n >= 0 {
        n as u64
    } else if n == i64::MIN {
        0x8000_0000_0000_0000
    } else {
        (-n) as u64
    }
}

/// Append `n` in decimal, with a minus sign where it is negative.
pub fn push_signed(out: &mut String, n: i64)
    ensures
        final(out)@ == old(out)@ + signed_decimal(n as int),
{
    if n < 0 {
        out.push('-');
        push_decimal(out, magnitude(n));
        assert(out@ =~= old(out)@ + signed_decimal(n as int));
    } else {
        push_decimal(out, magnitude(n));
    }
}

/// The character of a hexadecimal digit, in lower case.
pub open spec fn hex_char(d: nat) -> char {
    if d < 10 {
        ('0' as nat + d) as char
    } else {
        ('a' as nat + (d - 10)) as char
    }
}

/// The four lowest hexadecimal digits of `n`.
pub open spec fn hex4(n: nat) -> Seq<char> {
    seq![
        hex_char(n / 4096 % 16),
        hex_char(n / 256 % 16),
        hex_char(n / 16 % 16),
        hex_char(n % 16),
    ]
}

fn hex_digit(d: u32) -> (c: char)
    requires
        d < 16,
    ensures
        c == hex_char(d as nat),
{
    if d < 10 {
        (48u8 + d as u8) as char
    } else {
        (97u8 + (d - 10) as u8) as char
    }
}

/// Append the four lowest hexadecimal digits of `n`.
pub fn push_hex4(out: &mut String, n: u32)
    ensures
        final(out)@ == old(out)@ + hex4(n as nat),
{
    out.push(hex_digit(n / 4096 % 16));
    out.push(hex_digit(n / 256 % 16));
    out.push(hex_digit(n / 16 % 16));
    out.push(hex_digit(n % 16));
    assert(out@ =~= old(out)@ + hex4(n as nat));
}

/// The character of a hexadecimal digit, in upper case.
pub open spec fn hex_char_upper(d: nat) -> char {
    if d < 10 {
        ('0' as nat + d) as char
    } else {
        ('A' as nat + (d - 10)) as char
    }
}

/// The eight hexadecimal digits of a 32-bit `n`, in upper case.
pub open spec fn hex8_upper(n: nat) -> Seq<char> {
    seq![
        hex_char_upper(n / 0x1000_0000 % 16),
        hex_char_upper(n / 0x100_0000 % 16),
        hex_char_upper(n / 0x10_0000 % 16),
        hex_char_upper(n / 0x1_0000 % 16),
        hex_char_upper(n / 0x1000 % 16),
        hex_char_upper(n / 0x100 % 16),
        hex_char_upper(n / 0x10 % 16),
        hex_char_upper(n % 16),
    ]
}

fn hex_digit_upper(d: u32) -> (c: char)
    requires
        d < 16,
    ensures
        c == hex_char_upper(d as nat),
{
    if d < 10 {
        (48u8 + d as u8) as char
    } else {
        (65u8 + (d - 10) as u8) as char
    }
}

/// Append the eight hexadecimal digits of `n`, in upper case.
pub fn push_hex8_upper(out: &mut String, n: u32)
    ensures
        final(out)@ == old(out)@ + hex8_upper(n as nat),
{
    out.push(hex_digit_upper(n / 0x1000_0000 % 16));
    out.push(hex_digit_upper(n / 0x100_0000 % 16));
    out.push(hex_digit_upper(n / 0x10_0000 % 16));
    out.push(hex_digit_upper(n / 0x1_0000 % 16));
    out.push(hex_digit_upper(n / 0x1000 % 16));
    out.push(hex_digit_upper(n / 0x100 % 16));
    out.push(hex_digit_upper(n / 0x10 % 16));
    out.push(hex_digit_upper(n % 16));
    assert(out@ =~= old(out)@ + hex8_upper(n as nat));
}

// ---------------------------------------------------------------------------
// Parsing
// ---------------------------------------------------------------------------

/// Why a text is not an integer of the wanted range.
#[derive(Debug, Clone, Copy, PartialEq, Eq, Structural)]
pub enum IntError {
    /// There is no digit at all.
    Empty,
    /// A character is not a digit.
    InvalidDigit,
    /// The digits read so far exceed the largest value.
    TooLarge,
}

/// What the error says.
pub open spec fn int_error_text(e: IntError) -> Seq<char> {
    match e {
        IntError::Empty => "cannot parse integer from empty string"@,
        IntError::InvalidDigit => "invalid digit found in string"@,
        IntError::TooLarge => "number too large to fit in target type"@,
    }
}

impl IntError {
    /// What the error says.
    pub fn message(&self) -> (s: &'static str)
        ensures
            s@ == int_error_text(*self),
    {
        match self {
            IntError::Empty => "cannot parse integer from empty string",
            IntError::InvalidDigit => "invalid digit found in string",
            IntError::TooLarge => "number too large to fit in target type",
        }
    }
}

/// The value of a digit in the given radix, up to 16; `None` for any other character.
pub open spec fn digit_value(c: char, radix: nat) -> Option<nat> {
    let u = c as nat;
    let v = if '0' as nat <= u <= '9' as nat {
        (u - '0' as nat) as nat
    } else if 'a' as nat <= u <= 'f' as nat {
        (u - 'a' as nat + 10) as nat
    } else if 'A' as nat <= u <= 'F' as nat {
        (u - 'A' as nat + 10) as nat
    } else {
        16
    };
    if v < radix {
        Some(v)
    } else {
        None
    }
}

/// The value of a sequence of digits read from the left: the first character that is
/// no digit, or the first digit that takes the value beyond `max`, ends the reading.
pub open spec fn digits_value(s: Seq<char>, radix: nat, max: nat) -> Result<nat, IntError>
    decreases s.len(),
{
    if s.len() == 0 {
        Ok(0)
    } else {
        match digits_value(s.drop_last(), radix, max) {
            Err(e) => Err(e),
            Ok(v) => match digit_value(s.last(), radix) {
                None => Err(IntError::InvalidDigit),
                Some(d) => if v * radix + d > max {
                    Err(IntError::TooLarge)
                } else {
                    Ok(v * radix + d)
                },
            },
        }
    }
}

/// An unsigned integer of at most `max`: an optional plus sign and at least one digit.
pub open spec fn parsed_unsigned(s: Seq<char>, radix: nat, max: nat) -> Result<nat, IntError> {
    if s.len() == 0 {
        Err(IntError::Empty)
    } else if s.len() > 1 && s[0] == '+' {
        digits_value(s.drop_first(), radix, max)
    } else {
        digits_value(s, radix, max)
    }
}

/// A parse result over mathematical integers.
pub open spec fn result_nat(r: Result<u64, IntError>) -> Result<nat, IntError> {
    match r {
        Ok(v) => Ok(v as nat),
        Err(e) => Err(e),
    }
}

fn digit_of(c: char, radix: u64) -> (r: Option<u64>)
    requires
        radix <= 16,
    ensures
        r == (match digit_value(c, radix as nat) {
            Some(d) => Some(d as u64),
            None => None,
        }),
        r matches Some(d) ==> d < radix,
{
    let u: u64 = c as u64;
    let v: u64 = if 48 <= u && u <= 57 {
        u - 48
    } else if 97 <= u && u <= 102 {
        u - 97 + 10
    } else if 65 <= u && u <= 70 {
        u - 65 + 10
    } else {
        16
    };
    if v < radix {
        Some(v)
    } else {
        None
    }
}

/// A failed reading stays failed, whatever follows.
proof fn lemma_digits_error_stays(s: Seq<char>, n: int, radix: nat, max: nat)
    requires
        0 <= n <= s.len(),
        digits_value(s.take(n), radix, max) is Err,
    ensures
        digits_value(s, radix, max) == digits_value(s.take(n), radix, max),
    decreases s.len() - n,
{
    if n < s.len() {
        assert(s.take(n + 1).drop_last() =~= s.take(n));
        lemma_digits_error_stays(s, n + 1, radix, max);
    } else {
        assert(s.take(n) =~= s);
    }
}

fn parse_digits(s: &[char], radix: u64, max: u64) -> (r: Result<u64, IntError>)
    requires
        radix <= 16,
    ensures
        result_nat(r) == digits_value(s@, radix as nat, max as nat),
{
    let mut v: u64 = 0;
    let mut i: usize = 0;
    while i < s.len()
        invariant
            i <= s.len(),
            radix <= 16,
            v <= max,
            digits_value(s@.take(i as int), radix as nat, max as nat) == Ok::<nat, IntError>(
                v as nat,
            ),
        decreases s.len() - i,
    {
        proof {
            assert(s@.take(i + 1).drop_last() =~= s@.take(i as int));
            assert(s@.take(i + 1).last() == s@[i as int]);
            if digits_value(s@.take(i + 1), radix as nat, max as nat) is Err {
                lemma_digits_error_stays(s@, i + 1, radix as nat, max as nat);
            }
            assert(v * radix <= 0xffff_ffff_ffff_ffff * 16) by (nonlinear_arith)
                requires
                    v <= 0xffff_ffff_ffff_ffff,
                    radix <= 16,
            ;
        }
        match digit_of(s[i], radix) {
            None => {
                return Err(IntError::InvalidDigit);
            },
            Some(d) => {
                assert(v as u128 * radix as u128 == v * radix);
                let next: u128 = (v as u128) * (radix as u128) + d as u128;
                if next > max as u128 {
                    return Err(IntError::TooLarge);
                }
                v = next as u64;
            },
        }
        i += 1;
    }
    assert(s@.take(s@.len() as int) =~= s@);
    Ok(v)
}

/// Parse an unsigned integer of at most `max`: an optional plus sign and digits.
pub fn parse_unsigned(s: &[char], radix: u64, max: u64) -> (r: Result<u64, IntError>)
    requires
        radix <= 16,
    ensures
        result_nat(r) == parsed_unsigned(s@, radix as nat, max as nat),
        r matches Ok(v) ==> v <= max,
{
    if s.len() == 0 {
        return Err(IntError::Empty);
    }
    proof {
        lemma_digits_bounded(s@, radix as nat, max as nat);
        lemma_digits_bounded(s@.drop_first(), radix as nat, max as nat);
    }
    if s.len() > 1 && s[0] == '+' {
        let body = slice_subrange(s, 1, s.len());
        assert(body@ =~= s@.drop_first());
        parse_digits(body, radix, max)
    } else {
        parse_digits(s, radix, max)
    }
}

proof fn lemma_digits_bounded(s: Seq<char>, radix: nat, max: nat)
    ensures
        digits_value(s, radix, max) matches Ok(v) ==> v <= max,
{
}

proof fn lemma_decimal_reads_back(n: nat, max: nat)
    requires
        n <= max,
    ensures
        digits_value(decimal(n), 10, max) == Ok::<nat, IntError>(n),
        decimal(n).len() > 0,
        decimal(n)[0] != '+',
    decreases n,
{
    reveal_with_fuel(digits_value, 2);
    if n < 10 {
        assert(decimal(n).drop_last() =~= seq![]);
    } else {
        lemma_decimal_reads_back(n / 10, max);
        assert(decimal(n).drop_last() =~= decimal(n / 10));
        assert(decimal(n)[0] == decimal(n / 10)[0]);
    }
}

/// Reading back the decimal digits of a number gives that number.
pub proof fn law_decimal_round_trip(n: nat, max: nat)
    requires
        n <= max,
    ensures
        parsed_unsigned(decimal(n), 10, max) == Ok::<nat, IntError>(n),
{
    lemma_decimal_reads_back(n, max);
}

} // verus!
