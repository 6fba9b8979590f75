//! Spans of time: arithmetic, rendering and the duration syntax of the command line.
use crate::number::{parse_unsigned, parsed_unsigned};
use crate::rounding::{seconds_tenths, tenths_of_seconds};
use crate::text::{chars_of, string_of, trim, trimmed};
use crate::units::{push_tenths, tenths_text};
use vstd::prelude::*;
use vstd::slice::slice_subrange;

verus! {

/// Nanoseconds in the longest span: `u64::MAX` seconds and 999 999 999 nanoseconds.
pub const MAX_NANOS: u128 = 18_446_744_073_709_551_615_999_999_999;

/// A span of time in whole nanoseconds, up to `u64::MAX` seconds.
#[derive(Debug, Clone, Copy, PartialEq, Eq, Structural)]
pub struct Duration {
    nanos: u128,
}

impl View for Duration {
    type V = nat;

    closed spec fn view(&self) -> nat {
        self.nanos as nat
    }
}

/// The whole seconds of a span.
pub open spec fn whole_secs(nanos: nat) -> nat {
    nanos / 1_000_000_000
}

/// The nanoseconds of a span beyond its whole seconds.
pub open spec fn sub_nanos(nanos: nat) -> nat {
    nanos % 1_000_000_000
}

/// Spans of the same length are the same.
pub proof fn lemma_same_span(a: Duration, b: Duration)
    requires
        a@ == b@,
    ensures
        a == b,
{
}

impl Duration {
    #[verifier::type_invariant]
    spec fn in_range(self) -> bool {
        self.nanos <= MAX_NANOS
    }

    /// The empty span.
    pub fn zero() -> (d: Duration)
        ensures
            d@ == 0,
    {
        Duration { nanos: 0 }
    }

    /// A span of whole seconds.
    pub fn from_secs(secs: u64) -> (d: Duration)
        ensures
            d@ == secs * 1_000_000_000,
    {
        Duration { nanos: secs as u128 * 1_000_000_000 }
    }

    /// A span of whole milliseconds.
    pub fn from_millis(millis: u64) -> (d: Duration)
        ensures
            d@ == millis * 1_000_000,
    {
        Duration { nanos: millis as u128 * 1_000_000 }
    }

    /// The span of `nanos` nanoseconds, or `None` where it exceeds the longest span.
    pub fn from_nanos(nanos: u128) -> (d: Option<Duration>)
        ensures
            d is Some <==> nanos <= MAX_NANOS,
            d matches Some(d) ==> d@ == nanos,
    {
        if nanos <= MAX_NANOS {
            Some(Duration { nanos })
        } else {
            None
        }
    }

    /// The span in nanoseconds.
    pub fn as_nanos(&self) -> (n: u128)
        ensures
            n == self@,
            n <= MAX_NANOS,
    {
        proof {
            use_type_invariant(self);
        }
        self.nanos
    }

    /// The whole seconds.
    pub fn as_secs(&self) -> (s: u64)
        ensures
            s == whole_secs(self@),
    {
        proof {
            use_type_invariant(self);
        }
        (self.nanos / 1_000_000_000) as u64
    }

    /// The nanoseconds beyond the whole seconds.
    pub fn subsec_nanos(&self) -> (n: u32)
        ensures
            n == sub_nanos(self@),
            n < 1_000_000_000,
    {
        (self.nanos % 1_000_000_000) as u32
    }

    /// The whole milliseconds.
    pub fn as_millis(&self) -> (m: u128)
        ensures
            m == self@ / 1_000_000,
    {
        self.nanos / 1_000_000
    }

    /// `self - other`, or the empty span where `other` is longer.
    pub fn saturating_sub(&self, other: Duration) -> (d: Duration)
        ensures
            d@ == (if self@ >= other@ {
                (self@ - other@) as nat
            } else {
                0
            }),
    {
        proof {
            use_type_invariant(self);
        }
        if self.nanos >= other.nanos {
            Duration { nanos: self.nanos - other.nanos }
        } else {
            Duration { nanos: 0 }
        }
    }

    /// Whether `self` is at least as long as `other`.
    pub fn at_least(&self, other: &Duration) -> (r: bool)
        ensures
            r == (self@ >= other@),
    {
        self.nanos >= other.nanos
    }

    /// The shorter of two spans.
    pub fn shorter(&self, other: Duration) -> (d: Duration)
        ensures
            d@ == (if self@ <= other@ {
                self@
            } else {
                other@
            }),
    {
        proof {
            use_type_invariant(self);
            use_type_invariant(&other);
        }
        if self.nanos <= other.nanos {
            *self
        } else {
            other
        }
    }
}

// ---------------------------------------------------------------------------
// Rendering
// ---------------------------------------------------------------------------

/// Whole milliseconds of a span, at most `u64::MAX`.
pub open spec fn millis_clamped(nanos: nat) -> nat {
    if nanos / 1_000_000 <= u64::MAX {
        nanos / 1_000_000
    } else {
        u64::MAX as nat
    }
}

/// Whole milliseconds of a span, at most `u64::MAX`.
pub fn duration_ms(d: Duration) -> (ms: u64)
    ensures
        ms == millis_clamped(d@),
{
    let m = d.as_millis();
    if m <= u64::MAX as u128 {
        m as u64
    } else {
        u64::MAX
    }
}

/// Seconds with one decimal, without a unit.
pub open spec fn secs_digits(nanos: nat) -> Seq<char> {
    tenths_text(seconds_tenths(whole_secs(nanos), sub_nanos(nanos)))
}

/// Append the seconds of a span with one decimal, without a unit.
pub fn push_secs_digits(out: &mut String, d: Duration)
    ensures
        final(out)@ == old(out)@ + secs_digits(d@),
{
    let t = tenths_of_seconds(d.as_secs(), d.subsec_nanos());
    push_tenths(out, t);
}

/// Seconds with one decimal: `3.8s`.
pub open spec fn secs_text(nanos: nat) -> Seq<char> {
    secs_digits(nanos).push('s')
}

/// Seconds with one decimal: `3.8s`.
pub fn format_secs(d: Duration) -> (s: String)
    ensures
        s@ == secs_text(d@),
{
    let mut s = String::new();
    push_secs_digits(&mut s, d);
    assert(s@ =~= secs_digits(d@));
    s.push('s');
    s
}

/// Time since the start of a run: `+3.8s`.
pub open spec fn elapsed_label_text(nanos: nat) -> Seq<char> {
    seq!['+'] + secs_text(nanos)
}

/// Time since the start of a run: `+3.8s`.
pub fn elapsed_label(d: Duration) -> (s: String)
    ensures
        s@ == elapsed_label_text(d@),
{
    let mut s = String::new();
    s.push('+');
    push_secs_digits(&mut s, d);
    s.push('s');
    assert(s@ =~= elapsed_label_text(d@));
    s
}

// ---------------------------------------------------------------------------
// The duration syntax
// ---------------------------------------------------------------------------

/// Whether `c` is one of the ten ASCII digits.
pub open spec fn is_digit(c: char) -> bool {
    '0' as u32 <= c as u32 <= '9' as u32
}

/// How many leading characters of `s` are ASCII digits.
pub open spec fn digit_run(s: Seq<char>) -> int
    decreases s.len(),
{
    if s.len() > 0 && is_digit(s[0]) {
        1 + digit_run(s.drop_first())
    } else {
        0
    }
}

/// What a duration text means.
pub enum DurationReading {
    /// A positive number of milliseconds.
    Millis(nat),
    /// The text does not start with a digit.
    NoDigits,
    /// The digits exceed a 64-bit number.
    NotWhole(Seq<char>),
    /// The text after the digits is no unit.
    UnknownUnit(Seq<char>),
    /// The duration is zero.
    NotPositive,
}

/// Milliseconds per unit; `None` for an unknown unit.
pub open spec fn unit_millis(unit: Seq<char>) -> Option<nat> {
    if unit == seq!['m', 's'] {
        Some(1)
    } else if unit == Seq::<char>::empty() || unit == seq!['s'] {
        Some(1_000)
    } else if unit == seq!['m'] {
        Some(60_000)
    } else if unit == seq!['h'] {
        Some(3_600_000)
    } else {
        None
    }
}

/// `a * b`, at most `u64::MAX`.
pub open spec fn product_clamped(a: nat, b: nat) -> nat {
    if a * b <= u64::MAX {
        a * b
    } else {
        u64::MAX as nat
    }
}

/// What a duration text means: digits and a unit, with whitespace around allowed; no
/// unit means seconds.
pub open spec fn duration_reading(s: Seq<char>) -> DurationReading {
    let t = trimmed(s);
    let n = digit_run(t);
    let digits = t.take(n);
    let unit = t.skip(n);
    if n == 0 {
        DurationReading::NoDigits
    } else {
        match parsed_unsigned(digits, 10, u64::MAX as nat) {
            Err(_) => DurationReading::NotWhole(digits),
            Ok(v) => match unit_millis(unit) {
                None => DurationReading::UnknownUnit(unit),
                Some(f) => if v == 0 {
                    DurationReading::NotPositive
                } else {
                    DurationReading::Millis(product_clamped(v, f))
                },
            },
        }
    }
}

/// Why a text is no duration.
#[derive(Debug)]
pub enum DurationError {
    /// The text does not start with a digit.
    NoDigits,
    /// The digits, held here, exceed a 64-bit number.
    NotWhole(String),
    /// The text after the digits, held here, is no unit.
    UnknownUnit(String),
    /// The duration is zero.
    NotPositive,
}

impl View for DurationError {
    type V = DurationReading;

    open spec fn view(&self) -> DurationReading {
        match self {
            DurationError::NoDigits => DurationReading::NoDigits,
            DurationError::NotWhole(d) => DurationReading::NotWhole(d@),
            DurationError::UnknownUnit(u) => DurationReading::UnknownUnit(u@),
            DurationError::NotPositive => DurationReading::NotPositive,
        }
    }
}

fn count_digits(s: &[char]) -> (n: usize)
    ensures
        n == digit_run(s@),
        n <= s@.len(),
{
    let mut i: usize = 0;
    assert(s@.skip(0) =~= s@);
    while i < s.len() && s[i] as u32 >= 48 && s[i] as u32 <= 57
        invariant
            i <= s.len(),
            digit_run(s@) == i + digit_run(s@.skip(i as int)),
        decreases s.len() - i,
    {
        assert(s@.skip(i as int)[0] == s@[i as int]);
        assert(s@.skip(i as int).drop_first() =~= s@.skip(i + 1));
        i += 1;
    }
    assert(i < s.len() ==> s@.skip(i as int)[0] == s@[i as int]);
    i
}

fn unit_factor(unit: &[char]) -> (f: Option<u64>)
    ensures
        f is Some <==> unit_millis(unit@) is Some,
        f matches Some(v) ==> unit_millis(unit@) == Some(v as nat) && 1 <= v <= 3_600_000,
{
    if unit.len() == 0 {
        assert(unit@ =~= Seq::empty());
        Some(1_000)
    } else if unit.len() == 1 && unit[0] == 's' {
        assert(unit@ =~= seq!['s']);
        Some(1_000)
    } else if unit.len() == 1 && unit[0] == 'm' {
        assert(unit@ =~= seq!['m']);
        Some(60_000)
    } else if unit.len() == 1 && unit[0] == 'h' {
        assert(unit@ =~= seq!['h']);
        Some(3_600_000)
    } else if unit.len() == 2 && unit[0] == 'm' && unit[1] == 's' {
        assert(unit@ =~= seq!['m', 's']);
        Some(1)
    } else {
        assert(unit@ != seq!['s'] && unit@ != seq!['m'] && unit@ != seq!['h']) by {
            assert(seq!['s'][0] == 's');
            assert(seq!['m'][0] == 'm');
            assert(seq!['h'][0] == 'h');
        }
        assert(unit@ != seq!['m', 's']) by {
            assert(seq!['m', 's'][0] == 'm');
            assert(seq!['m', 's'][1] == 's');
        }
        None
    }
}

/// Read a duration: digits followed by an optional unit (`ms`, `s`, `m`, `h`).
pub fn read_duration(s: &str) -> (r: Result<Duration, DurationError>)
    ensures
        match r {
            Ok(d) => duration_reading(s@) matches DurationReading::Millis(ms) && d@ == ms
                * 1_000_000,
            Err(e) => e@ == duration_reading(s@),
        },
{
    let all = chars_of(s);
    let t = trim(all.as_slice());
    let n = count_digits(t);
    if n == 0 {
        return Err(DurationError::NoDigits);
    }
    let digits = slice_subrange(t, 0, n);
    let unit = slice_subrange(t, n, t.len());
    assert(digits@ =~= t@.take(n as int));
    assert(unit@ =~= t@.skip(n as int));
    match parse_unsigned(digits, 10, u64::MAX) {
        Err(_) => Err(DurationError::NotWhole(string_of(digits))),
        Ok(v) => match unit_factor(unit) {
            None => Err(DurationError::UnknownUnit(string_of(unit))),
            Some(f) => {
                if v == 0 {
                    return Err(DurationError::NotPositive);
                }
                assert(v * f <= 0xffff_ffff_ffff_ffff * 3_600_000) by (nonlinear_arith)
                    requires
                        v <= 0xffff_ffff_ffff_ffff,
                        f <= 3_600_000,
                ;
                let wide: u128 = v as u128 * f as u128;
                let millis: u64 = if wide <= u64::MAX as u128 {
                    wide as u64
                } else {
                    u64::MAX
                };
                Ok(Duration::from_millis(millis))
            },
        },
    }
}

/// A string literal that denotes `s`, with quotes and escapes.
pub uninterp spec fn debug_quoted(s: Seq<char>) -> Seq<char>;

/// `<str as Debug>::fmt`, through `format!`: a pure function of the text, named
/// `debug_quoted`.
#[verifier::external_body]
pub(crate) fn debug_quote(s: &str) -> (r: String)
    ensures
        r@ == debug_quoted(s@),
{
    format!("{s:?}")
}

/// The message for a text that is no duration; `input` and `part` are the whole text
/// and the digits or the unit, quoted.
pub open spec fn duration_error_text(
    e: DurationReading,
    input: Seq<char>,
    part: Seq<char>,
) -> Seq<char> {
    "invalid duration "@ + input + match e {
        DurationReading::NoDigits =>
            ": expected digits followed by an optional unit (ms, s, m, h)"@,
        DurationReading::NotWhole(_) => ": "@ + part + " is not a whole number"@,
        DurationReading::UnknownUnit(_) => ": unknown unit "@ + part
            + " (expected ms, s, m, or h)"@,
        _ => ": must be greater than zero"@,
    }
}

/// The message for a text that is no duration, from the quoted input and the quoted
/// digits or unit.
pub fn duration_error_message(e: &DurationError, input: &str, part: &str) -> (s: String)
    ensures
        s@ == duration_error_text(e@, input@, part@),
{
    let mut s = String::from_str("invalid duration ");
    s.append(input);
    let ghost head = s@;
    match e {
        DurationError::NoDigits => {
            s.append(": expected digits followed by an optional unit (ms, s, m, h)");
        },
        DurationError::NotWhole(_) => {
            s.append(": ");
            s.append(part);
            s.append(" is not a whole number");
            assert(s@ =~= head + (": "@ + part@ + " is not a whole number"@));
        },
        DurationError::UnknownUnit(_) => {
            s.append(": unknown unit ");
            s.append(part);
            s.append(" (expected ms, s, m, or h)");
            assert(s@ =~= head + (": unknown unit "@ + part@ + " (expected ms, s, m, or h)"@));
        },
        DurationError::NotPositive => {
            s.append(": must be greater than zero");
        },
    }
    s
}

/// The part of the input that the message of an error quotes.
pub open spec fn quoted_part(e: DurationReading) -> Seq<char> {
    match e {
        DurationReading::NotWhole(d) => d,
        DurationReading::UnknownUnit(u) => u,
        _ => Seq::empty(),
    }
}

/// Read a duration: digits followed by an optional unit (`ms`, `s`, `m`, `h`), bare
/// digits meaning seconds. The error is a message for the user.
pub fn parse_duration(s: &str) -> (r: Result<Duration, String>)
    ensures
        match r {
            Ok(d) => duration_reading(s@) matches DurationReading::Millis(ms) && d@ == ms
                * 1_000_000,
            Err(m) => !(duration_reading(s@) is Millis) && m@ == duration_error_text(
                duration_reading(s@),
                debug_quoted(s@),
                debug_quoted(quoted_part(duration_reading(s@))),
            ),
        },
{
    match read_duration(s) {
        Ok(d) => Ok(d),
        Err(e) => {
            let part = match &e {
                DurationError::NotWhole(d) => d.clone(),
                DurationError::UnknownUnit(u) => u.clone(),
                DurationError::NoDigits => String::new(),
                DurationError::NotPositive => String::new(),
            };
            let input = debug_quote(s);
            let quoted = debug_quote(part.as_str());
            Err(duration_error_message(&e, input.as_str(), quoted.as_str()))
        },
    }
}

// ---------------------------------------------------------------------------
// Interruptible sleeping
// ---------------------------------------------------------------------------

/// The longest sleep, in milliseconds, between two looks at the interrupt flag.
pub const SLEEP_CHUNK_MILLIS: u64 = 200;

/// The next chunk of a sleep of which `remaining` is left: how long to sleep now and
/// what is left after that; `None` when the sleep is over or was interrupted.
pub fn next_sleep_chunk(remaining: Duration, interrupted: bool) -> (r: Option<(Duration, Duration)>)
    ensures
        r is None <==> (remaining@ == 0 || interrupted),
        r matches Some((step, rest)) ==> {
            &&& step@ == (if remaining@ <= SLEEP_CHUNK_MILLIS * 1_000_000 {
                remaining@
            } else {
                (SLEEP_CHUNK_MILLIS * 1_000_000) as nat
            })
            &&& step@ + rest@ == remaining@
            &&& step@ > 0
        },
{
    if remaining.as_nanos() == 0 || interrupted {
        return None;
    }
    let step = remaining.shorter(Duration::from_millis(SLEEP_CHUNK_MILLIS));
    let rest = remaining.saturating_sub(step);
    Some((step, rest))
}

} // verus!
