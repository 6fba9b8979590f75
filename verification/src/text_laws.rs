//! What the text primitives do, said of the text that goes in and the text that comes out.
use crate::number::{
    decimal, digit_value, digits_value, hex4, hex8_upper, hex_char, hex_char_upper,
    law_decimal_round_trip, parsed_unsigned, IntError,
};
use crate::text::{
    after_last, find_first, find_text, has_prefix, is_space, joined, lemma_find_first, lines_of,
    split_at_text, text_order, trimmed, trimmed_end, trimmed_start, without_cr,
};
use crate::utf::{nul_index, utf16_text};
use vstd::prelude::*;

verus! {

// ---------------------------------------------------------------------------
// Whitespace
// ---------------------------------------------------------------------------

/// Whether a text is nothing but whitespace.
pub open spec fn all_space(s: Seq<char>) -> bool {
    forall|k: int| 0 <= k < s.len() ==> is_space(#[trigger] s[k])
}

/// Whether a text neither starts nor ends with whitespace.
pub open spec fn is_tight(s: Seq<char>) -> bool {
    s.len() > 0 ==> !is_space(s[0]) && !is_space(s.last())
}

proof fn lemma_start_of(a: Seq<char>, s: Seq<char>)
    requires
        all_space(a),
        s.len() > 0 ==> !is_space(s[0]),
    ensures
        trimmed_start(a + s) == s,
    decreases a.len(),
{
    if a.len() == 0 {
        assert(a + s =~= s);
    } else {
        let t = a + s;
        assert(t[0] == a[0]);
        assert(t.drop_first() =~= a.drop_first() + s);
        assert forall|k: int| 0 <= k < a.drop_first().len() implies is_space(
            #[trigger] a.drop_first()[k],
        ) by {
            assert(a.drop_first()[k] == a[k + 1]);
        }
        lemma_start_of(a.drop_first(), s);
    }
}

proof fn lemma_end_of(s: Seq<char>, b: Seq<char>)
    requires
        all_space(b),
        s.len() > 0 ==> !is_space(s.last()),
    ensures
        trimmed_end(s + b) == s,
    decreases b.len(),
{
    if b.len() == 0 {
        assert(s + b =~= s);
    } else {
        let t = s + b;
        assert(t.last() == b.last());
        assert(t.drop_last() =~= s + b.drop_last());
        assert forall|k: int| 0 <= k < b.drop_last().len() implies is_space(
            #[trigger] b.drop_last()[k],
        ) by {
            assert(b.drop_last()[k] == b[k]);
        }
        lemma_end_of(s, b.drop_last());
    }
}

/// Trimming takes the whitespace around a text away, and nothing else.
pub proof fn law_trimmed(a: Seq<char>, s: Seq<char>, b: Seq<char>)
    requires
        all_space(a),
        is_tight(s),
        all_space(b),
    ensures
        trimmed(a + s + b) == s,
{
    if s.len() == 0 {
        assert forall|k: int| 0 <= k < (a + b).len() implies is_space(#[trigger] (a + b)[k]) by {
            if k < a.len() {
                assert((a + b)[k] == a[k]);
            } else {
                assert((a + b)[k] == b[k - a.len()]);
            }
        }
        assert(a + s + b =~= (a + b) + s);
        lemma_start_of(a + b, s);
        lemma_end_of(s, seq![]);
        assert(s + seq![] =~= s);
    } else {
        assert(a + s + b =~= a + (s + b));
        assert((s + b)[0] == s[0]);
        lemma_start_of(a, s + b);
        lemma_end_of(s, b);
    }
}

// ---------------------------------------------------------------------------
// Finding
// ---------------------------------------------------------------------------

/// A text before the first `c`, then `c`, then the rest.
pub proof fn law_first_of(a: Seq<char>, c: char, b: Seq<char>)
    requires
        forall|k: int| 0 <= k < a.len() ==> a[k] != c,
    ensures
        find_first(a.push(c) + b, c) == a.len(),
        find_first(a, c) == a.len(),
{
    let s = a.push(c) + b;
    assert forall|k: int| 0 <= k < a.len() implies s[k] != c by {
        assert(s[k] == a[k]);
    }
    lemma_find_first(s, c, a.len() as int);
    lemma_find_first(a, c, a.len() as int);
}

/// A text, then `c`, then a text without `c`: the last `c` is the one between them.
pub proof fn law_last_of(a: Seq<char>, c: char, b: Seq<char>)
    requires
        forall|k: int| 0 <= k < b.len() ==> b[k] != c,
    ensures
        after_last(a.push(c) + b, c) == a.len() + 1,
    decreases b.len(),
{
    let s = a.push(c) + b;
    if b.len() == 0 {
        assert(s =~= a.push(c));
    } else {
        assert(s.last() == b.last());
        assert(s.drop_last() =~= a.push(c) + b.drop_last());
        assert forall|k: int| 0 <= k < b.drop_last().len() implies b.drop_last()[k] != c by {
            assert(b.drop_last()[k] == b[k]);
        }
        law_last_of(a, c, b.drop_last());
    }
}

/// A text without `c` has no last `c`.
pub proof fn law_last_of_none(b: Seq<char>, c: char)
    requires
        forall|k: int| 0 <= k < b.len() ==> b[k] != c,
    ensures
        after_last(b, c) == 0,
    decreases b.len(),
{
    if b.len() > 0 {
        assert forall|k: int| 0 <= k < b.drop_last().len() implies b.drop_last()[k] != c by {
            assert(b.drop_last()[k] == b[k]);
        }
        law_last_of_none(b.drop_last(), c);
    }
}

/// Where a text is found it stands, and it stands nowhere before; where it is not found it
/// stands nowhere.
pub proof fn law_find_text(s: Seq<char>, p: Seq<char>)
    requires
        p.len() > 0,
    ensures
        match find_text(s, p) {
            Some(i) => 0 <= i && i + p.len() <= s.len() && s.subrange(i, i + p.len()) == p && (
            forall|k: int|
                0 <= k < i && k + p.len() <= s.len() ==> #[trigger] s.subrange(k, k + p.len())
                    != p),
            None => forall|k: int|
                0 <= k && k + p.len() <= s.len() ==> #[trigger] s.subrange(k, k + p.len()) != p,
        },
        split_at_text(s, p) matches Some((a, b)) ==> s == a + p + b,
        split_at_text(s, p) is None <==> find_text(s, p) is None,
    decreases s.len(),
{
    let n = p.len() as int;
    if n <= s.len() {
        assert(s.take(n) =~= s.subrange(0, n));
    }
    if has_prefix(s, p) {
        assert(s =~= s.take(0) + p + s.skip(n)) by {
            assert(s =~= s.take(n) + s.skip(n));
        }
    } else if s.len() > 0 {
        let rest = s.drop_first();
        law_find_text(rest, p);
        assert forall|k: int| 0 < k && k + n <= s.len() implies #[trigger] s.subrange(k, k + n)
            == rest.subrange(k - 1, k - 1 + n) by {
            assert(s.subrange(k, k + n) =~= rest.subrange(k - 1, k - 1 + n));
        }
        if let Some(j) = find_text(rest, p) {
            let i = j + 1;
            assert(s.subrange(i, i + n) == p);
            assert(s =~= s.take(i) + s.subrange(i, i + n) + s.skip(i + n));
        }
    }
}

/// A text is split at the first occurrence of `p`: before it stands what does not hold its
/// first character.
pub proof fn law_split_at_first(a: Seq<char>, p: Seq<char>, b: Seq<char>)
    requires
        p.len() > 0,
        forall|k: int| 0 <= k < a.len() ==> a[k] != p[0],
    ensures
        split_at_text(a + p + b, p) == Some((a, b)),
{
    let s = a + p + b;
    let n = a.len() as int;
    law_find_text(s, p);
    assert(s.subrange(n, n + p.len()) =~= p);
    let i = find_text(s, p)->0;
    if i < n {
        assert(s.subrange(i, i + p.len())[0] == s[i]);
        assert(s[i] == a[i]);
    }
    assert(i == n);
    assert(s.take(n) =~= a);
    assert(s.skip(n + p.len()) =~= b);
}

// ---------------------------------------------------------------------------
// Lines and parts
// ---------------------------------------------------------------------------

/// A line without a line feed, then a line feed, then more text: the first line is that
/// line, without a carriage return at its end, and the other lines are those of the rest.
pub proof fn law_first_line(line: Seq<char>, rest: Seq<char>)
    requires
        forall|k: int| 0 <= k < line.len() ==> line[k] != '\n',
    ensures
        lines_of(line.push('\n') + rest).len() == 1 + lines_of(rest).len(),
        lines_of(line.push('\n') + rest).skip(1) == lines_of(rest),
        line.len() > 0 && line.last() == '\r' ==> lines_of(line.push('\n') + rest)[0]
            == line.drop_last(),
        !(line.len() > 0 && line.last() == '\r') ==> lines_of(line.push('\n') + rest)[0] == line,
        line.len() > 0 ==> lines_of(line) == seq![line],
        lines_of(Seq::<char>::empty()) == Seq::<Seq<char>>::empty(),
{
    let s = line.push('\n') + rest;
    law_first_of(line, '\n', rest);
    assert(s.take(line.len() as int) =~= line);
    assert(s.skip(line.len() as int + 1) =~= rest);
    assert(lines_of(s) == seq![without_cr(line)] + lines_of(rest));
    assert(lines_of(s).skip(1) =~= lines_of(rest));
}

/// Parts joined one by one: a further part comes after the separator, at the end.
pub proof fn law_joined(parts: Seq<Seq<char>>, part: Seq<char>, sep: Seq<char>)
    ensures
        joined(seq![part], sep) == part,
        parts.len() > 0 ==> joined(parts.push(part), sep) == joined(parts, sep) + sep + part,
        joined(Seq::<Seq<char>>::empty(), sep) == Seq::<char>::empty(),
{
    assert(parts.push(part).drop_last() =~= parts);
}

/// The order of texts is that of their first difference; a text comes before every text
/// that it is the beginning of.
pub proof fn law_text_order(p: Seq<char>, a: Seq<char>, b: Seq<char>)
    ensures
        a.len() > 0 && b.len() > 0 && (a[0] as int) < b[0] as int ==> text_order(p + a, p + b) < 0,
        b.len() > 0 ==> text_order(p, p + b) < 0,
        text_order(p, p) == 0,
    decreases p.len(),
{
    if p.len() > 0 {
        assert((p + a)[0] == p[0] && (p + b)[0] == p[0]);
        assert((p + a).drop_first() =~= p.drop_first() + a);
        assert((p + b).drop_first() =~= p.drop_first() + b);
        law_text_order(p.drop_first(), a, b);
    } else {
        assert(p + a =~= a);
        assert(p + b =~= b);
    }
}

// ---------------------------------------------------------------------------
// Numbers
// ---------------------------------------------------------------------------

/// The decimal digits of a number are digits only, read back as the number, and behind the
/// digits of the number of tens stands the digit that is left.
pub proof fn law_decimal_digits(n: nat)
    ensures
        decimal(n).len() > 0,
        forall|k: int|
            0 <= k < decimal(n).len() ==> '0' as u32 <= #[trigger] decimal(n)[k] as u32 <= '9' as u32,
        n < 0x1_0000_0000_0000_0000 ==> parsed_unsigned(decimal(n), 10, u64::MAX as nat) == Ok::<
            nat,
            IntError,
        >(n),
    decreases n,
{
    if n >= 10 {
        law_decimal_digits(n / 10);
        assert forall|k: int| 0 <= k < decimal(n).len() implies '0' as u32
            <= #[trigger] decimal(n)[k] as u32 <= '9' as u32 by {
            if k < decimal(n / 10).len() {
                assert(decimal(n)[k] == decimal(n / 10)[k]);
            }
        }
    }
    if n < 0x1_0000_0000_0000_0000 {
        law_decimal_round_trip(n, u64::MAX as nat);
    }
}

proof fn lemma_too_large(n: nat, max: nat)
    requires
        n > max,
    ensures
        digits_value(decimal(n), 10, max) == Err::<nat, IntError>(IntError::TooLarge),
    decreases n,
{
    if n < 10 {
        assert(decimal(n).drop_last() =~= seq![]);
    } else {
        assert(decimal(n).drop_last() =~= decimal(n / 10));
        if n / 10 > max {
            lemma_too_large(n / 10, max);
        } else {
            law_decimal_round_trip(n / 10, max);
            law_decimal_digits(n / 10);
            assert(decimal(n / 10)[0] != '+') by {
                assert('0' as u32 <= decimal(n / 10)[0] as u32 <= '9' as u32);
            }
        }
    }
}

/// A number beyond the largest one is refused as too large.
pub proof fn law_too_large_is_refused(n: nat, max: nat)
    requires
        n > max,
    ensures
        parsed_unsigned(decimal(n), 10, max) == Err::<nat, IntError>(IntError::TooLarge),
{
    lemma_too_large(n, max);
    law_decimal_digits(n);
    assert(decimal(n)[0] != '+') by {
        assert('0' as u32 <= decimal(n)[0] as u32 <= '9' as u32);
    }
}

proof fn lemma_decimal_digit(c: char)
    requires
        digit_value(c, 10) is Some,
    ensures
        '0' as int <= c as int <= '9' as int,
{
}

proof fn lemma_only_digits(s: Seq<char>, max: nat)
    requires
        digits_value(s, 10, max) is Ok,
    ensures
        forall|k: int| 0 <= k < s.len() ==> '0' as int <= #[trigger] s[k] as int <= '9' as int,
    decreases s.len(),
{
    if s.len() > 0 {
        let init = s.drop_last();
        lemma_only_digits(init, max);
        assert forall|k: int| 0 <= k < s.len() implies '0' as int <= #[trigger] s[k] as int
            <= '9' as int by {
            if k < s.len() - 1 {
                assert(init[k] == s[k]);
                assert('0' as int <= init[k] as int <= '9' as int);
            } else {
                assert(s[k] == s.last());
                lemma_decimal_digit(s[k]);
            }
        }
    }
}

/// What is read as a decimal number is at least one character, all of them digits but for
/// a plus sign in front.
pub proof fn law_number_needs_digits(s: Seq<char>, max: nat)
    requires
        parsed_unsigned(s, 10, max) is Ok,
    ensures
        s.len() > 0,
        forall|k: int| 0 < k < s.len() ==> '0' as int <= #[trigger] s[k] as int <= '9' as int,
        s[0] != '+' ==> '0' as int <= s[0] as int <= '9' as int,
        s[0] == '+' ==> s.len() > 1,
{
    if s.len() > 1 && s[0] == '+' {
        lemma_only_digits(s.drop_first(), max);
        assert forall|k: int| 0 < k < s.len() implies '0' as int <= #[trigger] s[k] as int
            <= '9' as int by {
            let rest = s.drop_first();
            assert(rest[k - 1] == s[k]);
            assert('0' as int <= rest[k - 1] as int <= '9' as int);
        }
    } else {
        lemma_only_digits(s, max);
        assert('0' as int <= s[0] as int <= '9' as int);
    }
}

proof fn lemma_one_more_digit(s: Seq<char>, n: int, v: nat, w: nat, max: nat)
    requires
        0 <= n < s.len(),
        digits_value(s.take(n), 16, max) == Ok::<nat, IntError>(v),
        v == w / 16,
        digit_value(s[n], 16) == Some(w % 16),
        w <= max,
    ensures
        digits_value(s.take(n + 1), 16, max) == Ok::<nat, IntError>(w),
{
    assert(s.take(n + 1).drop_last() =~= s.take(n));
    assert(s.take(n + 1).last() == s[n]);
}

proof fn lemma_hex_chars()
    ensures
        forall|d: nat| d < 16 ==> digit_value(#[trigger] hex_char(d), 16) == Some(d),
        forall|d: nat| d < 16 ==> digit_value(#[trigger] hex_char_upper(d), 16) == Some(d),
{
}

/// Four hexadecimal digits read back as the number.
pub proof fn law_four_hex_digits(n: nat, max: nat)
    requires
        n < 0x1_0000,
        n <= max,
    ensures
        parsed_unsigned(hex4(n), 16, max) == Ok::<nat, IntError>(n),
{
    let s = hex4(n);
    lemma_hex_chars();
    assert(s.take(0) =~= seq![]);
    lemma_one_more_digit(s, 0, 0, n / 4096, max);
    lemma_one_more_digit(s, 1, n / 4096, n / 256, max);
    lemma_one_more_digit(s, 2, n / 256, n / 16, max);
    lemma_one_more_digit(s, 3, n / 16, n, max);
    assert(s.take(4) =~= s);
}

/// Eight hexadecimal digits read back as the number.
pub proof fn law_eight_hex_digits(n: nat, max: nat)
    requires
        n < 0x1_0000_0000,
        n <= max,
    ensures
        parsed_unsigned(hex8_upper(n), 16, max) == Ok::<nat, IntError>(n),
{
    let s = hex8_upper(n);
    lemma_hex_chars();
    assert(s.take(0) =~= seq![]);
    lemma_one_more_digit(s, 0, 0, n / 0x1000_0000, max);
    lemma_one_more_digit(s, 1, n / 0x1000_0000, n / 0x100_0000, max);
    lemma_one_more_digit(s, 2, n / 0x100_0000, n / 0x10_0000, max);
    lemma_one_more_digit(s, 3, n / 0x10_0000, n / 0x1_0000, max);
    lemma_one_more_digit(s, 4, n / 0x1_0000, n / 0x1000, max);
    lemma_one_more_digit(s, 5, n / 0x1000, n / 0x100, max);
    lemma_one_more_digit(s, 6, n / 0x100, n / 0x10, max);
    lemma_one_more_digit(s, 7, n / 0x10, n, max);
    assert(s.take(8) =~= s);
}

// ---------------------------------------------------------------------------
// UTF-16
// ---------------------------------------------------------------------------

/// Whether a UTF-16 unit is a character of its own.
pub open spec fn is_plain_unit(u: u16) -> bool {
    u < 0xD800 || u > 0xDFFF
}

/// Units that are characters of their own are decoded one by one.
pub proof fn law_utf16_plain(u: Seq<u16>)
    requires
        forall|k: int| 0 <= k < u.len() ==> is_plain_unit(#[trigger] u[k]),
    ensures
        utf16_text(u).len() == u.len(),
        forall|k: int| 0 <= k < u.len() ==> #[trigger] utf16_text(u)[k] as int == u[k],
    decreases u.len(),
{
    if u.len() > 0 {
        assert(is_plain_unit(u[0]));
        assert forall|k: int| 0 <= k < u.skip(1).len() implies is_plain_unit(
            #[trigger] u.skip(1)[k],
        ) by {
            assert(u.skip(1)[k] == u[k + 1]);
        }
        law_utf16_plain(u.skip(1));
        assert forall|k: int| 0 <= k < u.len() implies #[trigger] utf16_text(u)[k] as int
            == u[k] by {
            if k > 0 {
                assert(utf16_text(u)[k] == utf16_text(u.skip(1))[k - 1]);
                assert(u.skip(1)[k - 1] == u[k]);
            }
        }
    }
}

/// Two halves are one character; a half alone is the replacement character.
pub proof fn law_utf16_surrogates(hi: u16, lo: u16, rest: Seq<u16>)
    requires
        0xD800 <= hi <= 0xDBFF,
        0xDC00 <= lo <= 0xDFFF,
    ensures
        utf16_text(seq![hi, lo] + rest).len() == 1 + utf16_text(rest).len(),
        utf16_text(seq![hi, lo] + rest)[0] as int == 0x10000 + (hi - 0xD800) * 0x400 + (lo
            - 0xDC00),
        utf16_text(seq![hi, lo] + rest).skip(1) == utf16_text(rest),
        utf16_text(seq![lo] + rest)[0] as int == 0xFFFD,
        utf16_text(seq![lo] + rest).skip(1) == utf16_text(rest),
        utf16_text(seq![hi])[0] as int == 0xFFFD,
{
    let two = seq![hi, lo] + rest;
    assert(two[0] == hi && two[1] == lo);
    assert(two.skip(2) =~= rest);
    assert(utf16_text(two).skip(1) =~= utf16_text(rest));
    let one = seq![lo] + rest;
    assert(one[0] == lo);
    assert(one.skip(1) =~= rest);
    assert(utf16_text(one).skip(1) =~= utf16_text(rest));
}

/// The first NUL of a buffer ends it.
pub proof fn law_nul_ends(u: Seq<u16>, i: int)
    requires
        0 <= i <= u.len(),
        forall|k: int| 0 <= k < i ==> u[k] != 0,
        i < u.len() ==> u[i] == 0,
    ensures
        nul_index(u) == i,
    decreases u.len(),
{
    if i > 0 {
        assert forall|k: int| 0 <= k < i - 1 implies u.skip(1)[k] != 0 by {
            assert(u.skip(1)[k] == u[k + 1]);
        }
        if i < u.len() {
            assert(u.skip(1)[i - 1] == u[i]);
        }
        law_nul_ends(u.skip(1), i - 1);
    }
}

} // verus!
