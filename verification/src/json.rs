//! JSON string literals.
use crate::number::{hex4, hex_char, push_hex4};
use crate::text::chars_of;
use vstd::prelude::*;

verus! {

/// The control characters: U+0000 to U+001F and U+007F to U+009F.
pub open spec fn is_control(c: char) -> bool {
    let u = c as u32;
    u <= 0x1f || 0x7f <= u <= 0x9f
}

/// How one character stands inside a JSON string literal.
pub open spec fn escaped_char(c: char) -> Seq<char> {
    if c == '"' {
        seq!['\\', '"']
    } else if c == '\\' {
        seq!['\\', '\\']
    } else if c == '\n' {
        seq!['\\', 'n']
    } else if c == '\r' {
        seq!['\\', 'r']
    } else if c == '\t' {
        seq!['\\', 't']
    } else if is_control(c) {
        seq!['\\', 'u'] + hex4(c as nat)
    } else {
        seq![c]
    }
}

/// A text inside a JSON string literal.
pub open spec fn json_escaped(s: Seq<char>) -> Seq<char>
    decreases s.len(),
{
    if s.len() == 0 {
        seq![]
    } else {
        escaped_char(s[0]) + json_escaped(s.drop_first())
    }
}

fn push_escaped(out: &mut String, c: char)
    ensures
        final(out)@ == old(out)@ + escaped_char(c),
{
    let u: u32 = c as u32;
    if c == '"' {
        out.push('\\');
        out.push('"');
    } else if c == '\\' {
        out.push('\\');
        out.push('\\');
    } else if c == '\n' {
        out.push('\\');
        out.push('n');
    } else if c == '\r' {
        out.push('\\');
        out.push('r');
    } else if c == '\t' {
        out.push('\\');
        out.push('t');
    } else if u <= 0x1f || (u >= 0x7f && u <= 0x9f) {
        out.push('\\');
        out.push('u');
        push_hex4(out, u);
    } else {
        out.push(c);
    }
    assert(out@ =~= old(out)@ + escaped_char(c));
}

/// Escape a text for use inside a JSON string literal.
pub fn json_escape(s: &str) -> (out: String)
    ensures
        out@ == json_escaped(s@),
{
    let chars = chars_of(s);
    let mut out = String::new();
    let mut i: usize = 0;
    assert(s@.skip(0) =~= s@);
    assert(out@ + json_escaped(s@) =~= json_escaped(s@));
    while i < chars.len()
        invariant
            chars@ == s@,
            i <= chars.len(),
            out@ + json_escaped(s@.skip(i as int)) == json_escaped(s@),
        decreases chars.len() - i,
    {
        let ghost before = out@;
        push_escaped(&mut out, chars[i]);
        assert(s@.skip(i as int).drop_first() =~= s@.skip(i + 1));
        assert(out@ + json_escaped(s@.skip(i + 1)) =~= before + json_escaped(s@.skip(i as int)));
        i += 1;
    }
    assert(json_escaped(s@.skip(i as int)) =~= seq![]);
    assert(out@ =~= out@ + json_escaped(s@.skip(i as int)));
    out
}

/// A JSON string literal.
pub open spec fn json_string(s: Seq<char>) -> Seq<char> {
    seq!['"'] + json_escaped(s) + seq!['"']
}

/// A JSON string literal, or `null`.
pub open spec fn json_optional(s: Option<Seq<char>>) -> Seq<char> {
    match s {
        Some(s) => json_string(s),
        None => "null"@,
    }
}

/// The JSON literal of a Boolean.
pub open spec fn json_bool(b: bool) -> Seq<char> {
    if b {
        "true"@
    } else {
        "false"@
    }
}

/// Append a JSON string literal.
pub fn push_json_string(out: &mut String, s: &str)
    ensures
        final(out)@ == old(out)@ + json_string(s@),
{
    out.push('"');
    let e = json_escape(s);
    out.append(e.as_str());
    out.push('"');
    assert(out@ =~= old(out)@ + json_string(s@));
}

/// Append a JSON string literal, or `null`.
pub fn push_json_optional(out: &mut String, s: &Option<String>)
    ensures
        final(out)@ == old(out)@ + json_optional(crate::text::opt_text(*s)),
{
    match s {
        Some(s) => push_json_string(out, s.as_str()),
        None => out.append("null"),
    }
}

/// Append the JSON literal of a Boolean.
pub fn push_json_bool(out: &mut String, b: bool)
    ensures
        final(out)@ == old(out)@ + json_bool(b),
{
    if b {
        out.append("true");
    } else {
        out.append("false");
    }
}

// ---------------------------------------------------------------------------
// Reading back
// ---------------------------------------------------------------------------

/// The value of a hexadecimal digit in either case; `None` for any other character.
pub open spec fn hex_value(c: char) -> Option<nat> {
    if '0' <= c <= '9' {
        Some((c as nat - '0' as nat) as nat)
    } else if 'a' <= c <= 'f' {
        Some((c as nat - 'a' as nat + 10) as nat)
    } else if 'A' <= c <= 'F' {
        Some((c as nat - 'A' as nat + 10) as nat)
    } else {
        None
    }
}

/// The code that a text starts with: a backslash, `u` and four hexadecimal digits.
pub open spec fn code_escape(s: Seq<char>) -> Option<nat> {
    if s.len() >= 6 && s[0] == '\\' && s[1] == 'u' {
        match (hex_value(s[2]), hex_value(s[3]), hex_value(s[4]), hex_value(s[5])) {
            (Some(a), Some(b), Some(c), Some(d)) => Some(a * 4096 + b * 256 + c * 16 + d),
            _ => None,
        }
    } else {
        None
    }
}

/// What a backslash with the given character denotes, for the eight characters that may
/// follow it alone.
pub open spec fn short_escape(c: char) -> Option<char> {
    if c == '"' || c == '\\' || c == '/' {
        Some(c)
    } else if c == 'b' {
        Some('\u{8}')
    } else if c == 'f' {
        Some('\u{c}')
    } else if c == 'n' {
        Some('\n')
    } else if c == 'r' {
        Some('\r')
    } else if c == 't' {
        Some('\t')
    } else {
        None
    }
}

/// Whether a character stands for itself in a JSON string literal.
pub open spec fn is_plain(c: char) -> bool {
    c as u32 >= 0x20 && c != '"' && c != '\\'
}

/// Whether a text may stand between the quotes of a JSON string literal: plain characters,
/// short escapes, and escapes by code.
pub open spec fn is_json_body(s: Seq<char>) -> bool
    decreases s.len(),
{
    if s.len() == 0 {
        true
    } else if s[0] == '\\' {
        ||| code_escape(s) is Some && is_json_body(s.skip(6))
        ||| s.len() >= 2 && short_escape(s[1]) is Some && is_json_body(s.skip(2))
    } else {
        is_plain(s[0]) && is_json_body(s.skip(1))
    }
}

/// Whether a code is the first half of a surrogate pair.
pub open spec fn is_high_surrogate(u: nat) -> bool {
    0xd800 <= u <= 0xdbff
}

/// Whether a code is the second half of a surrogate pair.
pub open spec fn is_low_surrogate(u: nat) -> bool {
    0xdc00 <= u <= 0xdfff
}

/// The first character that a text between the quotes denotes, and the number of
/// characters that write it; `None` where there is none, and at half a surrogate pair.
pub open spec fn first_denoted(s: Seq<char>) -> Option<(char, int)> {
    if s.len() == 0 {
        None
    } else if s[0] == '\\' {
        match code_escape(s) {
            Some(u) => if is_high_surrogate(u) {
                match code_escape(s.skip(6)) {
                    Some(l) if is_low_surrogate(l) => Some(
                        ((0x10000 + (u - 0xd800) * 0x400 + (l - 0xdc00)) as char, 12),
                    ),
                    _ => None,
                }
            } else if is_low_surrogate(u) {
                None
            } else {
                Some((u as char, 6))
            },
            None => if s.len() >= 2 {
                match short_escape(s[1]) {
                    Some(c) => Some((c, 2)),
                    None => None,
                }
            } else {
                None
            },
        }
    } else if is_plain(s[0]) {
        Some((s[0], 1))
    } else {
        None
    }
}

/// What a JSON string literal with the given text between its quotes denotes; `None`
/// where that is no literal, or denotes half a surrogate pair.
pub open spec fn json_decoded(s: Seq<char>) -> Option<Seq<char>>
    decreases s.len(),
{
    if s.len() == 0 {
        Some(seq![])
    } else {
        match first_denoted(s) {
            Some((c, n)) => match json_decoded(s.skip(n)) {
                Some(rest) => Some(seq![c] + rest),
                None => None,
            },
            None => None,
        }
    }
}

proof fn lemma_escaped_one(c: char, rest: Seq<char>)
    ensures
        first_denoted(escaped_char(c) + rest) == Some((c, escaped_char(c).len() as int)),
        (escaped_char(c) + rest).skip(escaped_char(c).len() as int) == rest,
        is_json_body(rest) ==> is_json_body(escaped_char(c) + rest),
        forall|i: int| 0 <= i < escaped_char(c).len() ==> !is_control(#[trigger] escaped_char(c)[i]),
{
    let e = escaped_char(c);
    let s = e + rest;
    assert(s.skip(e.len() as int) =~= rest);
    if c == '"' || c == '\\' || c == '\n' || c == '\r' || c == '\t' {
        assert(s[0] == '\\' && s[1] == e[1]);
    } else if is_control(c) {
        let n = c as nat;
        assert(e =~= seq!['\\', 'u'] + hex4(n));
        assert(s[0] == '\\' && s[1] == 'u');
        assert(s[2] == hex_char(n / 4096 % 16));
        assert(s[3] == hex_char(n / 256 % 16));
        assert(s[4] == hex_char(n / 16 % 16));
        assert(s[5] == hex_char(n % 16));
        assert(n / 4096 == 0 && n / 256 == 0);
        assert(code_escape(s) == Some(n));
    } else {
        assert(s[0] == c);
    }
}

/// Escaping loses nothing: the escaped text denotes the text it was made from.
pub proof fn law_json_round_trip(s: Seq<char>)
    ensures
        json_decoded(json_escaped(s)) == Some(s),
    decreases s.len(),
{
    if s.len() > 0 {
        law_json_round_trip(s.drop_first());
        lemma_escaped_one(s[0], json_escaped(s.drop_first()));
        assert(seq![s[0]] + s.drop_first() =~= s);
    } else {
        assert(s =~= seq![]);
    }
}

/// An escaped text may stand between the quotes of a JSON string literal, and holds no
/// control character.
pub proof fn law_json_escaped_is_literal_body(s: Seq<char>)
    ensures
        is_json_body(json_escaped(s)),
        forall|i: int| 0 <= i < json_escaped(s).len() ==> !is_control(#[trigger] json_escaped(s)[i]),
    decreases s.len(),
{
    if s.len() > 0 {
        let rest = json_escaped(s.drop_first());
        law_json_escaped_is_literal_body(s.drop_first());
        lemma_escaped_one(s[0], rest);
        let e = escaped_char(s[0]);
        assert forall|i: int| 0 <= i < json_escaped(s).len() implies !is_control(
            #[trigger] json_escaped(s)[i],
        ) by {
            if i < e.len() {
                assert(json_escaped(s)[i] == e[i]);
            } else {
                assert(json_escaped(s)[i] == rest[i - e.len()]);
            }
        }
    }
}

/// A truth value is the literal of its name, an absent text is null, and a text is its
/// escaped characters in quotes.
pub proof fn law_json_values(s: Seq<char>)
    ensures
        json_bool(true) == "true"@,
        json_bool(false) == "false"@,
        json_optional(None) == "null"@,
        json_optional(Some(s)) == seq!['"'] + json_escaped(s) + seq!['"'],
        json_string(s) == seq!['"'] + json_escaped(s) + seq!['"'],
{
    assert(json_string(s) =~= seq!['"'] + json_escaped(s) + seq!['"']);
}

} // verus!
