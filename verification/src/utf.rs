//! Decoding of UTF-16 and UTF-8 buffers that may be malformed.
use vstd::prelude::*;
use vstd::slice::slice_subrange;
use vstd::utf8::{decode_utf8, is_scalar, valid_utf8};

verus! {

/// `char::from_u32` accepts exactly the Unicode scalar values.
pub assume_specification[ char::from_u32 ](i: u32) -> (r: Option<char>)
    ensures
        r == (if is_scalar(i) {
            Some(i as char)
        } else {
            None
        }),
;

/// The character that stands for what cannot be decoded.
pub open spec fn replacement() -> char {
    '\u{FFFD}'
}

/// Whether a UTF-16 unit is the first half of a surrogate pair.
pub open spec fn is_high_surrogate(u: u16) -> bool {
    0xD800 <= u <= 0xDBFF
}

/// Whether a UTF-16 unit is the second half of a surrogate pair.
pub open spec fn is_low_surrogate(u: u16) -> bool {
    0xDC00 <= u <= 0xDFFF
}

/// The text of UTF-16 units: a surrogate pair is one character, a surrogate without its
/// other half is replaced.
pub open spec fn utf16_text(u: Seq<u16>) -> Seq<char>
    decreases u.len(),
{
    if u.len() == 0 {
        seq![]
    } else if is_high_surrogate(u[0]) && u.len() >= 2 && is_low_surrogate(u[1]) {
        seq![(0x10000 + (u[0] - 0xD800) * 0x400 + (u[1] - 0xDC00)) as char] + utf16_text(u.skip(2))
    } else if is_high_surrogate(u[0]) || is_low_surrogate(u[0]) {
        seq![replacement()] + utf16_text(u.skip(1))
    } else {
        seq![u[0] as char] + utf16_text(u.skip(1))
    }
}

fn scalar(v: u32) -> (c: char)
    requires
        is_scalar(v),
    ensures
        c == v as char,
{
    match char::from_u32(v) {
        Some(c) => c,
        None => '\u{FFFD}',
    }
}

/// Decode UTF-16 units, replacing unpaired surrogates.
pub fn decode_utf16(units: &[u16]) -> (s: String)
    ensures
        s@ == utf16_text(units@),
{
    let mut s = String::new();
    let mut i: usize = 0;
    assert(units@.skip(0) =~= units@);
    assert(s@ + utf16_text(units@) =~= utf16_text(units@));
    while i < units.len()
        invariant
            i <= units.len(),
            s@ + utf16_text(units@.skip(i as int)) == utf16_text(units@),
        decreases units.len() - i,
    {
        let ghost rest = units@.skip(i as int);
        let ghost before = s@;
        let a: u16 = units[i];
        assert(rest[0] == a);
        if a >= 0xD800 && a <= 0xDBFF && i + 1 < units.len() && units[i + 1] >= 0xDC00 && units[i
            + 1] <= 0xDFFF {
            let b: u16 = units[i + 1];
            assert(rest[1] == b);
            let v: u32 = 0x10000 + (a as u32 - 0xD800) * 0x400 + (b as u32 - 0xDC00);
            s.push(scalar(v));
            i += 2;
            assert(rest.skip(2) =~= units@.skip(i as int));
        } else if a >= 0xD800 && a <= 0xDFFF {
            s.push('\u{FFFD}');
            i += 1;
            assert(rest.skip(1) =~= units@.skip(i as int));
        } else {
            s.push(scalar(a as u32));
            i += 1;
            assert(rest.skip(1) =~= units@.skip(i as int));
        }
        assert(s@ + utf16_text(units@.skip(i as int)) =~= before + utf16_text(rest));
    }
    assert(utf16_text(units@.skip(i as int)) =~= seq![]);
    assert(s@ + utf16_text(units@.skip(i as int)) =~= s@);
    s
}

/// The index of the first NUL unit, or the length where there is none.
pub open spec fn nul_index(u: Seq<u16>) -> int
    decreases u.len(),
{
    if u.len() == 0 || u[0] == 0 {
        0
    } else {
        1 + nul_index(u.skip(1))
    }
}

/// The number of units before the first NUL.
pub fn units_before_nul(u: &[u16]) -> (n: usize)
    ensures
        n == nul_index(u@),
        n <= u@.len(),
        n < u@.len() ==> u@[n as int] == 0,
        forall|k: int| 0 <= k < n ==> u@[k] != 0,
{
    let mut i: usize = 0;
    assert(u@.skip(0) =~= u@);
    while i < u.len() && u[i] != 0
        invariant
            i <= u.len(),
            nul_index(u@) == i + nul_index(u@.skip(i as int)),
            forall|k: int| 0 <= k < i ==> u@[k] != 0,
        decreases u.len() - i,
    {
        assert(u@.skip(i as int)[0] == u@[i as int]);
        assert(u@.skip(i as int).skip(1) =~= u@.skip(i + 1));
        i += 1;
    }
    assert(i < u.len() ==> u@.skip(i as int)[0] == u@[i as int]);
    i
}

/// Decode a NUL-terminated UTF-16 buffer; all of it where there is no NUL.
pub fn decode_until_nul(u: &[u16]) -> (s: String)
    ensures
        s@ == utf16_text(u@.take(nul_index(u@))),
{
    let n = units_before_nul(u);
    let head = slice_subrange(u, 0, n);
    assert(head@ =~= u@.take(n as int));
    decode_utf16(head)
}

/// The text of UTF-8 bytes, with what is malformed replaced.
pub uninterp spec fn utf8_text(bytes: Seq<u8>) -> Seq<char>;

/// `String::from_utf8_lossy`: a pure function of the bytes, named `utf8_text`. Bytes that
/// are valid UTF-8 are decoded exactly.
#[verifier::external_body]
pub(crate) fn decode_utf8_lossy(bytes: &[u8]) -> (s: String)
    ensures
        s@ == utf8_text(bytes@),
        valid_utf8(bytes@) ==> s@ == decode_utf8(bytes@),
{
    String::from_utf8_lossy(bytes).into_owned()
}

/// `core::str::from_utf8`: accepts exactly valid UTF-8, and decodes it.
#[verifier::external_body]
pub(crate) fn decode_utf8_strict(bytes: &[u8]) -> (r: Option<String>)
    ensures
        r is Some <==> valid_utf8(bytes@),
        r matches Some(s) ==> s@ == decode_utf8(bytes@),
{
    match core::str::from_utf8(bytes) {
        Ok(s) => Some(s.to_owned()),
        Err(_) => None,
    }
}

/// The text of valid UTF-8 bytes.
pub open spec fn strict_text(bytes: Seq<u8>) -> Option<Seq<char>> {
    if valid_utf8(bytes) {
        Some(decode_utf8(bytes))
    } else {
        None
    }
}

} // verus!
