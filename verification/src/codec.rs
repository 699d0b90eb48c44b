//! Byte-level building blocks of the canonical binary layout.
//!
//! The layout rules, fixed so that two independently built peers agree
//! byte-for-byte without negotiating an encoding:
//! - integers are fixed-width and big-endian;
//! - text fields are a 2-byte big-endian byte-length prefix followed by the
//!   raw UTF-8 bytes; a non-UTF-8 body is rejected;
//! - variable-length byte payloads use the same length-prefix-then-bytes
//!   convention;
//! - enum variants are tagged by a 1-byte discriminant in declaration order.
//!
//! Every parsing function here is the exact partial inverse of the matching
//! encoding function: `lemma_parse_*_at` proves that each parser accepts an
//! embedded encoding, `lemma_parse_*_sound` that whatever a parser accepts
//! is such an encoding, and `lemma_parse_*_truncated` that cutting the
//! input short never changes an accepted value, only turns it into a
//! rejection.

use vstd::prelude::*;
use vstd::slice::{slice_subrange, slice_to_vec};
use vstd::utf8::{decode_utf8, encode_utf8, valid_utf8};

verus! {

broadcast use vstd::utf8::encode_utf8_valid_utf8, vstd::utf8::encode_utf8_decode_utf8,
    vstd::utf8::decode_utf8_encode_utf8;

/// Largest byte count that a 2-byte length prefix can carry.
pub const MAX_FIELD_LEN: usize = 0xFFFF;

/// The 2-byte big-endian encoding of an integer.
pub open spec fn be16(n: u16) -> Seq<u8> {
    seq![(n / 256) as u8, (n % 256) as u8]
}

/// The encoding of a variable-length byte payload: a 2-byte big-endian
/// length prefix followed by the bytes themselves.
pub open spec fn bytes_field(d: Seq<u8>) -> Seq<u8>
    recommends
        bytes_field_fits(d),
{
    be16(d.len() as u16) + d
}

/// Whether a byte payload is small enough for its length prefix.
pub open spec fn bytes_field_fits(d: Seq<u8>) -> bool {
    d.len() <= MAX_FIELD_LEN
}

/// The encoding of a text field: the length-prefixed UTF-8 bytes of the text.
pub open spec fn text_field(s: Seq<char>) -> Seq<u8>
    recommends
        text_field_fits(s),
{
    bytes_field(encode_utf8(s))
}

/// Whether a text is small enough, in UTF-8 bytes, for its length prefix.
pub open spec fn text_field_fits(s: Seq<char>) -> bool {
    encode_utf8(s).len() <= MAX_FIELD_LEN
}

/// Reads a 2-byte big-endian integer at position `i`; `None` when fewer
/// than 2 bytes remain. On success, returns the value and the position of
/// the first byte after it.
pub open spec fn parse_be16(b: Seq<u8>, i: int) -> Option<(u16, int)> {
    if 0 <= i && i + 2 <= b.len() {
        Some(((b[i] * 256 + b[i + 1]) as u16, i + 2))
    } else {
        None
    }
}

/// Reads a length-prefixed byte payload at position `i`; `None` when the
/// prefix or the announced bytes run past the end of the input.
pub open spec fn parse_bytes_field(b: Seq<u8>, i: int) -> Option<(Seq<u8>, int)> {
    match parse_be16(b, i) {
        Some((n, j)) => if j + n <= b.len() {
            Some((b.subrange(j, j + n), j + n))
        } else {
            None
        },
        None => None,
    }
}

/// Reads a length-prefixed text field at position `i`; `None` when the
/// payload is missing or is not valid UTF-8.
pub open spec fn parse_text_field(b: Seq<u8>, i: int) -> Option<(Seq<char>, int)> {
    match parse_bytes_field(b, i) {
        Some((d, j)) => if valid_utf8(d) {
            Some((decode_utf8(d), j))
        } else {
            None
        },
        None => None,
    }
}

/// A 2-byte big-endian prefix embedded in a larger input parses to the
/// integer it encodes.
pub proof fn lemma_parse_be16_at(b: Seq<u8>, i: int, n: u16)
    requires
        0 <= i,
        i + 2 <= b.len(),
        b.subrange(i, i + 2) == be16(n),
    ensures
        parse_be16(b, i) == Some((n, i + 2)),
{
    assert(b[i] == be16(n)[0] && b[i + 1] == be16(n)[1]) by {
        assert(b.subrange(i, i + 2)[0] == b[i]);
        assert(b.subrange(i, i + 2)[1] == b[i + 1]);
    }
    assert((n / 256) * 256 + n % 256 == n && n / 256 <= 255 && n % 256 <= 255) by (nonlinear_arith);
}

/// Whatever `parse_be16` accepts is the 2-byte big-endian encoding of the
/// value it returns.
pub proof fn lemma_parse_be16_sound(b: Seq<u8>, i: int)
    requires
        parse_be16(b, i) is Some,
    ensures
        match parse_be16(b, i) {
            Some((n, j)) => {
                &&& j == i + 2
                &&& 0 <= i && j <= b.len()
                &&& b.subrange(i, j) == be16(n)
            },
            None => true,
        },
{
    let x = b[i] as int;
    let y = b[i + 1] as int;
    let v = x * 256 + y;
    assert(0 <= v <= 65535) by (nonlinear_arith)
        requires
            0 <= x <= 255 && 0 <= y <= 255 && v == x * 256 + y,
    ;
    let n = v as u16;
    assert(v / 256 == x && v % 256 == y) by (nonlinear_arith)
        requires
            0 <= x <= 255 && 0 <= y <= 255 && v == x * 256 + y,
    ;
    assert(b.subrange(i, i + 2) =~= be16(n));
}

/// Truncating the input does not change what `parse_be16` accepts: a value
/// that still fits is parsed unchanged, and one that no longer fits is
/// rejected.
pub proof fn lemma_parse_be16_truncated(b: Seq<u8>, k: int, i: int)
    requires
        0 <= i,
        0 <= k <= b.len(),
        parse_be16(b, i) is Some,
    ensures
        match parse_be16(b, i) {
            Some((n, j)) => if j <= k {
                parse_be16(b.subrange(0, k), i) == Some((n, j))
            } else {
                parse_be16(b.subrange(0, k), i) is None
            },
            None => true,
        },
{
}

/// A length-prefixed byte payload embedded in a larger input parses to the
/// payload it encodes.
pub proof fn lemma_parse_bytes_field_at(b: Seq<u8>, i: int, d: Seq<u8>)
    requires
        0 <= i,
        bytes_field_fits(d),
        i + 2 + d.len() <= b.len(),
        b.subrange(i, i + 2 + d.len()) == bytes_field(d),
    ensures
        parse_bytes_field(b, i) == Some((d, i + 2 + d.len())),
{
    let n = d.len() as u16;
    assert(b.subrange(i, i + 2) =~= bytes_field(d).subrange(0, 2));
    assert(bytes_field(d).subrange(0, 2) =~= be16(n));
    lemma_parse_be16_at(b, i, n);
    let w = i + 2 + d.len() as int;
    assert(b.subrange(i + 2, w) =~= b.subrange(i, w).subrange(2, w - i));
    assert(bytes_field(d).subrange(2, 2 + d.len() as int) =~= d);
    assert(b.subrange(i + 2, w) == d);
}

/// Whatever `parse_bytes_field` accepts is the length-prefixed encoding of
/// the payload it returns.
pub proof fn lemma_parse_bytes_field_sound(b: Seq<u8>, i: int)
    requires
        parse_bytes_field(b, i) is Some,
    ensures
        match parse_bytes_field(b, i) {
            Some((d, j)) => {
                &&& bytes_field_fits(d)
                &&& j == i + 2 + d.len()
                &&& 0 <= i && j <= b.len()
                &&& b.subrange(i, j) == bytes_field(d)
            },
            None => true,
        },
{
    lemma_parse_be16_sound(b, i);
    let (n, j0) = parse_be16(b, i).unwrap();
    let d = b.subrange(j0, j0 + n);
    assert(b.subrange(i, j0 + n) =~= be16(n) + d);
    assert(be16(d.len() as u16) =~= be16(n));
}

/// Truncating the input does not change what `parse_bytes_field` accepts.
pub proof fn lemma_parse_bytes_field_truncated(b: Seq<u8>, k: int, i: int)
    requires
        0 <= i,
        0 <= k <= b.len(),
        parse_bytes_field(b, i) is Some,
    ensures
        match parse_bytes_field(b, i) {
            Some((d, j)) => if j <= k {
                parse_bytes_field(b.subrange(0, k), i) == Some((d, j))
            } else {
                parse_bytes_field(b.subrange(0, k), i) is None
            },
            None => true,
        },
{
    let b2 = b.subrange(0, k);
    lemma_parse_be16_truncated(b, k, i);
    let (n, j0) = parse_be16(b, i).unwrap();
    let (d, j) = parse_bytes_field(b, i).unwrap();
    if j <= k {
        assert(b2.subrange(j0, j0 + n) =~= b.subrange(j0, j0 + n));
    }
}

/// A length-prefixed text field embedded in a larger input parses to the
/// text it encodes.
pub proof fn lemma_parse_text_field_at(b: Seq<u8>, i: int, s: Seq<char>)
    requires
        0 <= i,
        text_field_fits(s),
        i + 2 + encode_utf8(s).len() <= b.len(),
        b.subrange(i, i + 2 + encode_utf8(s).len() as int) == text_field(s),
    ensures
        parse_text_field(b, i) == Some((s, i + 2 + encode_utf8(s).len())),
{
    lemma_parse_bytes_field_at(b, i, encode_utf8(s));
}

/// Whatever `parse_text_field` accepts is the length-prefixed UTF-8
/// encoding of the text it returns.
pub proof fn lemma_parse_text_field_sound(b: Seq<u8>, i: int)
    requires
        parse_text_field(b, i) is Some,
    ensures
        match parse_text_field(b, i) {
            Some((s, j)) => {
                &&& text_field_fits(s)
                &&& j == i + 2 + encode_utf8(s).len()
                &&& 0 <= i && j <= b.len()
                &&& b.subrange(i, j) == text_field(s)
            },
            None => true,
        },
{
    lemma_parse_bytes_field_sound(b, i);
}

/// Text validity: a length-prefixed field whose announced bytes are not a
/// valid UTF-8 encoding is rejected as text, however the rest of the
/// input reads.
pub proof fn lemma_text_rejects_invalid_utf8(b: Seq<u8>, i: int)
    requires
        parse_bytes_field(b, i) matches Some(p) && !valid_utf8(p.0),
    ensures
        parse_text_field(b, i) is None,
{
}

/// A length prefix is big-endian: its first byte carries the high eight
/// bits of the count and its second the low eight.
pub proof fn lemma_be16_big_endian(n: u16)
    ensures
        be16(n).len() == 2,
        be16(n)[0] == n / 256,
        be16(n)[1] == n % 256,
{
}

/// Truncating the input does not change what `parse_text_field` accepts.
pub proof fn lemma_parse_text_field_truncated(b: Seq<u8>, k: int, i: int)
    requires
        0 <= i,
        0 <= k <= b.len(),
        parse_text_field(b, i) is Some,
    ensures
        match parse_text_field(b, i) {
            Some((s, j)) => if j <= k {
                parse_text_field(b.subrange(0, k), i) == Some((s, j))
            } else {
                parse_text_field(b.subrange(0, k), i) is None
            },
            None => true,
        },
{
    lemma_parse_bytes_field_truncated(b, k, i);
}

/// Appends the 2-byte big-endian encoding of an integer.
pub(crate) fn push_be16(out: &mut Vec<u8>, n: u16)
    ensures
        final(out)@ == old(out)@ + be16(n),
{
    out.push((n / 256) as u8);
    out.push((n % 256) as u8);
    assert(out@ =~= old(out)@ + be16(n));
}

/// Appends a length-prefixed byte payload.
pub(crate) fn push_bytes_field(out: &mut Vec<u8>, d: &[u8])
    requires
        bytes_field_fits(d@),
    ensures
        final(out)@ == old(out)@ + bytes_field(d@),
{
    push_be16(out, d.len() as u16);
    out.extend_from_slice(d);
    assert(out@ =~= old(out)@ + bytes_field(d@));
}

/// Appends a length-prefixed text field; fails, leaving the output
/// untouched, exactly when the text is too long for the length prefix.
pub(crate) fn push_text_field(out: &mut Vec<u8>, s: &str) -> (ok: bool)
    ensures
        ok == text_field_fits(s@),
        ok ==> final(out)@ == old(out)@ + text_field(s@),
        !ok ==> final(out)@ == old(out)@,
{
    let d: &[u8] = s.as_bytes();
    if d.len() > MAX_FIELD_LEN {
        false
    } else {
        push_bytes_field(out, d);
        true
    }
}

/// Reads a 2-byte big-endian integer, as `parse_be16` describes.
pub(crate) fn read_be16(b: &[u8], i: usize) -> (r: Option<(u16, usize)>)
    ensures
        match r {
            Some((n, j)) => parse_be16(b@, i as int) == Some((n, j as int)),
            None => parse_be16(b@, i as int) is None,
        },
{
    if b.len() >= 2 && i <= b.len() - 2 {
        let hi = b[i];
        let lo = b[i + 1];
        let n: u16 = (hi as u16) * 256 + (lo as u16);
        Some((n, i + 2))
    } else {
        None
    }
}

/// Reads a length-prefixed byte payload, as `parse_bytes_field` describes.
pub(crate) fn read_bytes_field(b: &[u8], i: usize) -> (r: Option<(Vec<u8>, usize)>)
    ensures
        match r {
            Some((d, j)) => parse_bytes_field(b@, i as int) == Some((d@, j as int)),
            None => parse_bytes_field(b@, i as int) is None,
        },
{
    match read_be16(b, i) {
        Some((n, j)) => {
            let n = n as usize;
            if n <= b.len() - j {
                let d = slice_to_vec(slice_subrange(b, j, j + n));
                Some((d, j + n))
            } else {
                None
            }
        },
        None => None,
    }
}

/// Relies on `String::from_utf8`: it returns the string read from the given
/// bytes exactly when they are a valid UTF-8 encoding, and rejects them
/// otherwise.
#[verifier::external_body]
fn bytes_to_string(v: Vec<u8>) -> (r: Option<String>)
    ensures
        match r {
            Some(s) => valid_utf8(v@) && s@ == decode_utf8(v@),
            None => !valid_utf8(v@),
        },
{
    match String::from_utf8(v) {
        Ok(s) => Some(s),
        Err(_) => None,
    }
}

/// Reads a length-prefixed text field, as `parse_text_field` describes.
pub(crate) fn read_text_field(b: &[u8], i: usize) -> (r: Option<(String, usize)>)
    ensures
        match r {
            Some((s, j)) => parse_text_field(b@, i as int) == Some((s@, j as int)),
            None => parse_text_field(b@, i as int) is None,
        },
{
    match read_bytes_field(b, i) {
        Some((d, j)) => match bytes_to_string(d) {
            Some(s) => Some((s, j)),
            None => None,
        },
        None => None,
    }
}

} // verus!
