//! Strings on the wire: the little string (a little-endian `i32` length and
//! that many bytes of UTF-8) and the call that turns bytes into a `String`.

use vstd::prelude::*;
use vstd::utf8::{decode_utf8, encode_utf8, valid_utf8};
use crate::protodef::endian::{i32_le_at, i32_le_bytes, le_read_i32, lemma_i32_le_at};
use crate::protodef::mcbe::widen;
use crate::protodef::reader::ReadError;

verus! {

/// The declared length of the little string at `off`, widened to 64 bits the
/// way `as u64` widens an `i32` (a negative length becomes a huge one).
pub open spec fn little_string_declared(s: Seq<u8>, off: int) -> int {
    let v = i32_le_at(s, off);
    if v < 0 {
        v + 0x1_0000_0000_0000_0000
    } else {
        v as int
    }
}

/// The position just past the bytes of the little string at `off`.
pub open spec fn little_string_end(s: Seq<u8>, off: int) -> int {
    off + 4 + little_string_declared(s, off)
}

/// The bytes of the little string at `off`.
pub open spec fn little_string_bytes(s: Seq<u8>, off: int) -> Seq<u8> {
    s.subrange(off + 4, little_string_end(s, off))
}

/// What reading the little string at `off` gives: `None` where the reader
/// panics (fewer than four bytes for the length, a length past the 64-bit
/// range, or bytes in range that are not UTF-8), `MissingCharacters` where
/// the string runs past `s`, else its characters and the bytes it took.
pub open spec fn little_string_at(s: Seq<u8>, off: int) -> Option<Result<(Seq<char>, int), ReadError>> {
    let end = little_string_end(s, off);
    if off < 0 || off + 4 > s.len() || end > u64::MAX {
        None
    } else if end > s.len() {
        Some(Err(ReadError::MissingCharacters(s.len() as usize, end as u64)))
    } else if !valid_utf8(little_string_bytes(s, off)) {
        None
    } else {
        Some(Ok((decode_utf8(little_string_bytes(s, off)), 4 + little_string_declared(s, off))))
    }
}

/// A string as a little string: its UTF-8 byte count as a little-endian
/// `i32`, then those bytes.
pub open spec fn little_string_encoding(x: Seq<char>) -> Seq<u8> {
    i32_le_bytes(encode_utf8(x).len() as i32) + encode_utf8(x)
}

/// Where the bytes at `off` are the little-string encoding of `x`, reading a
/// little string there gives `x` back and ends just past those bytes.
pub proof fn lemma_little_string_reads_back(s: Seq<u8>, off: int, x: Seq<char>)
    requires
        0 <= off,
        encode_utf8(x).len() <= 0x7fff_ffff,
        off + little_string_encoding(x).len() <= s.len(),
        off + little_string_encoding(x).len() <= u64::MAX,
        s.subrange(off, off + little_string_encoding(x).len()) == little_string_encoding(x),
    ensures
        little_string_end(s, off) == off + little_string_encoding(x).len(),
        little_string_at(s, off) == Some(
            Ok::<(Seq<char>, int), ReadError>((x, little_string_encoding(x).len() as int)),
        ),
{
    let e = encode_utf8(x);
    let l = e.len() as i32;
    let enc = little_string_encoding(x);
    let t = s.subrange(off, off + enc.len());
    assert(s.subrange(off, off + 4) =~= t.subrange(0, 4));
    assert(t.subrange(0, 4) =~= i32_le_bytes(l));
    lemma_i32_le_at(s, off, l);
    assert(little_string_bytes(s, off) =~= t.subrange(4, enc.len() as int));
    assert(t.subrange(4, enc.len() as int) =~= e);
    vstd::utf8::encode_utf8_valid_utf8(x);
    vstd::utf8::encode_utf8_decode_utf8(x);
}

/// `String::from_utf8`, its error dropped: `Some` exactly when the bytes are
/// valid UTF-8, holding the characters they encode.
#[verifier::external_body]
pub(crate) fn utf8_string(bytes: Vec<u8>) -> (r: Option<String>)
    ensures
        r is Some <==> valid_utf8(bytes@),
        r matches Some(s) ==> s@ == decode_utf8(bytes@),
{
    String::from_utf8(bytes).ok()
}

/// Whether reading the little string at `offset` returns rather than panics.
pub(crate) fn check_little_string(buf: &[u8], offset: u64) -> (r: bool)
    ensures
        r == little_string_at(buf@, offset as int) is Some,
{
    let len = buf.len() as u64;
    if offset > len || len - offset < 4 {
        return false;
    }
    let rest = vstd::slice::slice_subrange(buf, offset as usize, buf.len());
    let declared = widen(le_read_i32(rest));
    proof {
        assert(rest@.subrange(0, 4) =~= buf@.subrange(offset as int, offset + 4));
        assert(rest@[0] == buf@[offset as int]);
        assert(rest@[1] == buf@[offset + 1]);
        assert(rest@[2] == buf@[offset + 2]);
        assert(rest@[3] == buf@[offset + 3]);
    }
    let start = offset + 4;
    if declared > u64::MAX - start {
        return false;
    }
    let end = start + declared;
    if end > len {
        return true;
    }
    let bytes = vstd::slice::slice_to_vec(vstd::slice::slice_subrange(buf, start as usize, end as usize));
    utf8_string(bytes).is_some()
}

} // verus!
