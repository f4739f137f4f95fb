//! Fixed-width integers on the wire, and the calls into `byteorder` that
//! read and write them.

use vstd::prelude::*;
use byteorder::{BigEndian, ByteOrder, LittleEndian, WriteBytesExt};

verus! {

#[verifier::external_type_specification]
#[verifier::external_body]
pub struct ExIoError(std::io::Error);

/// The two bytes of `v`, least significant first.
pub open spec fn u16_le_bytes(v: u16) -> Seq<u8> {
    seq![(v % 256) as u8, (v / 256) as u8]
}

/// The two bytes of `v`, most significant first.
pub open spec fn u16_be_bytes(v: u16) -> Seq<u8> {
    seq![(v / 256) as u8, (v % 256) as u8]
}

/// The four bytes of `v`, most significant first.
pub open spec fn u32_be_bytes(v: u32) -> Seq<u8> {
    seq![
        (v / 0x1000000) as u8,
        (v / 0x10000 % 256) as u8,
        (v / 0x100 % 256) as u8,
        (v % 256) as u8,
    ]
}

/// The four bytes of `v`, least significant first.
pub open spec fn u32_le_bytes(v: u32) -> Seq<u8> {
    seq![
        (v % 256) as u8,
        (v / 0x100 % 256) as u8,
        (v / 0x10000 % 256) as u8,
        (v / 0x1000000) as u8,
    ]
}

/// The two's complement bit pattern of `v`.
pub open spec fn i32_bits(v: i32) -> u32 {
    if v < 0 {
        (v + 0x1_0000_0000) as u32
    } else {
        v as u32
    }
}

/// The `i32` whose two's complement bit pattern is `u`.
pub open spec fn i32_from_bits(u: u32) -> i32 {
    if u >= 0x8000_0000 {
        (u - 0x1_0000_0000) as i32
    } else {
        u as i32
    }
}

/// The four bytes of `v` in two's complement, most significant first.
pub open spec fn i32_be_bytes(v: i32) -> Seq<u8> {
    u32_be_bytes(i32_bits(v))
}

/// The four bytes of `v` in two's complement, least significant first.
pub open spec fn i32_le_bytes(v: i32) -> Seq<u8> {
    u32_le_bytes(i32_bits(v))
}

/// The big-endian `u32` in `s[off..off + 4]`.
pub open spec fn u32_be_at(s: Seq<u8>, off: int) -> u32 {
    (s[off] * 0x1000000 + s[off + 1] * 0x10000 + s[off + 2] * 0x100 + s[off + 3]) as u32
}

/// The little-endian `u32` in `s[off..off + 4]`.
pub open spec fn u32_le_at(s: Seq<u8>, off: int) -> u32 {
    (s[off + 3] * 0x1000000 + s[off + 2] * 0x10000 + s[off + 1] * 0x100 + s[off]) as u32
}

/// The big-endian `i32` in `s[off..off + 4]`.
pub open spec fn i32_be_at(s: Seq<u8>, off: int) -> i32 {
    i32_from_bits(u32_be_at(s, off))
}

/// The little-endian `i32` in `s[off..off + 4]`.
pub open spec fn i32_le_at(s: Seq<u8>, off: int) -> i32 {
    i32_from_bits(u32_le_at(s, off))
}

/// What is written as a big-endian `i32` reads back as the same number.
pub proof fn lemma_i32_be_roundtrip(v: i32, rest: Seq<u8>)
    ensures
        i32_be_at(i32_be_bytes(v) + rest, 0) == v,
{
    let s = i32_be_bytes(v) + rest;
    let u = i32_bits(v);
    assert(s[0] == (u / 0x1000000) as u8);
    assert(s[1] == (u / 0x10000 % 256) as u8);
    assert(s[2] == (u / 0x100 % 256) as u8);
    assert(s[3] == (u % 256) as u8);
    assert(u32_be_at(s, 0) == u) by (nonlinear_arith)
        requires
            s[0] == (u / 0x1000000) as u8,
            s[1] == (u / 0x10000 % 256) as u8,
            s[2] == (u / 0x100 % 256) as u8,
            s[3] == (u % 256) as u8,
            u32_be_at(s, 0) == (s[0] * 0x1000000 + s[1] * 0x10000 + s[2] * 0x100 + s[3]) as u32,
    ;
}

/// What is written as a little-endian `i32` at `off` reads back from there
/// as the same number.
pub proof fn lemma_i32_le_at(s: Seq<u8>, off: int, v: i32)
    requires
        0 <= off,
        off + 4 <= s.len(),
        s.subrange(off, off + 4) == i32_le_bytes(v),
    ensures
        i32_le_at(s, off) == v,
{
    let u = i32_bits(v);
    let b = i32_le_bytes(v);
    assert(s[off] == b[0] && s[off + 1] == b[1] && s[off + 2] == b[2] && s[off + 3] == b[3]) by {
        assert(s[off] == s.subrange(off, off + 4)[0]);
        assert(s[off + 1] == s.subrange(off, off + 4)[1]);
        assert(s[off + 2] == s.subrange(off, off + 4)[2]);
        assert(s[off + 3] == s.subrange(off, off + 4)[3]);
    }
    assert(u32_le_at(s, off) == u) by (nonlinear_arith)
        requires
            s[off] == (u % 256) as u8,
            s[off + 1] == (u / 0x100 % 256) as u8,
            s[off + 2] == (u / 0x10000 % 256) as u8,
            s[off + 3] == (u / 0x1000000) as u8,
            u32_le_at(s, off) == (s[off + 3] * 0x1000000 + s[off + 2] * 0x10000 + s[off + 1]
                * 0x100 + s[off]) as u32,
    ;
}

/// `BigEndian::read_i32`: the first four bytes of `buf`, most significant
/// first, as a two's complement `i32`. Its source indexes `buf[..4]`, so a
/// shorter slice panics; `requires` leaves that out.
#[verifier::external_body]
pub(crate) fn be_read_i32(buf: &[u8]) -> (r: i32)
    requires
        buf@.len() >= 4,
    ensures
        r == i32_be_at(buf@, 0),
{
    BigEndian::read_i32(buf)
}

/// `LittleEndian::read_i32`: the first four bytes of `buf`, least significant
/// first, as a two's complement `i32`; panics, as above, on fewer than four.
#[verifier::external_body]
pub(crate) fn le_read_i32(buf: &[u8]) -> (r: i32)
    requires
        buf@.len() >= 4,
    ensures
        r == i32_le_at(buf@, 0),
{
    LittleEndian::read_i32(buf)
}

/// `WriteBytesExt::write_u8` on a `Vec<u8>`: it calls `write_all(&[n])`,
/// which for a vector appends the byte and does not fail.
#[verifier::external_body]
pub(crate) fn vec_write_u8(buf: &mut Vec<u8>, n: u8) -> (r: std::io::Result<()>)
    ensures
        r is Ok,
        final(buf)@ == old(buf)@.push(n),
{
    buf.write_u8(n)
}

/// `WriteBytesExt::write_i8` on a `Vec<u8>`: appends `n as u8`, as above.
#[verifier::external_body]
pub(crate) fn vec_write_i8(buf: &mut Vec<u8>, n: i8) -> (r: std::io::Result<()>)
    ensures
        r is Ok,
        final(buf)@ == old(buf)@.push(if n < 0 {
            (n + 256) as u8
        } else {
            n as u8
        }),
{
    buf.write_i8(n)
}

/// `WriteBytesExt::write_u16::<LittleEndian>` on a `Vec<u8>`: appends the two
/// bytes of `n`, least significant first.
#[verifier::external_body]
pub(crate) fn vec_write_u16_le(buf: &mut Vec<u8>, n: u16) -> (r: std::io::Result<()>)
    ensures
        r is Ok,
        final(buf)@ == old(buf)@ + u16_le_bytes(n),
{
    buf.write_u16::<LittleEndian>(n)
}

/// `WriteBytesExt::write_u16::<BigEndian>` on a `Vec<u8>`: appends the two
/// bytes of `n`, most significant first.
#[verifier::external_body]
pub(crate) fn vec_write_u16_be(buf: &mut Vec<u8>, n: u16) -> (r: std::io::Result<()>)
    ensures
        r is Ok,
        final(buf)@ == old(buf)@ + u16_be_bytes(n),
{
    buf.write_u16::<BigEndian>(n)
}

/// `WriteBytesExt::write_i32::<BigEndian>` on a `Vec<u8>`: appends the four
/// two's complement bytes of `n`, most significant first.
#[verifier::external_body]
pub(crate) fn vec_write_i32_be(buf: &mut Vec<u8>, n: i32) -> (r: std::io::Result<()>)
    ensures
        r is Ok,
        final(buf)@ == old(buf)@ + i32_be_bytes(n),
{
    buf.write_i32::<BigEndian>(n)
}

/// `WriteBytesExt::write_u32::<LittleEndian>` on a `Vec<u8>`: appends the four
/// bytes of `n`, least significant first. (`write_f32` writes the bit pattern
/// of the float this way.)
#[verifier::external_body]
pub(crate) fn vec_write_u32_le(buf: &mut Vec<u8>, n: u32) -> (r: std::io::Result<()>)
    ensures
        r is Ok,
        final(buf)@ == old(buf)@ + u32_le_bytes(n),
{
    buf.write_u32::<LittleEndian>(n)
}

} // verus!
