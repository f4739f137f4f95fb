//! Readers that take a slice and an offset and return the value read with
//! the number of bytes it took. They panic on what they cannot read; their
//! `requires` leave those inputs out.

use vstd::prelude::*;
use crate::protodef::codec::{scan_varint, varint_at, varint_overlong};
use crate::protodef::endian::{be_read_i32, i32_be_at, i32_le_at, le_read_i32};

verus! {

/// The big-endian `i32` at `offset`, and its size, 4.
pub fn read_i32(buf: &[u8], offset: u64) -> (r: std::io::Result<(i32, u64)>)
    requires
        offset + 4 <= buf@.len(),
    ensures
        r matches Ok(p) && p == (i32_be_at(buf@, offset as int), 4u64),
{
    let rest = vstd::slice::slice_subrange(buf, offset as usize, buf.len());
    let values: i32 = be_read_i32(rest);
    Ok((values, 4))
}

/// The little-endian `i32` at `offset`, and its size, 4.
pub fn read_li32(buf: &[u8], offset: u64) -> (r: std::io::Result<(i32, u64)>)
    requires
        offset + 4 <= buf@.len(),
    ensures
        r matches Ok(p) && p == (i32_le_at(buf@, offset as int), 4u64),
{
    let rest = vstd::slice::slice_subrange(buf, offset as usize, buf.len());
    let values: i32 = le_read_i32(rest);
    Ok((values, 4))
}

/// The varint at `offset`, and the number of bytes it took. Panics where the
/// slice ends before the varint does, and on a varint of more than ten bytes.
pub fn read_varint(buf: &[u8], offset: u64) -> (r: std::io::Result<(u64, u64)>)
    requires
        varint_at(buf@, offset as int) is Some,
        !varint_overlong(buf@, offset as int),
    ensures
        r matches Ok(p) && Some(p) == varint_at(buf@, offset as int),
{
    proof {
        crate::protodef::codec::lemma_varint_end_bounds(buf@, offset as int);
    }
    match scan_varint(buf, offset) {
        Some(p) => Ok(p),
        None => {
            proof {
                assert(false);
            }
            Ok((0, 0))
        },
    }
}

} // verus!
