//! The little string of the Bedrock protocol.

use vstd::prelude::*;
use vstd::utf8::{decode_utf8, valid_utf8};
use crate::protodef::native_types::reader::read_li32;
use crate::protodef::strings::{
    little_string_bytes, little_string_declared, little_string_end, utf8_string,
};

verus! {

/// The little string at `offset` (a little-endian `i32` length, then that many
/// bytes of UTF-8), and the number of bytes it took. Panics where the string
/// runs past the slice, where its length does not fit the 64-bit arithmetic,
/// and where its bytes are not UTF-8; `requires` leaves those out.
pub fn little_string(buf: &[u8], offset: u64) -> (r: std::io::Result<(String, u64)>)
    requires
        offset + 4 <= buf@.len(),
        little_string_end(buf@, offset as int) <= buf@.len(),
        valid_utf8(little_string_bytes(buf@, offset as int)),
    ensures
        r matches Ok((s, size)) && s@ == decode_utf8(little_string_bytes(buf@, offset as int))
            && size == 4 + little_string_declared(buf@, offset as int),
{
    let blen = buf.len();
    let mut cursor: u64 = offset;
    let (value, size) = match read_li32(buf, offset) {
        Ok(p) => p,
        Err(e) => return Err(e),
    };
    cursor = cursor + size;
    let len: u64 = widen(value);
    let edge = cursor + len;
    let bytes = vstd::slice::slice_to_vec(
        vstd::slice::slice_subrange(buf, cursor as usize, edge as usize),
    );
    let str = match utf8_string(bytes) {
        Some(s) => s,
        None => {
            proof {
                assert(false);
            }
            String::new()
        },
    };
    Ok((str, size + len))
}

/// `value as u64`: a negative `i32` becomes `value + 2^64`.
pub(crate) fn widen(value: i32) -> (r: u64)
    ensures
        r as int == if value < 0 {
            value + 0x1_0000_0000_0000_0000
        } else {
            value as int
        },
{
    if value < 0 {
        let m: u64 = (-(value as i64)) as u64;
        u64::MAX - (m - 1)
    } else {
        value as u64
    }
}

} // verus!
