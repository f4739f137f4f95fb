//! Writers that append a value to a byte vector. Appending to a vector does
//! not fail, so each returns `Ok`.

use vstd::prelude::*;
use crate::protodef::codec::{push_varint, varint_encode};
use crate::protodef::endian::{u16_le_bytes, vec_write_i8, vec_write_u16_le, vec_write_u8};

verus! {

/// Appends `value`.
pub fn write_u8(value: u8, buf: &mut Vec<u8>) -> (r: std::io::Result<()>)
    ensures
        r is Ok,
        final(buf)@ == old(buf)@.push(value),
{
    let _ = vec_write_u8(buf, value);
    Ok(())
}

/// Appends the two bytes of `value`, least significant first.
pub fn write_lu16(value: u16, buf: &mut Vec<u8>) -> (r: std::io::Result<()>)
    ensures
        r is Ok,
        final(buf)@ == old(buf)@ + u16_le_bytes(value),
{
    let _ = vec_write_u16_le(buf, value);
    Ok(())
}

/// Appends the varint encoding of `value` and returns how many bytes that took.
pub fn write_var_int(value: u64, buf: &mut Vec<u8>) -> (r: std::io::Result<u64>)
    ensures
        r matches Ok(n) && n == varint_encode(value as nat).len(),
        final(buf)@ == old(buf)@ + varint_encode(value as nat),
{
    let n = push_varint(buf, value);
    Ok(n)
}

/// Appends one byte: 1 for `true`, 0 for `false`.
pub fn write_bool(value: bool, buf: &mut Vec<u8>) -> (r: std::io::Result<()>)
    ensures
        r is Ok,
        final(buf)@ == old(buf)@.push(if value {
            1u8
        } else {
            0u8
        }),
{
    let _ = vec_write_i8(buf, value as i8);
    Ok(())
}

} // verus!
