//! Appending the wire types to a byte vector.

use vstd::prelude::*;
use vstd::utf8::encode_utf8;
use crate::protodef::codec::{push_varint, varint_encode};
use crate::protodef::endian::vec_write_i8;

verus! {

/// Writing the wire types into a growing buffer.
pub trait Write: View<V = Seq<u8>> + Sized {
    /// Appends the varint encoding of `value`; returns its size.
    fn write_var_int(&mut self, value: u64) -> (r: std::io::Result<u64>)
        ensures
            r matches Ok(n) && n == varint_encode(value as nat).len(),
            final(self)@ == old(self)@ + varint_encode(value as nat),
    ;

    /// Appends 1 for `true`, 0 for `false`.
    fn write_bool(&mut self, value: bool) -> (r: std::io::Result<()>)
        ensures
            r is Ok,
            final(self)@ == old(self)@.push(if value {
                1u8
            } else {
                0u8
            }),
    ;

    /// Appends the UTF-8 bytes of `value`, prefixed with their count as a
    /// varint; returns the number of bytes appended. (A string of nearly
    /// `u64::MAX` bytes would overflow the count; `requires` leaves it out.)
    fn write_string(&mut self, value: String) -> (r: std::io::Result<u64>)
        requires
            encode_utf8(value@).len() + 10 <= u64::MAX,
        ensures
            r matches Ok(n) && n == varint_encode(encode_utf8(value@).len()).len() + encode_utf8(
                value@,
            ).len(),
            final(self)@ == old(self)@ + varint_encode(encode_utf8(value@).len()) + encode_utf8(
                value@,
            ),
    ;
}

impl Write for Vec<u8> {
    fn write_var_int(&mut self, value: u64) -> (r: std::io::Result<u64>) {
        let n = push_varint(self, value);
        Ok(n)
    }

    fn write_bool(&mut self, value: bool) -> (r: std::io::Result<()>) {
        let _ = vec_write_i8(self, if value {
            1i8
        } else {
            0i8
        });
        Ok(())
    }

    fn write_string(&mut self, value: String) -> (r: std::io::Result<u64>) {
        let mut cursor: u64 = 0;
        let bytes = value.as_str().as_bytes();
        let len = bytes.len() as u64;
        cursor = cursor + push_varint(self, len);
        let mut tail = vstd::slice::slice_to_vec(bytes);
        self.append(&mut tail);
        Ok(cursor + len)
    }
}

} // verus!
