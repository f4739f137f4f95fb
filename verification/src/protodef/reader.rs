//! Reading from a byte slice at an offset, with the errors a malformed
//! packet gives.

use vstd::prelude::*;
use vstd::utf8::{decode_utf8, valid_utf8};
use crate::protodef::codec::{scan_varint, varint_at, varint_overlong};
use crate::protodef::endian::{be_read_i32, i32_be_at, i32_le_at, le_read_i32};
use crate::protodef::mcbe::widen;
use crate::protodef::strings::{
    little_string_bytes, little_string_declared, little_string_end, utf8_string,
};

verus! {

/// What a read refuses.
#[derive(Debug, PartialEq, Eq, Structural)]
pub enum ReadError {
    /// A varint ran past the end of a slice of this length.
    OutOfBounds(usize),
    /// A string ran past the end: the slice's length, and where the string
    /// would have ended.
    MissingCharacters(usize, u64),
}

/// Reading the wire types out of a byte slice.
pub trait Read: View<V = Seq<u8>> {
    /// The big-endian `i32` at `offset`.
    fn read_i32(&self, offset: u64) -> (r: i32)
        requires
            offset + 4 <= self@.len(),
        ensures
            r == i32_be_at(self@, offset as int),
    ;

    /// The little-endian `i32` at `offset`.
    fn read_li32(&self, offset: u64) -> (r: i32)
        requires
            offset + 4 <= self@.len(),
        ensures
            r == i32_le_at(self@, offset as int),
    ;

    /// The varint at `offset` and its size; `OutOfBounds` with the slice's
    /// length where the slice ends first. A varint of more than ten bytes
    /// panics, as does `offset == u64::MAX`; `requires` leaves them out.
    fn read_varint(&self, offset: u64) -> (r: Result<(u64, u64), ReadError>)
        requires
            offset < u64::MAX,
            !varint_overlong(self@, offset as int),
        ensures
            match varint_at(self@, offset as int) {
                Some(p) => r == Ok::<(u64, u64), ReadError>(p),
                None => r == Err::<(u64, u64), ReadError>(ReadError::OutOfBounds(self@.len() as usize)),
            },
    ;

    /// The little string at `offset` and its size; `MissingCharacters` where
    /// it would run past the slice. Panics where its length does not fit the
    /// 64-bit arithmetic and where its bytes are not UTF-8.
    fn read_little_string(&self, offset: u64) -> (r: Result<(String, u64), ReadError>)
        requires
            offset + 4 <= self@.len(),
            little_string_end(self@, offset as int) <= u64::MAX,
            little_string_end(self@, offset as int) <= self@.len() ==> valid_utf8(
                little_string_bytes(self@, offset as int),
            ),
        ensures
            little_string_end(self@, offset as int) > self@.len() <==> r is Err,
            r matches Err(e) ==> e == ReadError::MissingCharacters(
                self@.len() as usize,
                little_string_end(self@, offset as int) as u64,
            ),
            r matches Ok((s, size)) ==> s@ == decode_utf8(little_string_bytes(self@, offset as int))
                && size == 4 + little_string_declared(self@, offset as int),
    ;
}

impl Read for &[u8] {
    fn read_i32(&self, offset: u64) -> (r: i32) {
        let rest = vstd::slice::slice_subrange(*self, offset as usize, self.len());
        be_read_i32(rest)
    }

    fn read_li32(&self, offset: u64) -> (r: i32) {
        let rest = vstd::slice::slice_subrange(*self, offset as usize, self.len());
        le_read_i32(rest)
    }

    fn read_varint(&self, offset: u64) -> (r: Result<(u64, u64), ReadError>) {
        match scan_varint(*self, offset) {
            Some(p) => Ok(p),
            None => Err(ReadError::OutOfBounds(self.len())),
        }
    }

    fn read_little_string(&self, offset: u64) -> (r: Result<(String, u64), ReadError>) {
        let mut cursor: u64 = offset;
        let value = widen(self.read_li32(offset));
        cursor = cursor + 4;
        if cursor + value > self.len() as u64 {
            return Err(ReadError::MissingCharacters(self.len(), cursor + value));
        }
        let edge = cursor + value;
        let bytes = vstd::slice::slice_to_vec(
            vstd::slice::slice_subrange(*self, cursor as usize, edge as usize),
        );
        let str = match utf8_string(bytes) {
            Some(s) => s,
            None => {
                proof {
                    assert(false);
                }
                String::new()
            },
        };
        let size = 4 + value;
        Ok((str, size))
    }
}

} // verus!
