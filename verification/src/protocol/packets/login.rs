//! The login packet, which carries the client's identity tokens.

use vstd::prelude::*;
use vstd::utf8::encode_utf8;
use crate::protodef::codec::{
    check_varint_overlong, lemma_varint_decodes, scan_varint, varint_at, varint_encode,
    varint_overlong,
};
use crate::protodef::endian::{i32_be_at, i32_be_bytes, lemma_i32_be_roundtrip};
use crate::protodef::reader::{Read, ReadError};
use crate::protodef::strings::{
    check_little_string, lemma_little_string_reads_back, little_string_at, little_string_encoding,
    little_string_end,
};

verus! {

/// A login packet: the protocol version, the identity chain (JSON), and the
/// client token.
#[derive(Debug)]
pub struct Login {
    pub protocol_version: i32,
    pub identity: String,
    pub client: String,
}

impl View for Login {
    type V = (i32, Seq<char>, Seq<char>);

    open spec fn view(&self) -> (i32, Seq<char>, Seq<char>) {
        (self.protocol_version, self.identity@, self.client@)
    }
}

/// What reading a login body at `off` gives: a big-endian `i32`, a varint (the
/// payload length, not used), and two little strings. `None` where the
/// reader panics: fewer than four bytes for the version, a varint of more
/// than ten bytes, or a string the reader panics on.
pub open spec fn login_at(s: Seq<u8>, off: int) -> Option<Result<(i32, Seq<char>, Seq<char>), ReadError>> {
    if off < 0 || off + 4 > s.len() || off + 4 >= u64::MAX || varint_overlong(s, off + 4) {
        None
    } else {
        match varint_at(s, off + 4) {
            None => Some(Err(ReadError::OutOfBounds(s.len() as usize))),
            Some((_, n)) => {
                let c2 = off + 4 + n;
                match little_string_at(s, c2) {
                    None => None,
                    Some(Err(e)) => Some(Err(e)),
                    Some(Ok((identity, _))) => {
                        let c3 = little_string_end(s, c2);
                        match little_string_at(s, c3) {
                            None => None,
                            Some(Err(e)) => Some(Err(e)),
                            Some(Ok((client, _))) => Some(
                                Ok((i32_be_at(s, off), identity, client)),
                            ),
                        }
                    },
                }
            },
        }
    }
}

/// The login law: a body made of a big-endian version, a varint payload
/// length of any size, and the identity and client strings as little strings
/// reads back as that version and those two strings. The identity string
/// starts right after the whole varint, however many bytes it takes.
#[verifier::rlimit(60)]
pub proof fn lemma_login_reads_back(v: i32, p: u64, identity: Seq<char>, client: Seq<char>)
    requires
        encode_utf8(identity).len() <= 0x7fff_ffff,
        encode_utf8(client).len() <= 0x7fff_ffff,
    ensures
        login_at(
            i32_be_bytes(v) + varint_encode(p as nat) + little_string_encoding(identity)
                + little_string_encoding(client),
            0,
        ) == Some(Ok::<(i32, Seq<char>, Seq<char>), ReadError>((v, identity, client))),
{
    let a = i32_be_bytes(v);
    let b = varint_encode(p as nat);
    let c = little_string_encoding(identity);
    let d = little_string_encoding(client);
    let s = a + b + c + d;
    assert(s.len() == 4 + b.len() + c.len() + d.len());
    assert(s =~= a + (b + c + d));
    lemma_i32_be_roundtrip(v, b + c + d);
    assert(s.subrange(4, 4 + b.len() as int) =~= b);
    lemma_varint_decodes(s, 4, p);
    let c2: int = 4 + b.len() as int;
    assert(s.subrange(c2, c2 + c.len()) =~= c);
    lemma_little_string_reads_back(s, c2, identity);
    let c3: int = c2 + c.len();
    assert(s.subrange(c3, c3 + d.len()) =~= d);
    lemma_little_string_reads_back(s, c3, client);
}

impl Login {
    /// Reads a login body at `offset`.
    pub fn from_vec_u8(buf: &[u8], offset: u64) -> (r: Result<Self, ReadError>)
        requires
            login_at(buf@, offset as int) is Some,
        ensures
            match login_at(buf@, offset as int) {
                Some(Ok(v)) => r matches Ok(l) && l@ == v,
                Some(Err(e)) => r matches Err(x) && x == e,
                None => false,
            },
    {
        proof {
            crate::protodef::codec::lemma_varint_end_bounds(buf@, offset + 4);
        }
        let blen = buf.len();
        let mut cursor = offset;
        let protocol_version = buf.read_i32(cursor);
        cursor = cursor + 4;
        let (_payload, payload_size) = match buf.read_varint(cursor) {
            Ok(p) => p,
            Err(e) => return Err(e),
        };
        cursor = cursor + payload_size;
        let (identity, identity_size) = match buf.read_little_string(cursor) {
            Ok(p) => p,
            Err(e) => return Err(e),
        };
        cursor = cursor + identity_size;
        let (client, _client_size) = match buf.read_little_string(cursor) {
            Ok(p) => p,
            Err(e) => return Err(e),
        };
        Ok(Login { protocol_version, identity, client })
    }
}

/// Whether reading a login body at `offset` returns rather than panics.
pub(crate) fn check_login(buf: &[u8], offset: u64) -> (r: bool)
    ensures
        r == login_at(buf@, offset as int) is Some,
{
    let len = buf.len() as u64;
    if offset > len || len - offset < 4 || offset + 4 == u64::MAX {
        return false;
    }
    let cursor = offset + 4;
    if check_varint_overlong(buf, cursor) {
        return false;
    }
    proof {
        crate::protodef::codec::lemma_varint_end_bounds(buf@, cursor as int);
    }
    let n = match scan_varint(buf, cursor) {
        Some((_, n)) => n,
        None => return true,
    };
    let c2 = cursor + n;
    if !check_little_string(buf, c2) {
        return false;
    }
    let s2: &[u8] = buf;
    match s2.read_little_string(c2) {
        Err(_) => true,
        Ok((_, size)) => check_little_string(buf, c2 + size),
    }
}

} // verus!
