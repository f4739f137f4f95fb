//! The request for network settings, which the client sends first.

use vstd::prelude::*;
use crate::protodef::endian::i32_be_at;
use crate::protodef::reader::{Read, ReadError};

verus! {

/// A request for network settings.
#[derive(Debug, Clone, Copy, PartialEq, Eq, Structural)]
pub struct RequestNetworkSetting {
    pub client_protocol: i32,
}

impl RequestNetworkSetting {
    /// Reads the body at `offset`: the client's protocol version, a big-endian
    /// `i32`. Fewer than four bytes there panic.
    pub fn from_vec_u8(buf: &[u8], offset: u64) -> (r: Result<Self, ReadError>)
        requires
            offset + 4 <= buf@.len(),
        ensures
            r matches Ok(p) && p.client_protocol == i32_be_at(buf@, offset as int),
    {
        let client_protocol = buf.read_i32(offset);
        Ok(RequestNetworkSetting { client_protocol })
    }
}

} // verus!
