//! The network settings packet, which the server sends.

use vstd::prelude::*;
use crate::protodef::endian::{
    u16_be_bytes, u32_le_bytes, vec_write_u16_be, vec_write_u32_le, vec_write_u8,
};
use crate::protodef::writer::Write;

verus! {

/// How the packets after this one are compressed.
#[derive(Debug, Clone, Copy, PartialEq, Eq, Structural)]
pub enum CompressionAlgorithmType {
    Deflate,
    Snappy,
}

/// The number an algorithm goes by on the wire.
pub open spec fn algorithm_code(a: CompressionAlgorithmType) -> u16 {
    match a {
        CompressionAlgorithmType::Deflate => 0,
        CompressionAlgorithmType::Snappy => 1,
    }
}

/// A network settings packet. The throttle scalar, a float, is held as its
/// IEEE-754 bit pattern (`f32::to_bits`), which is what goes on the wire.
#[derive(Debug, Clone, Copy, PartialEq, Eq, Structural)]
pub struct NetworkSettings {
    pub compression_threshold: u16,
    pub compression_algorithm: CompressionAlgorithmType,
    pub client_throttle: bool,
    pub client_throttle_threshold: u8,
    pub client_throttle_scalar_bits: u32,
}

/// The body of a network settings packet: threshold and algorithm as
/// big-endian `u16`s, the throttle flag as one byte, the throttle threshold,
/// and the scalar's four bytes, least significant first.
pub open spec fn network_settings_bytes(p: NetworkSettings) -> Seq<u8> {
    u16_be_bytes(p.compression_threshold) + u16_be_bytes(algorithm_code(p.compression_algorithm))
        + seq![
        if p.client_throttle {
            1u8
        } else {
            0u8
        },
        p.client_throttle_threshold,
    ] + u32_le_bytes(p.client_throttle_scalar_bits)
}

/// The layout law: the body is ten bytes: the threshold, most significant
/// byte first; the algorithm as 0 for deflate and 1 for snappy, most
/// significant byte first; the throttle flag as 1 or 0; the throttle
/// threshold; and the scalar's bits, least significant byte first.
pub proof fn lemma_network_settings_layout(p: NetworkSettings)
    ensures
        ({
            let b = network_settings_bytes(p);
            &&& b.len() == 10
            &&& b[0] == p.compression_threshold / 256 && b[1] == p.compression_threshold % 256
            &&& b[2] == 0
            &&& b[3] == (if p.compression_algorithm == CompressionAlgorithmType::Deflate {
                0u8
            } else {
                1u8
            })
            &&& b[4] == (if p.client_throttle {
                1u8
            } else {
                0u8
            })
            &&& b[5] == p.client_throttle_threshold
            &&& b[6] + b[7] * 0x100 + b[8] * 0x10000 + b[9] * 0x1000000
                == p.client_throttle_scalar_bits
        }),
{
    let b = network_settings_bytes(p);
    let u = p.client_throttle_scalar_bits;
    assert(b[6] == (u % 256) as u8 && b[7] == (u / 0x100 % 256) as u8 && b[8] == (u / 0x10000
        % 256) as u8 && b[9] == (u / 0x1000000) as u8);
    assert(b[6] + b[7] * 0x100 + b[8] * 0x10000 + b[9] * 0x1000000 == u) by (nonlinear_arith)
        requires
            b[6] == (u % 256) as u8,
            b[7] == (u / 0x100 % 256) as u8,
            b[8] == (u / 0x10000 % 256) as u8,
            b[9] == (u / 0x1000000) as u8,
    ;
}

impl NetworkSettings {
    /// Appends the body of `packet` to `buffer`.
    pub fn compose(buffer: &mut Vec<u8>, packet: Self) -> (r: std::io::Result<()>)
        ensures
            r is Ok,
            final(buffer)@ == old(buffer)@ + network_settings_bytes(packet),
    {
        let ghost start = buffer@;
        let _ = vec_write_u16_be(buffer, packet.compression_threshold);
        let code: u16 = match packet.compression_algorithm {
            CompressionAlgorithmType::Deflate => 0,
            CompressionAlgorithmType::Snappy => 1,
        };
        let _ = vec_write_u16_be(buffer, code);
        let _ = buffer.write_bool(packet.client_throttle);
        let _ = vec_write_u8(buffer, packet.client_throttle_threshold);
        let _ = vec_write_u32_le(buffer, packet.client_throttle_scalar_bits);
        assert(buffer@ =~= start + network_settings_bytes(packet));
        Ok(())
    }
}

} // verus!
