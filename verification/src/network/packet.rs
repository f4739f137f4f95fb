//! The packets of this module: readers that panic on what they cannot read,
//! and writers built on the free functions of `protodef::native_types`.

use vstd::prelude::*;
use vstd::utf8::{decode_utf8, encode_utf8};
use crate::protodef::codec::{lemma_varint_decodes, varint_at, varint_encode, varint_overlong};
use crate::protodef::endian::{i32_be_at, i32_be_bytes, lemma_i32_be_roundtrip, u16_le_bytes, u32_le_bytes, vec_write_i32_be, vec_write_u32_le};
use crate::protodef::mcbe::little_string;
use crate::protodef::native_types::reader::{read_i32, read_varint};
use crate::protodef::native_types::writer::{write_bool, write_lu16, write_u8};
use crate::protodef::strings::{
    lemma_little_string_reads_back, little_string_at, little_string_encoding, little_string_end,
};
use crate::protodef::writer::Write;
pub use crate::protocol::packets::play_status::Status;
pub use crate::protocol::packets::network_settings::CompressionAlgorithmType;
use crate::protocol::packets::play_status::{play_status_bytes, status_as_i32};
use super::{Packet, PacketTypes};

verus! {

/// A login packet: the protocol version, the identity chain (JSON), and the
/// client token.
#[derive(Debug)]
pub struct Login {
    pub protocol_version: i32,
    pub identity: String,
    pub client: String,
}

impl View for Login {
    type V = (i32, Seq<char>, Seq<char>);

    open spec fn view(&self) -> (i32, Seq<char>, Seq<char>) {
        (self.protocol_version, self.identity@, self.client@)
    }
}

/// What reading a login body at `off` gives here: the version, the two
/// strings, and the bytes read. `None` where a read panics: too few bytes for
/// the version, a varint that runs past the end or is more than ten bytes
/// long, or a string that runs past the end or is not UTF-8.
pub open spec fn login_packet_at(s: Seq<u8>, off: int) -> Option<(i32, Seq<char>, Seq<char>, int)> {
    let c1 = off + 4;
    if off < 0 || c1 > s.len() || varint_overlong(s, c1) || varint_at(s, c1) is None {
        None
    } else {
        let c2 = c1 + varint_at(s, c1).unwrap().1;
        let c3 = little_string_end(s, c2);
        match (little_string_at(s, c2), little_string_at(s, c3)) {
            (Some(Ok((identity, _))), Some(Ok((client, _)))) => Some(
                (i32_be_at(s, off), identity, client, little_string_end(s, c3) - off),
            ),
            _ => None,
        }
    }
}

/// The login law here: a body made of a big-endian version, a varint payload
/// length of any size, and the identity and client strings as little strings
/// reads back as that version and those strings, and takes the whole body.
#[verifier::rlimit(60)]
pub proof fn lemma_login_packet_reads_back(v: i32, p: u64, identity: Seq<char>, client: Seq<char>)
    requires
        encode_utf8(identity).len() <= 0x7fff_ffff,
        encode_utf8(client).len() <= 0x7fff_ffff,
    ensures
        ({
            let b = i32_be_bytes(v) + varint_encode(p as nat) + little_string_encoding(identity)
                + little_string_encoding(client);
            login_packet_at(b, 0) == Some((v, identity, client, b.len() as int))
        }),
{
    let a = i32_be_bytes(v);
    let b = varint_encode(p as nat);
    let c = little_string_encoding(identity);
    let d = little_string_encoding(client);
    let s = a + b + c + d;
    assert(s.len() == 4 + b.len() + c.len() + d.len());
    assert(s =~= a + (b + c + d));
    lemma_i32_be_roundtrip(v, b + c + d);
    assert(s.subrange(4, 4 + b.len() as int) =~= b);
    lemma_varint_decodes(s, 4, p);
    let c2: int = 4 + b.len() as int;
    assert(s.subrange(c2, c2 + c.len()) =~= c);
    lemma_little_string_reads_back(s, c2, identity);
    let c3: int = c2 + c.len();
    assert(s.subrange(c3, c3 + d.len()) =~= d);
    lemma_little_string_reads_back(s, c3, client);
}

impl Login {
    /// Reads a login body at `offset` into a packet with id 1.
    pub fn new(buf: &[u8], offset: u64) -> (r: std::io::Result<Packet>)
        requires
            login_packet_at(buf@, offset as int) is Some,
        ensures
            r matches Ok(p) && p.id == 1 && p.buffer@ == buf@ && (p.kind matches PacketTypes::Login(l)
                && login_packet_at(buf@, offset as int) == Some(
                (l.protocol_version, l.identity@, l.client@, p.size as int),
            )),
    {
        let blen = buf.len();
        proof {
            crate::protodef::codec::lemma_varint_end_bounds(buf@, offset + 4);
        }
        let mut cursor = offset;
        let (protocol_version, protocol_version_size) = match read_i32(buf, cursor) {
            Ok(p) => p,
            Err(e) => return Err(e),
        };
        cursor = cursor + protocol_version_size;
        let (_payload, payload_size) = match read_varint(buf, cursor) {
            Ok(p) => p,
            Err(e) => return Err(e),
        };
        cursor = cursor + payload_size;
        let (identity, identity_size) = match little_string(buf, cursor) {
            Ok(p) => p,
            Err(e) => return Err(e),
        };
        cursor = cursor + identity_size;
        let (client, client_size) = match little_string(buf, cursor) {
            Ok(p) => p,
            Err(e) => return Err(e),
        };
        cursor = cursor + client_size;
        let login = Login { protocol_version, identity, client };
        Ok(
            Packet {
                id: 1,
                kind: PacketTypes::Login(login),
                size: cursor - offset,
                buffer: vstd::slice::slice_to_vec(buf),
            },
        )
    }
}

/// A request for network settings.
#[derive(Debug, Clone, Copy, PartialEq, Eq, Structural)]
pub struct RequestNetworkSetting {
    pub client_protocol: i32,
}

impl RequestNetworkSetting {
    /// Reads the body at `offset` (a big-endian `i32`) into a packet with id
    /// 193. Fewer than four bytes there panic.
    pub fn new(buf: &[u8], offset: u64) -> (r: std::io::Result<Packet>)
        requires
            offset + 4 <= buf@.len(),
        ensures
            r matches Ok(p) && p.id == 193 && p.size == 4 && p.buffer@ == buf@ && (
            p.kind matches PacketTypes::RequestNetworkSetting(q) && q.client_protocol == i32_be_at(
                buf@,
                offset as int,
            )),
    {
        let (client_protocol, client_protocol_size) = match read_i32(buf, offset) {
            Ok(p) => p,
            Err(e) => return Err(e),
        };
        let rns = RequestNetworkSetting { client_protocol };
        Ok(
            Packet {
                id: 193,
                kind: PacketTypes::RequestNetworkSetting(rns),
                size: client_protocol_size,
                buffer: vstd::slice::slice_to_vec(buf),
            },
        )
    }
}

/// A play status packet.
#[derive(Debug, Clone, Copy, PartialEq, Eq, Structural)]
pub struct PlayStatus {
    pub status: Status,
}

impl PlayStatus {
    /// Appends the body of `packet`: its status code as a big-endian `i32`.
    pub fn compose(buffer: &mut Vec<u8>, packet: Self) -> (r: std::io::Result<()>)
        ensures
            r is Ok,
            final(buffer)@ == old(buffer)@ + play_status_bytes(packet.status),
    {
        let _ = vec_write_i32_be(buffer, status_as_i32(packet.status));
        Ok(())
    }
}

/// A disconnect packet.
#[derive(Debug)]
pub struct Disconnect {
    pub hide_disconnect_reason: bool,
    pub message: String,
}

/// The body of a disconnect packet: the flag as one byte, then the message's
/// UTF-8 bytes prefixed with their count as a varint.
pub open spec fn disconnect_bytes(hide: bool, message: Seq<char>) -> Seq<u8> {
    seq![
        if hide {
            1u8
        } else {
            0u8
        },
    ] + varint_encode(encode_utf8(message).len()) + encode_utf8(message)
}

/// The disconnect law: after the flag byte (1 to hide the reason, 0 to show
/// it) the body holds a varint that counts exactly the bytes after it, and
/// those bytes decode as UTF-8 to the message.
pub proof fn lemma_disconnect_reads_back(hide: bool, message: Seq<char>)
    requires
        encode_utf8(message).len() + 10 <= u64::MAX,
    ensures
        ({
            let b = disconnect_bytes(hide, message);
            &&& b[0] == (if hide {
                1u8
            } else {
                0u8
            })
            &&& !varint_overlong(b, 1)
            &&& varint_at(b, 1) matches Some((k, n)) && 1 + n + k == b.len()
                && decode_utf8(b.subrange(1 + n, b.len() as int)) == message
        }),
{
    let b = disconnect_bytes(hide, message);
    let e = encode_utf8(message);
    let l = e.len() as u64;
    let v = varint_encode(l as nat);
    assert(b.subrange(1, 1 + v.len() as int) =~= v);
    lemma_varint_decodes(b, 1, l);
    assert(b.subrange(1 + v.len() as int, b.len() as int) =~= e);
    vstd::utf8::encode_utf8_decode_utf8(message);
}

/// The layout law: the body is ten bytes: the threshold, least significant
/// byte first; the algorithm as 0 for deflate and 1 for snappy, least
/// significant byte first; the throttle flag as 1 or 0; the throttle
/// threshold; and the scalar's bits, least significant byte first.
pub proof fn lemma_network_settings_le_layout(p: NetworkSettings)
    ensures
        ({
            let b = network_settings_le_bytes(p);
            &&& b.len() == 10
            &&& b[0] == p.compression_threshold % 256 && b[1] == p.compression_threshold / 256
            &&& b[2] == (if p.compression_algorithm == CompressionAlgorithmType::Deflate {
                0u8
            } else {
                1u8
            })
            &&& b[3] == 0
            &&& b[4] == (if p.client_throttle {
                1u8
            } else {
                0u8
            })
            &&& b[5] == p.client_throttle_threshold
            &&& b[6] + b[7] * 0x100 + b[8] * 0x10000 + b[9] * 0x1000000
                == p.client_throttle_scalar_bits
        }),
{
    let b = network_settings_le_bytes(p);
    let u = p.client_throttle_scalar_bits;
    assert(b[6] == (u % 256) as u8 && b[7] == (u / 0x100 % 256) as u8 && b[8] == (u / 0x10000
        % 256) as u8 && b[9] == (u / 0x1000000) as u8);
    assert(b[6] + b[7] * 0x100 + b[8] * 0x10000 + b[9] * 0x1000000 == u) by (nonlinear_arith)
        requires
            b[6] == (u % 256) as u8,
            b[7] == (u / 0x100 % 256) as u8,
            b[8] == (u / 0x10000 % 256) as u8,
            b[9] == (u / 0x1000000) as u8,
    ;
}

impl Disconnect {
    /// Appends the body of `packet`. A message of nearly `u64::MAX` bytes
    /// would overflow the count; `requires` leaves it out.
    pub fn compose(buffer: &mut Vec<u8>, packet: Self) -> (r: std::io::Result<()>)
        requires
            encode_utf8(packet.message@).len() + 10 <= u64::MAX,
        ensures
            r is Ok,
            final(buffer)@ == old(buffer)@ + disconnect_bytes(
                packet.hide_disconnect_reason,
                packet.message@,
            ),
    {
        let ghost start = buffer@;
        let ghost message = packet.message@;
        let _ = write_bool(packet.hide_disconnect_reason, buffer);
        let _ = buffer.write_string(packet.message);
        assert(buffer@ =~= start + disconnect_bytes(packet.hide_disconnect_reason, message));
        Ok(())
    }
}

/// A network settings packet. The throttle scalar, a float, is held as its
/// IEEE-754 bit pattern (`f32::to_bits`), which is what goes on the wire.
#[derive(Debug, Clone, Copy, PartialEq, Eq, Structural)]
pub struct NetworkSettings {
    pub compression_threshold: u16,
    pub compression_algorithm: CompressionAlgorithmType,
    pub client_throttle: bool,
    pub client_throttle_threshold: u8,
    pub client_throttle_scalar_bits: u32,
}

/// The body of a network settings packet here: threshold and algorithm as
/// little-endian `u16`s, the flag as one byte, the throttle threshold, and the
/// scalar's four bytes, least significant first.
pub open spec fn network_settings_le_bytes(p: NetworkSettings) -> Seq<u8> {
    u16_le_bytes(p.compression_threshold) + u16_le_bytes(
        match p.compression_algorithm {
            CompressionAlgorithmType::Deflate => 0u16,
            CompressionAlgorithmType::Snappy => 1u16,
        },
    ) + seq![
        if p.client_throttle {
            1u8
        } else {
            0u8
        },
        p.client_throttle_threshold,
    ] + u32_le_bytes(p.client_throttle_scalar_bits)
}

impl NetworkSettings {
    /// Appends the body of `packet`.
    pub fn compose(buffer: &mut Vec<u8>, packet: Self) -> (r: std::io::Result<()>)
        ensures
            r is Ok,
            final(buffer)@ == old(buffer)@ + network_settings_le_bytes(packet),
    {
        let ghost start = buffer@;
        let _ = write_lu16(packet.compression_threshold, buffer);
        let _ = match packet.compression_algorithm {
            CompressionAlgorithmType::Deflate => write_lu16(0, buffer),
            CompressionAlgorithmType::Snappy => write_lu16(1, buffer),
        };
        let _ = write_bool(packet.client_throttle, buffer);
        let _ = write_u8(packet.client_throttle_threshold, buffer);
        let _ = vec_write_u32_le(buffer, packet.client_throttle_scalar_bits);
        assert(buffer@ =~= start + network_settings_le_bytes(packet));
        Ok(())
    }
}

} // verus!
