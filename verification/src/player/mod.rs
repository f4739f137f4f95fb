//! What the server does with a client's datagrams: which bytes carry game
//! packets, how a batch is unpacked, what each packet is answered with, and
//! how an answer is framed. The socket and the waiting are the caller's.

use vstd::prelude::*;
use crate::protocol::compresstion::{
    compose_packet, decompress, frame, frames_at, packet_body, packet_bytes, raw_inflate,
    try_get_packets,
};
use crate::protocol::packets::network_settings::{CompressionAlgorithmType, NetworkSettings};
use crate::protocol::packets::play_status::Status;
use crate::protocol::packets::{Packet, PacketTypes};
use crate::protodef::codec::varint_encode;
use crate::protodef::reader::ReadError;

verus! {

/// The first byte of a datagram that carries a game batch.
pub const GAME_PACKET_HEADER: u8 = 0xfe;

/// The newest client protocol this server accepts.
pub const SERVER_PROTOCOL: i32 = 568;

/// The batch a datagram carries, if its first byte marks it as game data. An
/// empty datagram panics.
pub fn game_payload(datagram: &[u8]) -> (r: Option<Vec<u8>>)
    requires
        datagram@.len() >= 1,
    ensures
        datagram@[0] == GAME_PACKET_HEADER ==> (r matches Some(v) && v@ == datagram@.subrange(
            1,
            datagram@.len() as int,
        )),
        datagram@[0] != GAME_PACKET_HEADER ==> r is None,
{
    if datagram[0] == GAME_PACKET_HEADER {
        Some(
            vstd::slice::slice_to_vec(vstd::slice::slice_subrange(datagram, 1, datagram.len())),
        )
    } else {
        None
    }
}

/// The bytes a batch holds: inflated where it inflates, else as they came.
pub open spec fn batch_data(buffer: Seq<u8>) -> Seq<u8> {
    match raw_inflate(buffer) {
        Some(d) => d,
        None => buffer,
    }
}

/// Splits a batch given the outcome of inflating it: the inflated bytes if
/// that succeeded, else `buffer` itself. `None` where splitting panics.
pub fn batch_from(buffer: Vec<u8>, inflated: std::io::Result<Vec<u8>>) -> (r: Option<
    Result<Vec<Vec<u8>>, ReadError>,
>)
    ensures
        ({
            let data = match inflated {
                Ok(v) => v@,
                Err(_) => buffer@,
            };
            match frames_at(data, 0) {
                Some(Ok(fs)) => r matches Some(Ok(v)) && packet_bytes(v@) == fs,
                Some(Err(e)) => r matches Some(Err(x)) && x == e,
                None => r is None,
            }
        }),
{
    let flate: Vec<u8> = match inflated {
        Ok(b) => b,
        Err(_) => buffer,
    };
    try_get_packets(flate.as_slice())
}

/// Unpacks a batch: inflates it if it inflates, then splits it into packets.
/// `None` where splitting panics.
pub fn unpack_batch(buffer: Vec<u8>) -> (r: Option<Result<Vec<Vec<u8>>, ReadError>>)
    ensures
        match frames_at(batch_data(buffer@), 0) {
            Some(Ok(fs)) => r matches Some(Ok(v)) && packet_bytes(v@) == fs,
            Some(Err(e)) => r matches Some(Err(x)) && x == e,
            None => r is None,
        },
{
    let inflated = decompress(buffer.as_slice());
    batch_from(buffer, inflated)
}

/// How the server answers a packet.
#[derive(Debug, Clone, Copy, PartialEq, Eq, Structural)]
pub enum Reply {
    /// Send the network settings.
    SendNetworkSettings,
    /// Send this play status, then close the connection.
    DisconnectWithStatus(Status),
    /// Check the login's identity chain, then close the connection.
    VerifyLoginAndClose,
}

/// The answer to a packet from the client: a request from a client newer than
/// the server is refused with `FailedSpawn`, any other request is answered
/// with the network settings, and a login is verified. Other packets the
/// server does not answer (`None`).
pub fn reply_to(kind: &PacketTypes) -> (r: Option<Reply>)
    ensures
        match kind {
            PacketTypes::RequestNetworkSetting(p) => r == Some(
                if p.client_protocol > SERVER_PROTOCOL {
                    Reply::DisconnectWithStatus(Status::FailedSpawn)
                } else {
                    Reply::SendNetworkSettings
                },
            ),
            PacketTypes::Login(_) => r == Some(Reply::VerifyLoginAndClose),
            _ => r is None,
        },
{
    match kind {
        PacketTypes::RequestNetworkSetting(pkt) => {
            if pkt.client_protocol > SERVER_PROTOCOL {
                Some(Reply::DisconnectWithStatus(Status::FailedSpawn))
            } else {
                Some(Reply::SendNetworkSettings)
            }
        },
        PacketTypes::Login(_) => Some(Reply::VerifyLoginAndClose),
        _ => None,
    }
}

/// The network settings the server offers: deflate above 512 bytes, no
/// client throttling (threshold 0, scalar 0.0).
pub fn network_settings_offer() -> (r: NetworkSettings)
    ensures
        r == (NetworkSettings {
            compression_threshold: 512,
            compression_algorithm: CompressionAlgorithmType::Deflate,
            client_throttle: false,
            client_throttle_threshold: 0,
            client_throttle_scalar_bits: 0,
        }),
{
    NetworkSettings {
        compression_threshold: 512,
        compression_algorithm: CompressionAlgorithmType::Deflate,
        client_throttle: false,
        client_throttle_threshold: 0,
        client_throttle_scalar_bits: 0,
    }
}

/// The datagram that carries `packet` to the client: the game header, then
/// the packet framed as a batch of one.
pub fn outgoing_datagram(packet: Packet) -> (r: Vec<u8>)
    requires
        packet.kind@ is NetworkSettings || packet.kind@ is PlayStatus,
    ensures
        r@ == seq![GAME_PACKET_HEADER] + frame(varint_encode(packet.id as nat) + packet_body(
            packet.kind@,
        )),
{
    let mut out: Vec<u8> = Vec::new();
    out.push(GAME_PACKET_HEADER);
    let mut body = match compose_packet(packet) {
        Ok(v) => v,
        Err(_) => Vec::new(),
    };
    out.append(&mut body);
    out
}

} // verus!
