use flate2::write::DeflateEncoder;
use flate2::Compression;
use std::io::Write as _;

use mcbe_protocol::player::{
    batch_from, game_payload, network_settings_offer, outgoing_datagram, reply_to, unpack_batch,
    Reply,
};
use mcbe_protocol::protocol::packets::login::Login;
use mcbe_protocol::protocol::packets::network_settings::CompressionAlgorithmType;
use mcbe_protocol::protocol::packets::play_status::{PlayStatus, Status};
use mcbe_protocol::protocol::packets::request_network_settings::RequestNetworkSetting;
use mcbe_protocol::protocol::packets::PacketTypes;

#[test]
fn game_payload_strips_header() {
    assert_eq!(game_payload(&[0xfe, 1, 2]), Some(vec![1, 2]));
    assert_eq!(game_payload(&[0xfe]), Some(vec![]));
    assert_eq!(game_payload(&[0x01, 1, 2]), None);
}

#[test]
fn unpack_plain_and_deflated_batches() {
    let batch = vec![0x06, 0xc1, 0x01, 0x00, 0x00, 0x02, 0x37];
    let plain = unpack_batch(batch.clone()).unwrap().unwrap();
    assert_eq!(plain, vec![vec![0xc1, 0x01, 0x00, 0x00, 0x02, 0x37]]);
    let mut enc = DeflateEncoder::new(Vec::new(), Compression::default());
    enc.write_all(&batch).unwrap();
    let deflated = enc.finish().unwrap();
    assert_eq!(unpack_batch(deflated).unwrap().unwrap(), plain);
}

#[test]
fn batch_from_prefers_inflated() {
    let raw = vec![0x01, 0xaa];
    let err = std::io::Error::new(std::io::ErrorKind::Other, "not deflate");
    assert_eq!(batch_from(raw.clone(), Err(err)).unwrap().unwrap(), vec![vec![0xaa]]);
    assert_eq!(batch_from(raw, Ok(vec![0x01, 0xbb])).unwrap().unwrap(), vec![vec![0xbb]]);
}

#[test]
fn replies() {
    let old = PacketTypes::RequestNetworkSetting(RequestNetworkSetting { client_protocol: 568 });
    assert_eq!(reply_to(&old), Some(Reply::SendNetworkSettings));
    let newer = PacketTypes::RequestNetworkSetting(RequestNetworkSetting { client_protocol: 569 });
    assert_eq!(reply_to(&newer), Some(Reply::DisconnectWithStatus(Status::FailedSpawn)));
    let login = PacketTypes::Login(Login { protocol_version: 568, identity: String::new(), client: String::new() });
    assert_eq!(reply_to(&login), Some(Reply::VerifyLoginAndClose));
    let status = PacketTypes::PlayStatus(PlayStatus { status: Status::LoginSuccess });
    assert_eq!(reply_to(&status), None);
}

#[test]
fn offered_settings_datagram() {
    let s = network_settings_offer();
    assert_eq!(s.compression_threshold, 512);
    assert_eq!(s.compression_algorithm, CompressionAlgorithmType::Deflate);
    assert_eq!(s.client_throttle_scalar_bits, 0.0f32.to_bits());
    let d = outgoing_datagram(PacketTypes::NetworkSettings(s).into());
    assert_eq!(d, vec![0xfe, 12, 0x8f, 0x01, 0x02, 0x00, 0x00, 0x00, 0x00, 0x00, 0, 0, 0, 0]);
}
