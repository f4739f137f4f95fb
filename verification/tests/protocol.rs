use flate2::write::DeflateEncoder;
use flate2::Compression;
use std::io::Write as _;

use mcbe_protocol::protocol::compresstion::{
    compose_packet, decompress, get_packets, parse_packet, try_get_packets, try_parse_packet,
};
use mcbe_protocol::protocol::packets::login::Login;
use mcbe_protocol::protocol::packets::network_settings::{CompressionAlgorithmType, NetworkSettings};
use mcbe_protocol::protocol::packets::play_status::{PlayStatus, Status};
use mcbe_protocol::protocol::packets::request_network_settings::RequestNetworkSetting;
use mcbe_protocol::protocol::packets::{Packet, PacketTypes};
use mcbe_protocol::protodef::reader::{Read, ReadError};

fn login_body(version: i32, identity: &str, client: &str) -> Vec<u8> {
    let mut b = Vec::new();
    b.extend_from_slice(&version.to_be_bytes());
    b.push(0x05);
    b.extend_from_slice(&(identity.len() as i32).to_le_bytes());
    b.extend_from_slice(identity.as_bytes());
    b.extend_from_slice(&(client.len() as i32).to_le_bytes());
    b.extend_from_slice(client.as_bytes());
    b
}

#[test]
fn parse_request_network_setting() {
    let buf = [0xc1, 0x01, 0x00, 0x00, 0x02, 0x37];
    let p = parse_packet(&buf, 0).unwrap();
    assert_eq!(p.id, 193);
    match p.kind {
        PacketTypes::RequestNetworkSetting(r) => assert_eq!(r.client_protocol, 567),
        _ => panic!("wrong kind"),
    }
}

#[test]
fn parse_login_packet() {
    let mut buf = vec![0x01];
    buf.extend(login_body(568, "{\"chain\":[]}", "tok"));
    let p = parse_packet(&buf, 0).unwrap();
    assert_eq!(p.id, 1);
    match p.kind {
        PacketTypes::Login(l) => {
            assert_eq!(l.protocol_version, 568);
            assert_eq!(l.identity, "{\"chain\":[]}");
            assert_eq!(l.client, "tok");
        }
        _ => panic!("wrong kind"),
    }
}

#[test]
fn login_from_vec_u8_at_offset() {
    let mut buf = vec![0xaa, 0xbb];
    buf.extend(login_body(-1, "", "é"));
    let l = Login::from_vec_u8(&buf, 2).unwrap();
    assert_eq!((l.protocol_version, l.identity.as_str(), l.client.as_str()), (-1, "", "é"));
}

#[test]
fn login_with_truncated_string() {
    let mut buf = vec![0x01];
    buf.extend(login_body(568, "abc", "def"));
    buf.truncate(buf.len() - 1);
    let len = buf.len();
    match parse_packet(&buf, 0) {
        Err(e) => assert_eq!(e, ReadError::MissingCharacters(len, len as u64 + 1)),
        Ok(_) => panic!("expected an error"),
    }
}

#[test]
fn parse_packet_truncated_id() {
    let buf = [0x81];
    match parse_packet(&buf, 0) {
        Err(e) => assert_eq!(e, ReadError::OutOfBounds(1)),
        Ok(_) => panic!("expected an error"),
    }
}

#[test]
fn try_parse_packet_refuses_unknown_id() {
    let buf = [0x02, 0x00, 0x00, 0x00, 0x00];
    assert!(try_parse_packet(&buf, 0).is_none());
    let short = [0xc1, 0x01, 0x00];
    assert!(try_parse_packet(&short, 0).is_none());
    let ok = [0xc1, 0x01, 0x00, 0x00, 0x02, 0x38];
    assert!(matches!(try_parse_packet(&ok, 0), Some(Ok(_))));
}

#[test]
fn try_parse_packet_refuses_invalid_utf8() {
    let mut buf = vec![0x01];
    buf.extend(login_body(568, "ab", "cd"));
    let at = buf.len() - 1;
    buf[at] = 0xff;
    assert!(try_parse_packet(&buf, 0).is_none());
}

#[test]
fn request_network_setting_body() {
    let buf = [0x7f, 0xff, 0xff, 0xff];
    assert_eq!(RequestNetworkSetting::from_vec_u8(&buf, 0).unwrap().client_protocol, i32::MAX);
}

#[test]
fn get_packets_splits() {
    let buf = [0x02, 0xaa, 0xbb, 0x00, 0x01, 0xcc];
    let pkts = get_packets(&buf).unwrap();
    assert_eq!(pkts, vec![vec![0xaa, 0xbb], vec![], vec![0xcc]]);
    assert_eq!(get_packets(&[]).unwrap(), Vec::<Vec<u8>>::new());
}

#[test]
fn get_packets_truncated_length() {
    let buf = [0x01, 0xaa, 0x80];
    assert_eq!(get_packets(&buf), Err(ReadError::OutOfBounds(3)));
}

#[test]
fn try_get_packets_refuses_overrun() {
    let buf = [0x05, 0xaa];
    assert!(try_get_packets(&buf).is_none());
    let overlong = [0xffu8; 12];
    assert!(try_get_packets(&overlong).is_none());
}

#[test]
fn compose_play_status() {
    let p: Packet = PacketTypes::PlayStatus(PlayStatus { status: Status::FailedSpawn }).into();
    assert_eq!(p.id, 2);
    let out = compose_packet(p).unwrap();
    assert_eq!(out, vec![0x05, 0x02, 0x00, 0x00, 0x00, 0x02]);
}

#[test]
fn compose_network_settings() {
    let settings = NetworkSettings {
        compression_threshold: 512,
        compression_algorithm: CompressionAlgorithmType::Snappy,
        client_throttle: true,
        client_throttle_threshold: 7,
        client_throttle_scalar_bits: 1.5f32.to_bits(),
    };
    let out = compose_packet(PacketTypes::NetworkSettings(settings).into()).unwrap();
    let scalar = 1.5f32.to_le_bytes();
    assert_eq!(
        out,
        vec![12, 0x8f, 0x01, 0x02, 0x00, 0x00, 0x01, 0x01, 7, scalar[0], scalar[1], scalar[2], scalar[3]]
    );
}

#[test]
fn composed_packet_splits_back() {
    let out = compose_packet(PacketTypes::PlayStatus(PlayStatus { status: Status::PlayerSpawn }).into()).unwrap();
    let pkts = get_packets(&out).unwrap();
    assert_eq!(pkts, vec![vec![0x02, 0x00, 0x00, 0x00, 0x03]]);
}

#[test]
fn play_status_compose_reads_back() {
    let mut b = Vec::new();
    PlayStatus::compose(&mut b, PlayStatus { status: Status::FailedVanillaEditorMismatch }).unwrap();
    assert_eq!(b, vec![0, 0, 0, 9]);
    let s: &[u8] = &b;
    assert_eq!(s.read_i32(0), 9);
}

#[test]
fn packet_ids_and_labels() {
    let a: Packet = PacketTypes::RequestNetworkSetting(RequestNetworkSetting { client_protocol: 1 }).into();
    assert_eq!(a.id, 193);
    assert_eq!(a.to_string(), "[C->S] RequestNetworkSettingPacket");
    let b: Packet = PacketTypes::PlayStatus(PlayStatus { status: Status::LoginSuccess }).into();
    assert_eq!(b.to_string(), "[S -> C] PlayStatusPacket");
    let c: Packet = PacketTypes::NetworkSettings(NetworkSettings {
        compression_threshold: 0,
        compression_algorithm: CompressionAlgorithmType::Deflate,
        client_throttle: false,
        client_throttle_threshold: 0,
        client_throttle_scalar_bits: 0,
    })
    .into();
    assert_eq!(c.id, 143);
    assert_eq!(c.to_string(), "[S->C] NetworkSettingsPacket");
    let d: Packet = PacketTypes::Login(Login { protocol_version: 1, identity: String::new(), client: String::new() }).into();
    assert_eq!(d.id, 1);
    assert_eq!(d.to_string(), "[C->S] LoginPacket");
}

#[test]
fn decompress_inflates() {
    let data = b"\x06\xc1\x01\x00\x00\x02\x37".to_vec();
    let mut enc = DeflateEncoder::new(Vec::new(), Compression::default());
    enc.write_all(&data).unwrap();
    let compressed = enc.finish().unwrap();
    assert_ne!(compressed, data);
    assert_eq!(decompress(&compressed).unwrap(), data);
}

#[test]
fn decompress_rejects_garbage() {
    assert!(decompress(&[0xff, 0xff, 0xff]).is_err());
}
