use mcbe_protocol::network::login::login_verify::{
    check_chain_length, conclude_auth, jwt_header_bytes, names_trusted_key, public_key_der,
    AdditionalData,
    ExtraUserdata,
};
use mcbe_protocol::network::packet::{
    CompressionAlgorithmType, Disconnect, Login, NetworkSettings, PlayStatus,
    RequestNetworkSetting, Status,
};
use mcbe_protocol::network::PacketTypes;
use mcbe_protocol::protocol::login::error::LoginError;

fn user(name: &str) -> ExtraUserdata {
    ExtraUserdata {
        XUID: "1".to_owned(),
        identity: "id".to_owned(),
        displayName: name.to_owned(),
        titleId: "t".to_owned(),
    }
}

fn claim(data: Option<ExtraUserdata>, key: &str) -> AdditionalData {
    AdditionalData {
        extraData: data,
        certificateAuthority: None,
        randomNonce: None,
        identityPublicKey: key.to_owned(),
    }
}

#[test]
fn network_login_new() {
    let mut buf = vec![0x00, 0x00, 0x02, 0x38, 0x09];
    buf.extend_from_slice(&[2, 0, 0, 0]);
    buf.extend_from_slice(b"ab");
    buf.extend_from_slice(&[1, 0, 0, 0]);
    buf.extend_from_slice(b"c");
    buf.push(0xee);
    let p = Login::new(&buf, 0).unwrap();
    assert_eq!(p.id, 1);
    assert_eq!(p.size, 16);
    assert_eq!(p.buffer, buf);
    match p.kind {
        PacketTypes::Login(l) => {
            assert_eq!(l.protocol_version, 568);
            assert_eq!(l.identity, "ab");
            assert_eq!(l.client, "c");
        }
        _ => panic!("wrong kind"),
    }
}

#[test]
fn network_request_network_setting_new() {
    let buf = [0xc1, 0x01, 0x00, 0x00, 0x02, 0x37];
    let p = RequestNetworkSetting::new(&buf, 2).unwrap();
    assert_eq!((p.id, p.size), (193, 4));
    assert_eq!(p.to_string(), "[C->S] RequestNetworkSettingPacket");
    match p.kind {
        PacketTypes::RequestNetworkSetting(r) => assert_eq!(r.client_protocol, 567),
        _ => panic!("wrong kind"),
    }
}

#[test]
fn network_compose_bodies() {
    let mut b = Vec::new();
    PlayStatus::compose(&mut b, PlayStatus { status: Status::FailedClient }).unwrap();
    assert_eq!(b, vec![0, 0, 0, 1]);
    let mut d = Vec::new();
    Disconnect::compose(&mut d, Disconnect { hide_disconnect_reason: true, message: "bye".to_owned() }).unwrap();
    assert_eq!(d, vec![1, 3, b'b', b'y', b'e']);
    let mut n = Vec::new();
    NetworkSettings::compose(
        &mut n,
        NetworkSettings {
            compression_threshold: 512,
            compression_algorithm: CompressionAlgorithmType::Snappy,
            client_throttle: false,
            client_throttle_threshold: 3,
            client_throttle_scalar_bits: 0x3f80_0000,
        },
    )
    .unwrap();
    assert_eq!(n, vec![0x00, 0x02, 0x01, 0x00, 0, 3, 0x00, 0x00, 0x80, 0x3f]);
}

#[test]
fn chain_length_must_be_three() {
    let three = vec![String::new(), String::new(), String::new()];
    assert_eq!(check_chain_length(&three), Ok(()));
    let two = vec![String::new(), String::new()];
    assert_eq!(check_chain_length(&two), Err(LoginError::InvalidChainLength(2)));
}

#[test]
fn auth_needs_trusted_key() {
    let headers = vec!["a".to_owned(), "b".to_owned(), "c".to_owned()];
    let claims = vec![claim(None, "k1"), claim(Some(user("p")), "k2"), claim(None, "k3")];
    match conclude_auth(&headers, claims, &"m".to_owned()) {
        Err(e) => assert_eq!(e, LoginError::NotAuthenticated),
        Ok(_) => panic!("expected refusal"),
    }
}

#[test]
fn auth_needs_user_data() {
    let headers = vec!["a".to_owned(), "m".to_owned(), "c".to_owned()];
    let claims = vec![claim(None, "k1"), claim(None, "k2"), claim(None, "k3")];
    match conclude_auth(&headers, claims, &"m".to_owned()) {
        Err(e) => assert_eq!(e, LoginError::WrongClaim),
        Ok(_) => panic!("expected refusal"),
    }
}

#[test]
fn auth_takes_last_user_data() {
    let headers = vec!["m".to_owned(), "b".to_owned(), "c".to_owned()];
    let claims = vec![claim(Some(user("first")), "k1"), claim(Some(user("last")), "k2"), claim(None, "k3")];
    let v = conclude_auth(&headers, claims, &"m".to_owned()).unwrap();
    assert_eq!(v.key, "k2");
    assert_eq!(v.user_data.displayName, "last");
}

#[test]
fn jwt_header_is_first_segment() {
    // {"alg":"ES384"}
    let token = "eyJhbGciOiJFUzM4NCJ9.eyJhIjoxfQ.sig";
    assert_eq!(jwt_header_bytes(token).unwrap(), b"{\"alg\":\"ES384\"}".to_vec());
    assert_eq!(jwt_header_bytes("eyJhbGciOiJFUzM4NCJ9").unwrap(), b"{\"alg\":\"ES384\"}".to_vec());
    assert!(jwt_header_bytes("!!!.x").is_none());
}

#[test]
fn public_key_decodes() {
    assert_eq!(public_key_der("AAEC").unwrap(), vec![0, 1, 2]);
    assert!(public_key_der("A").is_none());
}

#[test]
fn trusted_key_comparison() {
    assert!(names_trusted_key(&"abc".to_owned(), &"abc".to_owned()));
    assert!(!names_trusted_key(&"abc".to_owned(), &"abd".to_owned()));
}
