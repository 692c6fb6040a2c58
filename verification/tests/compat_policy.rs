use mxd::compat_policy::{ClientCompatibility, ClientKind, SYNHX_SUB_VERSION, LOGIN_TRANSACTION_TYPE};
use mxd::connection::HandshakeMetadata;
use mxd::field_id::FieldId;
use mxd::params::{decode_params, encode_params};
use mxd::protocol::VERSION;
use mxd::router::WireframeRouter;
use mxd::compat::XorCompatibility;
use mxd::transaction::{FrameHeader, Transaction};

fn handshake(sub_version: u16) -> HandshakeMetadata {
    HandshakeMetadata { sub_protocol: u32::from_be_bytes(*b"HOTL"), version: VERSION, sub_version }
}

fn enc(params: &[(FieldId, &[u8])]) -> Vec<u8> {
    let owned: Vec<(FieldId, Vec<u8>)> = params.iter().map(|(f, d)| (*f, d.to_vec())).collect();
    encode_params(&owned).expect("payload encodes")
}

fn reply_header(payload_len: usize) -> FrameHeader {
    let payload_len = u32::try_from(payload_len).expect("payload length fits in u32");
    FrameHeader { flags: 0, is_reply: 1, ty: LOGIN_TRANSACTION_TYPE, id: 1, error: 0, total_size: payload_len, data_size: payload_len }
}

#[test]
fn classifies_synhx_from_handshake() {
    let compat = ClientCompatibility::from_handshake(&handshake(SYNHX_SUB_VERSION));
    assert_eq!(compat.kind(), ClientKind::SynHx);
}

#[test]
fn classifies_hotline_85_from_login_version() {
    let mut compat = ClientCompatibility::from_handshake(&handshake(0));
    compat.record_login_version(151);
    assert_eq!(compat.kind(), ClientKind::Hotline85);
}

#[test]
fn classifies_hotline_19_from_login_version() {
    let mut compat = ClientCompatibility::from_handshake(&handshake(0));
    compat.record_login_version(190);
    assert_eq!(compat.kind(), ClientKind::Hotline19);
}

#[test]
fn records_login_version_from_u16_payload() {
    let mut compat = ClientCompatibility::from_handshake(&handshake(0));
    let payload = enc(&[(FieldId::Version, &[0u8, 151u8])]);
    compat.record_login_payload(&payload).expect("record login version");
    assert_eq!(compat.login_version(), Some(151));
}

#[test]
fn records_login_version_from_u32_payload() {
    let mut compat = ClientCompatibility::from_handshake(&handshake(0));
    let payload = enc(&[(FieldId::Version, &[0u8, 0u8, 0u8, 190u8])]);
    compat.record_login_payload(&payload).expect("record login version");
    assert_eq!(compat.login_version(), Some(190));
}

fn assert_login_reply_augmentation(sub_version: u16, login_version: u16, expected_updated: bool) {
    let mut compat = ClientCompatibility::from_handshake(&handshake(sub_version));
    compat.record_login_version(login_version);
    let version_bytes = [(login_version >> 8) as u8, (login_version & 0x00ff) as u8];
    let payload = enc(&[(FieldId::Version, &version_bytes)]);
    let header = reply_header(payload.len());
    let mut reply = Transaction { header, payload };

    let updated = compat.augment_login_reply(&mut reply).expect("augment reply");

    assert_eq!(updated, expected_updated);
    let params = decode_params(&reply.payload).expect("decode reply params");
    let has_banner_id = params.iter().any(|(id, _)| *id == FieldId::BannerId);
    let has_server_name = params.iter().any(|(id, _)| *id == FieldId::ServerName);
    assert_eq!(has_banner_id, expected_updated);
    assert_eq!(has_server_name, expected_updated);
    assert_eq!(reply.header.total_size as usize, reply.payload.len());
    assert_eq!(reply.header.data_size as usize, reply.payload.len());
}

#[test]
fn augments_login_reply_when_required() {
    assert_login_reply_augmentation(0, 151, true);
}

#[test]
fn does_not_augment_login_reply_for_synhx() {
    assert_login_reply_augmentation(SYNHX_SUB_VERSION, 190, false);
}

#[test]
fn classifies_unknown_for_older_login_versions() {
    let mut compat = ClientCompatibility::from_handshake(&handshake(0));
    compat.record_login_version(100);
    assert_eq!(compat.kind(), ClientKind::Unknown);
}

#[test]
fn does_not_augment_login_reply_for_unknown_client_kind() {
    assert_login_reply_augmentation(0, 100, false);
}

#[test]
fn does_not_augment_failed_login_reply_for_hotline_clients() {
    let mut compat = ClientCompatibility::from_handshake(&handshake(0));
    compat.record_login_version(190);
    let payload = enc(&[(FieldId::Version, 190u16.to_be_bytes().as_ref())]);
    let payload_len = u32::try_from(payload.len()).expect("payload length fits in u32");
    let header = FrameHeader { flags: 0, is_reply: 1, ty: LOGIN_TRANSACTION_TYPE, id: 1, error: 1, total_size: payload_len, data_size: payload_len };
    let mut reply = Transaction { header, payload: payload.clone() };

    let updated = compat.augment_login_reply(&mut reply).expect("augment reply");

    assert!(!updated, "failed login replies must not be augmented");
    assert_eq!(reply.payload, payload);
}

#[test]
fn records_u16_max_version_without_sentinel_collision() {
    let mut compat = ClientCompatibility::from_handshake(&handshake(0));
    compat.record_login_version(u16::MAX);
    assert_eq!(compat.login_version(), Some(u16::MAX));
}

#[test]
fn synhx_classification_takes_precedence_over_login_version() {
    let mut compat = ClientCompatibility::from_handshake(&handshake(SYNHX_SUB_VERSION));
    compat.record_login_version(190);
    assert_eq!(compat.kind(), ClientKind::SynHx);
    assert!(!compat.should_include_login_extras());
}

#[test]
fn login_extras_gate_matches_version_boundaries() {
    for (login_version, should_include) in [(150u16, false), (151, true), (189, true), (190, true)] {
        let mut compat = ClientCompatibility::from_handshake(&handshake(0));
        compat.record_login_version(login_version);
        assert_eq!(compat.should_include_login_extras(), should_include);
    }
}

#[test]
fn augment_login_reply_is_idempotent_when_extras_exist() {
    let mut compat = ClientCompatibility::from_handshake(&handshake(0));
    compat.record_login_version(190);
    let payload = enc(&[
        (FieldId::Version, 190u16.to_be_bytes().as_ref()),
        (FieldId::BannerId, 0i32.to_be_bytes().as_ref()),
        (FieldId::ServerName, b"mxd".as_ref()),
    ]);
    let unchanged_payload = payload.clone();
    let header = reply_header(payload.len());
    let mut reply = Transaction { header, payload };

    let updated = compat.augment_login_reply(&mut reply).expect("augment reply");

    assert!(!updated, "extras are already present");
    assert_eq!(reply.payload, unchanged_payload);
}

#[test]
fn augmenting_twice_changes_nothing_the_second_time() {
    let mut compat = ClientCompatibility::from_handshake(&handshake(0));
    compat.record_login_version(151);
    let payload = enc(&[(FieldId::Version, &[0, 151])]);
    let mut reply = Transaction { header: reply_header(payload.len()), payload };
    assert!(compat.augment_login_reply(&mut reply).expect("first"));
    let once = reply.clone();
    assert!(!compat.augment_login_reply(&mut reply).expect("second"));
    assert_eq!(reply.payload, once.payload);
    assert_eq!(reply.header, once.header);
    let params = decode_params(&reply.payload).expect("decodes");
    assert_eq!(params[1], (FieldId::BannerId, vec![0, 0, 0, 0]));
    assert_eq!(params[2], (FieldId::ServerName, b"mxd".to_vec()));
}

#[test]
fn record_login_payload_ignores_unparseable_version_lengths() {
    let mut compat = ClientCompatibility::from_handshake(&handshake(0));
    let payload = enc(&[(FieldId::Version, vec![1u8, 2u8, 3u8].as_slice())]);
    compat.record_login_payload(&payload).expect("record login payload");
    assert_eq!(compat.login_version(), None);
    assert_eq!(compat.kind(), ClientKind::Unknown);
}

#[test]
fn record_login_payload_reports_decode_errors() {
    let mut compat = ClientCompatibility::from_handshake(&handshake(0));
    let err = compat.record_login_payload(&[0u8, 1u8]).expect_err("truncated");
    assert_eq!(err.message(), "buffer too short");
    let big = enc(&[(FieldId::Version, &[0, 1, 0, 0])]);
    compat.record_login_payload(&big).expect("ok");
    assert_eq!(compat.login_version(), None);
}

#[test]
fn router_records_login_version_and_augments_reply() {
    let mut router = WireframeRouter::new(XorCompatibility::disabled(), ClientCompatibility::from_handshake(&handshake(0)));
    let payload = enc(&[(FieldId::Version, &[0, 190])]);
    let header = FrameHeader { flags: 0, is_reply: 0, ty: LOGIN_TRANSACTION_TYPE, id: 4, error: 0, total_size: payload.len() as u32, data_size: payload.len() as u32 };
    let tx = router.on_request(true, Transaction { header, payload: payload.clone() }).expect("request");
    assert_eq!(tx.payload, payload);
    assert_eq!(router.client().login_version(), Some(190));

    let reply_payload = enc(&[]);
    let reply = Transaction { header: reply_header(reply_payload.len()), payload: reply_payload };
    let bytes = router.finalize_reply(&header, Some(reply));
    let params = decode_params(&bytes[20..]).expect("decodes");
    assert_eq!(params.len(), 2);
    assert!(!router.xor().is_enabled());

    let bad = Transaction { header, payload: vec![0u8] };
    let err_bytes = router.on_request(true, bad).expect_err("bad payload");
    assert_eq!(&err_bytes[8..12], &3u32.to_be_bytes());
}
