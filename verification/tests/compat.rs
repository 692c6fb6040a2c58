use mxd::compat::{XorCompatibility, xor_bytes, xor_params, is_text_field};
use mxd::connection::HandshakeMetadata;
use mxd::field_id::FieldId;
use mxd::params::{decode_params, encode_params};
use mxd::router::before_send;
use mxd::transaction::{FrameHeader, Transaction};

fn build_payload(params: &[(FieldId, &[u8])]) -> Vec<u8> {
    let owned: Vec<(FieldId, Vec<u8>)> = params.iter().map(|(f, d)| (*f, d.to_vec())).collect();
    encode_params(&owned).expect("payload encodes")
}

fn decode_param_map(payload: &[u8]) -> Vec<(FieldId, Vec<u8>)> {
    decode_params(payload).expect("payload decodes")
}

#[test]
fn xor_bytes_round_trip() {
    let input = b"hello".to_vec();
    let encoded = xor_bytes(&input);
    let decoded = xor_bytes(&encoded);
    assert_eq!(decoded, input);
    assert_eq!(encoded[0], b'h' ^ 0xff);
}

#[test]
fn xor_params_round_trip_keeps_non_text_fields() {
    let before = vec![(FieldId::Data, vec![1u8, 2, 3, 4]), (FieldId::NewsArticleId, vec![5u8, 6, 7, 8])];
    let encoded = xor_params(&before);
    assert_eq!(encoded[1], before[1]);
    assert_eq!(encoded[0].1, vec![0xfe, 0xfd, 0xfc, 0xfb]);
    assert_eq!(xor_params(&encoded), before);
}

#[test]
fn decode_payload_enables_xor_on_invalid_utf8() {
    let mut compat = XorCompatibility::disabled();
    let encoded_password = xor_bytes(b"secret");
    let encoded_login = xor_bytes(b"alice");
    let payload = build_payload(&[
        (FieldId::Login, encoded_login.as_slice()),
        (FieldId::Password, encoded_password.as_slice()),
    ]);

    let decoded = compat.decode_payload(&payload).expect("decode payload");
    let params = decode_param_map(&decoded);

    assert!(compat.is_enabled());
    assert_eq!(params[0].0, FieldId::Login);
    assert_eq!(params[0].1, b"alice");
    assert_eq!(params[1].0, FieldId::Password);
    assert_eq!(params[1].1, b"secret");
}

#[test]
fn decode_payload_keeps_plaintext_when_valid() {
    let mut compat = XorCompatibility::disabled();
    let payload = build_payload(&[(FieldId::Password, b"secret")]);

    let decoded = compat.decode_payload(&payload).expect("decode payload");

    assert!(!compat.is_enabled());
    assert_eq!(decoded, payload);
}

#[test]
fn encode_payload_xors_text_fields_when_enabled() {
    let compat = XorCompatibility::enabled();
    let payload = build_payload(&[(FieldId::Data, b"message"), (FieldId::NewsArticleId, 42i32.to_be_bytes().as_ref())]);

    let encoded = compat.encode_payload(&payload).expect("encode payload");
    let params = decode_param_map(&encoded);

    assert_eq!(params[0].0, FieldId::Data);
    assert_eq!(xor_bytes(&params[0].1), b"message");
    assert_eq!(params[1].0, FieldId::NewsArticleId);
    assert_eq!(params[1].1, 42i32.to_be_bytes());
}

#[test]
fn encode_payload_noop_when_disabled() {
    let compat = XorCompatibility::disabled();
    let payload = build_payload(&[(FieldId::Password, b"secret")]);

    let encoded = compat.encode_payload(&payload).expect("encode payload");

    assert_eq!(encoded, payload);
}

#[test]
fn enabled_decode_then_encode_gives_payload_back() {
    let mut compat = XorCompatibility::enabled();
    let payload = build_payload(&[(FieldId::Data, b"hi there"), (FieldId::UserId, &[0, 1])]);
    let decoded = compat.decode_payload(&payload).expect("decode");
    assert_ne!(decoded, payload);
    let encoded = compat.encode_payload(&decoded).expect("encode");
    assert_eq!(encoded, payload);
}

#[test]
fn decode_payload_edge_cases() {
    let mut compat = XorCompatibility::from_handshake(&HandshakeMetadata::default());
    assert!(!compat.is_enabled());
    assert_eq!(compat.decode_payload(&[]).expect("empty"), Vec::<u8>::new());
    let err = compat.decode_payload(&[0u8]).expect_err("short");
    assert_eq!(err.message(), "buffer too short");
    let numeric = build_payload(&[(FieldId::UserId, &[0xff, 0xfe])]);
    assert_eq!(compat.decode_payload(&numeric).expect("no text"), numeric);
    assert!(!compat.is_enabled());
    assert!(is_text_field(FieldId::FileName));
    assert!(!is_text_field(FieldId::Version));
}

#[test]
fn before_send_xors_outbound_text_when_enabled() {
    let compat = XorCompatibility::enabled();
    let payload = build_payload(&[(FieldId::Data, b"abc")]);
    let header = FrameHeader {
        flags: 0, is_reply: 1, ty: 200, id: 5, error: 0,
        total_size: payload.len() as u32, data_size: payload.len() as u32,
    };
    let tx = Transaction { header, payload: payload.clone() };
    let before = tx.to_bytes();
    let mut frame = before.clone();
    before_send(&compat, &mut frame);
    assert_eq!(&frame[..20], &before[..20]);
    let params = decode_param_map(&frame[20..]);
    assert_eq!(params[0].1, xor_bytes(b"abc"));

    let mut untouched = before.clone();
    before_send(&XorCompatibility::disabled(), &mut untouched);
    assert_eq!(untouched, before);
}
