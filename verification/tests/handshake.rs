use mxd::connection::{HandshakeMetadata, registry_len};
use mxd::context::ConnectionState;
use mxd::preamble::{HotlinePreamble, error_code_for_decode_failure};
use mxd::protocol::{
    HandshakeError, HANDSHAKE_ERR_INVALID, HANDSHAKE_ERR_TIMEOUT, HANDSHAKE_ERR_UNSUPPORTED_VERSION,
    HANDSHAKE_INVALID_PROTOCOL_TOKEN, HANDSHAKE_UNSUPPORTED_VERSION_TOKEN, VERSION, error_code_from_str,
    handshake_reply, parse_handshake, str_starts_with,
};

fn preamble_bytes(protocol: [u8; 4], sub_protocol: [u8; 4], version: u16, sub_version: u16) -> [u8; 12] {
    let mut buf = [0u8; 12];
    buf[0..4].copy_from_slice(&protocol);
    buf[4..8].copy_from_slice(&sub_protocol);
    buf[8..10].copy_from_slice(&version.to_be_bytes());
    buf[10..12].copy_from_slice(&sub_version.to_be_bytes());
    buf
}

#[test]
fn decodes_valid_preamble() {
    let bytes = preamble_bytes(*b"TRTP", *b"CHAT", VERSION, 7);
    let preamble = HotlinePreamble::try_from_bytes(bytes).expect("handshake must decode");
    assert_eq!(preamble.handshake().sub_protocol, u32::from_be_bytes(*b"CHAT"));
    assert_eq!(preamble.handshake().version, VERSION);
    assert_eq!(preamble.handshake().sub_version, 7);
    let meta = HandshakeMetadata::from_handshake(&preamble.into_handshake());
    assert_eq!(meta.sub_protocol_tag(), *b"CHAT");
}

#[test]
fn rejects_invalid_protocol() {
    let bytes = preamble_bytes(*b"WRNG", *b"CHAT", VERSION, 1);
    let err = HotlinePreamble::try_from_bytes(bytes).expect_err("decode must fail");
    assert_eq!(err, HandshakeError::InvalidProtocol);
    assert!(err.detail().contains("invalid protocol id"), "expected detailed message, got {err:?}");
    assert_eq!(err.reply_code(), HANDSHAKE_ERR_INVALID);
}

#[test]
fn rejects_unsupported_version() {
    let bytes = preamble_bytes(*b"TRTP", *b"CHAT", VERSION + 1, 0);
    let err = HotlinePreamble::try_from_bytes(bytes).expect_err("decode must fail");
    assert_eq!(err, HandshakeError::UnsupportedVersion(VERSION + 1));
    assert!(err.detail().contains("unsupported version"), "expected detailed message, got {err:?}");
    assert_eq!(err.reply_code(), HANDSHAKE_ERR_UNSUPPORTED_VERSION);
}

#[test]
fn parse_handshake_reads_fields() {
    let bytes = preamble_bytes(*b"TRTP", [0, 0, 1, 2], VERSION, 0x0304);
    let hs = parse_handshake(&bytes).expect("valid");
    assert_eq!(hs.sub_protocol, 0x0102);
    assert_eq!(hs.sub_version, 0x0304);
}

#[test]
fn handshake_reply_layout() {
    assert_eq!(handshake_reply(0), b"TRTP\0\0\0\0".to_vec());
    assert_eq!(handshake_reply(2), vec![b'T', b'R', b'T', b'P', 0, 0, 0, 2]);
}

#[test]
fn error_codes_from_decode_messages() {
    let invalid = format!("{}: invalid protocol id", HANDSHAKE_INVALID_PROTOCOL_TOKEN);
    let unsupported = format!("{}: unsupported version 2", HANDSHAKE_UNSUPPORTED_VERSION_TOKEN);
    assert_eq!(error_code_from_str(&invalid), Some(HANDSHAKE_ERR_INVALID));
    assert_eq!(error_code_from_str(&unsupported), Some(HANDSHAKE_ERR_UNSUPPORTED_VERSION));
    assert_eq!(error_code_from_str("something else"), None);
    assert_eq!(error_code_for_decode_failure(None, true), Some(HANDSHAKE_ERR_TIMEOUT));
    assert_eq!(error_code_for_decode_failure(None, false), None);
    assert_eq!(error_code_for_decode_failure(Some(&invalid), true), Some(HANDSHAKE_ERR_INVALID));
    assert!(str_starts_with("abc", "ab"));
    assert!(!str_starts_with("a", "ab"));
    assert!(str_starts_with("é1", "é"));
}

#[test]
fn metadata_defaults_and_registry() {
    let meta = HandshakeMetadata::default();
    assert_eq!(meta, HandshakeMetadata { sub_protocol: 0, version: VERSION, sub_version: 0 });
    assert_eq!(registry_len(true), 1);
    assert_eq!(registry_len(false), 0);
}

#[test]
fn connection_state_starts_unauthenticated() {
    let handshake = HandshakeMetadata { sub_protocol: u32::from_be_bytes(*b"CHAT"), version: 1, sub_version: 7 };
    let mut state = ConnectionState::new("peer-context", handshake.clone());
    assert!(state.session.user_id.is_none());
    assert_eq!(state.context, "peer-context");
    assert_eq!(&state.handshake, &handshake);
    state.session.user_id = Some(42);
    assert_eq!(state.session.user_id, Some(42));
}

#[test]
fn handshake_request_encodes_sub_version() {
    for (sub_version, expected) in [(0u16, [0u8, 0u8]), (2, [0u8, 2u8])] {
        let request = mxd::protocol::handshake_request(sub_version);
        assert_eq!(&request[0..4], b"TRTP".as_slice());
        assert_eq!(&request[4..8], [0u8, 0u8, 0u8, 0u8].as_slice());
        let version_hi = (VERSION >> 8) as u8;
        let version_lo = (VERSION & 0x00ff) as u8;
        assert_eq!(&request[8..10], [version_hi, version_lo].as_slice());
        assert_eq!(&request[10..12], expected.as_slice());
        let parsed = parse_handshake(&request).expect("server accepts client request");
        assert_eq!(parsed.sub_version, sub_version);
    }
}

#[test]
fn validate_handshake_reply_accepts_success() {
    let mut reply = [0u8; 8];
    reply[0..4].copy_from_slice(b"TRTP");
    assert!(mxd::protocol::validate_handshake_reply(reply).is_ok());
}

#[test]
fn validate_handshake_reply_rejects_protocol_mismatch() {
    let mut reply = [0u8; 8];
    reply[0..4].copy_from_slice(b"NOPE");
    let err = mxd::protocol::validate_handshake_reply(reply).expect_err("expected protocol mismatch");
    assert_eq!(err.message(), "protocol mismatch in handshake reply");
}

#[test]
fn validate_handshake_reply_rejects_non_zero_error_code() {
    let mut reply = [0u8; 8];
    reply[0..4].copy_from_slice(b"TRTP");
    reply[4..8].copy_from_slice([0u8, 0u8, 0u8, 3u8].as_slice());
    let err = mxd::protocol::validate_handshake_reply(reply).expect_err("expected non-zero handshake code");
    assert_eq!(err, mxd::protocol::HandshakeReplyError::ErrorCode(3));
    assert_eq!(format!("{} {}", err.message(), 3), "handshake returned error code 3");
}

#[test]
fn login_request_carries_credentials() {
    let tx = mxd::protocol::login_request(b"alice", b"secret").expect("builds");
    assert_eq!(tx.header.ty, 107);
    assert_eq!(tx.header.id, 1);
    assert_eq!(tx.header.total_size as usize, tx.payload.len());
    let params = mxd::params::decode_params(&tx.payload).expect("decodes");
    assert_eq!(params[0], (mxd::field_id::FieldId::Login, b"alice".to_vec()));
    assert_eq!(params[1], (mxd::field_id::FieldId::Password, b"secret".to_vec()));
    let long = vec![0u8; 65536];
    assert_eq!(mxd::protocol::login_request(&long, b"x").err(), Some(mxd::transaction::TransactionError::FieldTooLarge));
}
