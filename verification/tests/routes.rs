use mxd::compat::XorCompatibility;
use mxd::compat_policy::ClientCompatibility;
use mxd::connection::HandshakeMetadata;
use mxd::routes::{
    ReplyBuilder, SessionState, error_reply, handle_command_parse_error, handle_parse_error,
    handle_process_error, transaction_to_bytes, error_transaction,
};
use mxd::transaction::{FrameHeader, reply_header};

fn header(ty: u16, id: u32) -> FrameHeader {
    FrameHeader { flags: 0, is_reply: 0, ty, id, error: 0, total_size: 10, data_size: 10 }
}

fn header_bytes(h: &FrameHeader) -> Vec<u8> {
    let mut out = vec![h.flags, h.is_reply];
    out.extend_from_slice(&h.ty.to_be_bytes());
    out.extend_from_slice(&h.id.to_be_bytes());
    out.extend_from_slice(&h.error.to_be_bytes());
    out.extend_from_slice(&h.total_size.to_be_bytes());
    out.extend_from_slice(&h.data_size.to_be_bytes());
    out
}

#[test]
fn parse_error_of_truncated_frame_uses_zero_header() {
    let bytes = handle_parse_error(&[1, 2, 3]);
    assert_eq!(bytes.len(), 20);
    let expected = FrameHeader { flags: 0, is_reply: 1, ty: 0, id: 0, error: 3, total_size: 0, data_size: 0 };
    assert_eq!(bytes, header_bytes(&expected));
}

#[test]
fn parse_error_preserves_transaction_id() {
    let frame = header_bytes(&header(65535, 123));
    let bytes = handle_parse_error(&frame);
    assert_eq!(&bytes[2..4], &65535u16.to_be_bytes());
    assert_eq!(&bytes[4..8], &123u32.to_be_bytes(), "transaction ID should be preserved");
    assert_eq!(&bytes[8..12], &3u32.to_be_bytes());
}

#[test]
fn command_and_process_errors_echo_header() {
    let h = header(200, 9);
    let expected = header_bytes(&reply_header(&h, 3, 0));
    assert_eq!(handle_command_parse_error(&h), expected);
    assert_eq!(handle_process_error(&h), expected);
}

#[test]
fn error_reply_is_empty_reply() {
    let h = header(370, 5);
    let tx = error_reply(&h, 7).expect("valid");
    assert_eq!(tx.header().is_reply, 1);
    assert_eq!(tx.header().error, 7);
    assert_eq!(tx.header().id, 5);
    assert!(tx.payload().is_empty());
    let t = error_transaction(&h, 7);
    assert_eq!(transaction_to_bytes(&t), header_bytes(&reply_header(&h, 7, 0)));
}

#[test]
fn reply_builder_reports_ids() {
    assert_eq!(ReplyBuilder::from_frame(&[0u8; 3]).header_ids(), (None, None));
    let h = header(107, 44);
    assert_eq!(ReplyBuilder::from_header(&h).header_ids(), (Some(107), Some(44)));
    assert_eq!(ReplyBuilder::from_frame(&[0u8; 3]).request_header_or_default().id, 0);
}

#[test]
fn session_state_starts_unauthenticated() {
    let mut state = SessionState::new();
    assert!(state.session().user_id.is_none());
    state.session_mut().user_id = Some(42);
    assert_eq!(state.session().user_id, Some(42));
}

#[test]
fn router_accept_frame_parses_then_hooks() {
    let mut router = mxd::router::WireframeRouter::new(
        XorCompatibility::disabled(),
        ClientCompatibility::from_handshake(&HandshakeMetadata::default()),
    );
    let err = router.accept_frame(&[0u8; 10], true).expect_err("truncated");
    assert_eq!(err.len(), 20);
    assert_eq!(&err[8..12], &3u32.to_be_bytes());

    let mut frame = header_bytes(&FrameHeader { flags: 0, is_reply: 0, ty: 200, id: 31, error: 0, total_size: 0, data_size: 0 });
    let tx = router.accept_frame(&frame, false).expect("parses");
    assert_eq!(tx.header.id, 31);
    frame[0] = 1;
    let err = router.accept_frame(&frame, false).expect_err("flags");
    assert_eq!(&err[4..8], &31u32.to_be_bytes());
}
