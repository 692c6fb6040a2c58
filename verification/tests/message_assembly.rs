use mxd::message_assembly::{
    AssemblyError, AssemblyErrorKind, AssemblyFrameHeader, FrameSequence, HotlineMessageAssembler,
    MessageKey, continuation_frame_payload, first_frame_payload, message_key_for,
    HOTLINE_LOGICAL_MESSAGE_BYTES,
};
use mxd::transaction::{FrameHeader, HEADER_LEN};

fn header(total_size: u32, data_size: u32) -> FrameHeader {
    FrameHeader { flags: 0, is_reply: 0, ty: 107, id: 9, error: 0, total_size, data_size }
}

#[test]
fn message_key_includes_type_and_identifier() {
    let first = header(10, 5);
    let mut second = first.clone();
    second.ty = 108;

    assert_ne!(message_key_for(&first), message_key_for(&second));
}

#[test]
fn message_key_layout() {
    let mut h = header(10, 5);
    h.is_reply = 3;
    h.ty = 0x0102;
    h.id = 0x0304_0506;
    assert_eq!(message_key_for(&h), MessageKey((1u64 << 63) | (0x0102u64 << 32) | 0x0304_0506));
}

#[test]
fn first_frame_payload_reports_logical_header_metadata() {
    let header = header(10, 4);
    let payload = first_frame_payload(message_key_for(&header), &header, b"data").expect("payload");
    let parsed = HotlineMessageAssembler::new().parse_frame_header(&payload).expect("parsed header");

    match parsed.header() {
        AssemblyFrameHeader::First(first) => {
            assert_eq!(first.metadata_len, HEADER_LEN);
            assert_eq!(first.body_len, 4);
            assert_eq!(first.total_body_len, Some(10));
            assert!(!first.is_last);
        }
        other @ AssemblyFrameHeader::Continuation(_) => {
            panic!("expected first frame header, got {other:?}");
        }
    }

    let metadata = &payload[parsed.header_len()..parsed.header_len() + HEADER_LEN];
    let logical = FrameHeader::from_bytes(metadata.try_into().expect("metadata stores a normalized 20-byte header"));
    assert_eq!(logical.total_size, 10);
    assert_eq!(logical.data_size, 10);
}

#[test]
fn continuation_payload_reports_sequence_and_last_flag() {
    let payload = continuation_frame_payload(MessageKey(11), FrameSequence(2), true, b"tail").expect("payload");
    let parsed = HotlineMessageAssembler::new().parse_frame_header(&payload).expect("parsed header");

    match parsed.header() {
        AssemblyFrameHeader::Continuation(next) => {
            assert_eq!(next.message_key, MessageKey(11));
            assert_eq!(next.sequence, Some(FrameSequence(2)));
            assert_eq!(next.body_len, 4);
            assert!(next.is_last);
        }
        other @ AssemblyFrameHeader::First(_) => {
            panic!("expected continuation header, got {other:?}");
        }
    }
}

#[test]
fn first_frame_parser_rejects_declared_body_length_mismatches() {
    let header = header(10, 4);
    let mut payload = first_frame_payload(message_key_for(&header), &header, b"data").expect("payload");
    payload[13..17].copy_from_slice(&5u32.to_be_bytes());

    let err = HotlineMessageAssembler::new()
        .parse_frame_header(&payload)
        .expect_err("declared first-frame body length must match trailing bytes");
    assert_eq!(err.kind(), AssemblyErrorKind::InvalidData);
    assert!(
        err.message().contains("Hotline first-frame payload length does not match declared body length"),
        "unexpected error: {}",
        err.message()
    );
}

#[test]
fn continuation_parser_rejects_declared_body_length_mismatches() {
    let mut payload = continuation_frame_payload(MessageKey(11), FrameSequence(2), true, b"tail").expect("payload");
    payload[14..18].copy_from_slice(&5u32.to_be_bytes());

    let err = HotlineMessageAssembler::new()
        .parse_frame_header(&payload)
        .expect_err("declared continuation body length must match trailing bytes");
    assert_eq!(err.kind(), AssemblyErrorKind::InvalidData);
    assert!(
        err.message().contains("Hotline continuation payload length does not match declared body length"),
        "unexpected error: {}",
        err.message()
    );
}

#[test]
fn first_frame_parser_rejects_logical_header_total_mismatches() {
    let header = header(10, 4);
    let mut payload = first_frame_payload(message_key_for(&header), &header, b"data").expect("payload");
    payload[29..33].copy_from_slice(&9u32.to_be_bytes());

    let err = HotlineMessageAssembler::new()
        .parse_frame_header(&payload)
        .expect_err("logical header total must match declared first-frame total");
    assert_eq!(err.kind(), AssemblyErrorKind::InvalidData);
    assert!(
        err.message().contains("Hotline first-frame logical header length does not match declared total length"),
        "unexpected error: {}",
        err.message()
    );
}

#[test]
fn assembly_parser_error_cases() {
    let assembler = HotlineMessageAssembler::new();
    let err = assembler.parse_frame_header(&[]).expect_err("empty");
    assert_eq!(err, AssemblyError::MissingTag);
    assert_eq!(err.kind(), AssemblyErrorKind::UnexpectedEof);
    assert_eq!(assembler.parse_frame_header(&[7u8]).expect_err("tag"), AssemblyError::UnknownTag(7));
    assert_eq!(assembler.parse_frame_header(&[0u8; 20]).expect_err("short"), AssemblyError::FirstTruncated);
    assert_eq!(assembler.parse_frame_header(&[1u8; 5]).expect_err("short"), AssemblyError::ContinuationTruncated);

    let mut payload = continuation_frame_payload(MessageKey(1), FrameSequence(1), false, b"x").expect("payload");
    payload[13] = 2;
    assert_eq!(assembler.parse_frame_header(&payload).expect_err("flag"), AssemblyError::InvalidLastFlag(2));

    let h = header(3, 3);
    let mut payload = first_frame_payload(message_key_for(&h), &h, b"abc").expect("payload");
    payload[9..13].copy_from_slice(&2u32.to_be_bytes());
    assert_eq!(assembler.parse_frame_header(&payload).expect_err("body > total"), AssemblyError::FirstBodyExceedsTotal);
}

#[test]
fn complete_first_frame_is_last() {
    let h = header(3, 3);
    let payload = first_frame_payload(message_key_for(&h), &h, b"abc").expect("payload");
    assert_eq!(payload.len(), 17 + HEADER_LEN + 3);
    let parsed = HotlineMessageAssembler::new().parse_frame_header(&payload).expect("parses");
    assert_eq!(parsed.header_len(), 17);
    match parsed.header() {
        AssemblyFrameHeader::First(f) => assert!(f.is_last),
        other => panic!("unexpected {other:?}"),
    }
    assert_eq!(HOTLINE_LOGICAL_MESSAGE_BYTES, 20 + 1_048_576);
}
