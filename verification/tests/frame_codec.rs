use bytes::{Bytes, BytesMut};
use wireframe::app::{Envelope, Packet};
use wireframe::correlation::CorrelatableFrame;
use wireframe::message::Message;
use mxd::frame::{HotlineFrameCodec, InboundSeriesTracker, SeriesError, SERIES_TIMEOUT_MS};
use mxd::message_assembly::{AssemblyErrorKind, HotlineMessageAssembler, AssemblyFrameHeader};
use mxd::route_ids::route_id_for;
use mxd::transaction::{FrameHeader, HEADER_LEN, MAX_FRAME_DATA, MAX_PAYLOAD_SIZE};

fn header_bytes(header: &FrameHeader) -> Vec<u8> {
    let mut out = Vec::new();
    out.push(header.flags);
    out.push(header.is_reply);
    out.extend_from_slice(&header.ty.to_be_bytes());
    out.extend_from_slice(&header.id.to_be_bytes());
    out.extend_from_slice(&header.error.to_be_bytes());
    out.extend_from_slice(&header.total_size.to_be_bytes());
    out.extend_from_slice(&header.data_size.to_be_bytes());
    out
}

fn fragmented_transaction_bytes(header: &FrameHeader, payload: &[u8], chunk: usize) -> Vec<Vec<u8>> {
    let mut out = Vec::new();
    for part in payload.chunks(chunk) {
        let mut h = *header;
        h.data_size = part.len() as u32;
        let mut frame = header_bytes(&h);
        frame.extend_from_slice(part);
        out.push(frame);
    }
    out
}

#[test]
fn max_frame_length_matches_logical_message_budget() {
    let codec = HotlineFrameCodec::new();

    assert_eq!(codec.max_frame_length(), HEADER_LEN + MAX_PAYLOAD_SIZE);
}

#[test]
fn codec_round_trip_payload_unchanged() {
    let codec = HotlineFrameCodec::new();
    let before = vec![0xabu8, 0xcdu8, 0xefu8];
    let bytes = Bytes::from(before.clone());
    let frame = codec.wrap_payload(bytes);
    let extracted = HotlineFrameCodec::frame_payload(&frame);
    assert_eq!(extracted, before);
}

#[test]
fn wrap_payload_cases() {
    let codec = HotlineFrameCodec::new();
    assert_eq!(codec.wrap_payload(Bytes::from(vec![0u8, 1, 2, 3, 4])), vec![0u8, 1, 2, 3, 4]);
    assert_eq!(codec.wrap_payload(Bytes::new()), Vec::<u8>::new());
}

#[test]
fn frame_payload_cases() {
    let data = vec![10u8, 20u8, 30u8];
    assert_eq!(HotlineFrameCodec::frame_payload(&data), &[10u8, 20u8, 30u8][..]);
    let empty: Vec<u8> = Vec::new();
    assert!(HotlineFrameCodec::frame_payload(&empty).is_empty());
}

#[test]
fn decoder_emits_first_then_continuation_payloads_for_fragmented_request() {
    let header = FrameHeader { flags: 0, is_reply: 0, ty: 107, id: 44, error: 0, total_size: 6, data_size: 6 };
    let fragments = fragmented_transaction_bytes(&header, b"abcdef", 4);
    let mut bytes = BytesMut::new();
    let mut decoder = HotlineFrameCodec::new().decoder();

    bytes.extend_from_slice(&fragments[0]);
    let first = decoder.decode(&mut bytes, 0).expect("decode first frame").expect("first frame payload");
    let (first_env, _) = Envelope::from_bytes(&first).expect("decode first envelope");
    assert_eq!(first_env.id(), route_id_for(107));
    assert_eq!(first_env.correlation_id(), Some(44));

    bytes.extend_from_slice(&fragments[1]);
    let second = decoder.decode(&mut bytes, 0).expect("decode continuation").expect("continuation payload");
    let (second_env, _) = Envelope::from_bytes(&second).expect("decode second envelope");
    assert_eq!(second_env.id(), route_id_for(107));
    assert_eq!(second_env.correlation_id(), Some(44));
}

#[test]
fn decoded_fragments_carry_assembly_payloads() {
    let header = FrameHeader { flags: 0, is_reply: 0, ty: 107, id: 44, error: 0, total_size: 6, data_size: 6 };
    let fragments = fragmented_transaction_bytes(&header, b"abcdef", 4);
    let mut bytes = BytesMut::new();
    let mut decoder = HotlineFrameCodec::new().decoder();

    bytes.extend_from_slice(&fragments[0]);
    let first = decoder.decode_frame(&mut bytes, 0).expect("decode first frame").expect("first frame payload");
    assert_eq!(first.route_id, 107);
    assert_eq!(first.correlation_id, 44);
    bytes.extend_from_slice(&fragments[1]);
    let second = decoder.decode_frame(&mut bytes, 0).expect("decode continuation").expect("continuation payload");

    let assembler = HotlineMessageAssembler::new();
    let parsed_first = assembler.parse_frame_header(&first.payload).expect("first parses");
    match parsed_first.header() {
        AssemblyFrameHeader::First(f) => {
            assert_eq!(f.body_len, 4);
            assert_eq!(f.total_body_len, Some(6));
            assert!(!f.is_last);
        }
        other => panic!("expected first frame header, got {other:?}"),
    }
    assert_eq!(&first.payload[first.payload.len() - 4..], b"abcd");
    let parsed_second = assembler.parse_frame_header(&second.payload).expect("second parses");
    match parsed_second.header() {
        AssemblyFrameHeader::Continuation(c) => {
            assert_eq!(c.body_len, 2);
            assert!(c.is_last);
            assert_eq!(c.sequence.map(|s| s.0), Some(1));
        }
        other => panic!("expected continuation header, got {other:?}"),
    }
}

#[test]
fn encoder_accepts_envelope_and_rejects_garbage() {
    let mut encoder = HotlineFrameCodec::new().encoder();
    let header = FrameHeader { flags: 0, is_reply: 1, ty: 107, id: 8, error: 0, total_size: 2, data_size: 2 };
    let mut frame = header_bytes(&header);
    frame.extend_from_slice(b"ok");
    let envelope = Envelope::new(107, Some(8), frame.clone()).to_bytes().expect("envelope encodes");
    let mut dst = BytesMut::new();
    encoder.encode(envelope, &mut dst).expect("encodes");
    assert_eq!(&dst[..], frame.as_slice());
    let mut dst = BytesMut::new();
    let err = encoder.encode(vec![0xff; 3], &mut dst).expect_err("not an envelope");
    assert_eq!(err.message(), "failed to decode envelope");
    assert!(dst.is_empty());
}

#[test]
fn encoder_handles_oversized_envelopes() {
    let mut encoder = HotlineFrameCodec::new().encoder();
    let item = vec![0x00, 0x00, 0xfd, 0xff, 0xff, 0xff, 0xff, 0xff, 0xff, 0xff, 0xff];
    let mut dst = BytesMut::new();
    let err = encoder.encode(item, &mut dst).expect_err("declared length past the input");
    assert_eq!(err.message(), "failed to decode envelope");
    assert!(dst.is_empty());

    let truncated = Envelope::new(107, Some(1), vec![1u8; 64]).to_bytes().expect("envelope encodes");
    let err = encoder.encode(truncated[..40].to_vec(), &mut dst).expect_err("payload cut short");
    assert_eq!(err.message(), "failed to decode envelope");
    assert!(dst.is_empty());

    let body = vec![0u8; MAX_PAYLOAD_SIZE + HEADER_LEN + 1];
    let envelope = Envelope::new(107, Some(1), body).to_bytes().expect("envelope encodes");
    let err = encoder.encode(envelope, &mut dst).expect_err("frame longer than a logical message");
    assert_eq!(err.message(), "size mismatch");
    assert!(dst.is_empty());

    let header = FrameHeader {
        flags: 0, is_reply: 0, ty: 107, id: 1, error: 0,
        total_size: MAX_PAYLOAD_SIZE as u32, data_size: MAX_PAYLOAD_SIZE as u32,
    };
    let mut frame = header_bytes(&header);
    frame.extend_from_slice(&vec![7u8; MAX_PAYLOAD_SIZE]);
    let envelope = Envelope::new(107, Some(1), frame).to_bytes().expect("envelope encodes");
    encoder.encode(envelope, &mut dst).expect("a whole logical message is written");
    let frames = MAX_PAYLOAD_SIZE / MAX_FRAME_DATA;
    assert_eq!(dst.len(), MAX_PAYLOAD_SIZE + frames * HEADER_LEN);
}

fn tracker_with_pending_series() -> (InboundSeriesTracker, FrameHeader, FrameHeader) {
    let first_header = FrameHeader { flags: 0, is_reply: 0, ty: 107, id: 55, error: 0, total_size: 4, data_size: 2 };
    let mut tracker = InboundSeriesTracker::new();
    if let Err(err) = tracker.start(&first_header, &[0u8; 2], 0) {
        panic!("first fragment starts a tracked series: {}", err.message());
    }
    let zero_header = FrameHeader { flags: 0, is_reply: 0, ty: 107, id: 55, error: 0, total_size: 4, data_size: 0 };
    (tracker, first_header, zero_header)
}

#[test]
fn decoder_rejects_zero_byte_continuation_fragment() {
    let (mut tracker, _, zero_header) = tracker_with_pending_series();
    let err = tracker
        .continue_series(&zero_header, &[], 0)
        .expect_err("zero-byte continuation must be rejected");
    assert_eq!(err.kind(), AssemblyErrorKind::InvalidData);
    assert!(err.message().contains("no progress"), "unexpected error message: {}", err.message());
}

#[test]
fn continue_series_clears_active_state_on_zero_progress_fragment() {
    let (mut tracker, _, zero_header) = tracker_with_pending_series();
    let err = tracker
        .continue_series(&zero_header, b"", 0)
        .expect_err("zero-progress continuation must be rejected");
    assert_eq!(err.kind(), AssemblyErrorKind::InvalidData);
    assert!(err.message().contains("no progress"), "unexpected error message: {}", err.message());
    assert!(!tracker.has_active_series(), "zero-progress continuation must clear the active series");
}

#[test]
fn continuation_without_series_is_rejected() {
    let mut tracker = InboundSeriesTracker::new();
    let h = FrameHeader { flags: 0, is_reply: 0, ty: 107, id: 1, error: 0, total_size: 4, data_size: 2 };
    assert_eq!(tracker.continue_series(&h, &[1, 2], 0), Err(SeriesError::NoActiveSeries));
}

#[test]
fn series_times_out_and_clears() {
    let (mut tracker, first, _) = tracker_with_pending_series();
    let mut next = first;
    next.data_size = 2;
    let err = tracker.continue_series(&next, &[1, 2], SERIES_TIMEOUT_MS + 1).expect_err("timed out");
    assert_eq!(err, SeriesError::TimedOut);
    assert!(!tracker.has_active_series());
}

#[test]
fn series_continues_within_deadline_and_completes() {
    let (mut tracker, first, _) = tracker_with_pending_series();
    let mut next = first;
    next.data_size = 2;
    let payload = tracker.continue_series(&next, &[1, 2], SERIES_TIMEOUT_MS).expect("continues");
    assert_eq!(payload[0], 1);
    assert!(!tracker.has_active_series());
}

#[test]
fn inconsistent_continuation_keeps_series() {
    let (mut tracker, first, _) = tracker_with_pending_series();
    let mut next = first;
    next.id = 56;
    let err = tracker.continue_series(&next, &[1, 2], 0).expect_err("id changed");
    assert!(err.message().contains("'id' changed"));
    assert!(tracker.has_active_series());
}

#[test]
fn oversized_continuation_is_rejected_and_clears() {
    let (mut tracker, first, _) = tracker_with_pending_series();
    let mut next = first;
    next.data_size = 3;
    let err = tracker.continue_series(&next, &[1, 2, 3], 0).expect_err("too many bytes");
    assert_eq!(err, SeriesError::ExceedsRemaining);
    assert!(!tracker.has_active_series());
}

#[test]
fn first_fragment_larger_than_total_is_rejected() {
    let mut tracker = InboundSeriesTracker::new();
    let h = FrameHeader { flags: 0, is_reply: 0, ty: 107, id: 1, error: 0, total_size: 1, data_size: 1 };
    assert_eq!(tracker.start(&h, &[1, 2], 0), Err(SeriesError::FirstExceedsTotal));
}

#[test]
fn decoder_waits_for_complete_frame_and_rejects_bad_header() {
    let mut decoder = HotlineFrameCodec::new().decoder();
    let header = FrameHeader { flags: 0, is_reply: 0, ty: 200, id: 9, error: 0, total_size: 3, data_size: 3 };
    let mut frame = header_bytes(&header);
    frame.extend_from_slice(b"xyz");
    let mut bytes = BytesMut::new();
    bytes.extend_from_slice(&frame[..10]);
    assert_eq!(decoder.decode_frame(&mut bytes, 0), Ok(None));
    bytes.extend_from_slice(&frame[10..]);
    let routed = decoder.decode_frame(&mut bytes, 0).expect("ok").expect("frame");
    assert_eq!(routed.route_id, 200);
    assert!(bytes.is_empty());

    let mut bad = header;
    bad.flags = 1;
    let mut bytes = BytesMut::new();
    bytes.extend_from_slice(&header_bytes(&bad));
    let err = decoder.decode_frame(&mut bytes, 0).expect_err("flags");
    assert!(err.message().contains("invalid flags"));
}

#[test]
fn unknown_type_routes_to_fallback() {
    assert_eq!(route_id_for(107), 107);
    assert_eq!(route_id_for(410), 410);
    assert_eq!(route_id_for(65535), 0);
    assert_eq!(mxd::route_ids::route_ids(), vec![107, 200, 370, 371, 400, 410]);
}

#[test]
fn encoder_writes_fragments_of_a_frame() {
    let mut encoder = HotlineFrameCodec::new().encoder();
    let payload = vec![7u8; MAX_FRAME_DATA + 1];
    let header = FrameHeader {
        flags: 0, is_reply: 1, ty: 200, id: 3, error: 0,
        total_size: payload.len() as u32, data_size: payload.len() as u32,
    };
    let mut frame = header_bytes(&header);
    frame.extend_from_slice(&payload);
    let mut dst = BytesMut::new();
    encoder.encode_frame(&frame, &mut dst).expect("encodes");
    assert_eq!(dst.len(), 2 * HEADER_LEN + payload.len());
    let mut h1 = header;
    h1.data_size = MAX_FRAME_DATA as u32;
    assert_eq!(&dst[..HEADER_LEN], header_bytes(&h1).as_slice());

    let mut dst = BytesMut::new();
    let err = encoder.encode_frame(&frame[..10], &mut dst).expect_err("short");
    assert!(err.message().contains("buffer too short"));
}

#[test]
fn decoder_emits_one_payload_per_frame_of_a_large_transaction() {
    let len = 2 * MAX_FRAME_DATA + 5;
    let payload: Vec<u8> = (0..len).map(|i| (i % 253) as u8).collect();
    let header = FrameHeader { flags: 0, is_reply: 0, ty: 370, id: 12, error: 0, total_size: len as u32, data_size: MAX_FRAME_DATA as u32 };
    let tx = mxd::codec::HotlineTransaction::from_parts(header, payload.clone()).expect("valid");
    let wire = tx.encode().expect("frames");
    let mut bytes = BytesMut::new();
    bytes.extend_from_slice(&wire);
    let mut decoder = HotlineFrameCodec::new().decoder();
    let assembler = HotlineMessageAssembler::new();
    let mut body = Vec::new();
    let mut kinds = Vec::new();
    while let Some(frame) = decoder.decode_frame(&mut bytes, 0).expect("decodes") {
        assert_eq!(frame.route_id, 370);
        assert_eq!(frame.correlation_id, 12);
        let parsed = assembler.parse_frame_header(&frame.payload).expect("parses");
        match parsed.header() {
            AssemblyFrameHeader::First(f) => {
                kinds.push((0u32, f.is_last));
                body.extend_from_slice(&frame.payload[parsed.header_len() + f.metadata_len..]);
            }
            AssemblyFrameHeader::Continuation(c) => {
                kinds.push((c.sequence.expect("numbered").0, c.is_last));
                body.extend_from_slice(&frame.payload[parsed.header_len()..]);
            }
        }
        if bytes.is_empty() {
            break;
        }
    }
    assert_eq!(kinds, vec![(0, false), (1, false), (2, true)]);
    assert_eq!(body, payload);
}
