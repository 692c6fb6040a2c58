use bytes::BytesMut;
use mxd::codec::{FrameError, HotlineTransaction, ReadAction, TransactionReader, fragment_ranges, validate_header};
use mxd::connection_handler::{bytes_to_hotline_transaction, error_transaction, hotline_transaction_to_bytes};
use mxd::field_id::FieldId;
use mxd::framed::{CodecError, CodecErrorKind, HotlineCodec, buffer_len};
use mxd::params::{decode_params, encode_params, read_u16, read_u32};
use mxd::transaction::{FrameHeader, Transaction, TransactionError, MAX_FRAME_DATA, MAX_PAYLOAD_SIZE, parse_transaction};

fn transaction_bytes(header: &FrameHeader, payload: &[u8]) -> Vec<u8> {
    let mut out = Vec::new();
    out.push(header.flags);
    out.push(header.is_reply);
    out.extend_from_slice(&header.ty.to_be_bytes());
    out.extend_from_slice(&header.id.to_be_bytes());
    out.extend_from_slice(&header.error.to_be_bytes());
    out.extend_from_slice(&header.total_size.to_be_bytes());
    out.extend_from_slice(&header.data_size.to_be_bytes());
    out.extend_from_slice(payload);
    out
}

fn h(total: u32, data: u32) -> FrameHeader {
    FrameHeader { flags: 0, is_reply: 0, ty: 107, id: 1, error: 0, total_size: total, data_size: data }
}

#[test]
fn decodes_valid_single_frame() {
    for (total, data) in [(20u32, 20u32), (0, 0)] {
        let header = h(total, data);
        let payload = vec![0u8; total as usize];
        let bytes = transaction_bytes(&header, &payload);
        let (tx, used) = HotlineTransaction::decode(&bytes).expect("transaction must decode");
        assert_eq!(used, bytes.len());
        assert_eq!(tx.header().total_size, total);
        assert_eq!(tx.payload().len(), total as usize);
    }
}

#[test]
fn rejects_invalid_length_combinations() {
    for (total, data, expected_msg) in [(10u32, 20u32, "data size exceeds total"), (100, 0, "data size is zero but total size is non-zero")] {
        let header = h(total, data);
        let bytes = transaction_bytes(&header, &vec![0u8; data as usize]);
        let err = HotlineTransaction::decode(&bytes).expect_err("decode must fail");
        assert!(err.message().contains(expected_msg), "expected '{expected_msg}' in '{}'", err.message());
    }
}

#[test]
fn rejects_invalid_headers() {
    let mut flags = h(0, 0);
    flags.flags = 1;
    let cases = [
        (flags, Vec::new(), "invalid flags"),
        (h((MAX_PAYLOAD_SIZE + 1) as u32, MAX_FRAME_DATA as u32), vec![0u8; MAX_FRAME_DATA], "total size exceeds maximum"),
        (h((MAX_FRAME_DATA + 1) as u32, (MAX_FRAME_DATA + 1) as u32), vec![0u8; MAX_FRAME_DATA + 1], "data size exceeds maximum"),
    ];
    for (header, payload, expected_msg) in cases {
        let err = HotlineTransaction::decode(&transaction_bytes(&header, &payload)).expect_err("decode must fail");
        assert!(err.message().contains(expected_msg), "expected '{expected_msg}' in '{}'", err.message());
    }
}

#[test]
fn encodes_payloads_with_legacy_framing_and_decodes_back() {
    for payload_len in [0usize, MAX_FRAME_DATA, MAX_FRAME_DATA + 1, 2 * MAX_FRAME_DATA + 1] {
        let payload: Vec<u8> = (0..payload_len).map(|i| (i % 251) as u8).collect();
        let mut header = h(payload_len as u32, payload_len as u32);
        header.is_reply = 1;
        header.ty = 200;
        header.id = 42;
        if payload_len > MAX_FRAME_DATA {
            header.data_size = MAX_FRAME_DATA as u32;
        }
        let tx = HotlineTransaction::from_parts(header, payload.clone()).expect("valid parts");
        let bytes = tx.encode().expect("encode");
        let frames = fragment_ranges(payload_len).len().max(1);
        assert_eq!(bytes.len(), frames * 20 + payload_len);
        let (back, used) = HotlineTransaction::decode(&bytes).expect("decodes");
        assert_eq!(used, bytes.len());
        assert_eq!(back.payload(), payload.as_slice());
        assert_eq!(back.header().total_size as usize, payload_len);
        assert_eq!(back.header().data_size as usize, payload_len);
    }
}

#[test]
fn fragment_ranges_cover_payload() {
    for (total_len, expected_count) in [(0usize, 0usize), (1, 1), (MAX_FRAME_DATA, 1), (MAX_FRAME_DATA + 1, 2), (2 * MAX_FRAME_DATA + 1, 3)] {
        let mut sum = 0usize;
        let mut count = 0usize;
        let mut last_len = 0usize;
        for (offset, len) in fragment_ranges(total_len) {
            assert!(len > 0);
            assert!(len <= MAX_FRAME_DATA);
            assert!(offset + len <= total_len);
            sum += len;
            count += 1;
            last_len = len;
        }
        assert_eq!(sum, total_len);
        assert_eq!(count, expected_count);
        if total_len == 0 {
            assert_eq!(last_len, 0);
        } else {
            assert!(last_len > 0);
        }
    }
}

#[test]
fn validate_header_matches_predicate_examples() {
    assert_eq!(validate_header(&h(0, 0)), Ok(()));
    assert_eq!(validate_header(&h(10, 0)), Err(FrameError::EmptyDataNonZeroTotal));
    assert_eq!(validate_header(&h(5, 6)), Err(FrameError::DataExceedsTotal));
}

#[test]
fn stream_codec_reassembles_two_fragments() {
    let mut codec = HotlineCodec::new();
    let header = h(6, 4);
    let mut buf = BytesMut::new();
    buf.extend_from_slice(&transaction_bytes(&header, b"abcd"));
    assert!(codec.decode(&mut buf).expect("first").is_none());
    let mut cont = header;
    cont.data_size = 2;
    buf.extend_from_slice(&transaction_bytes(&cont, b"ef"));
    let tx = codec.decode(&mut buf).expect("second").expect("complete");
    assert_eq!(tx.payload(), b"abcdef");
    assert_eq!(tx.header().data_size, 6);
}

#[test]
fn stream_codec_rejects_fragment_exceeding_remaining() {
    let mut codec = HotlineCodec::new();
    let header = h(6, 4);
    let mut buf = BytesMut::new();
    buf.extend_from_slice(&transaction_bytes(&header, b"abcd"));
    assert!(codec.decode(&mut buf).expect("first").is_none());
    let mut cont = header;
    cont.data_size = 3;
    buf.extend_from_slice(&transaction_bytes(&cont, b"efg"));
    let err = codec.decode(&mut buf).expect_err("too long");
    assert_eq!(err, CodecError::FragmentExceedsRemaining);
}

#[test]
fn stream_codec_incomplete_at_eof() {
    let mut codec = HotlineCodec::new();
    let mut buf = BytesMut::new();
    buf.extend_from_slice(&transaction_bytes(&h(6, 4), b"abcd"));
    let err = codec.decode_eof(&mut buf).expect_err("incomplete");
    assert_eq!(err, CodecError::IncompleteFrame);
    assert_eq!(err.kind(), CodecErrorKind::UnexpectedEof);
    assert!(err.message().contains("incomplete transaction frame"));
    let mut empty = BytesMut::new();
    let mut fresh = HotlineCodec::new();
    assert!(fresh.decode_eof(&mut empty).expect("clean").is_none());
}

#[test]
fn stream_codec_encodes_single_and_empty_frames() {
    let mut codec = HotlineCodec::new();
    let tx = HotlineTransaction::from_parts(h(3, 3), b"xyz".to_vec()).expect("valid");
    let mut dst = BytesMut::new();
    codec.encode(tx, &mut dst).expect("encodes");
    assert_eq!(&dst[..], transaction_bytes(&h(3, 3), b"xyz").as_slice());
    let empty = HotlineTransaction::from_parts(h(0, 0), Vec::new()).expect("valid");
    let mut dst = BytesMut::new();
    codec.encode(empty, &mut dst).expect("encodes");
    assert_eq!(&dst[..], transaction_bytes(&h(0, 0), b"").as_slice());
}

#[test]
fn transaction_reader_reassembles_series() {
    let mut reader = TransactionReader::new();
    let mut first = [0u8; 20];
    first.copy_from_slice(&transaction_bytes(&h(6, 4), b"")[..20]);
    match reader.on_header(&first).expect("first header") {
        ReadAction::ReadData(n) => assert_eq!(n, 4),
        other => panic!("unexpected {other:?}"),
    }
    assert!(matches!(reader.on_data(b"abcd"), ReadAction::ReadHeader));
    let mut next = [0u8; 20];
    next.copy_from_slice(&transaction_bytes(&h(6, 2), b"")[..20]);
    assert!(matches!(reader.on_header(&next), Ok(ReadAction::ReadData(2))));
    match reader.on_data(b"ef") {
        ReadAction::Complete(tx) => {
            assert_eq!(tx.payload(), b"abcdef");
            assert_eq!(tx.header().data_size, 6);
        }
        other => panic!("unexpected {other:?}"),
    }
    assert!(reader.wants_header());
}

#[test]
fn transaction_reader_rejects_bad_continuation_and_completes_empty() {
    let mut reader = TransactionReader::new();
    let mut empty = [0u8; 20];
    empty.copy_from_slice(&transaction_bytes(&h(0, 0), b"")[..20]);
    assert!(matches!(reader.on_header(&empty), Ok(ReadAction::Complete(_))));
    let mut first = [0u8; 20];
    first.copy_from_slice(&transaction_bytes(&h(6, 4), b"")[..20]);
    assert!(reader.on_header(&first).is_ok());
    let _ = reader.on_data(b"abcd");
    let mut bad = h(7, 2);
    bad.total_size = 7;
    let mut next = [0u8; 20];
    next.copy_from_slice(&transaction_bytes(&bad, b"")[..20]);
    assert!(matches!(reader.on_header(&next), Err(FrameError::TotalChanged)));
    let mut zero = [0u8; 20];
    zero.copy_from_slice(&transaction_bytes(&h(6, 0), b"")[..20]);
    assert!(matches!(reader.on_header(&zero), Err(FrameError::ZeroContinuation)));
}

#[test]
fn params_round_trip_and_errors() {
    let params = vec![(FieldId::Login, b"alice".to_vec()), (FieldId::Other(999), vec![1, 2])];
    let bytes = encode_params(&params).expect("encodes");
    assert_eq!(&bytes[..2], &[0, 2]);
    assert_eq!(&bytes[2..4], &105u16.to_be_bytes());
    assert_eq!(decode_params(&bytes).expect("decodes"), params);
    let mut trailing = bytes.clone();
    trailing.push(0);
    assert_eq!(decode_params(&trailing), Err(TransactionError::SizeMismatch));
    assert_eq!(decode_params(&bytes[..bytes.len() - 1]), Err(TransactionError::ShortBuffer));
    let big = vec![(FieldId::Data, vec![0u8; 65536])];
    assert_eq!(encode_params(&big), Err(TransactionError::FieldTooLarge));
    assert_eq!(read_u16(&[1, 2]), Ok(258));
    assert_eq!(read_u32(&[0, 0, 1, 0]), Ok(256));
    assert_eq!(read_u32(&[0, 1]), Err(TransactionError::SizeMismatch));
}

#[test]
fn request_and_reply_from_params() {
    let params = vec![(FieldId::Data, b"hi".to_vec())];
    let req = HotlineTransaction::request_from_params(105, 7, &params).expect("request");
    assert_eq!(req.header().ty, 105);
    assert_eq!(req.header().id, 7);
    assert_eq!(req.header().is_reply, 0);
    assert_eq!(decode_params(req.payload()).expect("payload"), params);
    let reply = HotlineTransaction::reply_from_params(req.header(), 2, &params).expect("reply");
    assert_eq!(reply.header().is_reply, 1);
    assert_eq!(reply.header().error, 2);
    assert_eq!(reply.header().total_size as usize, reply.payload().len());
}

#[test]
fn roundtrip_transaction_bytes() {
    let header = FrameHeader { flags: 0, is_reply: 0, ty: 107, id: 42, error: 0, total_size: 5, data_size: 5 };
    let tx = HotlineTransaction::from_parts(header, b"hello".to_vec()).expect("valid");
    let bytes = hotline_transaction_to_bytes(&tx);
    let parsed = bytes_to_hotline_transaction(&bytes).expect("parse should succeed");
    assert_eq!(parsed.header().ty, header.ty);
    assert_eq!(parsed.header().id, header.id);
    assert_eq!(parsed.payload(), b"hello");
    assert_eq!(bytes_to_hotline_transaction(&bytes[..5]).err(), Some(TransactionError::ShortBuffer));
}

#[test]
fn error_transaction_sets_reply_flag() {
    let req_header = FrameHeader { flags: 0, is_reply: 0, ty: 200, id: 99, error: 0, total_size: 0, data_size: 0 };
    let err_tx = error_transaction(&req_header);
    assert_eq!(err_tx.header().is_reply, 1);
    assert_eq!(err_tx.header().ty, 200);
    assert_eq!(err_tx.header().id, 99);
    assert_eq!(err_tx.header().error, 3);
}

#[test]
fn transaction_conversion_and_parse() {
    let tx = Transaction { header: h(2, 2), payload: vec![1, 2] };
    let bytes = tx.to_bytes();
    let parsed = parse_transaction(&bytes).expect("parses");
    assert_eq!(parsed.payload, vec![1, 2]);
    let hot = HotlineTransaction::from_transaction(parsed).expect("converts");
    let back = hot.into_transaction();
    assert_eq!(back.header, h(2, 2));
    let bad = Transaction { header: h(3, 3), payload: vec![1] };
    assert_eq!(HotlineTransaction::from_transaction(bad).err(), Some(TransactionError::SizeMismatch));
}

#[test]
fn stream_codec_round_trip_and_large_reassembly() {
    let mut codec = HotlineCodec::new();
    let tx = HotlineTransaction::from_parts(h(3, 3), b"abc".to_vec()).expect("valid");
    let mut buf = BytesMut::new();
    codec.encode(tx, &mut buf).expect("encodes");
    let back = codec.decode(&mut buf).expect("decodes").expect("complete");
    assert_eq!(back.payload(), b"abc");
    assert!(buf.is_empty());

    for len in [40000usize, 2 * 32768 + 1, 100000] {
        let payload: Vec<u8> = (0..len).map(|i| (i % 251) as u8).collect();
        let tx = HotlineTransaction::from_parts(h(len as u32, len as u32), payload.clone()).expect("valid");
        let expected = tx.clone();
        let mut buf = BytesMut::new();
        codec.encode(tx, &mut buf).expect("encodes");
        let frames = (len + 32767) / 32768;
        for _ in 0..frames - 1 {
            assert!(codec.decode(&mut buf).expect("fragment").is_none());
        }
        let back = codec.decode(&mut buf).expect("last fragment").expect("reassembled");
        assert_eq!(back, expected);
        assert_eq!(back.header().data_size, len as u32);
        assert!(buf.is_empty());
    }
}

#[test]
fn codec_error_kinds_and_buffer_len() {
    assert_eq!(CodecError::Frame(FrameError::InvalidFlags).kind(), CodecErrorKind::InvalidData);
    assert_eq!(CodecError::FragmentExceedsRemaining.kind(), CodecErrorKind::InvalidData);
    assert_eq!(CodecError::Transaction(TransactionError::SizeMismatch).kind(), CodecErrorKind::InvalidData);
    assert_eq!(CodecError::InvalidInput(TransactionError::PayloadTooLarge).kind(), CodecErrorKind::InvalidInput);
    let mut buf = BytesMut::new();
    assert_eq!(buffer_len(&buf), 0);
    buf.extend_from_slice(b"abcde");
    assert_eq!(buffer_len(&buf), 5);
}
