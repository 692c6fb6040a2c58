//! Hotline message-assembly payloads.
//!
//! Each physical Hotline fragment is re-expressed as an internal assembly
//! payload so a generic message assembler can enforce budgets while the
//! reassembled bytes keep the `header || payload` shape of a transaction.
//!
//! First fragment:
//! `tag 0 | key (8) | total (4) | body_len (4) | logical header (20) | body`.
//! Continuation fragment:
//! `tag 1 | key (8) | sequence (4) | last (1) | body_len (4) | body`.
//! All integers are big-endian.

use vstd::prelude::*;
use crate::transaction::{
    FrameHeader, HEADER_LEN, MAX_PAYLOAD_SIZE, be_u32, u32_bytes, lemma_u32_round_trip,
    header_bytes, header_from, with_data_size, lemma_header_bytes_len, lemma_header_prefix,
    read_u32_at, push_u32, append_bytes,
};

verus! {

/// Largest logical Hotline transaction carried through assembly: a full
/// header plus the largest payload.
pub const HOTLINE_LOGICAL_MESSAGE_BYTES: usize = HEADER_LEN + MAX_PAYLOAD_SIZE;

/// Tag byte of a first-fragment assembly payload.
pub const FIRST_FRAME_TAG: u8 = 0;

/// Tag byte of a continuation-fragment assembly payload.
pub const CONTINUATION_FRAME_TAG: u8 = 1;

/// Length of the first-fragment metadata before the logical header.
pub const FIRST_FRAME_HEADER_LEN: usize = 17;

/// Length of the continuation-fragment metadata before the body.
pub const CONTINUATION_FRAME_HEADER_LEN: usize = 18;

/// Key grouping the fragments of one logical message.
#[derive(Clone, Copy, Debug, PartialEq, Eq, Structural)]
pub struct MessageKey(pub u64);

/// Position of a continuation fragment within its series.
#[derive(Clone, Copy, Debug, PartialEq, Eq, Structural)]
pub struct FrameSequence(pub u32);

/// Metadata of a first fragment.
#[derive(Clone, Copy, Debug, PartialEq, Eq)]
pub struct FirstFrameHeader {
    /// Key of the logical message.
    pub message_key: MessageKey,
    /// Bytes of metadata that follow the assembly header.
    pub metadata_len: usize,
    /// Bytes of body in this fragment.
    pub body_len: usize,
    /// Declared body length of the whole message.
    pub total_body_len: Option<usize>,
    /// Whether this fragment completes the message.
    pub is_last: bool,
}

/// Metadata of a continuation fragment.
#[derive(Clone, Copy, Debug, PartialEq, Eq)]
pub struct ContinuationFrameHeader {
    /// Key of the logical message.
    pub message_key: MessageKey,
    /// Sequence number of this fragment.
    pub sequence: Option<FrameSequence>,
    /// Bytes of body in this fragment.
    pub body_len: usize,
    /// Whether this fragment completes the message.
    pub is_last: bool,
}

/// Metadata of either kind of fragment.
#[derive(Clone, Copy, Debug, PartialEq, Eq)]
pub enum AssemblyFrameHeader {
    /// The fragment opening a message.
    First(FirstFrameHeader),
    /// A fragment continuing a message.
    Continuation(ContinuationFrameHeader),
}

/// A parsed assembly header and the number of bytes it occupies.
#[derive(Clone, Copy, Debug, PartialEq, Eq)]
pub struct ParsedFrameHeader {
    header: AssemblyFrameHeader,
    header_len: usize,
}

impl ParsedFrameHeader {
    /// Pair a header with its encoded length.
    pub fn new(header: AssemblyFrameHeader, header_len: usize) -> (r: Self)
        ensures
            r.spec_header() == header,
            r.spec_header_len() == header_len,
    {
        ParsedFrameHeader { header, header_len }
    }

    /// The parsed header.
    pub closed spec fn spec_header(&self) -> AssemblyFrameHeader {
        self.header
    }

    /// The encoded length of the header.
    pub closed spec fn spec_header_len(&self) -> usize {
        self.header_len
    }

    /// Return the parsed header.
    pub fn header(&self) -> (h: &AssemblyFrameHeader)
        ensures
            *h == self.spec_header(),
    {
        &self.header
    }

    /// Return the encoded length of the header.
    pub fn header_len(&self) -> (n: usize)
        ensures
            n == self.spec_header_len(),
    {
        self.header_len
    }
}

/// Class of an assembly error, mirroring the I/O error kinds it maps to.
#[derive(Clone, Copy, Debug, PartialEq, Eq, Structural)]
pub enum AssemblyErrorKind {
    /// The payload ended early.
    UnexpectedEof,
    /// The payload is malformed.
    InvalidData,
}

/// Reasons an assembly payload is rejected or cannot be built.
#[derive(Clone, Copy, Debug, PartialEq, Eq, Structural)]
pub enum AssemblyError {
    /// The payload is empty.
    MissingTag,
    /// The tag byte is neither first nor continuation.
    UnknownTag(u8),
    /// A first fragment is shorter than its metadata.
    FirstTruncated,
    /// A first fragment declares more body than the whole message.
    FirstBodyExceedsTotal,
    /// A first fragment's length disagrees with its declared body length.
    FirstLengthMismatch,
    /// A first fragment's logical header disagrees with its declared total.
    FirstLogicalMismatch,
    /// A first-fragment body does not fit in `u32`.
    FirstBodyTooLong,
    /// A continuation fragment is shorter than its metadata.
    ContinuationTruncated,
    /// A continuation's last flag is neither 0 nor 1.
    InvalidLastFlag(u8),
    /// A continuation's length disagrees with its declared body length.
    ContinuationLengthMismatch,
    /// A continuation body does not fit in `u32`.
    ContinuationBodyTooLong,
}

impl AssemblyError {
    /// The I/O error kind this error maps to.
    pub fn kind(&self) -> (k: AssemblyErrorKind)
        ensures
            k == (match *self {
                AssemblyError::MissingTag | AssemblyError::FirstTruncated
                | AssemblyError::ContinuationTruncated => AssemblyErrorKind::UnexpectedEof,
                _ => AssemblyErrorKind::InvalidData,
            }),
    {
        match self {
            AssemblyError::MissingTag | AssemblyError::FirstTruncated
            | AssemblyError::ContinuationTruncated => AssemblyErrorKind::UnexpectedEof,
            _ => AssemblyErrorKind::InvalidData,
        }
    }

    /// Text of [`Self::message`].
    pub open spec fn spec_message(self) -> &'static str {
        match self {
            AssemblyError::MissingTag => "missing Hotline assembly tag",
            AssemblyError::UnknownTag(_) => "unknown Hotline assembly frame tag",
            AssemblyError::FirstTruncated => "Hotline first-frame payload shorter than metadata header",
            AssemblyError::FirstBodyExceedsTotal => "Hotline first-frame body length exceeds total length",
            AssemblyError::FirstLengthMismatch => "Hotline first-frame payload length does not match declared body length",
            AssemblyError::FirstLogicalMismatch => "Hotline first-frame logical header length does not match declared total length",
            AssemblyError::FirstBodyTooLong => "Hotline first-frame body length exceeds u32",
            AssemblyError::ContinuationTruncated => "Hotline continuation payload shorter than metadata header",
            AssemblyError::InvalidLastFlag(_) => "invalid Hotline continuation last-flag value",
            AssemblyError::ContinuationLengthMismatch => "Hotline continuation payload length does not match declared body length",
            AssemblyError::ContinuationBodyTooLong => "Hotline continuation body length exceeds u32",
        }
    }

    /// Human-readable description; for the two errors that carry a byte
    /// the byte's value follows the text.
    pub fn message(&self) -> (m: &'static str)
        ensures
            m == self.spec_message(),
    {
        match self {
            AssemblyError::MissingTag => "missing Hotline assembly tag",
            AssemblyError::UnknownTag(_) => "unknown Hotline assembly frame tag",
            AssemblyError::FirstTruncated => "Hotline first-frame payload shorter than metadata header",
            AssemblyError::FirstBodyExceedsTotal => "Hotline first-frame body length exceeds total length",
            AssemblyError::FirstLengthMismatch => "Hotline first-frame payload length does not match declared body length",
            AssemblyError::FirstLogicalMismatch => "Hotline first-frame logical header length does not match declared total length",
            AssemblyError::FirstBodyTooLong => "Hotline first-frame body length exceeds u32",
            AssemblyError::ContinuationTruncated => "Hotline continuation payload shorter than metadata header",
            AssemblyError::InvalidLastFlag(_) => "invalid Hotline continuation last-flag value",
            AssemblyError::ContinuationLengthMismatch => "Hotline continuation payload length does not match declared body length",
            AssemblyError::ContinuationBodyTooLong => "Hotline continuation body length exceeds u32",
        }
    }
}

/// Big-endian value of eight bytes.
pub open spec fn be_u64(b: Seq<u8>) -> u64 {
    (be_u32(b.subrange(0, 4)) as int * 0x1_0000_0000 + be_u32(b.subrange(4, 8)) as int) as u64
}

/// Big-endian bytes of a `u64`.
pub open spec fn u64_bytes(x: u64) -> Seq<u8> {
    u32_bytes((x / 0x1_0000_0000) as u32) + u32_bytes((x % 0x1_0000_0000) as u32)
}

proof fn lemma_u64_round_trip(x: u64)
    ensures
        u64_bytes(x).len() == 8,
        be_u64(u64_bytes(x)) == x,
{
    let hi = (x / 0x1_0000_0000) as u32;
    let lo = (x % 0x1_0000_0000) as u32;
    lemma_u32_round_trip(hi);
    lemma_u32_round_trip(lo);
    assert(u64_bytes(x).subrange(0, 4) =~= u32_bytes(hi));
    assert(u64_bytes(x).subrange(4, 8) =~= u32_bytes(lo));
}

/// Key of a transaction: the reply bit, the type and the identifier.
pub open spec fn spec_message_key(h: FrameHeader) -> u64 {
    ((h.is_reply % 2) as int * 0x8000_0000_0000_0000 + h.ty as int * 0x1_0000_0000 + h.id as int) as u64
}

/// First-fragment assembly payload for a fragment of `h` carrying `body`.
pub open spec fn spec_first_frame_payload(key: u64, h: FrameHeader, body: Seq<u8>) -> Seq<u8> {
    seq![FIRST_FRAME_TAG] + u64_bytes(key) + u32_bytes(h.total_size) + u32_bytes(body.len() as u32)
        + header_bytes(with_data_size(h, h.total_size)) + body
}

/// Continuation assembly payload.
pub open spec fn spec_continuation_frame_payload(key: u64, sequence: u32, is_last: bool, body: Seq<u8>) -> Seq<u8> {
    seq![CONTINUATION_FRAME_TAG] + u64_bytes(key) + u32_bytes(sequence)
        + seq![if is_last { 1u8 } else { 0u8 }] + u32_bytes(body.len() as u32) + body
}

/// Result of parsing a first-fragment assembly payload.
pub open spec fn spec_parse_first(p: Seq<u8>) -> Result<(AssemblyFrameHeader, usize), AssemblyError> {
    if p.len() < FIRST_FRAME_HEADER_LEN + HEADER_LEN {
        Err(AssemblyError::FirstTruncated)
    } else {
        let key = be_u64(p.subrange(1, 9));
        let total = be_u32(p.subrange(9, 13));
        let body = be_u32(p.subrange(13, 17));
        let logical = header_from(p.skip(FIRST_FRAME_HEADER_LEN as int));
        if body > total {
            Err(AssemblyError::FirstBodyExceedsTotal)
        } else if p.len() != FIRST_FRAME_HEADER_LEN + HEADER_LEN + body {
            Err(AssemblyError::FirstLengthMismatch)
        } else if logical.total_size != total || logical.data_size != logical.total_size {
            Err(AssemblyError::FirstLogicalMismatch)
        } else {
            Ok((
                AssemblyFrameHeader::First(FirstFrameHeader {
                    message_key: MessageKey(key),
                    metadata_len: HEADER_LEN,
                    body_len: body as usize,
                    total_body_len: Some(total as usize),
                    is_last: body == total,
                }),
                FIRST_FRAME_HEADER_LEN,
            ))
        }
    }
}

/// Result of parsing a continuation assembly payload.
pub open spec fn spec_parse_continuation(p: Seq<u8>) -> Result<(AssemblyFrameHeader, usize), AssemblyError> {
    if p.len() < CONTINUATION_FRAME_HEADER_LEN {
        Err(AssemblyError::ContinuationTruncated)
    } else {
        let key = be_u64(p.subrange(1, 9));
        let sequence = be_u32(p.subrange(9, 13));
        let flag = p[13];
        let body = be_u32(p.subrange(14, 18));
        if flag != 0 && flag != 1 {
            Err(AssemblyError::InvalidLastFlag(flag))
        } else if p.len() != CONTINUATION_FRAME_HEADER_LEN + body {
            Err(AssemblyError::ContinuationLengthMismatch)
        } else {
            Ok((
                AssemblyFrameHeader::Continuation(ContinuationFrameHeader {
                    message_key: MessageKey(key),
                    sequence: Some(FrameSequence(sequence)),
                    body_len: body as usize,
                    is_last: flag == 1,
                }),
                CONTINUATION_FRAME_HEADER_LEN,
            ))
        }
    }
}

/// Result of parsing an assembly payload of either kind.
pub open spec fn spec_parse_frame_header(p: Seq<u8>) -> Result<(AssemblyFrameHeader, usize), AssemblyError> {
    if p.len() == 0 {
        Err(AssemblyError::MissingTag)
    } else if p[0] == FIRST_FRAME_TAG {
        spec_parse_first(p)
    } else if p[0] == CONTINUATION_FRAME_TAG {
        spec_parse_continuation(p)
    } else {
        Err(AssemblyError::UnknownTag(p[0]))
    }
}

/// The parse result as a pair of header and length, for contracts.
pub open spec fn parsed_view(r: Result<ParsedFrameHeader, AssemblyError>) -> Result<(AssemblyFrameHeader, usize), AssemblyError> {
    match r {
        Ok(p) => Ok((p.spec_header(), p.spec_header_len())),
        Err(e) => Err(e),
    }
}

/// Derive the key that groups the fragments of one logical transaction.
pub fn message_key_for(header: &FrameHeader) -> (k: MessageKey)
    ensures
        k.0 == spec_message_key(*header),
{
    let ir: u8 = header.is_reply;
    let r: u64 = (ir & 1) as u64;
    let t: u64 = header.ty as u64;
    let i: u64 = header.id as u64;
    let key = (r << 63) | (t << 32) | i;
    assert(key == ((ir % 2) as int * 0x8000_0000_0000_0000 + t as int * 0x1_0000_0000 + i as int) as u64) by (bit_vector)
        requires
            r == (ir & 1) as u64,
            t < 0x1_0000,
            i < 0x1_0000_0000,
            key == (r << 63) | (t << 32) | i;
    MessageKey(key)
}

/// Distinct transactions, as told apart by reply bit, type and identifier,
/// get distinct message keys.
pub proof fn lemma_message_key_injective(a: FrameHeader, b: FrameHeader)
    requires
        a.is_reply % 2 != b.is_reply % 2 || a.ty != b.ty || a.id != b.id,
    ensures
        spec_message_key(a) != spec_message_key(b),
{
}

/// Append a `u64` in big-endian order.
fn push_u64(out: &mut Vec<u8>, x: u64)
    ensures
        final(out)@ == old(out)@ + u64_bytes(x),
{
    push_u32(out, (x / 0x1_0000_0000) as u32);
    push_u32(out, (x % 0x1_0000_0000) as u32);
    assert(final(out)@ =~= old(out)@ + u64_bytes(x));
}

/// Serialise a copy of `header` normalised to `data_size == total_size`.
fn logical_header_bytes(header: &FrameHeader) -> (v: Vec<u8>)
    ensures
        v@ == header_bytes(with_data_size(*header, header.total_size)),
{
    let mut logical = *header;
    logical.data_size = logical.total_size;
    logical.to_vec()
}

/// Build the internal payload for the first physical fragment of the
/// transaction `header`, carrying `body`.
pub fn first_frame_payload(message_key: MessageKey, header: &FrameHeader, body: &[u8]) -> (r: Result<Vec<u8>, AssemblyError>)
    ensures
        body@.len() > u32::MAX ==> r == Err::<Vec<u8>, AssemblyError>(AssemblyError::FirstBodyTooLong),
        body@.len() <= u32::MAX ==> (r matches Ok(v) && v@ == spec_first_frame_payload(message_key.0, *header, body@)),
{
    if body.len() > 0xffff_ffff {
        return Err(AssemblyError::FirstBodyTooLong);
    }
    let body_len = body.len() as u32;
    let mut payload: Vec<u8> = Vec::new();
    payload.push(FIRST_FRAME_TAG);
    push_u64(&mut payload, message_key.0);
    push_u32(&mut payload, header.total_size);
    push_u32(&mut payload, body_len);
    let metadata = logical_header_bytes(header);
    append_bytes(&mut payload, metadata.as_slice());
    append_bytes(&mut payload, body);
    assert(payload@ =~= spec_first_frame_payload(message_key.0, *header, body@));
    Ok(payload)
}

/// Build the internal payload for a continuation fragment.
pub fn continuation_frame_payload(message_key: MessageKey, sequence: FrameSequence, is_last: bool, body: &[u8]) -> (r: Result<Vec<u8>, AssemblyError>)
    ensures
        body@.len() > u32::MAX ==> r == Err::<Vec<u8>, AssemblyError>(AssemblyError::ContinuationBodyTooLong),
        body@.len() <= u32::MAX ==> (r matches Ok(v) && v@ == spec_continuation_frame_payload(message_key.0, sequence.0, is_last, body@)),
{
    if body.len() > 0xffff_ffff {
        return Err(AssemblyError::ContinuationBodyTooLong);
    }
    let body_len = body.len() as u32;
    let mut payload: Vec<u8> = Vec::new();
    payload.push(CONTINUATION_FRAME_TAG);
    push_u64(&mut payload, message_key.0);
    push_u32(&mut payload, sequence.0);
    payload.push(if is_last { 1u8 } else { 0u8 });
    push_u32(&mut payload, body_len);
    append_bytes(&mut payload, body);
    assert(payload@ =~= spec_continuation_frame_payload(message_key.0, sequence.0, is_last, body@));
    Ok(payload)
}

/// Cursor over an assembly payload that advances on each read; reads
/// stay within the payload.
struct PayloadCursor<'a> {
    payload: &'a [u8],
    pos: usize,
}

impl<'a> PayloadCursor<'a> {
    fn new(payload: &'a [u8]) -> (c: Self)
        ensures
            c.payload@ == payload@,
            c.pos == 0,
    {
        PayloadCursor { payload, pos: 0 }
    }

    fn u8(&mut self) -> (v: u8)
        requires
            old(self).pos + 1 <= old(self).payload@.len() <= usize::MAX,
        ensures
            v == old(self).payload@[old(self).pos as int],
            final(self).pos == old(self).pos + 1,
            final(self).payload@ == old(self).payload@,
    {
        let v = self.payload[self.pos];
        self.pos = self.pos + 1;
        v
    }

    fn u32(&mut self) -> (v: u32)
        requires
            old(self).pos + 4 <= old(self).payload@.len() <= usize::MAX,
        ensures
            v == be_u32(old(self).payload@.subrange(old(self).pos as int, old(self).pos + 4)),
            final(self).pos == old(self).pos + 4,
            final(self).payload@ == old(self).payload@,
    {
        let v = read_u32_at(self.payload, self.pos);
        self.pos = self.pos + 4;
        v
    }

    fn u64(&mut self) -> (v: u64)
        requires
            old(self).pos + 8 <= old(self).payload@.len() <= usize::MAX,
        ensures
            v == be_u64(old(self).payload@.subrange(old(self).pos as int, old(self).pos + 8)),
            final(self).pos == old(self).pos + 8,
            final(self).payload@ == old(self).payload@,
    {
        let ghost s = self.payload@.subrange(self.pos as int, self.pos + 8);
        let hi = read_u32_at(self.payload, self.pos) as u64;
        let lo = read_u32_at(self.payload, self.pos + 4) as u64;
        assert(s.subrange(0, 4) =~= self.payload@.subrange(self.pos as int, self.pos + 4));
        assert(s.subrange(4, 8) =~= self.payload@.subrange(self.pos + 4, self.pos + 8));
        self.pos = self.pos + 8;
        hi * 0x1_0000_0000 + lo
    }
}

/// Map a raw tag byte to its fragment kind: `Some(true)` for a first
/// fragment, `Some(false)` for a continuation.
fn parse_frame_tag(tag: u8) -> (r: Result<bool, AssemblyError>)
    ensures
        tag == FIRST_FRAME_TAG ==> r == Ok::<bool, AssemblyError>(true),
        tag == CONTINUATION_FRAME_TAG ==> r == Ok::<bool, AssemblyError>(false),
        tag != FIRST_FRAME_TAG && tag != CONTINUATION_FRAME_TAG ==> r == Err::<bool, AssemblyError>(AssemblyError::UnknownTag(tag)),
{
    if tag == FIRST_FRAME_TAG {
        Ok(true)
    } else if tag == CONTINUATION_FRAME_TAG {
        Ok(false)
    } else {
        Err(AssemblyError::UnknownTag(tag))
    }
}

/// Interpret a last-flag byte, rejecting values other than 0 and 1.
fn parse_last_flag(flag: u8) -> (r: Result<bool, AssemblyError>)
    ensures
        flag == 0 ==> r == Ok::<bool, AssemblyError>(false),
        flag == 1 ==> r == Ok::<bool, AssemblyError>(true),
        flag > 1 ==> r == Err::<bool, AssemblyError>(AssemblyError::InvalidLastFlag(flag)),
{
    if flag == 0 {
        Ok(false)
    } else if flag == 1 {
        Ok(true)
    } else {
        Err(AssemblyError::InvalidLastFlag(flag))
    }
}

/// Parse a first-fragment assembly payload.
fn parse_first_frame_header(payload: &[u8]) -> (r: Result<ParsedFrameHeader, AssemblyError>)
    requires
        payload@.len() > 0,
        payload@[0] == FIRST_FRAME_TAG,
    ensures
        parsed_view(r) == spec_parse_first(payload@),
{
    if payload.len() < FIRST_FRAME_HEADER_LEN + HEADER_LEN {
        return Err(AssemblyError::FirstTruncated);
    }
    let mut cursor = PayloadCursor::new(payload);
    let _tag = cursor.u8();
    let message_key = cursor.u64();
    let total_body_len = cursor.u32() as usize;
    let body_len = cursor.u32() as usize;
    if body_len > total_body_len {
        return Err(AssemblyError::FirstBodyExceedsTotal);
    }
    if payload.len() - (FIRST_FRAME_HEADER_LEN + HEADER_LEN) != body_len {
        return Err(AssemblyError::FirstLengthMismatch);
    }
    let logical = FrameHeader::from_slice_at(payload, FIRST_FRAME_HEADER_LEN);
    if logical.total_size as usize != total_body_len || logical.data_size != logical.total_size {
        return Err(AssemblyError::FirstLogicalMismatch);
    }
    Ok(ParsedFrameHeader::new(
        AssemblyFrameHeader::First(FirstFrameHeader {
            message_key: MessageKey(message_key),
            metadata_len: HEADER_LEN,
            body_len,
            total_body_len: Some(total_body_len),
            is_last: body_len == total_body_len,
        }),
        FIRST_FRAME_HEADER_LEN,
    ))
}

/// Parse a continuation assembly payload.
fn parse_continuation_frame_header(payload: &[u8]) -> (r: Result<ParsedFrameHeader, AssemblyError>)
    requires
        payload@.len() > 0,
        payload@[0] == CONTINUATION_FRAME_TAG,
    ensures
        parsed_view(r) == spec_parse_continuation(payload@),
{
    if payload.len() < CONTINUATION_FRAME_HEADER_LEN {
        return Err(AssemblyError::ContinuationTruncated);
    }
    let mut cursor = PayloadCursor::new(payload);
    let _tag = cursor.u8();
    let message_key = cursor.u64();
    let sequence = cursor.u32();
    let is_last = match parse_last_flag(cursor.u8()) {
        Ok(b) => b,
        Err(e) => return Err(e),
    };
    let body_len = cursor.u32() as usize;
    if payload.len() - CONTINUATION_FRAME_HEADER_LEN != body_len {
        return Err(AssemblyError::ContinuationLengthMismatch);
    }
    Ok(ParsedFrameHeader::new(
        AssemblyFrameHeader::Continuation(ContinuationFrameHeader {
            message_key: MessageKey(message_key),
            sequence: Some(FrameSequence(sequence)),
            body_len,
            is_last,
        }),
        CONTINUATION_FRAME_HEADER_LEN,
    ))
}

/// Parser for the internal Hotline assembly payloads.
#[derive(Clone, Copy, Debug, Default)]
pub struct HotlineMessageAssembler;

impl HotlineMessageAssembler {
    /// Create a new assembler.
    pub fn new() -> (a: Self)
        ensures
            a == HotlineMessageAssembler,
    {
        HotlineMessageAssembler
    }

    /// Parse the assembly header at the front of `payload`.
    pub fn parse_frame_header(&self, payload: &[u8]) -> (r: Result<ParsedFrameHeader, AssemblyError>)
        ensures
            parsed_view(r) == spec_parse_frame_header(payload@),
    {
        if payload.len() == 0 {
            return Err(AssemblyError::MissingTag);
        }
        match parse_frame_tag(payload[0]) {
            Ok(true) => parse_first_frame_header(payload),
            Ok(false) => parse_continuation_frame_header(payload),
            Err(e) => Err(e),
        }
    }
}

/// Parsing a first-fragment payload gives back the key, the fragment's
/// body length and the transaction's total, and reports the fragment as
/// last exactly when it carries the whole body.
#[verifier::rlimit(50)]
#[verifier::spinoff_prover]
pub proof fn lemma_parse_first_frame_payload(key: u64, h: FrameHeader, body: Seq<u8>)
    requires
        body.len() <= h.total_size,
    ensures
        spec_parse_frame_header(spec_first_frame_payload(key, h, body)) == Ok::<(AssemblyFrameHeader, usize), AssemblyError>((
            AssemblyFrameHeader::First(FirstFrameHeader {
                message_key: MessageKey(key),
                metadata_len: HEADER_LEN,
                body_len: body.len() as usize,
                total_body_len: Some(h.total_size as usize),
                is_last: body.len() == h.total_size,
            }),
            FIRST_FRAME_HEADER_LEN,
        )),
        spec_first_frame_payload(key, h, body).subrange(FIRST_FRAME_HEADER_LEN as int, FIRST_FRAME_HEADER_LEN + HEADER_LEN)
            == header_bytes(with_data_size(h, h.total_size)),
{
    let p = spec_first_frame_payload(key, h, body);
    let lh = with_data_size(h, h.total_size);
    lemma_u64_round_trip(key);
    lemma_u32_round_trip(h.total_size);
    lemma_u32_round_trip(body.len() as u32);
    lemma_header_bytes_len(lh);
    assert(p.subrange(1, 9) =~= u64_bytes(key));
    assert(p.subrange(9, 13) =~= u32_bytes(h.total_size));
    assert(p.subrange(13, 17) =~= u32_bytes(body.len() as u32));
    assert(p.skip(FIRST_FRAME_HEADER_LEN as int) =~= header_bytes(lh) + body);
    lemma_header_prefix(lh, body);
    assert(p.subrange(FIRST_FRAME_HEADER_LEN as int, FIRST_FRAME_HEADER_LEN + HEADER_LEN) =~= header_bytes(lh));
}

/// Parsing a continuation payload gives back its key, sequence number,
/// last flag and body length.
#[verifier::rlimit(50)]
#[verifier::spinoff_prover]
pub proof fn lemma_parse_continuation_frame_payload(key: u64, sequence: u32, is_last: bool, body: Seq<u8>)
    requires
        body.len() <= u32::MAX,
    ensures
        spec_parse_frame_header(spec_continuation_frame_payload(key, sequence, is_last, body)) == Ok::<(AssemblyFrameHeader, usize), AssemblyError>((
            AssemblyFrameHeader::Continuation(ContinuationFrameHeader {
                message_key: MessageKey(key),
                sequence: Some(FrameSequence(sequence)),
                body_len: body.len() as usize,
                is_last,
            }),
            CONTINUATION_FRAME_HEADER_LEN,
        )),
{
    let p = spec_continuation_frame_payload(key, sequence, is_last, body);
    lemma_u64_round_trip(key);
    lemma_u32_round_trip(sequence);
    lemma_u32_round_trip(body.len() as u32);
    assert(p.subrange(1, 9) =~= u64_bytes(key));
    assert(p.subrange(9, 13) =~= u32_bytes(sequence));
    assert(p.subrange(14, 18) =~= u32_bytes(body.len() as u32));
}

} // verus!
