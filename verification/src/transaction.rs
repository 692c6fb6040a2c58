//! Hotline transaction primitives: big-endian integers, the 20-byte frame
//! header, whole transactions and their byte layout.

use vstd::prelude::*;

verus! {

/// Length of a Hotline frame header in bytes.
pub const HEADER_LEN: usize = 20;

/// Maximum payload bytes carried by one physical frame (32 KiB).
pub const MAX_FRAME_DATA: usize = 32768;

/// Maximum logical payload size of one transaction (1 MiB).
pub const MAX_PAYLOAD_SIZE: usize = 1048576;

/// Big-endian value of two bytes.
pub open spec fn be_u16(b: Seq<u8>) -> u16 {
    (b[0] as int * 256 + b[1] as int) as u16
}

/// Big-endian value of four bytes.
pub open spec fn be_u32(b: Seq<u8>) -> u32 {
    (b[0] as int * 16777216 + b[1] as int * 65536 + b[2] as int * 256 + b[3] as int) as u32
}

/// Big-endian bytes of a `u16`.
pub open spec fn u16_bytes(x: u16) -> Seq<u8> {
    seq![(x / 256) as u8, (x % 256) as u8]
}

/// Big-endian bytes of a `u32`.
pub open spec fn u32_bytes(x: u32) -> Seq<u8> {
    seq![
        (x / 16777216) as u8,
        ((x / 65536) % 256) as u8,
        ((x / 256) % 256) as u8,
        (x % 256) as u8,
    ]
}

/// Reading back the big-endian bytes of a `u16` gives the value.
pub proof fn lemma_u16_round_trip(x: u16)
    ensures
        be_u16(u16_bytes(x)) == x,
{
}

/// Writing back the value read from two bytes gives the bytes.
pub proof fn lemma_u16_bytes_round_trip(b: Seq<u8>)
    requires
        b.len() == 2,
    ensures
        u16_bytes(be_u16(b)) == b,
{
    assert(u16_bytes(be_u16(b)) =~= b);
}

/// Reading back the big-endian bytes of a `u32` gives the value.
pub proof fn lemma_u32_round_trip(x: u32)
    ensures
        be_u32(u32_bytes(x)) == x,
{
}

/// Writing back the value read from four bytes gives the bytes.
pub proof fn lemma_u32_bytes_round_trip(b: Seq<u8>)
    requires
        b.len() == 4,
    ensures
        u32_bytes(be_u32(b)) == b,
{
    let (b0, b1, b2, b3) = (b[0] as int, b[1] as int, b[2] as int, b[3] as int);
    let v = b0 * 16777216 + b1 * 65536 + b2 * 256 + b3;
    assert(v / 16777216 == b0 && (v / 65536) % 256 == b1 && (v / 256) % 256 == b2 && v % 256
        == b3 && v < 4294967296) by (nonlinear_arith)
        requires
            v == b0 * 16777216 + b1 * 65536 + b2 * 256 + b3,
            0 <= b0 < 256,
            0 <= b1 < 256,
            0 <= b2 < 256,
            0 <= b3 < 256,
    ;
    assert(u32_bytes(be_u32(b)) =~= b);
}

/// The 20-byte header that precedes every Hotline frame.
///
/// | field      | offset | size |
/// |------------|--------|------|
/// | flags      | 0      | 1    |
/// | is_reply   | 1      | 1    |
/// | ty         | 2      | 2    |
/// | id         | 4      | 4    |
/// | error      | 8      | 4    |
/// | total_size | 12     | 4    |
/// | data_size  | 16     | 4    |
///
/// Multi-byte fields are big-endian.
#[derive(Clone, Copy, Debug, PartialEq, Eq, Structural)]
pub struct FrameHeader {
    /// Reserved; must be zero.
    pub flags: u8,
    /// 0 for a request, 1 for a reply.
    pub is_reply: u8,
    /// Transaction type identifier.
    pub ty: u16,
    /// Transaction identifier chosen by the sender.
    pub id: u32,
    /// Error code (0 means success).
    pub error: u32,
    /// Size of the whole logical payload across fragments.
    pub total_size: u32,
    /// Size of the payload carried by this frame.
    pub data_size: u32,
}

/// Wire bytes of a header.
pub open spec fn header_bytes(h: FrameHeader) -> Seq<u8> {
    seq![h.flags, h.is_reply] + u16_bytes(h.ty) + u32_bytes(h.id) + u32_bytes(h.error)
        + u32_bytes(h.total_size) + u32_bytes(h.data_size)
}

/// Header read from the first 20 bytes of `b`.
pub open spec fn header_from(b: Seq<u8>) -> FrameHeader {
    FrameHeader {
        flags: b[0],
        is_reply: b[1],
        ty: be_u16(b.subrange(2, 4)),
        id: be_u32(b.subrange(4, 8)),
        error: be_u32(b.subrange(8, 12)),
        total_size: be_u32(b.subrange(12, 16)),
        data_size: be_u32(b.subrange(16, 20)),
    }
}

/// `h` with its `data_size` replaced.
pub open spec fn with_data_size(h: FrameHeader, data_size: u32) -> FrameHeader {
    FrameHeader { data_size, ..h }
}

pub proof fn lemma_header_bytes_len(h: FrameHeader)
    ensures
        header_bytes(h).len() == HEADER_LEN,
{
}

/// Reading back the bytes of a header gives the header.
pub proof fn lemma_header_round_trip(h: FrameHeader)
    ensures
        header_from(header_bytes(h)) == h,
{
    let b = header_bytes(h);
    assert(b.subrange(2, 4) =~= u16_bytes(h.ty));
    assert(b.subrange(4, 8) =~= u32_bytes(h.id));
    assert(b.subrange(8, 12) =~= u32_bytes(h.error));
    assert(b.subrange(12, 16) =~= u32_bytes(h.total_size));
    assert(b.subrange(16, 20) =~= u32_bytes(h.data_size));
    lemma_u16_round_trip(h.ty);
    lemma_u32_round_trip(h.id);
    lemma_u32_round_trip(h.error);
    lemma_u32_round_trip(h.total_size);
    lemma_u32_round_trip(h.data_size);
}

/// A header is read from the first 20 bytes only.
pub proof fn lemma_header_prefix(h: FrameHeader, tail: Seq<u8>)
    ensures
        header_from(header_bytes(h) + tail) == h,
{
    let b = header_bytes(h) + tail;
    assert(b.subrange(2, 4) =~= header_bytes(h).subrange(2, 4));
    assert(b.subrange(4, 8) =~= header_bytes(h).subrange(4, 8));
    assert(b.subrange(8, 12) =~= header_bytes(h).subrange(8, 12));
    assert(b.subrange(12, 16) =~= header_bytes(h).subrange(12, 16));
    assert(b.subrange(16, 20) =~= header_bytes(h).subrange(16, 20));
    lemma_header_round_trip(h);
}

/// Writing back a header read from bytes gives those bytes.
pub proof fn lemma_header_bytes_round_trip(b: Seq<u8>)
    requires
        b.len() >= HEADER_LEN,
    ensures
        header_bytes(header_from(b)) == b.take(HEADER_LEN as int),
{
    lemma_u16_bytes_round_trip(b.subrange(2, 4));
    lemma_u32_bytes_round_trip(b.subrange(4, 8));
    lemma_u32_bytes_round_trip(b.subrange(8, 12));
    lemma_u32_bytes_round_trip(b.subrange(12, 16));
    lemma_u32_bytes_round_trip(b.subrange(16, 20));
    assert(header_bytes(header_from(b)) =~= b.take(HEADER_LEN as int));
}

/// Read a big-endian `u16` at `off`.
pub fn read_u16_at(b: &[u8], off: usize) -> (r: u16)
    requires
        off + 2 <= b@.len(),
    ensures
        r == be_u16(b@.subrange(off as int, off + 2)),
{
    (b[off] as u16) * 256 + (b[off + 1] as u16)
}

/// Read a big-endian `u32` at `off`.
pub fn read_u32_at(b: &[u8], off: usize) -> (r: u32)
    requires
        off + 4 <= b@.len(),
    ensures
        r == be_u32(b@.subrange(off as int, off + 4)),
{
    (b[off] as u32) * 16777216 + (b[off + 1] as u32) * 65536 + (b[off + 2] as u32) * 256 + (
    b[off + 3] as u32)
}

/// Append the big-endian bytes of a `u16`.
pub fn push_u16(out: &mut Vec<u8>, x: u16)
    ensures
        final(out)@ == old(out)@ + u16_bytes(x),
{
    out.push((x / 256) as u8);
    out.push((x % 256) as u8);
    assert(final(out)@ =~= old(out)@ + u16_bytes(x));
}

/// Append the big-endian bytes of a `u32`.
pub fn push_u32(out: &mut Vec<u8>, x: u32)
    ensures
        final(out)@ == old(out)@ + u32_bytes(x),
{
    out.push((x / 16777216) as u8);
    out.push(((x / 65536) % 256) as u8);
    out.push(((x / 256) % 256) as u8);
    out.push((x % 256) as u8);
    assert(final(out)@ =~= old(out)@ + u32_bytes(x));
}

impl FrameHeader {
    /// Read a header from the first 20 bytes of `bytes`.
    pub fn from_prefix(bytes: &[u8]) -> (h: FrameHeader)
        requires
            bytes@.len() >= HEADER_LEN,
        ensures
            h == header_from(bytes@),
    {
        FrameHeader {
            flags: bytes[0],
            is_reply: bytes[1],
            ty: read_u16_at(bytes, 2),
            id: read_u32_at(bytes, 4),
            error: read_u32_at(bytes, 8),
            total_size: read_u32_at(bytes, 12),
            data_size: read_u32_at(bytes, 16),
        }
    }

    /// Read a header from the 20 bytes starting at `off`.
    pub fn from_slice_at(bytes: &[u8], off: usize) -> (h: FrameHeader)
        requires
            off + HEADER_LEN <= bytes@.len(),
        ensures
            h == header_from(bytes@.skip(off as int)),
    {
        let ghost s = bytes@.skip(off as int);
        assert(s.subrange(2, 4) =~= bytes@.subrange(off + 2, off + 4));
        assert(s.subrange(4, 8) =~= bytes@.subrange(off + 4, off + 8));
        assert(s.subrange(8, 12) =~= bytes@.subrange(off + 8, off + 12));
        assert(s.subrange(12, 16) =~= bytes@.subrange(off + 12, off + 16));
        assert(s.subrange(16, 20) =~= bytes@.subrange(off + 16, off + 20));
        FrameHeader {
            flags: bytes[off],
            is_reply: bytes[off + 1],
            ty: read_u16_at(bytes, off + 2),
            id: read_u32_at(bytes, off + 4),
            error: read_u32_at(bytes, off + 8),
            total_size: read_u32_at(bytes, off + 12),
            data_size: read_u32_at(bytes, off + 16),
        }
    }

    /// Read a header from its 20 wire bytes.
    pub fn from_bytes(bytes: &[u8; HEADER_LEN]) -> (h: FrameHeader)
        ensures
            h == header_from(bytes@),
    {
        Self::from_prefix(bytes.as_slice())
    }

    /// Append the 20 wire bytes of this header.
    pub fn append_to(&self, out: &mut Vec<u8>)
        ensures
            final(out)@ == old(out)@ + header_bytes(*self),
    {
        out.push(self.flags);
        out.push(self.is_reply);
        push_u16(out, self.ty);
        push_u32(out, self.id);
        push_u32(out, self.error);
        push_u32(out, self.total_size);
        push_u32(out, self.data_size);
        assert(final(out)@ =~= old(out)@ + header_bytes(*self));
    }

    /// The 20 wire bytes of this header.
    pub fn to_vec(&self) -> (v: Vec<u8>)
        ensures
            v@ == header_bytes(*self),
    {
        let mut v = Vec::new();
        self.append_to(&mut v);
        assert(v@ =~= header_bytes(*self));
        v
    }
}


/// Append every byte of `src` to `out`.
pub fn append_bytes(out: &mut Vec<u8>, src: &[u8])
    ensures
        final(out)@ == old(out)@ + src@,
{
    let ghost start = out@;
    let mut i: usize = 0;
    while i < src.len()
        invariant
            i <= src@.len(),
            out@ == start + src@.take(i as int),
        decreases src@.len() - i,
    {
        out.push(src[i]);
        i = i + 1;
        assert(out@ =~= start + src@.take(i as int));
    }
    assert(src@.take(i as int) =~= src@);
}

/// Append `src[from..to]` to `out`.
pub fn append_range(out: &mut Vec<u8>, src: &[u8], from: usize, to: usize)
    requires
        from <= to <= src@.len(),
    ensures
        final(out)@ == old(out)@ + src@.subrange(from as int, to as int),
{
    let ghost start = out@;
    let mut i: usize = from;
    while i < to
        invariant
            from <= i <= to <= src@.len(),
            out@ == start + src@.subrange(from as int, i as int),
        decreases to - i,
    {
        out.push(src[i]);
        i = i + 1;
        assert(out@ =~= start + src@.subrange(from as int, i as int));
    }
}

/// Copy of `src[from..to]`.
pub fn copy_range(src: &[u8], from: usize, to: usize) -> (out: Vec<u8>)
    requires
        from <= to <= src@.len(),
    ensures
        out@ == src@.subrange(from as int, to as int),
{
    let mut out = Vec::new();
    let mut i: usize = from;
    while i < to
        invariant
            from <= i <= to <= src@.len(),
            out@ == src@.subrange(from as int, i as int),
        decreases to - i,
    {
        out.push(src[i]);
        i = i + 1;
        assert(out@ =~= src@.subrange(from as int, i as int));
    }
    out
}

/// Errors raised while building or reading transactions.
#[derive(Clone, Copy, Debug, PartialEq, Eq, Structural)]
pub enum TransactionError {
    /// The buffer ends before the structure it should hold.
    ShortBuffer,
    /// The header carries non-zero flags.
    InvalidFlags,
    /// The payload exceeds the 1 MiB limit.
    PayloadTooLarge,
    /// Declared sizes disagree with each other or with the bytes present.
    SizeMismatch,
    /// More than 65535 parameters.
    TooManyParams,
    /// A parameter value longer than 65535 bytes.
    FieldTooLarge,
}

impl TransactionError {
    /// Text describing the error.
    pub open spec fn spec_message(self) -> &'static str {
        match self {
            TransactionError::ShortBuffer => "buffer too short",
            TransactionError::InvalidFlags => "invalid flags",
            TransactionError::PayloadTooLarge => "payload too large",
            TransactionError::SizeMismatch => "size mismatch",
            TransactionError::TooManyParams => "too many parameters",
            TransactionError::FieldTooLarge => "parameter value too large",
        }
    }

    /// Human-readable description of the error.
    pub fn message(&self) -> (m: &'static str)
        ensures
            m == self.spec_message(),
    {
        match self {
            TransactionError::ShortBuffer => "buffer too short",
            TransactionError::InvalidFlags => "invalid flags",
            TransactionError::PayloadTooLarge => "payload too large",
            TransactionError::SizeMismatch => "size mismatch",
            TransactionError::TooManyParams => "too many parameters",
            TransactionError::FieldTooLarge => "parameter value too large",
        }
    }
}

/// A complete transaction: header plus reassembled payload.
#[derive(Clone, Debug)]
pub struct Transaction {
    /// The logical header.
    pub header: FrameHeader,
    /// The payload bytes.
    pub payload: Vec<u8>,
}

/// Wire bytes of a single-frame transaction: header then payload.
pub open spec fn transaction_bytes(h: FrameHeader, payload: Seq<u8>) -> Seq<u8> {
    header_bytes(h) + payload
}

impl Transaction {
    /// Serialise as header bytes followed by payload bytes.
    pub fn to_bytes(&self) -> (v: Vec<u8>)
        ensures
            v@ == transaction_bytes(self.header, self.payload@),
    {
        let mut v = self.header.to_vec();
        append_bytes(&mut v, self.payload.as_slice());
        v
    }
}

/// Result of reading one single-frame transaction from `b`.
pub open spec fn spec_parse_transaction(b: Seq<u8>) -> Result<(FrameHeader, Seq<u8>), TransactionError> {
    if b.len() < HEADER_LEN {
        Err(TransactionError::ShortBuffer)
    } else {
        let h = header_from(b);
        if h.flags != 0 {
            Err(TransactionError::InvalidFlags)
        } else if h.total_size > MAX_PAYLOAD_SIZE {
            Err(TransactionError::PayloadTooLarge)
        } else if h.data_size != h.total_size || b.len() - HEADER_LEN != h.total_size {
            Err(TransactionError::SizeMismatch)
        } else {
            Ok((h, b.skip(HEADER_LEN as int)))
        }
    }
}

/// Parse a single-frame transaction (`header || payload`, with
/// `data_size == total_size == payload length`).
pub fn parse_transaction(frame: &[u8]) -> (r: Result<Transaction, TransactionError>)
    ensures
        match (r, spec_parse_transaction(frame@)) {
            (Ok(tx), Ok((h, p))) => tx.header == h && tx.payload@ == p,
            (Err(e), Err(f)) => e == f,
            _ => false,
        },
{
    if frame.len() < HEADER_LEN {
        return Err(TransactionError::ShortBuffer);
    }
    let header = FrameHeader::from_prefix(frame);
    if header.flags != 0 {
        return Err(TransactionError::InvalidFlags);
    }
    if header.total_size as usize > MAX_PAYLOAD_SIZE {
        return Err(TransactionError::PayloadTooLarge);
    }
    if header.data_size != header.total_size || frame.len() - HEADER_LEN != header.total_size as usize {
        return Err(TransactionError::SizeMismatch);
    }
    let payload = copy_range(frame, HEADER_LEN, frame.len());
    assert(payload@ =~= frame@.skip(HEADER_LEN as int));
    Ok(Transaction { header, payload })
}

/// Parsing the bytes of a well-formed transaction gives it back.
pub proof fn lemma_parse_transaction_round_trip(h: FrameHeader, payload: Seq<u8>)
    requires
        h.flags == 0,
        h.total_size <= MAX_PAYLOAD_SIZE,
        h.data_size == h.total_size,
        payload.len() == h.total_size,
    ensures
        spec_parse_transaction(transaction_bytes(h, payload)) == Ok::<(FrameHeader, Seq<u8>), TransactionError>((h, payload)),
{
    let b = transaction_bytes(h, payload);
    assert(b.take(HEADER_LEN as int) =~= header_bytes(h));
    assert(header_from(b) == header_from(header_bytes(h))) by {
        assert(b.subrange(2, 4) =~= header_bytes(h).subrange(2, 4));
        assert(b.subrange(4, 8) =~= header_bytes(h).subrange(4, 8));
        assert(b.subrange(8, 12) =~= header_bytes(h).subrange(8, 12));
        assert(b.subrange(12, 16) =~= header_bytes(h).subrange(12, 16));
        assert(b.subrange(16, 20) =~= header_bytes(h).subrange(16, 20));
    }
    lemma_header_round_trip(h);
    assert(b.skip(HEADER_LEN as int) =~= payload);
}

/// Build a reply header mirroring `req`'s type and id.
pub open spec fn spec_reply_header(req: FrameHeader, error: u32, payload_len: u32) -> FrameHeader {
    FrameHeader {
        flags: 0,
        is_reply: 1,
        ty: req.ty,
        id: req.id,
        error,
        total_size: payload_len,
        data_size: payload_len,
    }
}

/// Reply header for `req` carrying `error` and a payload of `payload_len` bytes.
pub fn reply_header(req: &FrameHeader, error: u32, payload_len: u32) -> (h: FrameHeader)
    ensures
        h == spec_reply_header(*req, error, payload_len),
{
    FrameHeader {
        flags: 0,
        is_reply: 1,
        ty: req.ty,
        id: req.id,
        error,
        total_size: payload_len,
        data_size: payload_len,
    }
}

/// Check that a payload agrees with the sizes its header declares.
pub open spec fn payload_parts_valid(h: FrameHeader, payload: Seq<u8>) -> bool {
    payload.len() == h.total_size && h.data_size <= h.total_size
}

/// Reject a payload whose length differs from `total_size`, or a header
/// whose `data_size` exceeds `total_size`.
pub fn validate_payload_parts(header: &FrameHeader, payload: &[u8]) -> (r: Result<(), TransactionError>)
    ensures
        r is Ok <==> payload_parts_valid(*header, payload@),
        r matches Err(e) ==> e == TransactionError::SizeMismatch,
{
    if payload.len() != header.total_size as usize || header.data_size > header.total_size {
        Err(TransactionError::SizeMismatch)
    } else {
        Ok(())
    }
}

} // verus!
