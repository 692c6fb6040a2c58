//! Hotline transaction framing: header validation, fragmentation of
//! outbound transactions and reassembly of inbound fragment series.

use vstd::prelude::*;
use crate::field_id::FieldId;
use crate::params::{
    ParamSpec, encode_params, params_view, params_encodable, params_canonical, spec_encode_params,
    spec_decode_params,
};
use crate::transaction::{
    FrameHeader, Transaction, TransactionError, HEADER_LEN, MAX_FRAME_DATA, MAX_PAYLOAD_SIZE,
    header_bytes, header_from, with_data_size, payload_parts_valid, validate_payload_parts,
    append_bytes, append_range, copy_range, lemma_header_prefix, lemma_header_bytes_len,
};

verus! {

/// Reasons a frame or fragment series is rejected.
#[derive(Clone, Copy, Debug, PartialEq, Eq, Structural)]
pub enum FrameError {
    /// Flags must be zero.
    InvalidFlags,
    /// `total_size` exceeds the 1 MiB payload limit.
    TotalTooLarge,
    /// `data_size` exceeds the 32 KiB frame limit.
    DataTooLarge,
    /// `data_size` exceeds `total_size`.
    DataExceedsTotal,
    /// Empty frame data while the total is non-zero.
    EmptyDataNonZeroTotal,
    /// A continuation changed `flags`.
    FlagsChanged,
    /// A continuation changed `is_reply`.
    IsReplyChanged,
    /// A continuation changed the type.
    TypeChanged,
    /// A continuation changed the id.
    IdChanged,
    /// A continuation changed the error code.
    ErrorChanged,
    /// A continuation changed `total_size`.
    TotalChanged,
    /// A continuation carries no data.
    ZeroContinuation,
    /// A continuation's data exceeds the 32 KiB frame limit.
    ContinuationTooLarge,
    /// A continuation's data exceeds the bytes still expected.
    ContinuationExceedsRemaining,
    /// The input ended inside a frame.
    UnexpectedEnd,
}

impl FrameError {
    /// Text of [`Self::message`].
    pub open spec fn spec_message(self) -> &'static str {
        match self {
            FrameError::InvalidFlags => "invalid flags: must be 0 for v1.8.5",
            FrameError::TotalTooLarge => "total size exceeds maximum (1 MiB)",
            FrameError::DataTooLarge => "data size exceeds maximum (32 KiB)",
            FrameError::DataExceedsTotal => "data size exceeds total size",
            FrameError::EmptyDataNonZeroTotal => "data size is zero but total size is non-zero",
            FrameError::FlagsChanged => "header mismatch: 'flags' changed between fragments",
            FrameError::IsReplyChanged => "header mismatch: 'is_reply' changed between fragments",
            FrameError::TypeChanged => "header mismatch: 'type' changed between fragments",
            FrameError::IdChanged => "header mismatch: 'id' changed between fragments",
            FrameError::ErrorChanged => "header mismatch: 'error' changed between fragments",
            FrameError::TotalChanged => "header mismatch: 'total_size' changed between fragments",
            FrameError::ZeroContinuation => "continuation fragment has zero data size",
            FrameError::ContinuationTooLarge => "continuation data size exceeds maximum (32 KiB)",
            FrameError::ContinuationExceedsRemaining => "continuation data size exceeds remaining bytes",
            FrameError::UnexpectedEnd => "unexpected end of input",
        }
    }

    /// Human-readable description of the rejection.
    pub fn message(&self) -> (m: &'static str)
        ensures
            m == self.spec_message(),
    {
        match self {
            FrameError::InvalidFlags => "invalid flags: must be 0 for v1.8.5",
            FrameError::TotalTooLarge => "total size exceeds maximum (1 MiB)",
            FrameError::DataTooLarge => "data size exceeds maximum (32 KiB)",
            FrameError::DataExceedsTotal => "data size exceeds total size",
            FrameError::EmptyDataNonZeroTotal => "data size is zero but total size is non-zero",
            FrameError::FlagsChanged => "header mismatch: 'flags' changed between fragments",
            FrameError::IsReplyChanged => "header mismatch: 'is_reply' changed between fragments",
            FrameError::TypeChanged => "header mismatch: 'type' changed between fragments",
            FrameError::IdChanged => "header mismatch: 'id' changed between fragments",
            FrameError::ErrorChanged => "header mismatch: 'error' changed between fragments",
            FrameError::TotalChanged => "header mismatch: 'total_size' changed between fragments",
            FrameError::ZeroContinuation => "continuation fragment has zero data size",
            FrameError::ContinuationTooLarge => "continuation data size exceeds maximum (32 KiB)",
            FrameError::ContinuationExceedsRemaining => "continuation data size exceeds remaining bytes",
            FrameError::UnexpectedEnd => "unexpected end of input",
        }
    }
}

/// The first rule a header breaks, if any.
pub open spec fn header_check(h: FrameHeader) -> Option<FrameError> {
    if h.flags != 0 {
        Some(FrameError::InvalidFlags)
    } else if h.total_size > MAX_PAYLOAD_SIZE {
        Some(FrameError::TotalTooLarge)
    } else if h.data_size > MAX_FRAME_DATA {
        Some(FrameError::DataTooLarge)
    } else if h.data_size > h.total_size {
        Some(FrameError::DataExceedsTotal)
    } else if h.data_size == 0 && h.total_size > 0 {
        Some(FrameError::EmptyDataNonZeroTotal)
    } else {
        None
    }
}

/// A header is acceptable exactly when flags are zero, both sizes are
/// within their limits, data does not exceed the total, and an empty
/// frame announces an empty total.
pub proof fn lemma_header_check_predicate(h: FrameHeader)
    ensures
        header_check(h) is None <==> (h.flags == 0 && h.total_size <= MAX_PAYLOAD_SIZE
            && h.data_size <= MAX_FRAME_DATA && h.data_size <= h.total_size && !(h.data_size == 0
            && h.total_size > 0)),
{
}

/// Validate a frame header against the protocol limits.
pub fn validate_header(hdr: &FrameHeader) -> (r: Result<(), FrameError>)
    ensures
        match header_check(*hdr) {
            None => r is Ok,
            Some(e) => r == Err::<(), FrameError>(e),
        },
{
    if hdr.flags != 0 {
        return Err(FrameError::InvalidFlags);
    }
    if hdr.total_size as usize > MAX_PAYLOAD_SIZE {
        return Err(FrameError::TotalTooLarge);
    }
    if hdr.data_size as usize > MAX_FRAME_DATA {
        return Err(FrameError::DataTooLarge);
    }
    if hdr.data_size > hdr.total_size {
        return Err(FrameError::DataExceedsTotal);
    }
    if hdr.data_size == 0 && hdr.total_size > 0 {
        return Err(FrameError::EmptyDataNonZeroTotal);
    }
    Ok(())
}

/// The first field a continuation header changed relative to the first
/// header of its series, if any (`data_size` may differ).
pub open spec fn consistency_check(first: FrameHeader, next: FrameHeader) -> Option<FrameError> {
    if next.flags != first.flags {
        Some(FrameError::FlagsChanged)
    } else if next.is_reply != first.is_reply {
        Some(FrameError::IsReplyChanged)
    } else if next.ty != first.ty {
        Some(FrameError::TypeChanged)
    } else if next.id != first.id {
        Some(FrameError::IdChanged)
    } else if next.error != first.error {
        Some(FrameError::ErrorChanged)
    } else if next.total_size != first.total_size {
        Some(FrameError::TotalChanged)
    } else {
        None
    }
}

/// Validate that a continuation fragment kept the series' header fields.
pub fn validate_fragment_consistency(first: &FrameHeader, next: &FrameHeader) -> (r: Result<(), FrameError>)
    ensures
        match consistency_check(*first, *next) {
            None => r is Ok,
            Some(e) => r == Err::<(), FrameError>(e),
        },
{
    if next.flags != first.flags {
        return Err(FrameError::FlagsChanged);
    }
    if next.is_reply != first.is_reply {
        return Err(FrameError::IsReplyChanged);
    }
    if next.ty != first.ty {
        return Err(FrameError::TypeChanged);
    }
    if next.id != first.id {
        return Err(FrameError::IdChanged);
    }
    if next.error != first.error {
        return Err(FrameError::ErrorChanged);
    }
    if next.total_size != first.total_size {
        return Err(FrameError::TotalChanged);
    }
    Ok(())
}

/// Header and payload pair that may stand in a `HotlineTransaction`.
pub open spec fn transaction_wf(h: FrameHeader, payload: Seq<u8>) -> bool {
    &&& h.flags == 0
    &&& h.total_size <= MAX_PAYLOAD_SIZE
    &&& payload.len() == h.total_size
    &&& h.data_size <= h.total_size
}

/// A validated Hotline transaction: header plus reassembled payload.
///
/// After reassembly the header's `data_size` equals `total_size`.
#[derive(Debug, PartialEq, Eq)]
pub struct HotlineTransaction {
    header: FrameHeader,
    payload: Vec<u8>,
}

impl View for HotlineTransaction {
    type V = (FrameHeader, Seq<u8>);

    closed spec fn view(&self) -> (FrameHeader, Seq<u8>) {
        (self.header, self.payload@)
    }
}

impl Clone for HotlineTransaction {
    fn clone(&self) -> (c: Self)
        ensures
            c@ == self@,
    {
        proof { use_type_invariant(self); }
        let payload = copy_range(self.payload.as_slice(), 0, self.payload.len());
        assert(payload@ =~= self.payload@);
        HotlineTransaction { header: self.header, payload }
    }
}

impl HotlineTransaction {
    #[verifier::type_invariant]
    closed spec fn inv(self) -> bool {
        transaction_wf(self.header, self.payload@)
    }

    /// Return the transaction header.
    pub fn header(&self) -> (h: &FrameHeader)
        ensures
            *h == self@.0,
            transaction_wf(self@.0, self@.1),
    {
        proof { use_type_invariant(self); }
        &self.header
    }

    /// Return the reassembled payload.
    pub fn payload(&self) -> (p: &[u8])
        ensures
            p@ == self@.1,
            transaction_wf(self@.0, self@.1),
    {
        proof { use_type_invariant(self); }
        self.payload.as_slice()
    }

    /// Consume the transaction and return its header and payload.
    pub fn into_parts(self) -> (r: (FrameHeader, Vec<u8>))
        ensures
            r.0 == self@.0,
            r.1@ == self@.1,
            transaction_wf(r.0, r.1@),
    {
        proof { use_type_invariant(&self); }
        (self.header, self.payload)
    }
}


/// Outcome of building a transaction from a header template and parameters.
pub open spec fn spec_from_params(h: FrameHeader, ps: Seq<ParamSpec>) -> Result<(FrameHeader, Seq<u8>), TransactionError> {
    if h.flags != 0 {
        Err(TransactionError::InvalidFlags)
    } else if ps.len() > 0 && !params_encodable(ps) {
        Err(
            if ps.len() > 65535 {
                TransactionError::TooManyParams
            } else {
                TransactionError::FieldTooLarge
            },
        )
    } else {
        let payload = if ps.len() == 0 {
            Seq::empty()
        } else {
            spec_encode_params(ps)
        };
        if payload.len() > MAX_PAYLOAD_SIZE {
            Err(TransactionError::PayloadTooLarge)
        } else {
            Ok(
                (
                    FrameHeader {
                        total_size: payload.len() as u32,
                        data_size: payload.len() as u32,
                        ..h
                    },
                    payload,
                ),
            )
        }
    }
}

/// Header template of a request.
pub open spec fn request_template(ty: u16, id: u32) -> FrameHeader {
    FrameHeader { flags: 0, is_reply: 0, ty, id, error: 0, total_size: 0, data_size: 0 }
}

/// Header template of a reply to `req`.
pub open spec fn reply_template(req: FrameHeader, error: u32) -> FrameHeader {
    FrameHeader { flags: 0, is_reply: 1, ty: req.ty, id: req.id, error, total_size: 0, data_size: 0 }
}

/// A reply built from a request header mirrors the request: it is marked
/// as a reply, keeps the request's type and transaction id, carries the
/// given error code, and its sizes are its payload's length. Parameters
/// that fit the wire format and the payload limit always succeed, and
/// the payload reads back as those parameters.
pub proof fn lemma_reply_mirrors_request(req: FrameHeader, error: u32, ps: Seq<ParamSpec>)
    ensures
        spec_from_params(reply_template(req, error), ps) matches Ok((h, p)) ==> (h.flags == 0 && h.is_reply == 1
            && h.ty == req.ty && h.id == req.id && h.error == error && h.total_size == p.len()
            && h.data_size == p.len()),
        0 < ps.len() && params_encodable(ps) && params_canonical(ps) && spec_encode_params(ps).len() <= MAX_PAYLOAD_SIZE
            ==> (spec_from_params(reply_template(req, error), ps) matches Ok((h, p))
                && spec_decode_params(p) == Ok::<Seq<ParamSpec>, TransactionError>(ps)),
{
    if 0 < ps.len() && params_encodable(ps) && params_canonical(ps) && spec_encode_params(ps).len() <= MAX_PAYLOAD_SIZE {
        crate::params::lemma_params_round_trip(ps);
    }
}

/// Outcome of assembling a transaction from a header and payload. The
/// parts are those of a whole (possibly reassembled) transaction, so
/// `data_size` is bounded by `total_size` rather than by the frame limit.
pub open spec fn spec_from_parts(h: FrameHeader, payload: Seq<u8>) -> Result<(), TransactionError> {
    if h.flags != 0 {
        Err(TransactionError::InvalidFlags)
    } else if h.total_size > MAX_PAYLOAD_SIZE {
        Err(TransactionError::PayloadTooLarge)
    } else if h.data_size > h.total_size || (h.data_size == 0 && h.total_size > 0) {
        Err(TransactionError::SizeMismatch)
    } else if !payload_parts_valid(h, payload) {
        Err(TransactionError::SizeMismatch)
    } else {
        Ok(())
    }
}

/// Outcome of converting a domain transaction.
pub open spec fn spec_from_transaction(h: FrameHeader, payload: Seq<u8>) -> Result<FrameHeader, TransactionError> {
    if h.flags != 0 {
        Err(TransactionError::InvalidFlags)
    } else if payload.len() > MAX_PAYLOAD_SIZE {
        Err(TransactionError::PayloadTooLarge)
    } else if !payload_parts_valid(h, payload) {
        Err(TransactionError::SizeMismatch)
    } else {
        Ok(with_data_size(h, h.total_size))
    }
}

impl HotlineTransaction {
    /// Build a parameter-encoded request transaction.
    pub fn request_from_params(ty: u16, id: u32, params: &[(FieldId, Vec<u8>)]) -> (r: Result<Self, TransactionError>)
        ensures
            match (r, spec_from_params(request_template(ty, id), params_view(params@))) {
                (Ok(tx), Ok((h, p))) => tx@ == (h, p),
                (Err(e), Err(f)) => e == f,
                _ => false,
            },
            r matches Ok(tx) ==> (tx@.0.flags == 0 && tx@.0.is_reply == 0 && tx@.0.ty == ty && tx@.0.id == id
                && tx@.0.error == 0 && tx@.0.total_size == tx@.1.len() && tx@.0.data_size == tx@.1.len()),
    {
        Self::from_params(
            FrameHeader { flags: 0, is_reply: 0, ty, id, error: 0, total_size: 0, data_size: 0 },
            params,
        )
    }

    /// Build a parameter-encoded reply mirroring a request's type and id.
    pub fn reply_from_params(req: &FrameHeader, error: u32, params: &[(FieldId, Vec<u8>)]) -> (r: Result<Self, TransactionError>)
        ensures
            match (r, spec_from_params(reply_template(*req, error), params_view(params@))) {
                (Ok(tx), Ok((h, p))) => tx@ == (h, p),
                (Err(e), Err(f)) => e == f,
                _ => false,
            },
            r matches Ok(tx) ==> (tx@.0.flags == 0 && tx@.0.is_reply == 1 && tx@.0.ty == req.ty
                && tx@.0.id == req.id && tx@.0.error == error && tx@.0.total_size == tx@.1.len()
                && tx@.0.data_size == tx@.1.len()),
    {
        Self::from_params(
            FrameHeader {
                flags: 0,
                is_reply: 1,
                ty: req.ty,
                id: req.id,
                error,
                total_size: 0,
                data_size: 0,
            },
            params,
        )
    }

    fn from_params(header: FrameHeader, params: &[(FieldId, Vec<u8>)]) -> (r: Result<Self, TransactionError>)
        ensures
            match (r, spec_from_params(header, params_view(params@))) {
                (Ok(tx), Ok((h, p))) => tx@ == (h, p),
                (Err(e), Err(f)) => e == f,
                _ => false,
            },
    {
        let mut header = header;
        if header.flags != 0 {
            return Err(TransactionError::InvalidFlags);
        }
        let payload = if params.len() == 0 {
            Vec::new()
        } else {
            match encode_params(params) {
                Ok(p) => p,
                Err(e) => return Err(e),
            }
        };
        let total_size = payload.len();
        if total_size > MAX_PAYLOAD_SIZE {
            return Err(TransactionError::PayloadTooLarge);
        }
        header.total_size = total_size as u32;
        header.data_size = header.total_size;
        match validate_payload_parts(&header, payload.as_slice()) {
            Ok(()) => {},
            Err(e) => return Err(e),
        }
        assert(payload@ =~= (if params@.len() == 0 { Seq::empty() } else { spec_encode_params(params_view(params@)) }));
        Ok(HotlineTransaction { header, payload })
    }

    /// Assemble a transaction from a header and payload, as the stream
    /// codec does for a reassembled series: checks the flags, the payload
    /// limit, that `data_size` fits `total_size`, and that the payload
    /// matches `total_size`.
    pub fn from_parts(header: FrameHeader, payload: Vec<u8>) -> (r: Result<Self, TransactionError>)
        ensures
            match (r, spec_from_parts(header, payload@)) {
                (Ok(tx), Ok(())) => tx@ == (header, payload@),
                (Err(e), Err(f)) => e == f,
                _ => false,
            },
    {
        if header.flags != 0 {
            return Err(TransactionError::InvalidFlags);
        }
        if header.total_size as usize > MAX_PAYLOAD_SIZE {
            return Err(TransactionError::PayloadTooLarge);
        }
        let has_data_size_overflow = header.data_size > header.total_size;
        let has_inconsistent_empty_frame = header.data_size == 0 && header.total_size > 0;
        if has_data_size_overflow || has_inconsistent_empty_frame {
            return Err(TransactionError::SizeMismatch);
        }
        match validate_payload_parts(&header, payload.as_slice()) {
            Ok(()) => {},
            Err(e) => return Err(e),
        }
        Ok(HotlineTransaction { header, payload })
    }

    /// Convert a domain transaction, normalising the header to its
    /// reassembled form (`data_size == total_size`).
    pub fn from_transaction(value: Transaction) -> (r: Result<Self, TransactionError>)
        ensures
            match (r, spec_from_transaction(value.header, value.payload@)) {
                (Ok(tx), Ok(h)) => tx@ == (h, value.payload@),
                (Err(e), Err(f)) => e == f,
                _ => false,
            },
    {
        let mut header = value.header;
        if header.flags != 0 {
            return Err(TransactionError::InvalidFlags);
        }
        if value.payload.len() > MAX_PAYLOAD_SIZE {
            return Err(TransactionError::PayloadTooLarge);
        }
        match validate_payload_parts(&header, value.payload.as_slice()) {
            Ok(()) => {},
            Err(e) => return Err(e),
        }
        header.data_size = header.total_size;
        Ok(HotlineTransaction { header, payload: value.payload })
    }

    /// Convert into a domain transaction.
    pub fn into_transaction(self) -> (t: Transaction)
        ensures
            t.header == self@.0,
            t.payload@ == self@.1,
    {
        let (header, payload) = self.into_parts();
        Transaction { header, payload }
    }
}


/// Wire frames of a transaction: the payload is cut into 32 KiB chunks,
/// each preceded by the header with `data_size` set to the chunk length;
/// an empty payload yields one header with `data_size == 0`.
pub open spec fn spec_frames(h: FrameHeader, p: Seq<u8>) -> Seq<u8>
    decreases p.len(),
{
    if p.len() <= MAX_FRAME_DATA {
        header_bytes(with_data_size(h, p.len() as u32)) + p
    } else {
        header_bytes(with_data_size(h, MAX_FRAME_DATA as u32)) + p.take(MAX_FRAME_DATA as int)
            + spec_frames(h, p.skip(MAX_FRAME_DATA as int))
    }
}

/// Continue reassembling a series whose first header is `first`, having
/// gathered `acc` so far and with the next frame at `pos` of `b`.
/// On success gives the normalised header, the payload and the number of
/// bytes consumed.
pub open spec fn spec_reassemble(first: FrameHeader, acc: Seq<u8>, pos: int, b: Seq<u8>) -> Result<(FrameHeader, Seq<u8>, int), FrameError>
    decreases first.total_size - acc.len(),
{
    if acc.len() >= first.total_size {
        Ok((with_data_size(first, first.total_size), acc, pos))
    } else if pos < 0 || b.len() - pos < HEADER_LEN {
        Err(FrameError::UnexpectedEnd)
    } else {
        let next = header_from(b.skip(pos));
        match consistency_check(first, next) {
            Some(e) => Err(e),
            None => {
                if next.data_size == 0 {
                    Err(FrameError::ZeroContinuation)
                } else if next.data_size > MAX_FRAME_DATA {
                    Err(FrameError::ContinuationTooLarge)
                } else if next.data_size > first.total_size - acc.len() {
                    Err(FrameError::ContinuationExceedsRemaining)
                } else if b.len() - pos - HEADER_LEN < next.data_size {
                    Err(FrameError::UnexpectedEnd)
                } else {
                    let end = pos + HEADER_LEN + next.data_size;
                    spec_reassemble(first, acc + b.subrange(pos + HEADER_LEN, end), end, b)
                }
            },
        }
    }
}

/// Decoding one transaction from the start of `b`: a validated first
/// frame, then continuation frames until `total_size` bytes are gathered.
pub open spec fn spec_decode(b: Seq<u8>) -> Result<(FrameHeader, Seq<u8>, int), FrameError> {
    if b.len() < HEADER_LEN {
        Err(FrameError::UnexpectedEnd)
    } else {
        let h = header_from(b);
        match header_check(h) {
            Some(e) => Err(e),
            None => {
                if b.len() - HEADER_LEN < h.data_size {
                    Err(FrameError::UnexpectedEnd)
                } else {
                    let end = HEADER_LEN + h.data_size;
                    spec_reassemble(h, b.subrange(HEADER_LEN as int, end), end, b)
                }
            },
        }
    }
}

/// Length of the first chunk cut from `q`.
pub open spec fn first_chunk_len(q: Seq<u8>) -> int {
    if q.len() <= MAX_FRAME_DATA {
        q.len() as int
    } else {
        MAX_FRAME_DATA as int
    }
}

/// Frames that follow the first chunk of `q`.
pub open spec fn later_frames(h: FrameHeader, q: Seq<u8>) -> Seq<u8> {
    if q.len() <= MAX_FRAME_DATA {
        Seq::empty()
    } else {
        spec_frames(h, q.skip(MAX_FRAME_DATA as int))
    }
}

/// Unfolds the frames of `q` into the first frame and the frames after it.
pub proof fn lemma_frames_unfold(h: FrameHeader, q: Seq<u8>, rest: Seq<u8>)
    ensures
        spec_frames(h, q) == header_bytes(with_data_size(h, first_chunk_len(q) as u32)) + q.take(first_chunk_len(q)) + later_frames(h, q),
        header_from(spec_frames(h, q) + rest) == with_data_size(h, first_chunk_len(q) as u32),
        (spec_frames(h, q) + rest).skip(HEADER_LEN as int).take(first_chunk_len(q)) == q.take(first_chunk_len(q)),
        (spec_frames(h, q) + rest).skip(HEADER_LEN + first_chunk_len(q)) == later_frames(h, q) + rest,
        first_chunk_len(q) < q.len() ==> later_frames(h, q) == spec_frames(h, q.skip(first_chunk_len(q))),
{
    let c = first_chunk_len(q);
    let nh = with_data_size(h, c as u32);
    assert(spec_frames(h, q) =~= header_bytes(nh) + q.take(c) + later_frames(h, q));
    lemma_header_bytes_len(nh);
    let b = spec_frames(h, q) + rest;
    assert(b =~= header_bytes(nh) + (q.take(c) + later_frames(h, q) + rest));
    lemma_header_prefix(nh, q.take(c) + later_frames(h, q) + rest);
    assert(b.skip(HEADER_LEN as int).take(c) =~= q.take(c));
    assert(b.skip(HEADER_LEN + c) =~= later_frames(h, q) + rest);
}

proof fn lemma_reassemble_step(first: FrameHeader, acc: Seq<u8>, pos: int, b: Seq<u8>)
    requires
        acc.len() < first.total_size,
        0 <= pos,
        b.len() - pos >= HEADER_LEN,
        consistency_check(first, header_from(b.skip(pos))) is None,
        0 < header_from(b.skip(pos)).data_size <= MAX_FRAME_DATA,
        header_from(b.skip(pos)).data_size <= first.total_size - acc.len(),
        b.len() - pos - HEADER_LEN >= header_from(b.skip(pos)).data_size,
    ensures
        ({
            let end = pos + HEADER_LEN + header_from(b.skip(pos)).data_size;
            spec_reassemble(first, acc, pos, b) == spec_reassemble(first, acc + b.subrange(pos + HEADER_LEN, end), end, b)
        }),
{
}

#[verifier::spinoff_prover]
#[verifier::rlimit(40)]
proof fn lemma_reassemble_frames(first: FrameHeader, h: FrameHeader, p: Seq<u8>, off: int, pos: int, b: Seq<u8>, rest: Seq<u8>)
    requires
        h.flags == 0,
        first == with_data_size(h, first.data_size),
        p.len() == h.total_size,
        h.total_size <= MAX_PAYLOAD_SIZE,
        0 <= off <= p.len(),
        0 <= pos <= b.len(),
        b.skip(pos) == (if off < p.len() { spec_frames(h, p.skip(off)) } else { Seq::empty() }) + rest,
    ensures
        spec_reassemble(first, p.take(off), pos, b) == Ok::<(FrameHeader, Seq<u8>, int), FrameError>((with_data_size(h, h.total_size), p, b.len() - rest.len())),
    decreases p.len() - off,
{
    if off == p.len() {
        assert(p.take(off) =~= p);
        assert(b.skip(pos) =~= rest);
        assert(with_data_size(first, first.total_size) == with_data_size(h, h.total_size));
    } else {
        let q = p.skip(off);
        let c = first_chunk_len(q);
        lemma_frames_unfold(h, q, rest);
        let s = b.skip(pos);
        assert(s == spec_frames(h, q) + rest);
        assert(header_from(b.skip(pos)) == with_data_size(h, c as u32));
        let end = pos + HEADER_LEN + c;
        lemma_reassemble_step(first, p.take(off), pos, b);
        assert(b.subrange(pos + HEADER_LEN, end) =~= s.skip(HEADER_LEN as int).take(c));
        assert(p.take(off) + q.take(c) =~= p.take(off + c));
        assert(b.skip(end) =~= s.skip(HEADER_LEN + c));
        assert(q.skip(c) =~= p.skip(off + c));
        lemma_reassemble_frames(first, h, p, off + c, end, b, rest);
    }
}

/// Decoding the frames of a well-formed transaction, followed by any
/// bytes, gives back the transaction (with `data_size == total_size`) and
/// consumes exactly its frames.
#[verifier::spinoff_prover]
#[verifier::rlimit(40)]
pub proof fn lemma_decode_frames_round_trip(h: FrameHeader, p: Seq<u8>, rest: Seq<u8>)
    requires
        transaction_wf(h, p),
    ensures
        spec_decode(spec_frames(h, p) + rest) == Ok::<(FrameHeader, Seq<u8>, int), FrameError>((with_data_size(h, h.total_size), p, spec_frames(h, p).len() as int)),
{
    let b = spec_frames(h, p) + rest;
    let c = first_chunk_len(p);
    lemma_frames_unfold(h, p, rest);
    let nh = with_data_size(h, c as u32);
    let end = HEADER_LEN + c;
    assert(header_from(b) == nh);
    assert(header_check(nh) is None);
    assert(b.len() >= end) by {
        lemma_header_bytes_len(nh);
    }
    assert(spec_decode(b) == spec_reassemble(nh, b.subrange(HEADER_LEN as int, end), end, b));
    assert(b.subrange(HEADER_LEN as int, end) =~= p.take(c)) by {
        assert(b.subrange(HEADER_LEN as int, end) =~= b.skip(HEADER_LEN as int).take(c));
    }
    assert(b.skip(end) == (if c < p.len() { spec_frames(h, p.skip(c)) } else { Seq::empty() }) + rest);
    lemma_reassemble_frames(nh, h, p, c, end, b, rest);
}

/// Frames of a transaction are at most twice its payload limit long.
pub proof fn lemma_frames_len(h: FrameHeader, p: Seq<u8>)
    ensures
        spec_frames(h, p).len() * MAX_FRAME_DATA <= p.len() * (MAX_FRAME_DATA + HEADER_LEN) + HEADER_LEN * MAX_FRAME_DATA,
    decreases p.len(),
{
    lemma_header_bytes_len(with_data_size(h, p.len() as u32));
    lemma_header_bytes_len(with_data_size(h, MAX_FRAME_DATA as u32));
    if p.len() > MAX_FRAME_DATA {
        let q = p.skip(MAX_FRAME_DATA as int);
        lemma_frames_len(h, q);
        assert(spec_frames(h, p).len() == HEADER_LEN + MAX_FRAME_DATA + spec_frames(h, q).len());
        assert(q.len() == p.len() - MAX_FRAME_DATA);
    } else {
        assert(spec_frames(h, p).len() == HEADER_LEN + p.len());
        assert((HEADER_LEN + p.len()) * MAX_FRAME_DATA <= p.len() * (MAX_FRAME_DATA + HEADER_LEN) + HEADER_LEN * MAX_FRAME_DATA) by (nonlinear_arith)
            requires p.len() <= MAX_FRAME_DATA;
    }
}

impl HotlineTransaction {
    /// Encode the transaction as wire frames, splitting the payload into
    /// 32 KiB fragments.
    pub fn encode(&self) -> (r: Result<Vec<u8>, TransactionError>)
        ensures
            r matches Ok(v) && v@ == spec_frames(self@.0, self@.1),
            transaction_wf(self@.0, self@.1),
    {
        proof { use_type_invariant(self); }
        if self.header.flags != 0 {
            return Err(TransactionError::InvalidFlags);
        }
        if self.payload.len() > MAX_PAYLOAD_SIZE {
            return Err(TransactionError::PayloadTooLarge);
        }
        let total_size = self.payload.len() as u32;
        if self.header.total_size != total_size {
            return Err(TransactionError::SizeMismatch);
        }
        let ghost h = self.header;
        let ghost p = self.payload@;
        let mut out: Vec<u8> = Vec::new();
        if self.payload.len() == 0 {
            let mut header = self.header;
            header.data_size = 0;
            header.append_to(&mut out);
            assert(out@ =~= spec_frames(h, p));
            return Ok(out);
        }
        let mut offset: usize = 0;
        assert(p.skip(0) =~= p);
        assert(out@ + spec_frames(h, p) =~= spec_frames(h, p));
        while offset < self.payload.len()
            invariant
                h == self.header,
                p == self.payload@,
                0 <= offset <= p.len() <= MAX_PAYLOAD_SIZE,
                offset < p.len() ==> out@ + spec_frames(h, p.skip(offset as int)) == spec_frames(h, p),
                offset == p.len() ==> out@ == spec_frames(h, p),
            decreases p.len() - offset,
        {
            let remaining = self.payload.len() - offset;
            let end = if remaining <= MAX_FRAME_DATA { self.payload.len() } else { offset + MAX_FRAME_DATA };
            let mut header = self.header;
            header.data_size = (end - offset) as u32;
            let ghost before = out@;
            let ghost q = p.skip(offset as int);
            header.append_to(&mut out);
            append_range(&mut out, self.payload.as_slice(), offset, end);
            proof {
                assert(p.subrange(offset as int, end as int) =~= q.take(end - offset));
                if remaining <= MAX_FRAME_DATA {
                    assert(q.take(end - offset) =~= q);
                    assert(out@ =~= before + spec_frames(h, q));
                } else {
                    assert(q.skip(MAX_FRAME_DATA as int) =~= p.skip(end as int));
                    assert(spec_frames(h, q) =~= header_bytes(header) + q.take(MAX_FRAME_DATA as int) + spec_frames(h, p.skip(end as int)));
                    assert(out@ + spec_frames(h, p.skip(end as int)) =~= before + spec_frames(h, q));
                }
            }
            offset = end;
        }
        Ok(out)
    }

    /// Decode one transaction from the start of `bytes`, reassembling
    /// continuation fragments. Returns the transaction and the number of
    /// bytes consumed.
    pub fn decode(bytes: &[u8]) -> (r: Result<(HotlineTransaction, usize), FrameError>)
        ensures
            match (r, spec_decode(bytes@)) {
                (Ok((tx, n)), Ok((h, p, m))) => tx@ == (h, p) && n == m,
                (Err(e), Err(f)) => e == f,
                _ => false,
            },
    {
        let ghost b = bytes@;
        if bytes.len() < HEADER_LEN {
            return Err(FrameError::UnexpectedEnd);
        }
        let first_header = FrameHeader::from_slice_at(bytes, 0);
        assert(b.skip(0) =~= b);
        match validate_header(&first_header) {
            Ok(()) => {},
            Err(e) => return Err(e),
        }
        if bytes.len() - HEADER_LEN < first_header.data_size as usize {
            return Err(FrameError::UnexpectedEnd);
        }
        let mut pos: usize = HEADER_LEN + first_header.data_size as usize;
        let mut payload = copy_range(bytes, HEADER_LEN, pos);
        let mut accumulated: u32 = first_header.data_size;
        while accumulated < first_header.total_size
            invariant
                b == bytes@,
                header_check(first_header) is None,
                0 <= pos <= b.len(),
                accumulated == payload@.len(),
                accumulated <= first_header.total_size,
                spec_decode(b) == spec_reassemble(first_header, payload@, pos as int, b),
            decreases first_header.total_size - accumulated,
        {
            if bytes.len() - pos < HEADER_LEN {
                return Err(FrameError::UnexpectedEnd);
            }
            let next_header = FrameHeader::from_slice_at(bytes, pos);
            match validate_fragment_consistency(&first_header, &next_header) {
                Ok(()) => {},
                Err(e) => return Err(e),
            }
            if next_header.data_size == 0 {
                return Err(FrameError::ZeroContinuation);
            }
            if next_header.data_size as usize > MAX_FRAME_DATA {
                return Err(FrameError::ContinuationTooLarge);
            }
            let remaining = first_header.total_size - accumulated;
            if next_header.data_size > remaining {
                return Err(FrameError::ContinuationExceedsRemaining);
            }
            if bytes.len() - pos - HEADER_LEN < next_header.data_size as usize {
                return Err(FrameError::UnexpectedEnd);
            }
            let start = pos + HEADER_LEN;
            let end = start + next_header.data_size as usize;
            append_range(&mut payload, bytes, start, end);
            accumulated = accumulated + next_header.data_size;
            pos = end;
        }
        let mut header = first_header;
        header.data_size = header.total_size;
        Ok((HotlineTransaction { header, payload }, pos))
    }
}

/// Cut a payload of `total_len` bytes into 32 KiB fragments, as
/// `(offset, len)` pairs: every fragment but the last is full, the
/// fragments follow each other from offset 0, and together they cover the
/// payload exactly; an empty payload has no fragments.
pub fn fragment_ranges(total_len: usize) -> (v: Vec<(usize, usize)>)
    ensures
        v@.len() == 0 <==> total_len == 0,
        forall|j: int| 0 <= j < v@.len() ==> (#[trigger] v@[j]).0 == j * MAX_FRAME_DATA,
        forall|j: int| 0 <= j < v@.len() ==> 0 < (#[trigger] v@[j]).1 <= MAX_FRAME_DATA
            && v@[j].0 + v@[j].1 <= total_len,
        forall|j: int| 0 <= j < v@.len() - 1 ==> (#[trigger] v@[j]).1 == MAX_FRAME_DATA,
        v@.len() > 0 ==> v@[v@.len() - 1].0 + v@[v@.len() - 1].1 == total_len,
{
    let mut v: Vec<(usize, usize)> = Vec::new();
    let mut offset: usize = 0;
    while offset < total_len
        invariant
            offset <= total_len,
            offset < total_len ==> offset == v@.len() * MAX_FRAME_DATA,
            v@.len() == 0 ==> offset == 0,
            v@.len() > 0 ==> v@[v@.len() - 1].0 + v@[v@.len() - 1].1 == offset,
            forall|j: int| 0 <= j < v@.len() ==> (#[trigger] v@[j]).0 == j * MAX_FRAME_DATA,
            forall|j: int| 0 <= j < v@.len() ==> 0 < (#[trigger] v@[j]).1 <= MAX_FRAME_DATA
                && v@[j].0 + v@[j].1 <= offset,
            forall|j: int| 0 <= j < v@.len() - 1 ==> (#[trigger] v@[j]).1 == MAX_FRAME_DATA,
            offset < total_len && v@.len() > 0 ==> v@[v@.len() - 1].1 == MAX_FRAME_DATA,
        decreases total_len - offset,
    {
        let len = if total_len - offset < MAX_FRAME_DATA { total_len - offset } else { MAX_FRAME_DATA };
        v.push((offset, len));
        offset = offset + len;
    }
    v
}

/// What the reader of a transaction stream must do next.
#[derive(Debug)]
pub enum ReadAction {
    /// Read the next 20-byte frame header.
    ReadHeader,
    /// Read this many bytes of frame data.
    ReadData(usize),
    /// The transaction is complete.
    Complete(HotlineTransaction),
}

/// Incremental reassembly of one transaction from a stream read header by
/// header and chunk by chunk: the reader performs the reads, this machine
/// decides what to read next and when the transaction is complete.
#[derive(Debug)]
pub struct TransactionReader {
    first: Option<FrameHeader>,
    payload: Vec<u8>,
    expecting: Option<u32>,
}

/// State of a transaction reader: the first header once accepted, the
/// data gathered, and the data length requested, if any.
pub type ReaderView = (Option<FrameHeader>, Seq<u8>, Option<u32>);

/// Outcome of a frame header read by a reader in state `st`.
pub open spec fn spec_reader_header(st: ReaderView, h: FrameHeader) -> (ReaderView, Result<Option<u32>, FrameError>) {
    match st.0 {
        None => match header_check(h) {
            Some(e) => (st, Err(e)),
            None => if h.data_size == 0 {
                ((None, Seq::empty(), None), Ok(None))
            } else {
                ((Some(h), st.1, Some(h.data_size)), Ok(Some(h.data_size)))
            },
        },
        Some(first) => match consistency_check(first, h) {
            Some(e) => (st, Err(e)),
            None => if h.data_size == 0 {
                (st, Err(FrameError::ZeroContinuation))
            } else if h.data_size > MAX_FRAME_DATA {
                (st, Err(FrameError::ContinuationTooLarge))
            } else if h.data_size > first.total_size - st.1.len() {
                (st, Err(FrameError::ContinuationExceedsRemaining))
            } else {
                ((st.0, st.1, Some(h.data_size)), Ok(Some(h.data_size)))
            },
        },
    }
}

impl TransactionReader {
    /// The reader's internal invariant: a gathered payload never reaches
    /// the declared total, and requested data fits in what remains.
    pub closed spec fn wf(self) -> bool {
        match self.first {
            None => self.payload@.len() == 0 && self.expecting is None,
            Some(f) => {
                &&& header_check(f) is None
                &&& self.payload@.len() < f.total_size
                &&& self.expecting matches Some(n) ==> self.payload@.len() + n <= f.total_size
            },
        }
    }

    /// The reader's state.
    pub closed spec fn spec_view(&self) -> ReaderView {
        (self.first, self.payload@, self.expecting)
    }

    /// A reader waiting for the first frame header.
    pub fn new() -> (r: Self)
        ensures
            r.wf(),
            r.spec_view() == (None::<FrameHeader>, Seq::<u8>::empty(), None::<u32>),
    {
        let r = TransactionReader { first: None, payload: Vec::new(), expecting: None };
        assert(r.payload@ =~= Seq::<u8>::empty());
        r
    }

    /// Whether the reader waits for a header rather than for data.
    pub fn wants_header(&self) -> (b: bool)
        ensures
            b == self.spec_view().2 is None,
    {
        self.expecting.is_none()
    }

    /// Accept a frame header. On error the state is unchanged; an empty
    /// first frame completes an empty transaction at once.
    pub fn on_header(&mut self, bytes: &[u8; HEADER_LEN]) -> (r: Result<ReadAction, FrameError>)
        requires
            old(self).wf(),
            old(self).spec_view().2 is None,
        ensures
            final(self).wf(),
            ({
                let h = header_from(bytes@);
                let (st, out) = spec_reader_header(old(self).spec_view(), h);
                &&& final(self).spec_view() == st
                &&& match (r, out) {
                    (Ok(ReadAction::ReadData(n)), Ok(Some(m))) => n == m,
                    (Ok(ReadAction::Complete(tx)), Ok(None)) => tx@ == (with_data_size(h, 0), Seq::<u8>::empty()),
                    (Err(e), Err(f)) => e == f,
                    _ => false,
                }
            }),
    {
        let h = FrameHeader::from_bytes(bytes);
        match self.first {
            None => {
                match validate_header(&h) {
                    Ok(()) => {},
                    Err(e) => return Err(e),
                }
                if h.data_size == 0 {
                    let mut header = h;
                    header.data_size = header.total_size;
                    let tx = HotlineTransaction { header, payload: Vec::new() };
                    assert(tx.payload@ =~= Seq::<u8>::empty());
                    return Ok(ReadAction::Complete(tx));
                }
                self.first = Some(h);
                self.expecting = Some(h.data_size);
                Ok(ReadAction::ReadData(h.data_size as usize))
            },
            Some(first) => {
                match validate_fragment_consistency(&first, &h) {
                    Ok(()) => {},
                    Err(e) => return Err(e),
                }
                if h.data_size == 0 {
                    return Err(FrameError::ZeroContinuation);
                }
                if h.data_size as usize > MAX_FRAME_DATA {
                    return Err(FrameError::ContinuationTooLarge);
                }
                let remaining = first.total_size as usize - self.payload.len();
                if h.data_size as usize > remaining {
                    return Err(FrameError::ContinuationExceedsRemaining);
                }
                self.expecting = Some(h.data_size);
                Ok(ReadAction::ReadData(h.data_size as usize))
            },
        }
    }

    /// Accept the data requested by the last header. When the declared
    /// total is reached the transaction is complete, with `data_size` set
    /// to the total, and the reader starts over.
    pub fn on_data(&mut self, data: &[u8]) -> (r: ReadAction)
        requires
            old(self).wf(),
            old(self).spec_view().2 matches Some(n) && data@.len() == n,
        ensures
            final(self).wf(),
            ({
                let (first, acc, _) = old(self).spec_view();
                let f = first->Some_0;
                let np = acc + data@;
                if np.len() < f.total_size {
                    &&& r is ReadHeader
                    &&& final(self).spec_view() == (first, np, None::<u32>)
                } else {
                    &&& r matches ReadAction::Complete(tx) && tx@ == (with_data_size(f, f.total_size), np)
                    &&& final(self).spec_view() == (None::<FrameHeader>, Seq::<u8>::empty(), None::<u32>)
                }
            }),
    {
        let first = match self.first {
            Some(f) => f,
            None => return ReadAction::ReadHeader,
        };
        let mut payload: Vec<u8> = Vec::new();
        std::mem::swap(&mut payload, &mut self.payload);
        append_bytes(&mut payload, data);
        self.expecting = None;
        if payload.len() < first.total_size as usize {
            self.payload = payload;
            return ReadAction::ReadHeader;
        }
        self.first = None;
        let mut header = first;
        header.data_size = header.total_size;
        assert(self.payload@ =~= Seq::<u8>::empty());
        ReadAction::Complete(HotlineTransaction { header, payload })
    }
}

/// Driving a reader in state `st` over the stream `b`, from offset
/// `used`: each header read takes 20 bytes and each data read the length
/// requested, with the reader's own steps deciding what comes next. Gives
/// the completed transaction and the offset after it, or `None` when a
/// read is refused or the stream ends first.
pub open spec fn reader_run(st: ReaderView, b: Seq<u8>, used: int) -> Option<((FrameHeader, Seq<u8>), int)>
    decreases b.len() - used, if st.2 is None { 0int } else { 1int },
{
    if used < 0 || used > b.len() {
        None
    } else {
        match st.2 {
            None => {
                if b.len() - used < HEADER_LEN {
                    None
                } else {
                    let h = header_from(b.skip(used));
                    let (ns, out) = spec_reader_header(st, h);
                    match out {
                        Err(_) => None,
                        Ok(None) => Some(((with_data_size(h, 0), Seq::empty()), used + HEADER_LEN)),
                        Ok(Some(_)) => if ns.2 is Some {
                            reader_run(ns, b, used + HEADER_LEN)
                        } else {
                            None
                        },
                    }
                }
            },
            Some(n) => {
                if b.len() - used < n || st.0 is None {
                    None
                } else {
                    let f = st.0->Some_0;
                    let np = st.1 + b.subrange(used, used + n);
                    if np.len() < f.total_size {
                        reader_run((st.0, np, None), b, used + n)
                    } else {
                        Some(((with_data_size(f, f.total_size), np), used + n))
                    }
                }
            },
        }
    }
}

proof fn lemma_reader_follows_reassembly(first: FrameHeader, acc: Seq<u8>, pos: int, b: Seq<u8>)
    requires
        header_check(first) is None,
        acc.len() < first.total_size,
        0 <= pos <= b.len(),
        spec_reassemble(first, acc, pos, b) is Ok,
    ensures
        ({
            let (h, p, n) = spec_reassemble(first, acc, pos, b)->Ok_0;
            reader_run((Some(first), acc, None), b, pos) == Some(((h, p), n))
        }),
    decreases first.total_size - acc.len(),
{
    let next = header_from(b.skip(pos));
    let d = next.data_size;
    let end = pos + HEADER_LEN + d;
    let st = (Some(first), acc, None::<u32>);
    let (ns, out) = spec_reader_header(st, next);
    assert(ns == (Some(first), acc, Some(d)));
    assert(reader_run(st, b, pos) == reader_run(ns, b, pos + HEADER_LEN));
    let np = acc + b.subrange(pos + HEADER_LEN, end);
    if np.len() < first.total_size {
        assert(reader_run(ns, b, pos + HEADER_LEN) == reader_run((Some(first), np, None::<u32>), b, end));
        lemma_reader_follows_reassembly(first, np, end, b);
    } else {
        assert(reader_run(ns, b, pos + HEADER_LEN) == Some(((with_data_size(first, first.total_size), np), end)));
    }
}

/// Driving a fresh reader over a stream that the slice decoder accepts
/// gives the same transaction and consumes the same bytes.
pub proof fn lemma_reader_matches_decode(b: Seq<u8>)
    requires
        spec_decode(b) is Ok,
    ensures
        ({
            let (h, p, n) = spec_decode(b)->Ok_0;
            reader_run((None::<FrameHeader>, Seq::<u8>::empty(), None::<u32>), b, 0) == Some(((h, p), n))
        }),
{
    let h = header_from(b);
    let st = (None::<FrameHeader>, Seq::<u8>::empty(), None::<u32>);
    assert(b.skip(0) =~= b);
    let d = h.data_size;
    let end = HEADER_LEN + d;
    if d == 0 {
        assert(h.total_size == 0);
        assert(with_data_size(h, 0) == with_data_size(h, h.total_size));
        assert(b.subrange(HEADER_LEN as int, end) =~= Seq::<u8>::empty());
    } else {
        let ns = (Some(h), Seq::<u8>::empty(), Some(d));
        assert(reader_run(st, b, 0) == reader_run(ns, b, HEADER_LEN as int));
        let np = Seq::<u8>::empty() + b.subrange(HEADER_LEN as int, end);
        assert(np =~= b.subrange(HEADER_LEN as int, end));
        if np.len() < h.total_size {
            assert(reader_run(ns, b, HEADER_LEN as int) == reader_run((Some(h), np, None::<u32>), b, end));
            lemma_reader_follows_reassembly(h, np, end, b);
        }
    }
}

/// A fresh reader driven over the frames of a well-formed transaction,
/// followed by any bytes, completes that transaction (with
/// `data_size == total_size`) exactly at the end of its frames.
pub proof fn lemma_reader_round_trip(h: FrameHeader, p: Seq<u8>, rest: Seq<u8>)
    requires
        transaction_wf(h, p),
    ensures
        reader_run((None::<FrameHeader>, Seq::<u8>::empty(), None::<u32>), spec_frames(h, p) + rest, 0)
            == Some(((with_data_size(h, h.total_size), p), spec_frames(h, p).len() as int)),
{
    lemma_decode_frames_round_trip(h, p, rest);
    lemma_reader_matches_decode(spec_frames(h, p) + rest);
}

} // verus!
