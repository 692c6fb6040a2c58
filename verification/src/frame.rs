//! Frame codec for the message-assembly transport.
//!
//! Inbound, each physical Hotline frame is taken off the stream and turned
//! into an assembly payload (first or continuation fragment) while a
//! tracker follows the fragment series. Outbound, a complete transaction
//! (`header || payload`) is written as 32 KiB fragments.

use vstd::prelude::*;
use bytes::{Bytes, BytesMut};
use crate::codec::{
    FrameError, HotlineTransaction, consistency_check, validate_fragment_consistency, spec_frames,
    spec_from_transaction, transaction_wf, first_chunk_len, later_frames, lemma_frames_unfold,
    header_check,
};
use crate::framed::{
    CodecError, HotlineCodec, bytes_mut_contents, spec_take_frame, take_hotline_frame,
};
use crate::message_assembly::{
    AssemblyError, AssemblyErrorKind, FrameSequence, MessageKey, HOTLINE_LOGICAL_MESSAGE_BYTES, spec_message_key,
    spec_first_frame_payload, spec_continuation_frame_payload, message_key_for,
    first_frame_payload, continuation_frame_payload,
};
use crate::route_ids::{route_id_for, spec_route_id};
use crate::transaction::{
    FrameHeader, TransactionError, HEADER_LEN, MAX_FRAME_DATA, MAX_PAYLOAD_SIZE, parse_transaction,
    spec_parse_transaction, with_data_size, header_from,
};

verus! {

#[verifier::external_type_specification]
#[verifier::external_body]
pub struct ExBytes(bytes::Bytes);

/// The bytes a `Bytes` buffer holds.
pub uninterp spec fn bytes_contents(b: Bytes) -> Seq<u8>;

/// Calls `From<Bytes> for Vec<u8>`, which hands over the same bytes.
#[verifier::external_body]
fn bytes_into_vec(b: Bytes) -> (v: Vec<u8>)
    ensures
        v@ == bytes_contents(b),
{
    Vec::from(b)
}

#[verifier::external_type_specification]
#[verifier::external_body]
pub struct ExEncodeError(bincode::error::EncodeError);

#[verifier::external_type_specification]
#[verifier::external_body]
pub struct ExDecodeError(bincode::error::DecodeError);

/// Bytes of the envelope with route `id`, correlation identifier
/// `correlation_id` and `payload`, as wireframe's `Message::to_bytes`
/// writes them.
pub uninterp spec fn envelope_encoding(id: u32, correlation_id: Option<u64>, payload: Seq<u8>) -> Seq<u8>;

/// The route, correlation identifier and payload of the envelope that
/// bincode's standard configuration reads from the start of `bytes`, or
/// `None` when the bytes do not hold one.
pub uninterp spec fn envelope_decoding(bytes: Seq<u8>) -> Option<(u32, Option<u64>, Seq<u8>)>;

/// Longest envelope payload this library hands to the encoder: well below
/// the sizes at which bincode's size count or allocation could overflow.
pub const ENVELOPE_PAYLOAD_MAX: usize = 2 * HOTLINE_LOGICAL_MESSAGE_BYTES;

/// The route, correlation identifier and declared payload length at the
/// front of `bytes`, read as bincode's standard configuration reads a
/// `(u32, Option<u64>, u64)`, with the number of bytes they take; `None`
/// when the bytes do not hold them.
pub uninterp spec fn envelope_prefix(bytes: Seq<u8>) -> Option<(u32, Option<u64>, u64, int)>;

/// Calls `Envelope::new` and `Message::to_bytes` (bincode, standard
/// configuration), which writes into a `Vec` and does not fail: the bytes
/// are the named encoding of the envelope, and reading them back gives the
/// same envelope.
#[verifier::external_body]
fn envelope_to_bytes(id: u32, correlation_id: Option<u64>, payload: Vec<u8>) -> (r: Result<Vec<u8>, bincode::error::EncodeError>)
    requires
        payload@.len() <= ENVELOPE_PAYLOAD_MAX,
    ensures
        r is Ok,
        r matches Ok(v) ==> v@ == envelope_encoding(id, correlation_id, payload@)
            && envelope_decoding(v@) == Some((id, correlation_id, payload@)),
{
    wireframe::message::Message::to_bytes(&wireframe::app::Envelope::new(id, correlation_id, payload))
}

/// Calls `bincode::decode_from_slice` for `(u32, Option<u64>, u64)` with
/// the standard configuration. Bincode writes an envelope field by field,
/// the payload as its length followed by its bytes, so when `bytes` hold
/// an envelope this reads its route, its correlation identifier and its
/// payload length, and the payload lies within the bytes after them. The
/// count of bytes read is at most the length of `bytes`.
#[verifier::external_body]
fn envelope_header(bytes: &[u8]) -> (r: Option<(u32, Option<u64>, u64, usize)>)
    ensures
        r is None ==> envelope_prefix(bytes@) is None,
        r matches Some((id, c, n, k)) ==> (envelope_prefix(bytes@) == Some((id, c, n, k as int)) && k <= bytes@.len()),
        r is None ==> envelope_decoding(bytes@) is None,
        r matches Some((rid, rc, n, k)) ==> (envelope_decoding(bytes@) matches Some((id, c, p)) ==> rid == id
            && rc == c && n == p.len() && k + p.len() <= bytes@.len()),
{
    match bincode::decode_from_slice::<(u32, Option<u64>, u64), _>(bytes, bincode::config::standard()) {
        Ok(((id, c, n), k)) => Some((id, c, n, k)),
        Err(_) => None,
    }
}

/// Calls `Message::from_bytes` for `Envelope`, then `Packet::into_parts`
/// and `PacketParts::into_payload`: the payload of the envelope read from
/// the start of `bytes`, or the decode error. The payload length declared
/// in the bytes must fit within them: bincode allocates the declared
/// length before reading, and a length past the input could not be
/// allocated.
#[verifier::external_body]
fn envelope_payload(bytes: &[u8]) -> (r: Result<Vec<u8>, bincode::error::DecodeError>)
    requires
        envelope_prefix(bytes@) matches Some((_, _, n, k)) && k + n <= bytes@.len(),
    ensures
        match envelope_decoding(bytes@) {
            Some((_, _, p)) => r matches Ok(v) && v@ == p,
            None => r is Err,
        },
{
    match <wireframe::app::Envelope as wireframe::message::Message>::from_bytes(bytes) {
        Ok((envelope, _)) => Ok(wireframe::app::Packet::into_parts(envelope).into_payload()),
        Err(e) => Err(e),
    }
}

/// Milliseconds a fragment series may wait for its next continuation.
pub const SERIES_TIMEOUT_MS: u64 = 5000;

/// Reasons a fragment cannot be added to the tracked series.
#[derive(Clone, Copy, Debug, PartialEq, Eq, Structural)]
pub enum SeriesError {
    /// A continuation arrived while no series was open.
    NoActiveSeries,
    /// The series waited too long for its next continuation.
    TimedOut,
    /// A continuation header disagrees with the first header.
    Inconsistent(FrameError),
    /// A continuation carries no bytes.
    ZeroProgress,
    /// A continuation carries more bytes than the series still expects.
    ExceedsRemaining,
    /// The sequence counter would overflow.
    SequenceOverflow,
    /// A first fragment carries more bytes than its declared total.
    FirstExceedsTotal,
    /// The assembly payload could not be built.
    Assembly(AssemblyError),
}

impl SeriesError {
    /// The I/O error kind this error maps to: malformed data, except where
    /// building the assembly payload says otherwise.
    pub fn kind(&self) -> (k: AssemblyErrorKind)
        ensures
            k == (match *self {
                SeriesError::Assembly(e) => (match e {
                    AssemblyError::MissingTag | AssemblyError::FirstTruncated
                    | AssemblyError::ContinuationTruncated => AssemblyErrorKind::UnexpectedEof,
                    _ => AssemblyErrorKind::InvalidData,
                }),
                _ => AssemblyErrorKind::InvalidData,
            }),
    {
        match self {
            SeriesError::Assembly(e) => e.kind(),
            _ => AssemblyErrorKind::InvalidData,
        }
    }

    /// Text of [`Self::message`].
    pub open spec fn spec_message(self) -> &'static str {
        match self {
            SeriesError::NoActiveSeries => "continuation fragment arrived without an active series",
            SeriesError::TimedOut => "fragmented Hotline request timed out waiting for continuation",
            SeriesError::Inconsistent(e) => e.spec_message(),
            SeriesError::ZeroProgress => "continuation fragment carries zero bytes and makes no progress",
            SeriesError::ExceedsRemaining => "fragment exceeds remaining payload size",
            SeriesError::SequenceOverflow => "fragment sequence overflow while tracking continuation",
            SeriesError::FirstExceedsTotal => "first fragment exceeds declared total size",
            SeriesError::Assembly(e) => e.spec_message(),
        }
    }

    /// Human-readable description of the error.
    pub fn message(&self) -> (m: &'static str)
        ensures
            m == self.spec_message(),
    {
        match self {
            SeriesError::NoActiveSeries => "continuation fragment arrived without an active series",
            SeriesError::TimedOut => "fragmented Hotline request timed out waiting for continuation",
            SeriesError::Inconsistent(e) => e.message(),
            SeriesError::ZeroProgress => "continuation fragment carries zero bytes and makes no progress",
            SeriesError::ExceedsRemaining => "fragment exceeds remaining payload size",
            SeriesError::SequenceOverflow => "fragment sequence overflow while tracking continuation",
            SeriesError::FirstExceedsTotal => "first fragment exceeds declared total size",
            SeriesError::Assembly(e) => e.message(),
        }
    }
}

/// An open series: first header, message key, bytes still expected, next
/// sequence number and deadline (milliseconds).
pub type SeriesView = (FrameHeader, u64, nat, u32, u64);

/// Deadline `SERIES_TIMEOUT_MS` after `now`, saturating.
pub open spec fn deadline_after(now: u64) -> u64 {
    if now > u64::MAX - SERIES_TIMEOUT_MS {
        u64::MAX
    } else {
        (now + SERIES_TIMEOUT_MS) as u64
    }
}

/// Opening a series with a first fragment at time `now`: the tracker
/// state afterwards and the assembly payload.
pub open spec fn spec_start(st: Option<SeriesView>, h: FrameHeader, payload: Seq<u8>, now: u64) -> (Option<SeriesView>, Result<Seq<u8>, SeriesError>) {
    if payload.len() > h.total_size {
        (st, Err(SeriesError::FirstExceedsTotal))
    } else {
        let remaining = (h.total_size - payload.len()) as nat;
        let key = spec_message_key(h);
        let ns = if remaining > 0 { Some((h, key, remaining, 1u32, deadline_after(now))) } else { st };
        (ns, Ok(spec_first_frame_payload(key, h, payload)))
    }
}

/// Adding a continuation fragment at time `now`: the tracker state
/// afterwards and the assembly payload.
pub open spec fn spec_continue(st: Option<SeriesView>, h: FrameHeader, payload: Seq<u8>, now: u64) -> (Option<SeriesView>, Result<Seq<u8>, SeriesError>) {
    match st {
        None => (None, Err(SeriesError::NoActiveSeries)),
        Some((first, key, remaining, seq, deadline)) => {
            if now > deadline {
                (None, Err(SeriesError::TimedOut))
            } else {
                match consistency_check(first, h) {
                    Some(e) => (st, Err(SeriesError::Inconsistent(e))),
                    None => {
                        if payload.len() == 0 {
                            (None, Err(SeriesError::ZeroProgress))
                        } else if payload.len() > remaining {
                            (None, Err(SeriesError::ExceedsRemaining))
                        } else {
                            let is_last = payload.len() == remaining;
                            let out = spec_continuation_frame_payload(key, seq, is_last, payload);
                            if is_last {
                                (None, Ok(out))
                            } else if seq == u32::MAX {
                                (st, Err(SeriesError::SequenceOverflow))
                            } else {
                                (Some((first, key, (remaining - payload.len()) as nat, (seq + 1) as u32, deadline_after(now))), Ok(out))
                            }
                        }
                    },
                }
            }
        },
    }
}

/// Per-series state while a multi-fragment transaction arrives.
#[derive(Debug)]
struct InboundSeriesState {
    first_header: FrameHeader,
    message_key: MessageKey,
    remaining: usize,
    next_sequence: FrameSequence,
    deadline_ms: u64,
}

/// Tracker for one in-progress multi-fragment Hotline series.
#[derive(Debug)]
pub struct InboundSeriesTracker {
    state: Option<InboundSeriesState>,
}

impl View for InboundSeriesTracker {
    type V = Option<SeriesView>;

    closed spec fn view(&self) -> Option<SeriesView> {
        match self.state {
            Some(s) => Some((s.first_header, s.message_key.0, s.remaining as nat, s.next_sequence.0, s.deadline_ms)),
            None => None,
        }
    }
}

fn deadline_from(now_ms: u64) -> (d: u64)
    ensures
        d == deadline_after(now_ms),
{
    if now_ms > u64::MAX - SERIES_TIMEOUT_MS {
        u64::MAX
    } else {
        now_ms + SERIES_TIMEOUT_MS
    }
}

impl InboundSeriesState {
    #[verifier::type_invariant]
    closed spec fn inv(self) -> bool {
        self.remaining <= self.first_header.total_size
    }
}

impl InboundSeriesTracker {
    /// A tracker with no open series.
    pub fn new() -> (t: Self)
        ensures
            t@ is None,
    {
        InboundSeriesTracker { state: None }
    }

    /// Whether a series is open.
    pub fn has_active_series(&self) -> (b: bool)
        ensures
            b == self@ is Some,
    {
        self.state.is_some()
    }

    /// Record a first fragment received at `now_ms`, opening a series when
    /// more bytes are expected, and return its assembly payload.
    pub fn start(&mut self, header: &FrameHeader, payload: &[u8], now_ms: u64) -> (r: Result<Vec<u8>, SeriesError>)
        ensures
            ({
                let (st, out) = spec_start(old(self)@, *header, payload@, now_ms);
                &&& final(self)@ == st
                &&& match (r, out) {
                    (Ok(v), Ok(w)) => v@ == w,
                    (Err(e), Err(f)) => e == f,
                    _ => false,
                }
            }),
    {
        let message_key = message_key_for(header);
        let total = header.total_size as usize;
        if payload.len() > total {
            return Err(SeriesError::FirstExceedsTotal);
        }
        let remaining = total - payload.len();
        if remaining > 0 {
            self.state = Some(InboundSeriesState {
                first_header: *header,
                message_key,
                remaining,
                next_sequence: FrameSequence(1),
                deadline_ms: deadline_from(now_ms),
            });
        }
        match first_frame_payload(message_key, header, payload) {
            Ok(v) => Ok(v),
            Err(e) => Err(SeriesError::Assembly(e)),
        }
    }

    /// Validate and advance the open series by one continuation fragment
    /// received at `now_ms`, and return its assembly payload.
    pub fn continue_series(&mut self, header: &FrameHeader, payload: &[u8], now_ms: u64) -> (r: Result<Vec<u8>, SeriesError>)
        ensures
            ({
                let (st, out) = spec_continue(old(self)@, *header, payload@, now_ms);
                &&& final(self)@ == st
                &&& match (r, out) {
                    (Ok(v), Ok(w)) => v@ == w,
                    (Err(e), Err(f)) => e == f,
                    _ => false,
                }
            }),
    {
        if self.state.is_none() {
            return Err(SeriesError::NoActiveSeries);
        }
        let state = self.state.take().unwrap();
        proof { use_type_invariant(&state); }
        if now_ms > state.deadline_ms {
            return Err(SeriesError::TimedOut);
        }
        match validate_fragment_consistency(&state.first_header, header) {
            Ok(()) => {},
            Err(e) => {
                self.state = Some(state);
                return Err(SeriesError::Inconsistent(e));
            },
        }
        if payload.len() == 0 {
            return Err(SeriesError::ZeroProgress);
        }
        let data_size = payload.len();
        if data_size > state.remaining {
            return Err(SeriesError::ExceedsRemaining);
        }
        let is_last = data_size == state.remaining;
        let message_key = state.message_key;
        let sequence = state.next_sequence;
        if !is_last {
            if sequence.0 == 0xffff_ffff {
                self.state = Some(state);
                return Err(SeriesError::SequenceOverflow);
            }
            self.state = Some(InboundSeriesState {
                first_header: state.first_header,
                message_key,
                remaining: state.remaining - data_size,
                next_sequence: FrameSequence(sequence.0 + 1),
                deadline_ms: deadline_from(now_ms),
            });
        }
        match continuation_frame_payload(message_key, sequence, is_last, payload) {
            Ok(v) => Ok(v),
            Err(e) => Err(SeriesError::Assembly(e)),
        }
    }

    /// Drop the open series, if any.
    pub fn clear(&mut self)
        ensures
            final(self)@ is None,
    {
        self.state = None;
    }
}

/// Reasons the inbound frame decoder stops.
#[derive(Clone, Copy, Debug, PartialEq, Eq, Structural)]
pub enum FrameDecodeError {
    /// A physical frame header was rejected.
    Frame(FrameError),
    /// The fragment does not fit the tracked series.
    Series(SeriesError),
    /// The envelope carrying the fragment could not be encoded.
    EnvelopeEncode,
}

impl FrameDecodeError {
    /// Text of [`Self::message`].
    pub open spec fn spec_message(self) -> &'static str {
        match self {
            FrameDecodeError::Frame(e) => e.spec_message(),
            FrameDecodeError::Series(e) => e.spec_message(),
            FrameDecodeError::EnvelopeEncode => "failed to encode envelope",
        }
    }

    /// Human-readable description of the error.
    pub fn message(&self) -> (m: &'static str)
        ensures
            m == self.spec_message(),
    {
        match self {
            FrameDecodeError::Frame(e) => e.message(),
            FrameDecodeError::Series(e) => e.message(),
            FrameDecodeError::EnvelopeEncode => "failed to encode envelope",
        }
    }
}

/// A decoded fragment ready to be wrapped for routing: the route, the
/// correlation identifier (the transaction id) and the assembly payload.
#[derive(Clone, Debug, PartialEq, Eq)]
pub struct RoutedFrame {
    /// Route the fragment is dispatched to.
    pub route_id: u32,
    /// Correlation identifier carried with it.
    pub correlation_id: u64,
    /// The assembly payload.
    pub payload: Vec<u8>,
}

/// One decoding step of the inbound frame decoder over buffer `buf` with
/// tracker state `st` at time `now`: the tracker state, the buffer left,
/// and the route, correlation id and assembly payload produced.
pub open spec fn spec_decode_frame(st: Option<SeriesView>, buf: Seq<u8>, now: u64) -> (Option<SeriesView>, Seq<u8>, Result<Option<(u32, u64, Seq<u8>)>, FrameDecodeError>) {
    let (taken, rest) = spec_take_frame(buf);
    match taken {
        Err(e) => (st, rest, Err(FrameDecodeError::Frame(e))),
        Ok(None) => (st, rest, Ok(None)),
        Ok(Some((h, p))) => {
            let (ns, out) = if st is Some { spec_continue(st, h, p, now) } else { spec_start(st, h, p, now) };
            match out {
                Err(e) => (ns, rest, Err(FrameDecodeError::Series(e))),
                Ok(o) => (ns, rest, Ok(Some((spec_route_id(h.ty), h.id as u64, o)))),
            }
        },
    }
}

/// Stateful inbound half of the frame codec, tracking the open series.
#[derive(Debug)]
pub struct HotlineFrameDecoder {
    series: InboundSeriesTracker,
}

impl View for HotlineFrameDecoder {
    type V = Option<SeriesView>;

    closed spec fn view(&self) -> Option<SeriesView> {
        self.series@
    }
}

impl HotlineFrameDecoder {
    /// A decoder with no open series.
    pub fn new() -> (d: Self)
        ensures
            d@ is None,
    {
        HotlineFrameDecoder { series: InboundSeriesTracker::new() }
    }

    /// Decode one physical frame from the front of `src` at time `now_ms`.
    /// Returns `Ok(None)` while the frame is incomplete.
    pub fn decode_frame(&mut self, src: &mut BytesMut, now_ms: u64) -> (r: Result<Option<RoutedFrame>, FrameDecodeError>)
        ensures
            ({
                let (st, rest, out) = spec_decode_frame(old(self)@, bytes_mut_contents(*old(src)), now_ms);
                &&& final(self)@ == st
                &&& bytes_mut_contents(*final(src)) == rest
                &&& match (r, out) {
                    (Ok(None), Ok(None)) => true,
                    (Ok(Some(f)), Ok(Some((route, corr, p)))) => f.route_id == route && f.correlation_id == corr && f.payload@ == p,
                    (Err(e), Err(g)) => e == g,
                    _ => false,
                }
            }),
    {
        let (header, payload) = match take_hotline_frame(src) {
            Ok(Some(frame)) => frame,
            Ok(None) => return Ok(None),
            Err(e) => return Err(FrameDecodeError::Frame(e)),
        };
        let result = if self.series.has_active_series() {
            self.series.continue_series(&header, payload.as_slice(), now_ms)
        } else {
            self.series.start(&header, payload.as_slice(), now_ms)
        };
        match result {
            Ok(p) => Ok(Some(RoutedFrame { route_id: route_id_for(header.ty), correlation_id: header.id as u64, payload: p })),
            Err(e) => Err(FrameDecodeError::Series(e)),
        }
    }

    /// Decode one physical frame from the front of `src` at time `now_ms`
    /// and wrap its assembly payload in an envelope addressed to the
    /// frame's route and correlated by its transaction id.
    pub fn decode(&mut self, src: &mut BytesMut, now_ms: u64) -> (r: Result<Option<Vec<u8>>, FrameDecodeError>)
        ensures
            ({
                let (st, rest, out) = spec_decode_frame(old(self)@, bytes_mut_contents(*old(src)), now_ms);
                &&& final(self)@ == st
                &&& bytes_mut_contents(*final(src)) == rest
                &&& match out {
                    Ok(None) => r matches Ok(None),
                    Ok(Some((route, corr, p))) => r matches Ok(Some(v)) && v@ == envelope_encoding(route, Some(corr), p),
                    Err(g) => r == Err::<Option<Vec<u8>>, FrameDecodeError>(g),
                }
            }),
    {
        match self.decode_frame(src, now_ms) {
            Ok(Some(frame)) => match envelope_to_bytes(frame.route_id, Some(frame.correlation_id), frame.payload) {
                Ok(bytes) => Ok(Some(bytes)),
                Err(_) => Err(FrameDecodeError::EnvelopeEncode),
            },
            Ok(None) => Ok(None),
            Err(e) => Err(e),
        }
    }
}

/// Reasons the outbound frame encoder rejects a frame.
#[derive(Clone, Copy, Debug, PartialEq, Eq, Structural)]
pub enum FrameEncodeError {
    /// The frame is not a single-frame transaction.
    Parse(TransactionError),
    /// The transaction cannot be sent.
    Invalid(TransactionError),
    /// The outbound envelope could not be decoded.
    EnvelopeDecode,
}

impl FrameEncodeError {
    /// Text of [`Self::message`].
    pub open spec fn spec_message(self) -> &'static str {
        match self {
            FrameEncodeError::Parse(e) => e.spec_message(),
            FrameEncodeError::Invalid(e) => e.spec_message(),
            FrameEncodeError::EnvelopeDecode => "failed to decode envelope",
        }
    }

    /// Human-readable description of the error.
    pub fn message(&self) -> (m: &'static str)
        ensures
            m == self.spec_message(),
    {
        match self {
            FrameEncodeError::Parse(e) => e.message(),
            FrameEncodeError::Invalid(e) => e.message(),
            FrameEncodeError::EnvelopeDecode => "failed to decode envelope",
        }
    }
}

/// Outbound half of the frame codec.
#[derive(Debug)]
pub struct HotlineFrameEncoder {
    inner: HotlineCodec,
}

impl View for HotlineFrameEncoder {
    type V = Option<crate::framed::SeriesState>;

    closed spec fn view(&self) -> Option<crate::framed::SeriesState> {
        self.inner@
    }
}

impl HotlineFrameEncoder {
    /// A new encoder, whose stream codec has no series in progress.
    pub fn new() -> (e: Self)
        ensures
            e@ is None,
    {
        HotlineFrameEncoder { inner: HotlineCodec::new() }
    }

    /// Append the wire fragments of the transaction in `frame`
    /// (`header || payload`) to `dst`.
    pub fn encode_frame(&mut self, frame: &[u8], dst: &mut BytesMut) -> (r: Result<(), FrameEncodeError>)
        requires
            bytes_mut_contents(*old(dst)).len() <= isize::MAX - 2 * MAX_PAYLOAD_SIZE,
        ensures
            match spec_parse_transaction(frame@) {
                Err(e) => r == Err::<(), FrameEncodeError>(FrameEncodeError::Parse(e))
                    && bytes_mut_contents(*final(dst)) == bytes_mut_contents(*old(dst)),
                Ok((h, p)) => match spec_from_transaction(h, p) {
                    Err(e) => r == Err::<(), FrameEncodeError>(FrameEncodeError::Invalid(e))
                        && bytes_mut_contents(*final(dst)) == bytes_mut_contents(*old(dst)),
                    Ok(nh) => r is Ok && bytes_mut_contents(*final(dst)) == bytes_mut_contents(*old(dst)) + spec_frames(nh, p),
                },
            },
    {
        let parsed = match parse_transaction(frame) {
            Ok(t) => t,
            Err(e) => return Err(FrameEncodeError::Parse(e)),
        };
        let tx = match HotlineTransaction::from_transaction(parsed) {
            Ok(t) => t,
            Err(e) => return Err(FrameEncodeError::Invalid(e)),
        };
        match self.inner.encode(tx, dst) {
            Ok(()) => Ok(()),
            Err(CodecError::InvalidInput(e)) => Err(FrameEncodeError::Invalid(e)),
            Err(_) => Err(FrameEncodeError::Invalid(TransactionError::SizeMismatch)),
        }
    }

    /// Append the wire fragments of the transaction carried by the
    /// envelope `item` to `dst`.
    pub fn encode(&mut self, item: Vec<u8>, dst: &mut BytesMut) -> (r: Result<(), FrameEncodeError>)
        requires
            bytes_mut_contents(*old(dst)).len() <= isize::MAX - 2 * MAX_PAYLOAD_SIZE,
        ensures
            match envelope_decoding(item@) {
                None => r == Err::<(), FrameEncodeError>(FrameEncodeError::EnvelopeDecode)
                    && bytes_mut_contents(*final(dst)) == bytes_mut_contents(*old(dst)),
                Some((_, _, frame)) => match spec_parse_transaction(frame) {
                    Err(e) => r == Err::<(), FrameEncodeError>(FrameEncodeError::Parse(e))
                        && bytes_mut_contents(*final(dst)) == bytes_mut_contents(*old(dst)),
                    Ok((h, p)) => match spec_from_transaction(h, p) {
                        Err(e) => r == Err::<(), FrameEncodeError>(FrameEncodeError::Invalid(e))
                            && bytes_mut_contents(*final(dst)) == bytes_mut_contents(*old(dst)),
                        Ok(nh) => r is Ok && bytes_mut_contents(*final(dst)) == bytes_mut_contents(*old(dst)) + spec_frames(nh, p),
                    },
                },
            },
    {
        let payload = match envelope_header(item.as_slice()) {
            None => return Err(FrameEncodeError::EnvelopeDecode),
            Some((_, _, n, k)) => {
                if n > (item.len() - k) as u64 {
                    return Err(FrameEncodeError::EnvelopeDecode);
                }
                match envelope_payload(item.as_slice()) {
                    Ok(p) => p,
                    Err(_) => return Err(FrameEncodeError::EnvelopeDecode),
                }
            },
        };
        self.encode_frame(payload.as_slice(), dst)
    }
}

/// Frame codec for Hotline transactions over the message-assembly
/// transport.
#[derive(Clone, Copy, Debug, Default)]
pub struct HotlineFrameCodec;

impl HotlineFrameCodec {
    /// A new frame codec.
    pub fn new() -> (c: Self)
        ensures
            c == HotlineFrameCodec,
    {
        HotlineFrameCodec
    }

    /// A fresh inbound decoder.
    pub fn decoder(&self) -> (d: HotlineFrameDecoder)
        ensures
            d@ is None,
    {
        HotlineFrameDecoder::new()
    }

    /// A fresh outbound encoder.
    pub fn encoder(&self) -> (e: HotlineFrameEncoder)
        ensures
            e@ is None,
    {
        HotlineFrameEncoder::new()
    }

    /// The bytes of a frame.
    pub fn frame_payload(frame: &Vec<u8>) -> (p: &[u8])
        ensures
            p@ == frame@,
    {
        frame.as_slice()
    }

    /// A frame holding `payload`.
    pub fn wrap_payload(&self, payload: Bytes) -> (f: Vec<u8>)
        ensures
            f@ == bytes_contents(payload),
    {
        bytes_into_vec(payload)
    }

    /// Largest logical message: a header plus the largest payload.
    pub fn max_frame_length(&self) -> (n: usize)
        ensures
            n == HOTLINE_LOGICAL_MESSAGE_BYTES,
    {
        HOTLINE_LOGICAL_MESSAGE_BYTES
    }
}

/// Feeding the buffer `buf` to a frame decoder in state `st` at time
/// `now`, frame after frame until it stops: the final state, the bytes
/// left, the route, correlation id and assembly payload of each frame,
/// and the error that stopped it, if any.
pub open spec fn run_decoder(st: Option<SeriesView>, buf: Seq<u8>, now: u64) -> (Option<SeriesView>, Seq<u8>, Seq<(u32, u64, Seq<u8>)>, Option<FrameDecodeError>)
    decreases buf.len(),
{
    let (ns, rest, out) = spec_decode_frame(st, buf, now);
    match out {
        Ok(Some(o)) => if rest.len() < buf.len() {
            let (fs, fr, outs, e) = run_decoder(ns, rest, now);
            (fs, fr, seq![o] + outs, e)
        } else {
            (ns, rest, seq![o], None)
        },
        Ok(None) => (ns, rest, Seq::empty(), None),
        Err(e) => (ns, rest, Seq::empty(), Some(e)),
    }
}

/// Continuation outputs for the payload bytes `q` still to come, numbered
/// from `seq`, the last one flagged.
pub open spec fn continuation_outputs(h: FrameHeader, key: u64, q: Seq<u8>, seq: u32) -> Seq<(u32, u64, Seq<u8>)>
    decreases q.len(),
{
    if q.len() == 0 {
        Seq::empty()
    } else {
        let c = first_chunk_len(q);
        seq![(spec_route_id(h.ty), h.id as u64, spec_continuation_frame_payload(key, seq, c == q.len(), q.take(c)))]
            + (if c < q.len() { continuation_outputs(h, key, q.skip(c), (seq + 1) as u32) } else { Seq::empty() })
    }
}

/// Outputs for the frames of a whole transaction: the first payload with
/// the opening chunk, then the continuations numbered from 1.
pub open spec fn transaction_outputs(h: FrameHeader, p: Seq<u8>) -> Seq<(u32, u64, Seq<u8>)> {
    let c = first_chunk_len(p);
    let h1 = with_data_size(h, c as u32);
    let key = spec_message_key(h1);
    seq![(spec_route_id(h.ty), h.id as u64, spec_first_frame_payload(key, h1, p.take(c)))]
        + (if c < p.len() { continuation_outputs(h, key, p.skip(c), 1) } else { Seq::empty() })
}

#[verifier::rlimit(60)]
#[verifier::spinoff_prover]
proof fn lemma_run_continuations(h: FrameHeader, p: Seq<u8>, off: int, key: u64, seq: u32, deadline: u64, now: u64)
    requires
        transaction_wf(h, p),
        0 < off < p.len(),
        now <= deadline,
        seq as int + (p.len() - off) <= u32::MAX,
    ensures
        run_decoder(
            Some((with_data_size(h, MAX_FRAME_DATA as u32), key, (p.len() - off) as nat, seq, deadline)),
            spec_frames(h, p.skip(off)),
            now,
        ) == (None::<SeriesView>, Seq::<u8>::empty(), continuation_outputs(h, key, p.skip(off), seq), None::<FrameDecodeError>),
    decreases p.len() - off,
{
    let q = p.skip(off);
    let buf = spec_frames(h, q);
    let c = first_chunk_len(q);
    let first = with_data_size(h, MAX_FRAME_DATA as u32);
    let st = Some((first, key, (p.len() - off) as nat, seq, deadline));
    lemma_frames_unfold(h, q, Seq::empty());
    assert(buf + Seq::<u8>::empty() =~= buf);
    let hn = with_data_size(h, c as u32);
    assert(header_from(buf) == hn);
    assert(header_check(hn) is None);
    crate::transaction::lemma_header_bytes_len(hn);
    assert(buf.subrange(HEADER_LEN as int, HEADER_LEN + c) =~= buf.skip(HEADER_LEN as int).take(c));
    assert(buf.subrange(HEADER_LEN as int, HEADER_LEN + c) == q.take(c));
    let rest = buf.skip(HEADER_LEN + c);
    assert(rest == later_frames(h, q));
    assert(consistency_check(first, hn) is None);
    let out = spec_continuation_frame_payload(key, seq, c == q.len(), q.take(c));
    if c == q.len() {
        assert(later_frames(h, q) =~= Seq::<u8>::empty());
        assert(spec_decode_frame(st, buf, now) == (None::<SeriesView>, rest, Ok::<Option<(u32, u64, Seq<u8>)>, FrameDecodeError>(Some((spec_route_id(h.ty), h.id as u64, out)))));
        assert(run_decoder(None, rest, now) == (None::<SeriesView>, Seq::<u8>::empty(), Seq::<(u32, u64, Seq<u8>)>::empty(), None::<FrameDecodeError>));
        assert(continuation_outputs(h, key, q, seq) =~= seq![(spec_route_id(h.ty), h.id as u64, out)]);
        assert(seq![(spec_route_id(h.ty), h.id as u64, out)] + Seq::<(u32, u64, Seq<u8>)>::empty() =~= seq![(spec_route_id(h.ty), h.id as u64, out)]);
    } else {
        let ns = Some((first, key, (p.len() - off - c) as nat, (seq + 1) as u32, deadline_after(now)));
        assert(spec_decode_frame(st, buf, now) == (ns, rest, Ok::<Option<(u32, u64, Seq<u8>)>, FrameDecodeError>(Some((spec_route_id(h.ty), h.id as u64, out)))));
        assert(q.skip(c) =~= p.skip(off + c));
        assert(rest == spec_frames(h, p.skip(off + c)));
        assert(now <= deadline_after(now));
        lemma_run_continuations(h, p, off + c, key, (seq + 1) as u32, deadline_after(now), now);
        assert(rest.len() < buf.len());
    }
}

/// A fresh frame decoder fed the frames of a well-formed transaction emits
/// one output per frame, all routed by the transaction type and
/// correlated by its id: first the assembly payload of the opening chunk,
/// then continuation payloads numbered from 1 with the last one flagged;
/// it consumes every byte and ends with no open series.
#[verifier::rlimit(60)]
#[verifier::spinoff_prover]
pub proof fn lemma_decoder_emits_transaction(h: FrameHeader, p: Seq<u8>, now: u64)
    requires
        transaction_wf(h, p),
    ensures
        run_decoder(None, spec_frames(h, p), now)
            == (None::<SeriesView>, Seq::<u8>::empty(), transaction_outputs(h, p), None::<FrameDecodeError>),
{
    let buf = spec_frames(h, p);
    let c = first_chunk_len(p);
    let h1 = with_data_size(h, c as u32);
    let key = spec_message_key(h1);
    lemma_frames_unfold(h, p, Seq::empty());
    assert(buf + Seq::<u8>::empty() =~= buf);
    assert(header_from(buf) == h1);
    assert(header_check(h1) is None);
    crate::transaction::lemma_header_bytes_len(h1);
    assert(buf.subrange(HEADER_LEN as int, HEADER_LEN + c) =~= buf.skip(HEADER_LEN as int).take(c));
    assert(buf.subrange(HEADER_LEN as int, HEADER_LEN + c) == p.take(c));
    let rest = buf.skip(HEADER_LEN + c);
    assert(rest == later_frames(h, p));
    let out = spec_first_frame_payload(key, h1, p.take(c));
    let o = (spec_route_id(h.ty), h.id as u64, out);
    if c == p.len() {
        assert(later_frames(h, p) =~= Seq::<u8>::empty());
        assert(spec_decode_frame(None, buf, now) == (None::<SeriesView>, rest, Ok::<Option<(u32, u64, Seq<u8>)>, FrameDecodeError>(Some(o))));
        if p.len() > 0 {
            assert(rest.len() < buf.len());
            assert(run_decoder(None, rest, now) == (None::<SeriesView>, Seq::<u8>::empty(), Seq::<(u32, u64, Seq<u8>)>::empty(), None::<FrameDecodeError>));
        } else {
            assert(rest.len() < buf.len());
            assert(run_decoder(None, rest, now) == (None::<SeriesView>, Seq::<u8>::empty(), Seq::<(u32, u64, Seq<u8>)>::empty(), None::<FrameDecodeError>));
        }
        assert(transaction_outputs(h, p) =~= seq![o]);
        assert(seq![o] + Seq::<(u32, u64, Seq<u8>)>::empty() =~= seq![o]);
    } else {
        let ns = Some((h1, key, (p.len() - c) as nat, 1u32, deadline_after(now)));
        assert(spec_decode_frame(None, buf, now) == (ns, rest, Ok::<Option<(u32, u64, Seq<u8>)>, FrameDecodeError>(Some(o))));
        assert(h1 == with_data_size(h, MAX_FRAME_DATA as u32));
        assert(rest == spec_frames(h, p.skip(c)));
        assert(now <= deadline_after(now));
        lemma_run_continuations(h, p, c, key, 1u32, deadline_after(now), now);
        assert(rest.len() < buf.len());
    }
}

} // verus!
