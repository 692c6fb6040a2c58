//! Stream codec for Hotline framing over a growable byte buffer: decodes
//! physical frames, reassembles fragment series, and encodes outbound
//! transactions as 32 KiB fragments.

use vstd::prelude::*;
use bytes::BytesMut;
use crate::codec::{
    FrameError, HotlineTransaction, header_check, consistency_check, validate_header,
    validate_fragment_consistency, spec_from_parts, spec_frames, transaction_wf, first_chunk_len,
    later_frames, lemma_frames_unfold,
};
use crate::transaction::{
    FrameHeader, TransactionError, HEADER_LEN, MAX_FRAME_DATA, MAX_PAYLOAD_SIZE, header_from,
    with_data_size, header_bytes, append_bytes, lemma_header_bytes_len, lemma_header_prefix,
};

verus! {

#[verifier::external_type_specification]
#[verifier::external_body]
pub struct ExBytesMut(bytes::BytesMut);

/// The bytes a `BytesMut` buffer holds.
pub uninterp spec fn bytes_mut_contents(b: BytesMut) -> Seq<u8>;

/// Calls `<BytesMut as Buf>::chunk`, which for `BytesMut` is the whole
/// buffer as a slice.
#[verifier::external_body]
fn buffer_chunk(b: &BytesMut) -> (s: &[u8])
    ensures
        s@ == bytes_mut_contents(*b),
{
    bytes::Buf::chunk(b)
}

/// Calls `BytesMut::split_to`, which splits off the first `n` bytes, and
/// turns the split-off part into a `Vec` with `From<BytesMut>`.
#[verifier::external_body]
fn buffer_split_to(b: &mut BytesMut, n: usize) -> (v: Vec<u8>)
    requires
        n <= bytes_mut_contents(*old(b)).len(),
    ensures
        v@ == bytes_mut_contents(*old(b)).take(n as int),
        bytes_mut_contents(*final(b)) == bytes_mut_contents(*old(b)).skip(n as int),
{
    Vec::from(b.split_to(n))
}

/// Calls `<BytesMut as Buf>::advance`, which drops the first `n` bytes.
#[verifier::external_body]
fn buffer_advance(b: &mut BytesMut, n: usize)
    requires
        n <= bytes_mut_contents(*old(b)).len(),
    ensures
        bytes_mut_contents(*final(b)) == bytes_mut_contents(*old(b)).skip(n as int),
{
    bytes::Buf::advance(b, n)
}

/// Calls `BytesMut::reserve`, which grows capacity and keeps the bytes held.
#[verifier::external_body]
fn buffer_reserve(b: &mut BytesMut, additional: usize)
    requires
        bytes_mut_contents(*old(b)).len() + additional <= isize::MAX,
    ensures
        bytes_mut_contents(*final(b)) == bytes_mut_contents(*old(b)),
{
    b.reserve(additional)
}

/// Calls `<BytesMut as BufMut>::put_slice`, which appends the slice.
#[verifier::external_body]
fn buffer_put_slice(b: &mut BytesMut, s: &[u8])
    requires
        bytes_mut_contents(*old(b)).len() + s@.len() <= isize::MAX,
    ensures
        bytes_mut_contents(*final(b)) == bytes_mut_contents(*old(b)) + s@,
{
    bytes::BufMut::put_slice(b, s)
}

/// Number of bytes held in `b`, so that callers can check the room left
/// before appending to it.
pub fn buffer_len(b: &BytesMut) -> (n: usize)
    ensures
        n == bytes_mut_contents(*b).len(),
{
    buffer_chunk(b).len()
}

/// Taking one physical frame off the front of `buf`: the validated header
/// and payload once the frame is complete, and the bytes left.
pub open spec fn spec_take_frame(buf: Seq<u8>) -> (Result<Option<(FrameHeader, Seq<u8>)>, FrameError>, Seq<u8>) {
    if buf.len() < HEADER_LEN {
        (Ok(None), buf)
    } else {
        let h = header_from(buf);
        match header_check(h) {
            Some(e) => (Err(e), buf),
            None => {
                let flen = HEADER_LEN + h.data_size;
                if buf.len() < flen {
                    (Ok(None), buf)
                } else {
                    (Ok(Some((h, buf.subrange(HEADER_LEN as int, flen)))), buf.skip(flen))
                }
            },
        }
    }
}

/// Read one complete physical frame from `src`: `Ok(None)` while more
/// bytes are needed, else the validated header and its payload.
pub fn take_hotline_frame(src: &mut BytesMut) -> (r: Result<Option<(FrameHeader, Vec<u8>)>, FrameError>)
    ensures
        ({
            let (out, rest) = spec_take_frame(bytes_mut_contents(*old(src)));
            &&& bytes_mut_contents(*final(src)) == rest
            &&& match (r, out) {
                (Ok(None), Ok(None)) => true,
                (Ok(Some((h, p))), Ok(Some((sh, sp)))) => h == sh && p@ == sp,
                (Err(e), Err(f)) => e == f,
                _ => false,
            }
        }),
{
    let header = match HotlineCodec::peek_header(src) {
        Ok(Some(h)) => h,
        Ok(None) => return Ok(None),
        Err(CodecError::Frame(e)) => return Err(e),
        Err(_) => return Ok(None),
    };
    match HotlineCodec::take_frame_payload(src, &header) {
        Some(p) => Ok(Some((header, p))),
        None => Ok(None),
    }
}

/// Reasons the stream codec rejects input or output.
#[derive(Clone, Copy, Debug, PartialEq, Eq, Structural)]
pub enum CodecError {
    /// A frame header or continuation header was rejected.
    Frame(FrameError),
    /// The gathered payload is longer than the declared total.
    ReassemblyExceedsTotal,
    /// A fragment carries more bytes than the series still expects.
    FragmentExceedsRemaining,
    /// The reassembled transaction was rejected.
    Transaction(TransactionError),
    /// The stream ended inside a frame or fragment series.
    IncompleteFrame,
    /// An outbound transaction was rejected.
    InvalidInput(TransactionError),
}

/// Class of a stream codec error, mirroring the I/O error kinds it maps to.
#[derive(Clone, Copy, Debug, PartialEq, Eq, Structural)]
pub enum CodecErrorKind {
    /// The input is malformed.
    InvalidData,
    /// The stream ended inside a frame or series.
    UnexpectedEof,
    /// An outbound transaction cannot be written.
    InvalidInput,
}

impl CodecError {
    /// Class of the error: an unfinished frame or series at end of stream
    /// is an unexpected end, a rejected outbound transaction is invalid
    /// input, and everything else is invalid data.
    pub fn kind(&self) -> (k: CodecErrorKind)
        ensures
            k == (match *self {
                CodecError::IncompleteFrame => CodecErrorKind::UnexpectedEof,
                CodecError::InvalidInput(_) => CodecErrorKind::InvalidInput,
                _ => CodecErrorKind::InvalidData,
            }),
    {
        match self {
            CodecError::IncompleteFrame => CodecErrorKind::UnexpectedEof,
            CodecError::InvalidInput(_) => CodecErrorKind::InvalidInput,
            _ => CodecErrorKind::InvalidData,
        }
    }

    /// Text of [`Self::message`].
    pub open spec fn spec_message(self) -> &'static str {
        match self {
            CodecError::Frame(e) => e.spec_message(),
            CodecError::ReassemblyExceedsTotal => "reassembly payload exceeds declared total size",
            CodecError::FragmentExceedsRemaining => "fragment exceeds remaining payload size",
            CodecError::Transaction(e) => e.spec_message(),
            CodecError::IncompleteFrame => "incomplete transaction frame",
            CodecError::InvalidInput(e) => e.spec_message(),
        }
    }

    /// Human-readable description of the error.
    pub fn message(&self) -> (m: &'static str)
        ensures
            m == self.spec_message(),
    {
        match self {
            CodecError::Frame(e) => e.message(),
            CodecError::ReassemblyExceedsTotal => "reassembly payload exceeds declared total size",
            CodecError::FragmentExceedsRemaining => "fragment exceeds remaining payload size",
            CodecError::Transaction(e) => e.message(),
            CodecError::IncompleteFrame => "incomplete transaction frame",
            CodecError::InvalidInput(e) => e.message(),
        }
    }
}

/// A series being reassembled: its first header and the bytes so far.
pub type SeriesState = (FrameHeader, Seq<u8>);

/// Outcome of adding one continuation fragment to a series: the new
/// series state and whether it is complete.
pub open spec fn spec_append(st: SeriesState, h: FrameHeader, p: Seq<u8>) -> Result<(SeriesState, bool), CodecError> {
    match consistency_check(st.0, h) {
        Some(e) => Err(CodecError::Frame(e)),
        None => {
            if h.data_size == 0 {
                Err(CodecError::Frame(FrameError::ZeroContinuation))
            } else if st.1.len() > st.0.total_size {
                Err(CodecError::ReassemblyExceedsTotal)
            } else if h.data_size > st.0.total_size - st.1.len() {
                Err(CodecError::FragmentExceedsRemaining)
            } else {
                let np = st.1 + p;
                Ok(((st.0, np), np.len() == st.0.total_size))
            }
        },
    }
}

/// Outcome of finishing a series: the header normalised to
/// `data_size == total_size`, then checked with `from_parts`.
pub open spec fn spec_finalize(h: FrameHeader, p: Seq<u8>) -> Result<(FrameHeader, Seq<u8>), CodecError> {
    let fh = with_data_size(h, h.total_size);
    match spec_from_parts(fh, p) {
        Ok(()) => Ok((fh, p)),
        Err(e) => Err(CodecError::Transaction(e)),
    }
}

/// One decoding step over buffer `buf` with series state `st`: the new
/// state, the bytes left in the buffer, and the outcome.
pub open spec fn spec_decode_step(st: Option<SeriesState>, buf: Seq<u8>) -> (Option<SeriesState>, Seq<u8>, Result<Option<(FrameHeader, Seq<u8>)>, CodecError>) {
    if buf.len() < HEADER_LEN {
        (st, buf, Ok(None))
    } else {
        let h = header_from(buf);
        match header_check(h) {
            Some(e) => (st, buf, Err(CodecError::Frame(e))),
            None => {
                let flen = HEADER_LEN + h.data_size;
                if buf.len() < flen {
                    (st, buf, Ok(None))
                } else {
                    let payload = buf.subrange(HEADER_LEN as int, flen);
                    let rest = buf.skip(flen);
                    match st {
                        Some(s) => match spec_append(s, h, payload) {
                            Err(e) => (st, rest, Err(e)),
                            Ok((ns, complete)) => {
                                if !complete {
                                    (Some(ns), rest, Ok(None))
                                } else {
                                    match spec_finalize(ns.0, ns.1) {
                                        Ok(t) => (None, rest, Ok(Some(t))),
                                        Err(e) => (None, rest, Err(e)),
                                    }
                                }
                            },
                        },
                        None => {
                            if h.data_size < h.total_size {
                                (Some((h, payload)), rest, Ok(None))
                            } else {
                                match spec_finalize(h, payload) {
                                    Ok(t) => (None, rest, Ok(Some(t))),
                                    Err(e) => (None, rest, Err(e)),
                                }
                            }
                        },
                    }
                }
            },
        }
    }
}

/// State for reassembling multi-fragment transactions.
#[derive(Debug)]
struct ReassemblyState {
    first_header: FrameHeader,
    payload: Vec<u8>,
}

/// Stream codec for Hotline transaction framing.
#[derive(Debug)]
pub struct HotlineCodec {
    reassembly: Option<ReassemblyState>,
}

impl View for HotlineCodec {
    type V = Option<SeriesState>;

    closed spec fn view(&self) -> Option<SeriesState> {
        match self.reassembly {
            Some(s) => Some((s.first_header, s.payload@)),
            None => None,
        }
    }
}

impl HotlineCodec {
    /// Create a codec with no series in progress.
    pub fn new() -> (c: Self)
        ensures
            c@ is None,
    {
        HotlineCodec { reassembly: None }
    }

    /// Read and validate the header at the front of the buffer, if complete.
    fn peek_header(src: &BytesMut) -> (r: Result<Option<FrameHeader>, CodecError>)
        ensures
            bytes_mut_contents(*src).len() < HEADER_LEN ==> r == Ok::<Option<FrameHeader>, CodecError>(None),
            bytes_mut_contents(*src).len() >= HEADER_LEN ==> match header_check(header_from(bytes_mut_contents(*src))) {
                Some(e) => r == Err::<Option<FrameHeader>, CodecError>(CodecError::Frame(e)),
                None => r == Ok::<Option<FrameHeader>, CodecError>(Some(header_from(bytes_mut_contents(*src)))),
            },
    {
        let bytes = buffer_chunk(src);
        if bytes.len() < HEADER_LEN {
            return Ok(None);
        }
        let header = FrameHeader::from_prefix(bytes);
        match validate_header(&header) {
            Ok(()) => Ok(Some(header)),
            Err(e) => Err(CodecError::Frame(e)),
        }
    }

    /// Take the frame described by `header` off the buffer once it is
    /// complete, returning its payload.
    fn take_frame_payload(src: &mut BytesMut, header: &FrameHeader) -> (r: Option<Vec<u8>>)
        requires
            bytes_mut_contents(*old(src)).len() >= HEADER_LEN,
            header.data_size <= MAX_PAYLOAD_SIZE,
        ensures
            ({
                let c = bytes_mut_contents(*old(src));
                let flen = HEADER_LEN + header.data_size;
                if c.len() < flen {
                    r is None && bytes_mut_contents(*final(src)) == c
                } else {
                    r matches Some(p) && p@ == c.subrange(HEADER_LEN as int, flen)
                        && bytes_mut_contents(*final(src)) == c.skip(flen)
                }
            }),
    {
        let data_size = header.data_size as usize;
        let frame_len = HEADER_LEN + data_size;
        let len = buffer_chunk(src).len();
        if len < frame_len {
            buffer_reserve(src, frame_len - len);
            return None;
        }
        let ghost c = bytes_mut_contents(*src);
        buffer_advance(src, HEADER_LEN);
        let payload = buffer_split_to(src, data_size);
        assert(c.skip(HEADER_LEN as int).take(data_size as int) =~= c.subrange(HEADER_LEN as int, frame_len as int));
        assert(c.skip(HEADER_LEN as int).skip(data_size as int) =~= c.skip(frame_len as int));
        Some(payload)
    }

    /// Normalise the header of a complete series and check the result.
    fn finalize_transaction(header: FrameHeader, payload: Vec<u8>) -> (r: Result<HotlineTransaction, CodecError>)
        ensures
            match (r, spec_finalize(header, payload@)) {
                (Ok(tx), Ok(t)) => tx@ == t,
                (Err(e), Err(f)) => e == f,
                _ => false,
            },
    {
        let mut final_header = header;
        final_header.data_size = final_header.total_size;
        match HotlineTransaction::from_parts(final_header, payload) {
            Ok(tx) => Ok(tx),
            Err(e) => Err(CodecError::Transaction(e)),
        }
    }

    /// Add a continuation fragment to a series, returning whether the
    /// series is now complete. On error the series is left unchanged.
    fn append_fragment(state: &mut ReassemblyState, header: &FrameHeader, payload: &[u8]) -> (r: Result<bool, CodecError>)
        requires
            payload@.len() == header.data_size,
        ensures
            match spec_append((old(state).first_header, old(state).payload@), *header, payload@) {
                Ok((ns, complete)) => r == Ok::<bool, CodecError>(complete) && final(state).first_header == ns.0
                    && final(state).payload@ == ns.1,
                Err(e) => r == Err::<bool, CodecError>(e) && final(state).first_header == old(state).first_header
                    && final(state).payload@ == old(state).payload@,
            },
    {
        match validate_fragment_consistency(&state.first_header, header) {
            Ok(()) => {},
            Err(e) => return Err(CodecError::Frame(e)),
        }
        if header.data_size == 0 {
            return Err(CodecError::Frame(FrameError::ZeroContinuation));
        }
        let total_size = state.first_header.total_size as usize;
        let data_size = header.data_size as usize;
        if state.payload.len() > total_size {
            return Err(CodecError::ReassemblyExceedsTotal);
        }
        let remaining = total_size - state.payload.len();
        if data_size > remaining {
            return Err(CodecError::FragmentExceedsRemaining);
        }
        append_bytes(&mut state.payload, payload);
        Ok(state.payload.len() == total_size)
    }

    /// Decode one frame from the front of `src`. Returns `Ok(None)` when
    /// more bytes are needed or a series is still incomplete, and the
    /// reassembled transaction once its last fragment arrives.
    pub fn decode(&mut self, src: &mut BytesMut) -> (r: Result<Option<HotlineTransaction>, CodecError>)
        ensures
            ({
                let (st, rest, out) = spec_decode_step(old(self)@, bytes_mut_contents(*old(src)));
                &&& final(self)@ == st
                &&& bytes_mut_contents(*final(src)) == rest
                &&& match (r, out) {
                    (Ok(None), Ok(None)) => true,
                    (Ok(Some(tx)), Ok(Some(t))) => tx@ == t,
                    (Err(e), Err(f)) => e == f,
                    _ => false,
                }
            }),
    {
        let ghost c = bytes_mut_contents(*src);
        let header = match Self::peek_header(src) {
            Ok(Some(h)) => h,
            Ok(None) => return Ok(None),
            Err(e) => return Err(e),
        };
        let payload = match Self::take_frame_payload(src, &header) {
            Some(p) => p,
            None => return Ok(None),
        };
        if self.reassembly.is_some() {
            let mut state = self.reassembly.take().unwrap();
            let complete = match Self::append_fragment(&mut state, &header, payload.as_slice()) {
                Ok(b) => b,
                Err(e) => {
                    self.reassembly = Some(state);
                    return Err(e);
                },
            };
            if !complete {
                self.reassembly = Some(state);
                return Ok(None);
            }
            let tx = Self::finalize_transaction(state.first_header, state.payload);
            return match tx {
                Ok(t) => Ok(Some(t)),
                Err(e) => Err(e),
            };
        }
        if header.data_size < header.total_size {
            self.reassembly = Some(ReassemblyState { first_header: header, payload });
            return Ok(None);
        }
        match Self::finalize_transaction(header, payload) {
            Ok(t) => Ok(Some(t)),
            Err(e) => Err(e),
        }
    }

    /// Decode at end of stream: like [`decode`](Self::decode), but a
    /// pending series or leftover bytes are an error.
    pub fn decode_eof(&mut self, src: &mut BytesMut) -> (r: Result<Option<HotlineTransaction>, CodecError>)
        ensures
            ({
                let (st, rest, out) = spec_decode_step(old(self)@, bytes_mut_contents(*old(src)));
                &&& final(self)@ == st
                &&& bytes_mut_contents(*final(src)) == rest
                &&& match out {
                    Ok(Some(t)) => r matches Ok(Some(tx)) && tx@ == t,
                    Ok(None) => if st is Some || rest.len() > 0 {
                        r == Err::<Option<HotlineTransaction>, CodecError>(CodecError::IncompleteFrame)
                    } else {
                        r matches Ok(None)
                    },
                    Err(f) => r == Err::<Option<HotlineTransaction>, CodecError>(f),
                }
            }),
    {
        match self.decode(src) {
            Ok(Some(item)) => return Ok(Some(item)),
            Ok(None) => {},
            Err(e) => return Err(e),
        }
        if self.reassembly.is_some() || buffer_chunk(src).len() != 0 {
            return Err(CodecError::IncompleteFrame);
        }
        Ok(None)
    }

    /// Append the wire frames of `item` to `dst`.
    pub fn encode(&mut self, item: HotlineTransaction, dst: &mut BytesMut) -> (r: Result<(), CodecError>)
        requires
            bytes_mut_contents(*old(dst)).len() <= isize::MAX - 2 * MAX_PAYLOAD_SIZE,
        ensures
            r is Ok,
            bytes_mut_contents(*final(dst)) == bytes_mut_contents(*old(dst)) + spec_frames(item@.0, item@.1),
            final(self)@ == old(self)@,
    {
        let bytes = match item.encode() {
            Ok(b) => b,
            Err(e) => return Err(CodecError::InvalidInput(e)),
        };
        proof {
            crate::codec::lemma_frames_len(item@.0, item@.1);
            let n = bytes@.len();
            let m = item@.1.len();
            assert(n <= 2 * MAX_PAYLOAD_SIZE) by (nonlinear_arith)
                requires
                    n * 32768 <= m * (32768 + 20) + 20 * 32768,
                    m <= 1048576;
        }
        buffer_put_slice(dst, bytes.as_slice());
        Ok(())
    }
}

/// Decoding steps repeated from state `st` over `buf` while each step
/// asks for more input and consumes bytes: the state, the bytes left and
/// the outcome of the last step taken.
pub open spec fn spec_decode_run(st: Option<SeriesState>, buf: Seq<u8>) -> (Option<SeriesState>, Seq<u8>, Result<Option<(FrameHeader, Seq<u8>)>, CodecError>)
    decreases buf.len(),
{
    let (st2, rest, out) = spec_decode_step(st, buf);
    if out == Ok::<Option<(FrameHeader, Seq<u8>)>, CodecError>(None) && rest.len() < buf.len() {
        spec_decode_run(st2, rest)
    } else {
        (st2, rest, out)
    }
}

/// One continuation step of a well-formed series: the fragment at the
/// front of the buffer is appended, completing the transaction when it is
/// the last one.
#[verifier::spinoff_prover]
#[verifier::rlimit(40)]
proof fn lemma_stream_continue(h: FrameHeader, h0: FrameHeader, p: Seq<u8>, off: int, rest: Seq<u8>)
    requires
        transaction_wf(h, p),
        h0 == with_data_size(h, h0.data_size),
        0 < off < p.len(),
    ensures
        spec_decode_run(Some((h0, p.take(off))), spec_frames(h, p.skip(off)) + rest) == (
            None::<SeriesState>,
            rest,
            Ok::<Option<(FrameHeader, Seq<u8>)>, CodecError>(Some((with_data_size(h, h.total_size), p))),
        ),
    decreases p.len() - off,
{
    let q = p.skip(off);
    let c = first_chunk_len(q);
    let buf = spec_frames(h, q) + rest;
    lemma_frames_unfold(h, q, rest);
    let hd = with_data_size(h, c as u32);
    lemma_header_bytes_len(hd);
    assert(header_from(buf) == hd);
    assert(header_check(hd) is None);
    let flen = HEADER_LEN + c;
    assert(buf.len() >= flen);
    assert(buf.subrange(HEADER_LEN as int, flen) =~= buf.skip(HEADER_LEN as int).take(c));
    assert(consistency_check(h0, hd) is None);
    assert(p.take(off) + q.take(c) =~= p.take(off + c));
    let (st2, rest2, out) = spec_decode_step(Some((h0, p.take(off))), buf);
    if off + c == p.len() {
        assert(p.take(off + c) =~= p);
        assert(later_frames(h, q) =~= Seq::<u8>::empty());
        assert(buf.skip(flen) =~= rest);
        assert(with_data_size(h0, h0.total_size) == with_data_size(h, h.total_size));
        assert(spec_from_parts(with_data_size(h, h.total_size), p) is Ok);
        assert(out == Ok::<Option<(FrameHeader, Seq<u8>)>, CodecError>(Some((with_data_size(h, h.total_size), p))));
    } else {
        assert(q.skip(c) =~= p.skip(off + c));
        assert(rest2 == spec_frames(h, p.skip(off + c)) + rest);
        assert(st2 == Some((h0, p.take(off + c))));
        assert(rest2.len() < buf.len());
        lemma_stream_continue(h, h0, p, off + c, rest);
    }
}

/// The frames the stream codec writes for a well-formed transaction,
/// followed by any bytes, are read back by a fresh codec: every fragment
/// but the last asks for more input, the last gives the transaction with
/// its header normalised to `data_size == total_size`, and the bytes after
/// the frames are left in the buffer.
#[verifier::spinoff_prover]
#[verifier::rlimit(40)]
pub proof fn lemma_stream_round_trip(h: FrameHeader, p: Seq<u8>, rest: Seq<u8>)
    requires
        transaction_wf(h, p),
    ensures
        spec_decode_run(None, spec_frames(h, p) + rest) == (
            None::<SeriesState>,
            rest,
            Ok::<Option<(FrameHeader, Seq<u8>)>, CodecError>(Some((with_data_size(h, h.total_size), p))),
        ),
{
    let c = first_chunk_len(p);
    let buf = spec_frames(h, p) + rest;
    lemma_frames_unfold(h, p, rest);
    let hd = with_data_size(h, c as u32);
    lemma_header_bytes_len(hd);
    assert(header_from(buf) == hd);
    assert(header_check(hd) is None);
    let flen = HEADER_LEN + c;
    assert(buf.len() >= flen);
    assert(buf.subrange(HEADER_LEN as int, flen) =~= buf.skip(HEADER_LEN as int).take(c));
    if c == p.len() {
        assert(p.take(c) =~= p);
        assert(later_frames(h, p) =~= Seq::<u8>::empty());
        assert(buf.skip(flen) =~= rest);
        assert(with_data_size(hd, hd.total_size) == with_data_size(h, h.total_size));
        assert(spec_from_parts(with_data_size(h, h.total_size), p) is Ok);
    } else {
        assert(buf.skip(flen) == spec_frames(h, p.skip(c)) + rest);
        lemma_stream_continue(h, hd, p, c, rest);
    }
}

} // verus!
