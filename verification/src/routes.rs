//! Reply construction for the routing path: error replies that keep the
//! request's type and id, and per-connection session state.

use vstd::prelude::*;
use crate::codec::{HotlineTransaction, spec_from_transaction};
use crate::transaction::{
    FrameHeader, Transaction, TransactionError, HEADER_LEN, header_from, spec_reply_header,
    reply_header, transaction_bytes,
};

verus! {

/// Error code of an internal server failure.
pub const ERR_INTERNAL: u32 = 3;

/// Authentication state of one connection.
#[derive(Clone, Debug, PartialEq, Eq)]
pub struct Session {
    /// The authenticated user, once logged in.
    pub user_id: Option<i32>,
}

impl Default for Session {
    fn default() -> (s: Self)
        ensures
            s.user_id is None,
    {
        Session { user_id: None }
    }
}

/// Per-connection mutable state for session tracking.
#[derive(Clone, Debug)]
pub struct SessionState {
    session: Session,
}

impl SessionState {
    /// A state whose session is not authenticated.
    pub fn new() -> (s: Self)
        ensures
            s.spec_session().user_id is None,
    {
        SessionState { session: Session::default() }
    }

    /// The session held.
    pub closed spec fn spec_session(&self) -> Session {
        self.session
    }

    /// Return the session.
    pub fn session(&self) -> (s: &Session)
        ensures
            *s == self.spec_session(),
    {
        &self.session
    }

    /// Return the session for update.
    pub fn session_mut(&mut self) -> (s: &mut Session)
        ensures
            *s == old(self).spec_session(),
            final(self).spec_session() == *final(s),
    {
        &mut self.session
    }
}

/// Header used when the request header could not be read.
pub open spec fn default_request_header() -> FrameHeader {
    FrameHeader { flags: 0, is_reply: 0, ty: 0, id: 0, error: 0, total_size: 0, data_size: 0 }
}

/// The empty error reply to `header` carrying `error_code`.
pub open spec fn spec_error_transaction(header: FrameHeader, error_code: u32) -> (FrameHeader, Seq<u8>) {
    (spec_reply_header(header, error_code, 0), Seq::empty())
}

/// Build the empty error reply to `header` carrying `error_code`.
pub fn error_transaction(header: &FrameHeader, error_code: u32) -> (t: Transaction)
    ensures
        (t.header, t.payload@) == spec_error_transaction(*header, error_code),
{
    let t = Transaction { header: reply_header(header, error_code, 0), payload: Vec::new() };
    assert(t.payload@ =~= Seq::<u8>::empty());
    t
}

/// Serialise a transaction as header bytes then payload bytes.
pub fn transaction_to_bytes(tx: &Transaction) -> (v: Vec<u8>)
    ensures
        v@ == transaction_bytes(tx.header, tx.payload@),
{
    tx.to_bytes()
}

/// Build the error reply to `header` as a validated transaction.
pub fn error_reply(header: &FrameHeader, error_code: u32) -> (r: Result<HotlineTransaction, TransactionError>)
    ensures
        r matches Ok(tx) && tx@ == spec_error_transaction(*header, error_code),
{
    let tx = error_transaction(header, error_code);
    let r = HotlineTransaction::from_transaction(tx);
    assert(spec_from_transaction(spec_reply_header(*header, error_code, 0), Seq::<u8>::empty())
        == Ok::<FrameHeader, TransactionError>(spec_reply_header(*header, error_code, 0)));
    r
}

/// Builder of error replies that keep the request's type and id
/// whenever the request header is known.
#[derive(Clone, Copy, Debug)]
pub struct ReplyBuilder {
    header: Option<FrameHeader>,
}

impl ReplyBuilder {
    /// The request header known to the builder.
    pub closed spec fn spec_header(&self) -> Option<FrameHeader> {
        self.header
    }

    /// The request header, or an all-zero header when it is unknown.
    pub open spec fn spec_request_header(&self) -> FrameHeader {
        match self.spec_header() {
            Some(h) => h,
            None => default_request_header(),
        }
    }

    /// A builder reading the request header from the first 20 bytes of
    /// `frame`, when there are that many.
    pub fn from_frame(frame: &[u8]) -> (b: Self)
        ensures
            b.spec_header() == (if frame@.len() >= HEADER_LEN { Some(header_from(frame@)) } else { None }),
    {
        if frame.len() >= HEADER_LEN {
            ReplyBuilder { header: Some(FrameHeader::from_prefix(frame)) }
        } else {
            ReplyBuilder { header: None }
        }
    }

    /// A builder for a known request header.
    pub fn from_header(header: &FrameHeader) -> (b: Self)
        ensures
            b.spec_header() == Some(*header),
    {
        ReplyBuilder { header: Some(*header) }
    }

    /// The request header, or an all-zero header when it is unknown.
    pub fn request_header_or_default(&self) -> (h: FrameHeader)
        ensures
            h == self.spec_request_header(),
    {
        match self.header {
            Some(h) => h,
            None => FrameHeader { flags: 0, is_reply: 0, ty: 0, id: 0, error: 0, total_size: 0, data_size: 0 },
        }
    }

    /// The empty error reply carrying `error_code`.
    pub fn error_transaction(&self, error_code: u32) -> (t: Transaction)
        ensures
            (t.header, t.payload@) == spec_error_transaction(self.spec_request_header(), error_code),
    {
        let request_header = self.request_header_or_default();
        error_transaction(&request_header, error_code)
    }

    /// The wire bytes of the empty error reply carrying `error_code`.
    pub fn error_bytes(&self, error_code: u32) -> (v: Vec<u8>)
        ensures
            v@ == transaction_bytes(spec_reply_header(self.spec_request_header(), error_code, 0), Seq::empty()),
    {
        let t = self.error_transaction(error_code);
        t.to_bytes()
    }

    /// The transaction type and id of the request, when known.
    pub fn header_ids(&self) -> (r: (Option<u16>, Option<u32>))
        ensures
            r == (match self.spec_header() {
                Some(h) => (Some(h.ty), Some(h.id)),
                None => (None::<u16>, None::<u32>),
            }),
    {
        match self.header {
            Some(h) => (Some(h.ty), Some(h.id)),
            None => (None, None),
        }
    }
}

/// Reply bytes for a frame that could not be parsed: an internal error
/// echoing the frame's header when it has one.
pub fn handle_parse_error(frame: &[u8]) -> (v: Vec<u8>)
    ensures
        v@ == transaction_bytes(
            spec_reply_header(
                if frame@.len() >= HEADER_LEN { header_from(frame@) } else { default_request_header() },
                ERR_INTERNAL,
                0,
            ),
            Seq::empty(),
        ),
{
    ReplyBuilder::from_frame(frame).error_bytes(ERR_INTERNAL)
}

/// Reply bytes for a transaction that is not a valid command: an
/// internal error echoing its header.
pub fn handle_command_parse_error(header: &FrameHeader) -> (v: Vec<u8>)
    ensures
        v@ == transaction_bytes(spec_reply_header(*header, ERR_INTERNAL, 0), Seq::empty()),
{
    ReplyBuilder::from_header(header).error_bytes(ERR_INTERNAL)
}

/// Reply bytes for a command whose processing failed: an internal error
/// echoing its header.
pub fn handle_process_error(header: &FrameHeader) -> (v: Vec<u8>)
    ensures
        v@ == transaction_bytes(spec_reply_header(*header, ERR_INTERNAL, 0), Seq::empty()),
{
    ReplyBuilder::from_header(header).error_bytes(ERR_INTERNAL)
}

/// Reply bytes for a command that produced no reply: an internal error
/// echoing its header.
pub fn handle_missing_reply(header: &FrameHeader) -> (v: Vec<u8>)
    ensures
        v@ == transaction_bytes(spec_reply_header(*header, ERR_INTERNAL, 0), Seq::empty()),
{
    ReplyBuilder::from_header(header).error_bytes(ERR_INTERNAL)
}

} // verus!
