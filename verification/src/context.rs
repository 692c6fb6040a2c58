//! Per-connection state handed to route handlers.

use vstd::prelude::*;
use crate::connection::HandshakeMetadata;
use crate::routes::Session;

verus! {

/// Per-connection state: the session, the connection's context (peer,
/// database access, hashing) and the handshake metadata.
#[derive(Clone, Debug)]
pub struct ConnectionState<C> {
    /// Authentication state of the connection.
    pub session: Session,
    /// Connection context.
    pub context: C,
    /// Handshake metadata for compatibility decisions.
    pub handshake: HandshakeMetadata,
}

impl<C> ConnectionState<C> {
    /// State for a new connection; the session starts unauthenticated.
    pub fn new(context: C, handshake: HandshakeMetadata) -> (s: Self)
        ensures
            s.session.user_id is None,
            s.context == context,
            s.handshake == handshake,
    {
        ConnectionState { session: Session::default(), context, handshake }
    }
}

} // verus!
