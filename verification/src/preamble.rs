//! The validated Hotline handshake preamble read before any transaction.

use vstd::prelude::*;
use crate::protocol::{
    Handshake, HandshakeError, HANDSHAKE_LEN, HANDSHAKE_ERR_TIMEOUT, parse_handshake,
    spec_parse_handshake, error_code_from_str, starts_with, HANDSHAKE_INVALID_PROTOCOL_TOKEN,
    HANDSHAKE_UNSUPPORTED_VERSION_TOKEN, HANDSHAKE_ERR_INVALID, HANDSHAKE_ERR_UNSUPPORTED_VERSION,
};

verus! {

/// A validated handshake preamble.
#[derive(Clone, Copy, Debug, PartialEq, Eq)]
pub struct HotlinePreamble {
    handshake: Handshake,
}

impl HotlinePreamble {
    /// The parsed handshake held.
    pub closed spec fn spec_handshake(&self) -> Handshake {
        self.handshake
    }

    /// Parse and validate the 12 preamble bytes.
    pub fn try_from_bytes(bytes: [u8; HANDSHAKE_LEN]) -> (r: Result<Self, HandshakeError>)
        ensures
            match (r, spec_parse_handshake(bytes@)) {
                (Ok(p), Ok(h)) => p.spec_handshake() == h,
                (Err(e), Err(f)) => e == f,
                _ => false,
            },
    {
        match parse_handshake(&bytes) {
            Ok(handshake) => Ok(HotlinePreamble { handshake }),
            Err(e) => Err(e),
        }
    }

    /// Return the parsed handshake.
    pub fn handshake(&self) -> (h: &Handshake)
        ensures
            *h == self.spec_handshake(),
    {
        &self.handshake
    }

    /// Consume the preamble and return its handshake.
    pub fn into_handshake(self) -> (h: Handshake)
        ensures
            h == self.spec_handshake(),
    {
        self.handshake
    }
}

impl HandshakeError {
    /// Text of [`Self::detail`].
    pub open spec fn spec_detail(self) -> &'static str {
        match self {
            HandshakeError::InvalidProtocol => "invalid protocol id",
            HandshakeError::UnsupportedVersion(_) => "unsupported version",
        }
    }

    /// What went wrong, as the text that follows the token in a decode
    /// message; an unsupported version is followed by the version itself.
    pub fn detail(&self) -> (d: &'static str)
        ensures
            d == self.spec_detail(),
    {
        match self {
            HandshakeError::InvalidProtocol => "invalid protocol id",
            HandshakeError::UnsupportedVersion(_) => "unsupported version",
        }
    }
}

/// Reply code for a failed preamble read: from the token opening the
/// decode message when there is one, the timeout code when the read timed
/// out, and none otherwise.
pub fn error_code_for_decode_failure(message: Option<&str>, timed_out: bool) -> (r: Option<u32>)
    ensures
        r == (match message {
            Some(text) => if starts_with(text@, HANDSHAKE_INVALID_PROTOCOL_TOKEN@) {
                Some(HANDSHAKE_ERR_INVALID)
            } else if starts_with(text@, HANDSHAKE_UNSUPPORTED_VERSION_TOKEN@) {
                Some(HANDSHAKE_ERR_UNSUPPORTED_VERSION)
            } else {
                None::<u32>
            },
            None => if timed_out { Some(HANDSHAKE_ERR_TIMEOUT) } else { None::<u32> },
        }),
{
    match message {
        Some(text) => error_code_from_str(text),
        None => if timed_out { Some(HANDSHAKE_ERR_TIMEOUT) } else { None },
    }
}

} // verus!
