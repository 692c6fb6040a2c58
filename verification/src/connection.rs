//! Connection-scoped handshake metadata.

use vstd::prelude::*;
use crate::protocol::{Handshake, VERSION};
use crate::transaction::u32_bytes;

verus! {

/// Handshake parameters captured from the Hotline preamble.
#[derive(Clone, Copy, Debug, PartialEq, Eq, Structural)]
pub struct HandshakeMetadata {
    /// Application-specific sub-protocol identifier.
    pub sub_protocol: u32,
    /// Protocol version negotiated during the handshake.
    pub version: u16,
    /// Application-defined sub-version negotiated during the handshake.
    pub sub_version: u16,
}

impl Default for HandshakeMetadata {
    fn default() -> (m: Self)
        ensures
            m == (HandshakeMetadata { sub_protocol: 0, version: VERSION, sub_version: 0 }),
    {
        HandshakeMetadata { sub_protocol: 0, version: VERSION, sub_version: 0 }
    }
}

impl HandshakeMetadata {
    /// The four-byte sub-protocol tag in network byte order.
    pub fn sub_protocol_tag(&self) -> (t: [u8; 4])
        ensures
            t@ == u32_bytes(self.sub_protocol),
    {
        let x = self.sub_protocol;
        let t = [(x / 16777216) as u8, ((x / 65536) % 256) as u8, ((x / 256) % 256) as u8, (x % 256) as u8];
        assert(t@ =~= u32_bytes(x));
        t
    }

    /// Metadata carried over from a parsed handshake.
    pub fn from_handshake(h: &Handshake) -> (m: Self)
        ensures
            m.sub_protocol == h.sub_protocol,
            m.version == h.version,
            m.sub_version == h.sub_version,
    {
        HandshakeMetadata { sub_protocol: h.sub_protocol, version: h.version, sub_version: h.sub_version }
    }
}

/// Number of connection-context entries visible to the current task:
/// one when a context is present, none otherwise.
pub fn registry_len(context_present: bool) -> (n: usize)
    ensures
        n == (if context_present { 1usize } else { 0usize }),
{
    if context_present {
        1
    } else {
        0
    }
}

} // verus!
