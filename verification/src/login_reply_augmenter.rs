//! Login reply decoration, separate from the choice of login strategy.

use vstd::prelude::*;
use crate::compat_policy::{ClientCompatibility, spec_augment};
use crate::transaction::{FrameHeader, Transaction};

verus! {

/// Strategy for decorating login replies.
pub trait LoginReplyAugmenter {
    /// `after` is a possible result of decorating the reply `before`. An
    /// implementation states here what its decoration does; one that keeps
    /// this default states nothing of its result. The default cannot be
    /// dropped: an implementation written in ordinary Rust, outside Verus,
    /// would then have to define this specification function itself.
    open spec fn augments(&self, before: (FrameHeader, Seq<u8>), after: (FrameHeader, Seq<u8>)) -> bool {
        true
    }

    /// Decorate a login reply.
    fn augment(&self, reply: &mut Transaction)
        ensures
            self.augments((old(reply).header, old(reply).payload@), (final(reply).header, final(reply).payload@));
}

/// Default decoration, driven by the client compatibility policy: banner
/// fields are added when the policy asks for them; a reply that cannot be
/// decoded or re-encoded is left as it is.
pub struct ClientCompatibilityLoginReplyAugmenter<'a> {
    client: &'a ClientCompatibility,
}

impl<'a> ClientCompatibilityLoginReplyAugmenter<'a> {
    /// Decoration driven by `client`.
    pub fn new(client: &'a ClientCompatibility) -> (a: Self)
        ensures
            a.spec_client() == *client,
    {
        ClientCompatibilityLoginReplyAugmenter { client }
    }

    /// The policy consulted.
    pub closed spec fn spec_client(&self) -> ClientCompatibility {
        *self.client
    }
}

impl<'a> LoginReplyAugmenter for ClientCompatibilityLoginReplyAugmenter<'a> {
    open spec fn augments(&self, before: (FrameHeader, Seq<u8>), after: (FrameHeader, Seq<u8>)) -> bool {
        match spec_augment(self.spec_client()@.0, self.spec_client()@.1, before.0, before.1) {
            Ok(Some(changed)) => after == changed,
            _ => after == before,
        }
    }

    fn augment(&self, reply: &mut Transaction) {
        let _ = self.client.augment_login_reply(reply);
    }
}

} // verus!
