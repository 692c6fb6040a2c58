//! Compatibility hooks around one routed transaction: the borrowed
//! connection state plus the chosen login strategy and reply decoration.

use vstd::prelude::*;
use crate::auth_strategy::AuthStrategy;
use crate::compat::XorCompatibility;
use crate::compat_policy::{ClientCompatibility, ClientKind, spec_kind};
use crate::login_reply_augmenter::LoginReplyAugmenter;
use crate::routes::{ERR_INTERNAL, handle_missing_reply};
use crate::transaction::{FrameHeader, Transaction, spec_reply_header, transaction_bytes};

verus! {

/// Compatibility hooks for the transaction lifecycle, built per call
/// from borrowed connection state.
pub struct CompatibilityLayer<'a, A: AuthStrategy, L: LoginReplyAugmenter> {
    xor: &'a XorCompatibility,
    client: &'a ClientCompatibility,
    auth_strategy: &'a A,
    login_reply_augmenter: &'a L,
}

impl<'a, A: AuthStrategy, L: LoginReplyAugmenter> CompatibilityLayer<'a, A, L> {
    /// Assemble the hooks from borrowed state.
    pub fn new(xor: &'a XorCompatibility, client: &'a ClientCompatibility, auth_strategy: &'a A, login_reply_augmenter: &'a L) -> (l: Self)
        ensures
            l.spec_augmenter() == *login_reply_augmenter,
            l.spec_xor() == *xor,
            l.spec_client() == *client,
            l.spec_auth_strategy() == *auth_strategy,
    {
        CompatibilityLayer { xor, client, auth_strategy, login_reply_augmenter }
    }

    /// The reply decoration used.
    pub closed spec fn spec_augmenter(&self) -> L {
        *self.login_reply_augmenter
    }

    /// The XOR state consulted.
    pub closed spec fn spec_xor(&self) -> XorCompatibility {
        *self.xor
    }

    /// Kind of the connected client.
    pub fn client_kind(&self) -> (k: ClientKind)
        ensures
            k == spec_kind(self.spec_client()@.0, self.spec_client()@.1),
    {
        self.client.kind()
    }

    /// The client policy consulted.
    pub closed spec fn spec_client(&self) -> ClientCompatibility {
        *self.client
    }

    /// The login strategy held.
    pub closed spec fn spec_auth_strategy(&self) -> A {
        *self.auth_strategy
    }

    /// The login strategy chosen for this connection.
    pub fn auth_strategy(&self) -> (a: &A)
        ensures
            *a == self.spec_auth_strategy(),
    {
        self.auth_strategy
    }

    /// Whether outbound text fields are XOR-encoded on this connection.
    pub fn xor_enabled(&self) -> (b: bool)
        ensures
            b == self.spec_xor()@,
    {
        self.xor.is_enabled()
    }

    /// Reply hook: decorate the reply with client-specific extras.
    pub fn on_reply(&self, reply: &mut Transaction)
        ensures
            self.spec_augmenter().augments((old(reply).header, old(reply).payload@), (final(reply).header, final(reply).payload@)),
    {
        self.login_reply_augmenter.augment(reply);
    }
}

/// Finish a command's reply: an internal error echoing `header` when the
/// command produced none, else the decorated reply's bytes.
pub fn finalize_reply<A: AuthStrategy, L: LoginReplyAugmenter>(header: &FrameHeader, reply: Option<Transaction>, layer: &CompatibilityLayer<'_, A, L>) -> (v: Vec<u8>)
    ensures
        reply is None ==> v@ == transaction_bytes(spec_reply_header(*header, ERR_INTERNAL, 0), Seq::empty()),
        reply matches Some(t) ==> exists|h: FrameHeader, p: Seq<u8>|
            layer.spec_augmenter().augments((t.header, t.payload@), (h, p)) && v@ == transaction_bytes(h, p),
{
    match reply {
        None => handle_missing_reply(header),
        Some(mut r) => {
            layer.on_reply(&mut r);
            let v = r.to_bytes();
            assert(layer.spec_augmenter().augments((reply->Some_0.header, reply->Some_0.payload@), (r.header, r.payload@)));
            v
        },
    }
}

} // verus!
