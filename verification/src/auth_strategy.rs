//! Choice of login authentication strategy by client kind.

use vstd::prelude::*;
use crate::compat_policy::ClientKind;

verus! {

/// A login authentication strategy. Running a strategy is the command
/// layer's work; here strategies are only chosen and named.
pub trait AuthStrategy {
}

/// The strategy every client kind uses today.
#[derive(Clone, Copy, Debug, Default)]
pub struct DefaultAuthStrategy;

impl AuthStrategy for DefaultAuthStrategy {
}

/// Label of the strategy chosen for a client kind, for diagnostics.
pub fn auth_strategy_label(client_kind: ClientKind) -> (s: &'static str)
    ensures
        s == (match client_kind {
            ClientKind::Hotline85 | ClientKind::Hotline19 => "hotline-default",
            ClientKind::SynHx => "synhx-default",
            ClientKind::Unknown => "unknown-default",
        }),
{
    match client_kind {
        ClientKind::Hotline85 | ClientKind::Hotline19 => "hotline-default",
        ClientKind::SynHx => "synhx-default",
        ClientKind::Unknown => "unknown-default",
    }
}

/// The strategy chosen for a client kind: the default one for every kind.
pub fn auth_strategy_for_client(client_kind: ClientKind) -> (s: DefaultAuthStrategy)
    ensures
        s == DefaultAuthStrategy,
{
    DefaultAuthStrategy
}

} // verus!
