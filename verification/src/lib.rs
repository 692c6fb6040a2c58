//! Hotline transport adapter: transaction framing, fragment assembly,
//! handshake parsing and client compatibility rules, with their contracts.

pub mod transaction;
pub mod field_id;
pub mod params;
pub mod codec;
pub mod framed;
pub mod message_assembly;
pub mod protocol;
pub mod connection;
pub mod compat;
pub mod compat_policy;
pub mod route_ids;
pub mod frame;
pub mod routes;
pub mod login_reply_augmenter;
pub mod auth_strategy;
pub mod compat_layer;
pub mod router;
pub mod preamble;
pub mod context;
pub mod harness;
pub mod connection_handler;
