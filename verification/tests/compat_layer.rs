use std::sync::atomic::{AtomicU32, Ordering};

use mxd::auth_strategy::{AuthStrategy, auth_strategy_label};
use mxd::compat::XorCompatibility;
use mxd::compat_layer::{CompatibilityLayer, finalize_reply};
use mxd::compat_policy::{ClientCompatibility, ClientKind};
use mxd::connection::HandshakeMetadata;
use mxd::login_reply_augmenter::LoginReplyAugmenter;
use mxd::transaction::{FrameHeader, Transaction};

struct SpyAuthStrategy {
    login_calls: AtomicU32,
}

impl SpyAuthStrategy {
    const fn new() -> Self {
        Self { login_calls: AtomicU32::new(0) }
    }
}

impl AuthStrategy for SpyAuthStrategy {}

struct SpyReplyAugmenter {
    calls: AtomicU32,
}

impl SpyReplyAugmenter {
    const fn new() -> Self {
        Self { calls: AtomicU32::new(0) }
    }
}

impl LoginReplyAugmenter for SpyReplyAugmenter {
    fn augment(&self, _reply: &mut Transaction) {
        self.calls.fetch_add(1, Ordering::SeqCst);
    }
}

fn header(ty: u16) -> FrameHeader {
    FrameHeader { flags: 0, is_reply: 0, ty, id: 1, error: 0, total_size: 0, data_size: 0 }
}

#[test]
fn on_reply_calls_login_reply_augmenter() {
    let xor = XorCompatibility::disabled();
    let client = ClientCompatibility::from_handshake(&HandshakeMetadata::default());
    let auth = SpyAuthStrategy::new();
    let augmenter = SpyReplyAugmenter::new();
    let layer = CompatibilityLayer::new(&xor, &client, &auth, &augmenter);
    let mut reply = Transaction { header: header(107), payload: Vec::new() };

    layer.on_reply(&mut reply);

    assert_eq!(augmenter.calls.load(Ordering::SeqCst), 1, "reply augmenter should run once");
    assert_eq!(layer.auth_strategy().login_calls.load(Ordering::SeqCst), 0);
}

#[test]
fn finalize_reply_without_reply_is_internal_error() {
    let xor = XorCompatibility::disabled();
    let client = ClientCompatibility::from_handshake(&HandshakeMetadata::default());
    let auth = SpyAuthStrategy::new();
    let augmenter = SpyReplyAugmenter::new();
    let layer = CompatibilityLayer::new(&xor, &client, &auth, &augmenter);
    let mut h = header(200);
    h.id = 77;
    let bytes = finalize_reply(&h, None, &layer);
    assert_eq!(bytes.len(), 20);
    assert_eq!(bytes[1], 1);
    assert_eq!(&bytes[2..4], &200u16.to_be_bytes());
    assert_eq!(&bytes[4..8], &77u32.to_be_bytes());
    assert_eq!(&bytes[8..12], &3u32.to_be_bytes());
    assert_eq!(augmenter.calls.load(Ordering::SeqCst), 0);

    let reply = Transaction { header: header(107), payload: Vec::new() };
    let bytes = finalize_reply(&h, Some(reply), &layer);
    assert_eq!(bytes.len(), 20);
    assert_eq!(augmenter.calls.load(Ordering::SeqCst), 1);
    assert_eq!(layer.client_kind(), ClientKind::Unknown);
    assert!(!layer.xor_enabled());
}

#[test]
fn auth_strategy_label_matches_client_kind() {
    assert_eq!(auth_strategy_label(ClientKind::Hotline85), "hotline-default");
    assert_eq!(auth_strategy_label(ClientKind::Hotline19), "hotline-default");
    assert_eq!(auth_strategy_label(ClientKind::SynHx), "synhx-default");
    assert_eq!(auth_strategy_label(ClientKind::Unknown), "unknown-default");
}
