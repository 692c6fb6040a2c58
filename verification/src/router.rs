//! Routing entry point: owns the connection's compatibility state and
//! applies the request and reply hooks around command dispatch.

use vstd::prelude::*;
use crate::auth_strategy::DefaultAuthStrategy;
use crate::compat::{XorCompatibility, spec_decode_payload, spec_encode_payload};
use crate::compat_layer::{CompatibilityLayer, finalize_reply};
use crate::compat_policy::{ClientCompatibility, LOGIN_TRANSACTION_TYPE, spec_extract_login_version, spec_augment};
use crate::login_reply_augmenter::ClientCompatibilityLoginReplyAugmenter;
use crate::routes::{ERR_INTERNAL, ReplyBuilder, default_request_header, handle_parse_error};
use crate::transaction::{
    FrameHeader, Transaction, HEADER_LEN, spec_reply_header, transaction_bytes, header_bytes,
    header_from, parse_transaction, spec_parse_transaction,
};

verus! {

/// The client state after a login request with `payload`: the version it
/// carries is recorded when it can be read.
pub open spec fn after_login_payload(c: (u16, Option<u16>), payload: Seq<u8>) -> (u16, Option<u16>) {
    match spec_extract_login_version(payload) {
        Ok(Some(v)) => (c.0, Some(v)),
        _ => c,
    }
}

/// The request hook on a transaction with header `h` and payload `p`,
/// given the XOR mode `x0` and client state `c0`: the transaction passed
/// on (or the error reply bytes), the XOR mode and the client state after.
pub open spec fn spec_on_request(x0: bool, c0: (u16, Option<u16>), allows_payload: bool, h: FrameHeader, p: Seq<u8>) -> (Result<(FrameHeader, Seq<u8>), Seq<u8>>, bool, (u16, Option<u16>)) {
    if allows_payload {
        let (out, mode) = spec_decode_payload(x0, p);
        match out {
            Err(_) => (Err(transaction_bytes(spec_reply_header(h, ERR_INTERNAL, 0), Seq::empty())), mode, c0),
            Ok(q) => (Ok((h, q)), mode, if h.ty == LOGIN_TRANSACTION_TYPE { after_login_payload(c0, q) } else { c0 }),
        }
    } else {
        (Ok((h, p)), x0, if h.ty == LOGIN_TRANSACTION_TYPE { after_login_payload(c0, p) } else { c0 })
    }
}

/// Routing entry point for one connection, owning its XOR and client
/// compatibility state.
#[derive(Debug)]
pub struct WireframeRouter {
    xor: XorCompatibility,
    client: ClientCompatibility,
}

impl WireframeRouter {
    /// A router over the given compatibility state.
    pub fn new(xor: XorCompatibility, client: ClientCompatibility) -> (r: Self)
        ensures
            r.spec_xor()@ == xor@,
            r.spec_client()@ == client@,
    {
        WireframeRouter { xor, client }
    }

    /// The XOR state held.
    pub closed spec fn spec_xor(&self) -> XorCompatibility {
        self.xor
    }

    /// The client policy held.
    pub closed spec fn spec_client(&self) -> ClientCompatibility {
        self.client
    }

    /// Read-only access to the XOR state.
    pub fn xor(&self) -> (x: &XorCompatibility)
        ensures
            x@ == self.spec_xor()@,
    {
        &self.xor
    }

    /// Read-only access to the client policy.
    pub fn client(&self) -> (c: &ClientCompatibility)
        ensures
            c@ == self.spec_client()@,
    {
        &self.client
    }

    /// Request hook. When the transaction type carries a payload, the
    /// payload is XOR-decoded as the connection requires; a payload that
    /// cannot be decoded is answered with an internal error echoing the
    /// request header. A login request then has its version recorded.
    pub fn on_request(&mut self, allows_payload: bool, transaction: Transaction) -> (r: Result<Transaction, Vec<u8>>)
        ensures
            ({
                let (out, x1, c1) = spec_on_request(old(self).spec_xor()@, old(self).spec_client()@, allows_payload, transaction.header, transaction.payload@);
                &&& final(self).spec_xor()@ == x1
                &&& final(self).spec_client()@ == c1
                &&& match out {
                    Ok((h, p)) => r matches Ok(t) && t.header == h && t.payload@ == p,
                    Err(e) => r matches Err(v) && v@ == e,
                }
            }),
    {
        let header = transaction.header;
        let tx = if allows_payload {
            match self.xor.decode_payload(transaction.payload.as_slice()) {
                Ok(payload) => Transaction { header, payload },
                Err(_) => return Err(ReplyBuilder::from_header(&header).error_bytes(ERR_INTERNAL)),
            }
        } else {
            transaction
        };
        if header.ty == LOGIN_TRANSACTION_TYPE {
            let _ = self.client.record_login_payload(tx.payload.as_slice());
        }
        Ok(tx)
    }

    /// Routing up to command dispatch: parse the raw frame, answering a
    /// frame that does not parse with an internal error echoing its
    /// header, then apply the request hook.
    pub fn accept_frame(&mut self, frame: &[u8], allows_payload: bool) -> (r: Result<Transaction, Vec<u8>>)
        ensures
            match spec_parse_transaction(frame@) {
                Err(_) => {
                    &&& r matches Err(v) && v@ == transaction_bytes(
                        spec_reply_header(
                            if frame@.len() >= HEADER_LEN { header_from(frame@) } else { default_request_header() },
                            ERR_INTERNAL,
                            0,
                        ),
                        Seq::empty(),
                    )
                    &&& final(self).spec_xor()@ == old(self).spec_xor()@
                    &&& final(self).spec_client()@ == old(self).spec_client()@
                },
                Ok((h, p)) => {
                    let (out, x1, c1) = spec_on_request(old(self).spec_xor()@, old(self).spec_client()@, allows_payload, h, p);
                    &&& final(self).spec_xor()@ == x1
                    &&& final(self).spec_client()@ == c1
                    &&& match out {
                        Ok((h2, p2)) => r matches Ok(t) && t.header == h2 && t.payload@ == p2,
                        Err(e) => r matches Err(v) && v@ == e,
                    }
                },
            },
    {
        let transaction = match parse_transaction(frame) {
            Ok(t) => t,
            Err(_) => return Err(handle_parse_error(frame)),
        };
        self.on_request(allows_payload, transaction)
    }

    /// Reply hook: add the banner fields the client needs to a login
    /// reply; a reply that cannot be decoded or re-encoded is kept.
    pub fn on_reply(&self, reply: &mut Transaction)
        ensures
            match spec_augment(self.spec_client()@.0, self.spec_client()@.1, old(reply).header, old(reply).payload@) {
                Ok(Some((h, p))) => final(reply).header == h && final(reply).payload@ == p,
                _ => final(reply).header == old(reply).header && final(reply).payload@ == old(reply).payload@,
            },
    {
        let augmenter = ClientCompatibilityLoginReplyAugmenter::new(&self.client);
        let auth = DefaultAuthStrategy;
        let layer = CompatibilityLayer::new(&self.xor, &self.client, &auth, &augmenter);
        layer.on_reply(reply);
    }

    /// Finish a command's reply: an internal error echoing `header` when
    /// there is none, else the decorated reply's bytes.
    pub fn finalize_reply(&self, header: &FrameHeader, reply: Option<Transaction>) -> (v: Vec<u8>)
        ensures
            reply is None ==> v@ == transaction_bytes(spec_reply_header(*header, ERR_INTERNAL, 0), Seq::empty()),
            reply matches Some(t) ==> match spec_augment(self.spec_client()@.0, self.spec_client()@.1, t.header, t.payload@) {
                Ok(Some((h, p))) => v@ == transaction_bytes(h, p),
                _ => v@ == transaction_bytes(t.header, t.payload@),
            },
    {
        match reply {
            None => {
                let augmenter = ClientCompatibilityLoginReplyAugmenter::new(&self.client);
                let auth = DefaultAuthStrategy;
                let layer = CompatibilityLayer::new(&self.xor, &self.client, &auth, &augmenter);
                finalize_reply(header, None, &layer)
            },
            Some(mut r) => {
                self.on_reply(&mut r);
                r.to_bytes()
            },
        }
    }
}

/// An outbound frame after the send hook: with the mode on, a
/// transaction whose text fields change under XOR encoding is rewritten
/// with the encoded payload; anything else is sent as it is.
pub open spec fn spec_before_send(enabled: bool, frame: Seq<u8>) -> Seq<u8> {
    if !enabled {
        frame
    } else {
        match spec_parse_transaction(frame) {
            Err(_) => frame,
            Ok((h, p)) => match spec_encode_payload(true, p) {
                Err(_) => frame,
                Ok(e) => if e == p { frame } else { header_bytes(h) + e },
            },
        }
    }
}

/// Whether two byte slices hold the same bytes.
pub fn bytes_equal(a: &[u8], b: &[u8]) -> (r: bool)
    ensures
        r == (a@ == b@),
{
    if a.len() != b.len() {
        return false;
    }
    let mut i: usize = 0;
    while i < a.len()
        invariant
            a@.len() == b@.len(),
            i <= a@.len(),
            forall|j: int| 0 <= j < i ==> a@[j] == b@[j],
        decreases a@.len() - i,
    {
        if a[i] != b[i] {
            return false;
        }
        i = i + 1;
    }
    assert(a@ =~= b@);
    true
}

/// Send hook: XOR-encode the text fields of an outbound transaction when
/// the connection needs it.
pub fn before_send(xor: &XorCompatibility, frame: &mut Vec<u8>)
    ensures
        final(frame)@ == spec_before_send(xor@, old(frame)@),
{
    if !xor.is_enabled() {
        return;
    }
    let tx = match parse_transaction(frame.as_slice()) {
        Ok(t) => t,
        Err(_) => return,
    };
    let encoded = match xor.encode_payload(tx.payload.as_slice()) {
        Ok(e) => e,
        Err(_) => return,
    };
    if bytes_equal(encoded.as_slice(), tx.payload.as_slice()) {
        return;
    }
    let mut out = tx.header.to_vec();
    crate::transaction::append_bytes(&mut out, encoded.as_slice());
    *frame = out;
}

/// With the mode on, an outbound frame, request or reply alike, whose
/// payload changes under XOR encoding is sent with its header and the
/// encoded payload; with the mode off every frame is sent as it is.
pub proof fn lemma_before_send_encodes_all_frames(frame: Seq<u8>)
    ensures
        spec_before_send(false, frame) == frame,
        match spec_parse_transaction(frame) {
            Ok((h, p)) => match spec_encode_payload(true, p) {
                Ok(e) => e != p ==> spec_before_send(true, frame) == header_bytes(h) + e,
                Err(_) => spec_before_send(true, frame) == frame,
            },
            Err(_) => spec_before_send(true, frame) == frame,
        },
{
}

/// With the mode on, a frame carrying one data field (101) with a
/// non-empty value is sent with that value XOR-ed and the header kept,
/// whatever the header's direction, type and id.
pub proof fn lemma_before_send_xors_data_field(h: FrameHeader, v: Seq<u8>)
    requires
        0 < v.len() <= 65535,
        h.flags == 0,
        h.total_size == crate::compat::single_field_block(101, v).len(),
        h.data_size == h.total_size,
    ensures
        spec_before_send(true, header_bytes(h) + crate::compat::single_field_block(101, v))
            == header_bytes(h) + crate::compat::single_field_block(101, crate::compat::xor_seq(v)),
{
    let b = crate::compat::single_field_block(101, v);
    let frame = header_bytes(h) + b;
    crate::transaction::lemma_header_bytes_len(h);
    crate::transaction::lemma_header_prefix(h, b);
    assert(frame.skip(HEADER_LEN as int) =~= b);
    assert(spec_parse_transaction(frame) == Ok::<(FrameHeader, Seq<u8>), crate::transaction::TransactionError>((h, b)));
    crate::compat::lemma_text_fields_by_code(101, v);
    let xb = crate::compat::single_field_block(101, crate::compat::xor_seq(v));
    assert(xb != b) by {
        let x = v[0];
        assert(x ^ 0xffu8 != x) by (bit_vector);
        assert(xb[6] == crate::compat::xor_seq(v)[0]);
        assert(b[6] == v[0]);
    }
}

} // verus!
