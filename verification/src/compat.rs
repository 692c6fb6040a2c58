//! XOR text-field compatibility for legacy Hotline clients.
//!
//! Some clients obfuscate text parameters by XOR-ing each byte with `0xFF`.
//! This module detects such payloads, decodes inbound payloads and encodes
//! outbound payloads when the mode is on, leaving non-text fields alone.

use vstd::prelude::*;
use crate::field_id::{FieldId, field_from_code};
use crate::params::{
    ParamSpec, encode_fields, field_entry, params_view, spec_encode_params, spec_decode_params, params_encodable,
    params_canonical, encode_params, decode_params, lemma_params_round_trip,
    lemma_params_bytes_round_trip,
};
use crate::transaction::{TransactionError, copy_range};
use crate::connection::HandshakeMetadata;

verus! {

/// Calls `std::str::from_utf8`, which succeeds exactly when the bytes are
/// well-formed UTF-8; the contract states that with vstd's definition.
#[verifier::external_body]
fn is_valid_utf8(data: &[u8]) -> (b: bool)
    ensures
        b == vstd::utf8::valid_utf8(data@),
{
    std::str::from_utf8(data).is_ok()
}

/// Fields whose values are text and are XOR-encoded by legacy clients.
pub open spec fn text_field(f: FieldId) -> bool {
    match f {
        FieldId::Login | FieldId::Password | FieldId::Data | FieldId::NewsCategory
        | FieldId::NewsArticle | FieldId::NewsPath | FieldId::NewsTitle | FieldId::NewsPoster
        | FieldId::NewsDataFlavor | FieldId::NewsArticleData | FieldId::FileName => true,
        _ => false,
    }
}

/// Every byte XOR-ed with `0xFF`.
pub open spec fn xor_seq(b: Seq<u8>) -> Seq<u8> {
    Seq::new(b.len(), |i: int| b[i] ^ 0xffu8)
}

/// A parameter with its value XOR-ed when it is a text field.
pub open spec fn xor_param(p: ParamSpec) -> ParamSpec {
    if text_field(p.0) {
        (p.0, xor_seq(p.1))
    } else {
        p
    }
}

/// Every parameter passed through [`xor_param`].
pub open spec fn xor_param_seq(ps: Seq<ParamSpec>) -> Seq<ParamSpec> {
    Seq::new(ps.len(), |i: int| xor_param(ps[i]))
}

/// Some parameter is a text field.
pub open spec fn has_text_field(ps: Seq<ParamSpec>) -> bool {
    exists|i: int| 0 <= i < ps.len() && text_field(#[trigger] ps[i].0)
}

/// Every text field holds well-formed UTF-8.
pub open spec fn text_fields_utf8(ps: Seq<ParamSpec>) -> bool {
    forall|i: int| 0 <= i < ps.len() && text_field(#[trigger] ps[i].0) ==> vstd::utf8::valid_utf8(ps[i].1)
}

/// Every text field becomes well-formed UTF-8 once XOR-ed.
pub open spec fn text_fields_xor_utf8(ps: Seq<ParamSpec>) -> bool {
    forall|i: int| 0 <= i < ps.len() && text_field(#[trigger] ps[i].0) ==> vstd::utf8::valid_utf8(xor_seq(ps[i].1))
}

/// The parameters look XOR-encoded: there is text, some of it is not
/// UTF-8, and all of it is UTF-8 after XOR.
pub open spec fn looks_xor_encoded(ps: Seq<ParamSpec>) -> bool {
    has_text_field(ps) && !text_fields_utf8(ps) && text_fields_xor_utf8(ps)
}

/// Inbound decoding with the mode `enabled`: the decoded payload and the
/// mode afterwards.
pub open spec fn spec_decode_payload(enabled: bool, payload: Seq<u8>) -> (Result<Seq<u8>, TransactionError>, bool) {
    if payload.len() == 0 {
        (Ok(Seq::empty()), enabled)
    } else {
        match spec_decode_params(payload) {
            Err(e) => (Err(e), enabled),
            Ok(ps) => {
                if !has_text_field(ps) {
                    (Ok(payload), enabled)
                } else if enabled || looks_xor_encoded(ps) {
                    (Ok(spec_encode_params(xor_param_seq(ps))), true)
                } else {
                    (Ok(payload), enabled)
                }
            },
        }
    }
}

/// Outbound encoding with the mode `enabled`.
pub open spec fn spec_encode_payload(enabled: bool, payload: Seq<u8>) -> Result<Seq<u8>, TransactionError> {
    if payload.len() == 0 || !enabled {
        Ok(payload)
    } else {
        match spec_decode_params(payload) {
            Err(e) => Err(e),
            Ok(ps) => {
                if !has_text_field(ps) {
                    Ok(payload)
                } else {
                    Ok(spec_encode_params(xor_param_seq(ps)))
                }
            },
        }
    }
}

/// Whether `field` carries text.
pub fn is_text_field(field: FieldId) -> (b: bool)
    ensures
        b == text_field(field),
{
    match field {
        FieldId::Login | FieldId::Password | FieldId::Data | FieldId::NewsCategory
        | FieldId::NewsArticle | FieldId::NewsPath | FieldId::NewsTitle | FieldId::NewsPoster
        | FieldId::NewsDataFlavor | FieldId::NewsArticleData | FieldId::FileName => true,
        _ => false,
    }
}

/// XOR every byte with `0xFF`.
pub fn xor_bytes(data: &[u8]) -> (v: Vec<u8>)
    ensures
        v@ == xor_seq(data@),
{
    let mut out: Vec<u8> = Vec::new();
    let mut i: usize = 0;
    while i < data.len()
        invariant
            i <= data@.len(),
            out@ == xor_seq(data@.take(i as int)),
        decreases data@.len() - i,
    {
        out.push(data[i] ^ 0xff);
        i = i + 1;
        assert(out@ =~= xor_seq(data@.take(i as int)));
    }
    assert(data@.take(i as int) =~= data@);
    out
}

/// XOR the values of the text fields, keeping the others.
pub fn xor_params(params: &[(FieldId, Vec<u8>)]) -> (v: Vec<(FieldId, Vec<u8>)>)
    ensures
        params_view(v@) == xor_param_seq(params_view(params@)),
{
    let ghost pv = params_view(params@);
    let mut out: Vec<(FieldId, Vec<u8>)> = Vec::new();
    let mut i: usize = 0;
    while i < params.len()
        invariant
            i <= params@.len(),
            pv == params_view(params@),
            params_view(out@) == xor_param_seq(pv.take(i as int)),
        decreases params@.len() - i,
    {
        let (field, data) = &params[i];
        let value = if is_text_field(*field) {
            xor_bytes(data.as_slice())
        } else {
            copy_range(data.as_slice(), 0, data.len())
        };
        assert(data@.subrange(0, data@.len() as int) =~= data@);
        let ghost before = params_view(out@);
        out.push((*field, value));
        i = i + 1;
        assert(params_view(out@) =~= before.push(xor_param(pv[i - 1])));
        assert(params_view(out@) =~= xor_param_seq(pv.take(i as int)));
    }
    assert(pv.take(i as int) =~= pv);
    out
}

/// Whether any parameter is a text field.
fn any_text_field(params: &[(FieldId, Vec<u8>)]) -> (b: bool)
    ensures
        b == has_text_field(params_view(params@)),
{
    let ghost pv = params_view(params@);
    let mut i: usize = 0;
    while i < params.len()
        invariant
            i <= params@.len(),
            pv == params_view(params@),
            forall|j: int| 0 <= j < i ==> !text_field(#[trigger] pv[j].0),
        decreases params@.len() - i,
    {
        if is_text_field(params[i].0) {
            assert(text_field(pv[i as int].0));
            return true;
        }
        i = i + 1;
    }
    false
}

/// Whether the text fields look XOR-encoded.
fn detect_xor(params: &[(FieldId, Vec<u8>)]) -> (b: bool)
    ensures
        b == looks_xor_encoded(params_view(params@)),
{
    let ghost pv = params_view(params@);
    let mut saw_text = false;
    let mut all_valid = true;
    let mut all_xor_valid = true;
    let mut i: usize = 0;
    while i < params.len()
        invariant
            i <= params@.len(),
            pv == params_view(params@),
            saw_text == exists|j: int| 0 <= j < i && text_field(#[trigger] pv[j].0),
            all_valid == forall|j: int| 0 <= j < i && text_field(#[trigger] pv[j].0) ==> vstd::utf8::valid_utf8(pv[j].1),
            all_xor_valid == forall|j: int| 0 <= j < i && text_field(#[trigger] pv[j].0) ==> vstd::utf8::valid_utf8(xor_seq(pv[j].1)),
        decreases params@.len() - i,
    {
        let (field, data) = &params[i];
        if is_text_field(*field) {
            saw_text = true;
            if !is_valid_utf8(data.as_slice()) {
                all_valid = false;
            }
            let xored = xor_bytes(data.as_slice());
            if !is_valid_utf8(xored.as_slice()) {
                all_xor_valid = false;
            }
        }
        proof {
            let k = i as int;
            assert(pv[k].0 == *field && pv[k].1 == data@);
            assert(saw_text == exists|j: int| 0 <= j < k + 1 && text_field(#[trigger] pv[j].0)) by {
                if text_field(pv[k].0) {
                    assert(0 <= k < k + 1 && text_field(pv[k].0));
                }
            }
            assert(all_valid == forall|j: int| 0 <= j < k + 1 && text_field(#[trigger] pv[j].0) ==> vstd::utf8::valid_utf8(pv[j].1)) by {
                if !all_valid {
                    if text_field(pv[k].0) && !vstd::utf8::valid_utf8(pv[k].1) {
                        assert(0 <= k < k + 1 && text_field(pv[k].0) && !vstd::utf8::valid_utf8(pv[k].1));
                    }
                }
            }
            assert(all_xor_valid == forall|j: int| 0 <= j < k + 1 && text_field(#[trigger] pv[j].0) ==> vstd::utf8::valid_utf8(xor_seq(pv[j].1))) by {
                if !all_xor_valid {
                    if text_field(pv[k].0) && !vstd::utf8::valid_utf8(xor_seq(pv[k].1)) {
                        assert(0 <= k < k + 1 && text_field(pv[k].0) && !vstd::utf8::valid_utf8(xor_seq(pv[k].1)));
                    }
                }
            }
        }
        i = i + 1;
    }
    saw_text && !all_valid && all_xor_valid
}

/// XOR-ing twice gives the bytes back.
pub proof fn lemma_xor_seq_involutive(b: Seq<u8>)
    ensures
        xor_seq(xor_seq(b)) == b,
{
    assert forall|i: int| 0 <= i < b.len() implies #[trigger] xor_seq(xor_seq(b))[i] == b[i] by {
        let x = b[i];
        assert((x ^ 0xffu8) ^ 0xffu8 == x) by (bit_vector);
    }
    assert(xor_seq(xor_seq(b)) =~= b);
}

/// Applying the parameter transform twice gives the parameters back, and
/// it never changes a field identifier, a value's length, or the value of
/// a field that is not text.
pub proof fn lemma_xor_params_involutive(ps: Seq<ParamSpec>)
    ensures
        xor_param_seq(xor_param_seq(ps)) == ps,
        xor_param_seq(ps).len() == ps.len(),
        forall|i: int| 0 <= i < ps.len() ==> (#[trigger] xor_param_seq(ps)[i]).0 == ps[i].0
            && xor_param_seq(ps)[i].1.len() == ps[i].1.len(),
        forall|i: int| 0 <= i < ps.len() && !text_field(ps[i].0) ==> #[trigger] xor_param_seq(ps)[i] == ps[i],
{
    assert forall|i: int| 0 <= i < ps.len() implies #[trigger] xor_param_seq(xor_param_seq(ps))[i] == ps[i] by {
        lemma_xor_seq_involutive(ps[i].1);
    }
    assert(xor_param_seq(xor_param_seq(ps)) =~= ps);
}

proof fn lemma_xor_params_wire(ps: Seq<ParamSpec>)
    requires
        params_encodable(ps),
        params_canonical(ps),
    ensures
        params_encodable(xor_param_seq(ps)),
        params_canonical(xor_param_seq(ps)),
        has_text_field(xor_param_seq(ps)) == has_text_field(ps),
{
    lemma_xor_params_involutive(ps);
    let q = xor_param_seq(ps);
    assert forall|i: int| 0 <= i < q.len() implies #[trigger] q[i].1.len() <= 65535 by {
        assert(ps[i].1.len() <= 65535);
    }
    assert forall|i: int| 0 <= i < q.len() implies crate::field_id::field_canonical(#[trigger] q[i].0) by {
        assert(crate::field_id::field_canonical(ps[i].0));
    }
    if has_text_field(ps) {
        let i = choose|i: int| 0 <= i < ps.len() && text_field(#[trigger] ps[i].0);
        assert(text_field(q[i].0));
    }
    if has_text_field(q) {
        let i = choose|i: int| 0 <= i < q.len() && text_field(#[trigger] q[i].0);
        assert(text_field(ps[i].0));
    }
}

/// With the mode on, encoding an inbound payload's decoded form gives the
/// inbound payload back.
pub proof fn lemma_decode_then_encode(payload: Seq<u8>)
    requires
        spec_decode_payload(true, payload).0 is Ok,
    ensures
        spec_encode_payload(true, spec_decode_payload(true, payload).0->Ok_0) == Ok::<Seq<u8>, TransactionError>(payload),
{
    if payload.len() > 0 {
        let ps = spec_decode_params(payload)->Ok_0;
        lemma_params_bytes_round_trip(payload);
        if has_text_field(ps) {
            let q = xor_param_seq(ps);
            lemma_xor_params_wire(ps);
            lemma_params_round_trip(q);
            lemma_xor_params_involutive(ps);
            let out = spec_encode_params(q);
            assert(out.len() > 0) by {
                assert(out.len() >= 2);
            }
        }
    } else {
        assert(payload =~= Seq::<u8>::empty());
    }
}

/// With the mode on, decoding an outbound payload's encoded form gives
/// the outbound payload back.
pub proof fn lemma_encode_then_decode(payload: Seq<u8>)
    requires
        spec_encode_payload(true, payload) is Ok,
    ensures
        spec_decode_payload(true, spec_encode_payload(true, payload)->Ok_0).0 == Ok::<Seq<u8>, TransactionError>(payload),
{
    if payload.len() > 0 {
        let ps = spec_decode_params(payload)->Ok_0;
        lemma_params_bytes_round_trip(payload);
        if has_text_field(ps) {
            let q = xor_param_seq(ps);
            lemma_xor_params_wire(ps);
            lemma_params_round_trip(q);
            lemma_xor_params_involutive(ps);
            let out = spec_encode_params(q);
            assert(out.len() >= 2);
        }
    } else {
        assert(payload =~= Seq::<u8>::empty());
    }
}

/// Per-connection XOR compatibility state.
#[derive(Debug)]
pub struct XorCompatibility {
    enabled: bool,
}

impl View for XorCompatibility {
    type V = bool;

    closed spec fn view(&self) -> bool {
        self.enabled
    }
}

impl XorCompatibility {
    /// State seeded from handshake metadata; the handshake carries no
    /// reliable XOR hint yet, so the mode starts off.
    pub fn from_handshake(handshake: &HandshakeMetadata) -> (c: Self)
        ensures
            c@ == false,
    {
        XorCompatibility { enabled: false }
    }

    /// State with the mode off.
    pub fn disabled() -> (c: Self)
        ensures
            c@ == false,
    {
        XorCompatibility { enabled: false }
    }

    /// State with the mode on.
    pub fn enabled() -> (c: Self)
        ensures
            c@ == true,
    {
        XorCompatibility { enabled: true }
    }

    /// Whether the mode is on.
    pub fn is_enabled(&self) -> (b: bool)
        ensures
            b == self@,
    {
        self.enabled
    }

    /// Decode an inbound parameter payload. With the mode on, text fields
    /// are XOR-decoded; with it off, they are decoded only when they look
    /// XOR-encoded, which switches the mode on.
    pub fn decode_payload(&mut self, payload: &[u8]) -> (r: Result<Vec<u8>, TransactionError>)
        ensures
            ({
                let (out, mode) = spec_decode_payload(old(self)@, payload@);
                &&& final(self)@ == mode
                &&& match (r, out) {
                    (Ok(v), Ok(w)) => v@ == w,
                    (Err(e), Err(f)) => e == f,
                    _ => false,
                }
            }),
    {
        if payload.len() == 0 {
            return Ok(Vec::new());
        }
        let params = match decode_params(payload) {
            Ok(p) => p,
            Err(e) => return Err(e),
        };
        proof { lemma_params_bytes_round_trip(payload@); }
        if !any_text_field(params.as_slice()) {
            assert(payload@.subrange(0, payload@.len() as int) =~= payload@);
            return Ok(copy_range(payload, 0, payload.len()));
        }
        let enabled = self.enabled;
        let should_xor = if enabled { true } else { detect_xor(params.as_slice()) };
        if should_xor {
            let transformed = xor_params(params.as_slice());
            proof { lemma_xor_params_wire(params_view(params@)); }
            let encoded = match encode_params(transformed.as_slice()) {
                Ok(v) => v,
                Err(e) => return Err(e),
            };
            if !enabled {
                self.enabled = true;
            }
            Ok(encoded)
        } else {
            assert(payload@.subrange(0, payload@.len() as int) =~= payload@);
            Ok(copy_range(payload, 0, payload.len()))
        }
    }

    /// Encode an outbound parameter payload, XOR-ing text fields when the
    /// mode is on.
    pub fn encode_payload(&self, payload: &[u8]) -> (r: Result<Vec<u8>, TransactionError>)
        ensures
            match (r, spec_encode_payload(self@, payload@)) {
                (Ok(v), Ok(w)) => v@ == w,
                (Err(e), Err(f)) => e == f,
                _ => false,
            },
    {
        if payload.len() == 0 || !self.enabled {
            assert(payload@.subrange(0, payload@.len() as int) =~= payload@);
            return Ok(copy_range(payload, 0, payload.len()));
        }
        let params = match decode_params(payload) {
            Ok(p) => p,
            Err(e) => return Err(e),
        };
        proof { lemma_params_bytes_round_trip(payload@); }
        if !any_text_field(params.as_slice()) {
            assert(payload@.subrange(0, payload@.len() as int) =~= payload@);
            return Ok(copy_range(payload, 0, payload.len()));
        }
        let transformed = xor_params(params.as_slice());
        proof { lemma_xor_params_wire(params_view(params@)); }
        encode_params(transformed.as_slice())
    }
}

/// Wire codes of the text fields: data 101, login 105, password 106,
/// file name 201, news article list 321, news category 322, news path
/// 325, data flavour 327, title 328, poster 329 and article body 333.
pub open spec fn text_field_code(c: u16) -> bool {
    c == 101 || c == 105 || c == 106 || c == 201 || c == 321 || c == 322 || c == 325 || c == 327
        || c == 328 || c == 329 || c == 333
}

/// A parameter block holding the single field `c` with value `v`.
pub open spec fn single_field_block(c: u16, v: Seq<u8>) -> Seq<u8> {
    crate::transaction::u16_bytes(1) + crate::transaction::u16_bytes(c)
        + crate::transaction::u16_bytes(v.len() as u16) + v
}

/// With the mode on, a field whose wire code is a text field's has its
/// XOR-ed value restored inbound and its value XOR-ed outbound; a field
/// with any other code passes through unchanged in both directions.
pub proof fn lemma_text_fields_by_code(c: u16, v: Seq<u8>)
    requires
        v.len() <= 65535,
    ensures
        text_field_code(c) ==> spec_decode_payload(true, single_field_block(c, xor_seq(v)))
            == (Ok::<Seq<u8>, TransactionError>(single_field_block(c, v)), true),
        text_field_code(c) ==> spec_encode_payload(true, single_field_block(c, v))
            == Ok::<Seq<u8>, TransactionError>(single_field_block(c, xor_seq(v))),
        !text_field_code(c) ==> spec_decode_payload(true, single_field_block(c, xor_seq(v)))
            == (Ok::<Seq<u8>, TransactionError>(single_field_block(c, xor_seq(v))), true),
        !text_field_code(c) ==> spec_encode_payload(true, single_field_block(c, v))
            == Ok::<Seq<u8>, TransactionError>(single_field_block(c, v)),
{
    crate::field_id::lemma_field_code_round_trip(c);
    crate::field_id::lemma_field_protocol_numbers();
    let f = field_from_code(c);
    assert(text_field(f) <==> text_field_code(c));
    lemma_xor_seq_involutive(v);
    assert(xor_seq(v).len() == v.len());
    assert forall|x: Seq<u8>| x.len() == v.len() implies
        spec_decode_params(#[trigger] single_field_block(c, x)) == Ok::<Seq<ParamSpec>, TransactionError>(seq![(f, x)])
        && spec_encode_params(seq![(f, x)]) == single_field_block(c, x) by {
        let ps = seq![(f, x)];
        assert(ps.drop_first() =~= Seq::<ParamSpec>::empty());
        assert(encode_fields(Seq::<ParamSpec>::empty()) =~= Seq::<u8>::empty());
        assert(encode_fields(ps) == field_entry(ps[0]) + encode_fields(ps.drop_first()));
        assert(encode_fields(ps) =~= field_entry((f, x)));
        assert(spec_encode_params(ps) =~= single_field_block(c, x));
        lemma_params_round_trip(ps);
    }
    assert(single_field_block(c, v).len() > 0);
    assert(single_field_block(c, xor_seq(v)).len() > 0);
    let pv = seq![(f, v)];
    let px = seq![(f, xor_seq(v))];
    assert(has_text_field(pv) <==> text_field(f)) by {
        if text_field(f) {
            assert(text_field(pv[0].0));
        }
    }
    assert(has_text_field(px) <==> text_field(f)) by {
        if text_field(f) {
            assert(text_field(px[0].0));
        }
    }
    if text_field(f) {
        assert(xor_param_seq(px) =~= pv);
        assert(xor_param_seq(pv) =~= px);
    }
}

/// The XOR transform flips every bit of every byte: each byte and its
/// image add up to 255, and the length is kept.
pub proof fn lemma_xor_is_complement(b: Seq<u8>)
    ensures
        xor_seq(b).len() == b.len(),
        forall|i: int| 0 <= i < b.len() ==> #[trigger] xor_seq(b)[i] as int + b[i] as int == 255,
{
    assert forall|i: int| 0 <= i < b.len() implies #[trigger] xor_seq(b)[i] as int + b[i] as int == 255 by {
        let x = b[i];
        assert((x ^ 0xffu8) as int + x as int == 255) by (bit_vector);
    }
}

} // verus!
