//! Client compatibility policy derived from handshake and login metadata.
//!
//! Handshake sub-version 2 identifies SynHX clients. Otherwise the login
//! request's version field (160) decides: `151..=189` is Hotline 1.8.5 and
//! `>= 190` is Hotline 1.9. Those two kinds get banner fields (161/162)
//! added to successful login replies.

use vstd::prelude::*;
use crate::field_id::FieldId;
use crate::params::{
    ParamSpec, decode_fields, params_view, spec_encode_params, spec_decode_params, params_encodable,
    params_canonical, encode_params, decode_params, read_u16, read_u32,
    lemma_params_round_trip, lemma_params_bytes_round_trip,
};
use crate::transaction::{Transaction, TransactionError, FrameHeader, be_u16, be_u32};
use crate::connection::HandshakeMetadata;

verus! {

/// Sentinel stored while no login version has been seen.
pub const UNKNOWN_LOGIN_VERSION: u32 = 0xffff_ffff;

/// Handshake sub-version of SynHX clients.
pub const SYNHX_SUB_VERSION: u16 = 2;

/// Lowest login version of Hotline 1.8.5.
pub const HOTLINE_85_MIN_VERSION: u16 = 151;

/// Lowest login version of Hotline 1.9.
pub const HOTLINE_19_MIN_VERSION: u16 = 190;

/// Transaction type of a login.
pub const LOGIN_TRANSACTION_TYPE: u16 = 107;

/// Classification of clients for compatibility decisions.
#[derive(Clone, Copy, Debug, PartialEq, Eq, Structural)]
pub enum ClientKind {
    /// SynHX client identified by handshake sub-version 2.
    SynHx,
    /// Hotline 1.8.5 client (login version 151..=189).
    Hotline85,
    /// Hotline 1.9 client (login version >= 190).
    Hotline19,
    /// Unknown client type.
    Unknown,
}

/// Kind of a client with handshake sub-version `sub` and login version
/// `login`, if one was seen.
pub open spec fn spec_kind(sub: u16, login: Option<u16>) -> ClientKind {
    if sub == SYNHX_SUB_VERSION {
        ClientKind::SynHx
    } else {
        match login {
            Some(v) => if v >= HOTLINE_19_MIN_VERSION {
                ClientKind::Hotline19
            } else if v >= HOTLINE_85_MIN_VERSION {
                ClientKind::Hotline85
            } else {
                ClientKind::Unknown
            },
            None => ClientKind::Unknown,
        }
    }
}

/// Whether a client of this kind gets banner fields in its login reply.
pub open spec fn spec_include_extras(sub: u16, login: Option<u16>) -> bool {
    spec_kind(sub, login) == ClientKind::Hotline85 || spec_kind(sub, login) == ClientKind::Hotline19
}

/// The value of the first version field, if any.
pub open spec fn first_version_field(ps: Seq<ParamSpec>) -> Option<Seq<u8>>
    decreases ps.len(),
{
    if ps.len() == 0 {
        None
    } else if ps[0].0 == FieldId::Version {
        Some(ps[0].1)
    } else {
        first_version_field(ps.drop_first())
    }
}

/// A login version read from a field of two or four bytes.
pub open spec fn spec_parse_login_version(data: Seq<u8>) -> Option<u16> {
    if data.len() == 2 {
        Some(be_u16(data))
    } else if data.len() == 4 && be_u32(data) <= u16::MAX {
        Some(be_u32(data) as u16)
    } else {
        None
    }
}

/// The login version carried by a login request payload.
pub open spec fn spec_extract_login_version(payload: Seq<u8>) -> Result<Option<u16>, TransactionError> {
    match spec_decode_params(payload) {
        Err(e) => Err(e),
        Ok(ps) => match first_version_field(ps) {
            Some(data) => Ok(spec_parse_login_version(data)),
            None => Ok(None),
        },
    }
}

/// Some parameter has field `f`.
pub open spec fn has_field(ps: Seq<ParamSpec>, f: FieldId) -> bool {
    exists|i: int| 0 <= i < ps.len() && #[trigger] ps[i].0 == f
}

/// Bytes of the default banner identifier, 0 as a big-endian `i32`.
pub open spec fn default_banner_bytes() -> Seq<u8> {
    seq![0u8, 0u8, 0u8, 0u8]
}

/// Bytes of the default server name, `mxd`.
pub open spec fn default_server_name_bytes() -> Seq<u8> {
    seq![109u8, 120u8, 100u8]
}

/// The parameters with the missing banner fields appended.
pub open spec fn with_banner_fields(ps: Seq<ParamSpec>) -> Seq<ParamSpec> {
    let a = if has_field(ps, FieldId::BannerId) {
        ps
    } else {
        ps.push((FieldId::BannerId, default_banner_bytes()))
    };
    if has_field(ps, FieldId::ServerName) {
        a
    } else {
        a.push((FieldId::ServerName, default_server_name_bytes()))
    }
}

/// Outcome of augmenting a login reply: `Ok(None)` leaves it unchanged,
/// `Ok(Some((h, p)))` replaces its header and payload.
pub open spec fn spec_augment(sub: u16, login: Option<u16>, h: FrameHeader, payload: Seq<u8>) -> Result<Option<(FrameHeader, Seq<u8>)>, TransactionError> {
    if h.error != 0 || h.ty != LOGIN_TRANSACTION_TYPE || !spec_include_extras(sub, login) {
        Ok(None)
    } else {
        match spec_decode_params(payload) {
            Err(e) => Err(e),
            Ok(ps) => {
                if has_field(ps, FieldId::BannerId) && has_field(ps, FieldId::ServerName) {
                    Ok(None)
                } else {
                    let nps = with_banner_fields(ps);
                    if !params_encodable(nps) {
                        Err(if nps.len() > 65535 { TransactionError::TooManyParams } else { TransactionError::FieldTooLarge })
                    } else {
                        let np = spec_encode_params(nps);
                        if np.len() > u32::MAX {
                            Err(TransactionError::PayloadTooLarge)
                        } else {
                            Ok(Some((FrameHeader { total_size: np.len() as u32, data_size: np.len() as u32, ..h }, np)))
                        }
                    }
                }
            },
        }
    }
}

/// Mutable compatibility state for one connection.
#[derive(Debug)]
pub struct ClientCompatibility {
    handshake_sub_version: u16,
    login_version: u32,
}

impl View for ClientCompatibility {
    /// Handshake sub-version and the login version seen, if any.
    type V = (u16, Option<u16>);

    closed spec fn view(&self) -> (u16, Option<u16>) {
        (
            self.handshake_sub_version,
            if self.login_version == UNKNOWN_LOGIN_VERSION { None } else { Some(self.login_version as u16) },
        )
    }
}

impl ClientCompatibility {
    #[verifier::type_invariant]
    closed spec fn inv(self) -> bool {
        self.login_version == UNKNOWN_LOGIN_VERSION || self.login_version <= u16::MAX
    }

    /// Seed a policy from handshake metadata; no login version is known.
    pub fn from_handshake(handshake: &HandshakeMetadata) -> (c: Self)
        ensures
            c@ == (handshake.sub_version, None::<u16>),
    {
        ClientCompatibility { handshake_sub_version: handshake.sub_version, login_version: UNKNOWN_LOGIN_VERSION }
    }

    /// Record the client version seen in the login request.
    pub fn record_login_version(&mut self, version: u16)
        ensures
            final(self)@ == (old(self)@.0, Some(version)),
    {
        self.login_version = version as u32;
    }

    /// The recorded login version, if any.
    pub fn login_version(&self) -> (v: Option<u16>)
        ensures
            v == self@.1,
    {
        proof { use_type_invariant(self); }
        if self.login_version == UNKNOWN_LOGIN_VERSION {
            None
        } else {
            Some(self.login_version as u16)
        }
    }

    /// Classify the connection from handshake and login metadata; SynHX
    /// takes precedence over the login version.
    pub fn kind(&self) -> (k: ClientKind)
        ensures
            k == spec_kind(self@.0, self@.1),
    {
        if self.handshake_sub_version == SYNHX_SUB_VERSION {
            return ClientKind::SynHx;
        }
        match self.login_version() {
            Some(version) => {
                if version >= HOTLINE_19_MIN_VERSION {
                    ClientKind::Hotline19
                } else if version >= HOTLINE_85_MIN_VERSION {
                    ClientKind::Hotline85
                } else {
                    ClientKind::Unknown
                }
            },
            None => ClientKind::Unknown,
        }
    }

    /// Whether the login reply should carry banner fields 161 and 162.
    pub fn should_include_login_extras(&self) -> (b: bool)
        ensures
            b == spec_include_extras(self@.0, self@.1),
            b == (self@.0 != SYNHX_SUB_VERSION && (self@.1 matches Some(v) && v >= HOTLINE_85_MIN_VERSION)),
    {
        match self.kind() {
            ClientKind::Hotline85 | ClientKind::Hotline19 => true,
            _ => false,
        }
    }

    /// Record the login version carried by a login request payload; a
    /// payload without a readable version leaves the state unchanged.
    pub fn record_login_payload(&mut self, payload: &[u8]) -> (r: Result<(), TransactionError>)
        ensures
            match spec_extract_login_version(payload@) {
                Err(e) => r == Err::<(), TransactionError>(e) && final(self)@ == old(self)@,
                Ok(None) => r is Ok && final(self)@ == old(self)@,
                Ok(Some(v)) => r is Ok && final(self)@ == (old(self)@.0, Some(v)),
            },
    {
        match extract_login_version(payload) {
            Err(e) => Err(e),
            Ok(Some(version)) => {
                self.record_login_version(version);
                Ok(())
            },
            Ok(None) => Ok(()),
        }
    }

    /// Add banner fields to a successful login reply when the client needs
    /// them. Returns whether the reply changed; on error it is unchanged.
    pub fn augment_login_reply(&self, reply: &mut Transaction) -> (r: Result<bool, TransactionError>)
        ensures
            match spec_augment(self@.0, self@.1, old(reply).header, old(reply).payload@) {
                Err(e) => r == Err::<bool, TransactionError>(e) && final(reply).header == old(reply).header
                    && final(reply).payload@ == old(reply).payload@,
                Ok(None) => r == Ok::<bool, TransactionError>(false) && final(reply).header == old(reply).header
                    && final(reply).payload@ == old(reply).payload@,
                Ok(Some((h, p))) => r == Ok::<bool, TransactionError>(true) && final(reply).header == h
                    && final(reply).payload@ == p,
            },
    {
        if reply.header.error != 0 || reply.header.ty != LOGIN_TRANSACTION_TYPE {
            return Ok(false);
        }
        if !self.should_include_login_extras() {
            return Ok(false);
        }
        let mut params = match decode_params(reply.payload.as_slice()) {
            Ok(p) => p,
            Err(e) => return Err(e),
        };
        let ghost ps = params_view(params@);
        let has_banner_id = has_param(params.as_slice(), FieldId::BannerId);
        let has_server_name = has_param(params.as_slice(), FieldId::ServerName);
        if !has_banner_id {
            params.push((FieldId::BannerId, vec![0u8, 0u8, 0u8, 0u8]));
        }
        if !has_server_name {
            params.push((FieldId::ServerName, vec![109u8, 120u8, 100u8]));
        }
        if has_banner_id && has_server_name {
            return Ok(false);
        }
        proof {
            let a = if has_banner_id { ps } else { ps.push((FieldId::BannerId, default_banner_bytes())) };
            assert(params_view(params@) =~= with_banner_fields(ps)) by {
                if !has_server_name {
                    assert(params_view(params@) =~= a.push((FieldId::ServerName, default_server_name_bytes())));
                } else {
                    assert(params_view(params@) =~= a);
                }
            }
        }
        let payload = match encode_params(params.as_slice()) {
            Ok(p) => p,
            Err(e) => return Err(e),
        };
        if payload.len() > 0xffff_ffff {
            return Err(TransactionError::PayloadTooLarge);
        }
        let payload_len = payload.len() as u32;
        reply.payload = payload;
        reply.header.total_size = payload_len;
        reply.header.data_size = payload_len;
        Ok(true)
    }
}

/// Whether some parameter has field `f`.
fn has_param(params: &[(FieldId, Vec<u8>)], f: FieldId) -> (b: bool)
    ensures
        b == has_field(params_view(params@), f),
{
    let ghost pv = params_view(params@);
    let mut i: usize = 0;
    while i < params.len()
        invariant
            i <= params@.len(),
            pv == params_view(params@),
            forall|j: int| 0 <= j < i ==> #[trigger] pv[j].0 != f,
        decreases params@.len() - i,
    {
        if params[i].0 == f {
            assert(pv[i as int].0 == f);
            return true;
        }
        i = i + 1;
    }
    false
}

/// The login version carried by a login request payload.
fn extract_login_version(payload: &[u8]) -> (r: Result<Option<u16>, TransactionError>)
    ensures
        r == spec_extract_login_version(payload@),
{
    let params = match decode_params(payload) {
        Ok(p) => p,
        Err(e) => return Err(e),
    };
    let ghost pv = params_view(params@);
    let mut i: usize = 0;
    assert(pv.skip(0) =~= pv);
    while i < params.len()
        invariant
            i <= params@.len(),
            pv == params_view(params@),
            first_version_field(pv) == first_version_field(pv.skip(i as int)),
            spec_decode_params(payload@) == Ok::<Seq<ParamSpec>, TransactionError>(pv),
        decreases params@.len() - i,
    {
        assert(pv.skip(i as int).drop_first() =~= pv.skip(i + 1));
        assert(pv.skip(i as int)[0] == pv[i as int]);
        if params[i].0 == FieldId::Version {
            assert(pv.skip(i as int).len() > 0);
            assert(first_version_field(pv.skip(i as int)) == Some(pv[i as int].1));
            assert(pv[i as int].1 == params@[i as int].1@);
            return Ok(parse_login_version(params[i].1.as_slice()));
        }
        i = i + 1;
    }
    assert(pv.skip(i as int) =~= Seq::<ParamSpec>::empty());
    Ok(None)
}

/// A login version read from a field of two or four bytes.
fn parse_login_version(data: &[u8]) -> (v: Option<u16>)
    ensures
        v == spec_parse_login_version(data@),
{
    if data.len() == 2 {
        match read_u16(data) {
            Ok(v) => Some(v),
            Err(_) => None,
        }
    } else if data.len() == 4 {
        match read_u32(data) {
            Ok(raw) => if raw <= 0xffff {
                Some(raw as u16)
            } else {
                None
            },
            Err(_) => None,
        }
    } else {
        None
    }
}

/// SynHX clients are recognised by handshake sub-version whatever login
/// version they send; otherwise the thresholds 190 and 151 pick Hotline
/// 1.9 and 1.8.5, and anything lower or missing is unknown.
pub proof fn lemma_kind_classification(sub: u16, login: u16)
    ensures
        spec_kind(sub, Some(login)) == (if sub == SYNHX_SUB_VERSION {
            ClientKind::SynHx
        } else if login >= HOTLINE_19_MIN_VERSION {
            ClientKind::Hotline19
        } else if login >= HOTLINE_85_MIN_VERSION {
            ClientKind::Hotline85
        } else {
            ClientKind::Unknown
        }),
        spec_include_extras(sub, Some(login)) == (sub != SYNHX_SUB_VERSION && login >= HOTLINE_85_MIN_VERSION),
        !spec_include_extras(sub, None),
{
}

/// Augmenting an already augmented login reply changes nothing.
pub proof fn lemma_augment_idempotent(sub: u16, login: Option<u16>, h: FrameHeader, payload: Seq<u8>)
    requires
        spec_augment(sub, login, h, payload) matches Ok(Some(_)),
    ensures
        ({
            let (h2, p2) = spec_augment(sub, login, h, payload)->Ok_0->Some_0;
            spec_augment(sub, login, h2, p2) == Ok::<Option<(FrameHeader, Seq<u8>)>, TransactionError>(None)
        }),
{
    let ps = spec_decode_params(payload)->Ok_0;
    lemma_params_bytes_round_trip(payload);
    let nps = with_banner_fields(ps);
    let a = if has_field(ps, FieldId::BannerId) { ps } else { ps.push((FieldId::BannerId, default_banner_bytes())) };
    assert(params_canonical(nps)) by {
        assert forall|i: int| 0 <= i < nps.len() implies crate::field_id::field_canonical(#[trigger] nps[i].0) by {
            if i < ps.len() {
                assert(nps[i] == ps[i]);
            }
        }
    }
    lemma_params_round_trip(nps);
    assert(has_field(nps, FieldId::BannerId)) by {
        if has_field(ps, FieldId::BannerId) {
            let i = choose|i: int| 0 <= i < ps.len() && #[trigger] ps[i].0 == FieldId::BannerId;
            assert(nps[i] == ps[i]);
        } else {
            assert(nps[ps.len() as int].0 == FieldId::BannerId);
        }
    }
    assert(has_field(nps, FieldId::ServerName)) by {
        if has_field(ps, FieldId::ServerName) {
            let i = choose|i: int| 0 <= i < ps.len() && #[trigger] ps[i].0 == FieldId::ServerName;
            assert(nps[i] == ps[i]);
        } else {
            assert(nps[a.len() as int].0 == FieldId::ServerName);
        }
    }
}

/// Only successful login replies (type 107, error 0) are decorated: any
/// other reply, for any client, is left as it is.
pub proof fn lemma_augment_only_successful_logins(sub: u16, login: Option<u16>, h: FrameHeader, payload: Seq<u8>)
    requires
        h.ty != 107 || h.error != 0,
    ensures
        spec_augment(sub, login, h, payload) == Ok::<Option<(FrameHeader, Seq<u8>)>, TransactionError>(None),
{
}

/// A login request whose parameter block holds one field 160 with a
/// two-byte value, or a four-byte value of at most 65535, carries that
/// value as its login version.
pub proof fn lemma_login_version_is_field_160(v: u16)
    ensures
        spec_extract_login_version(seq![0u8, 1u8, 0u8, 160u8, 0u8, 2u8] + crate::transaction::u16_bytes(v))
            == Ok::<Option<u16>, TransactionError>(Some(v)),
        spec_extract_login_version(seq![0u8, 1u8, 0u8, 160u8, 0u8, 4u8, 0u8, 0u8] + crate::transaction::u16_bytes(v))
            == Ok::<Option<u16>, TransactionError>(Some(v)),
{
    let vb = crate::transaction::u16_bytes(v);
    crate::transaction::lemma_u16_round_trip(v);
    crate::field_id::lemma_field_protocol_numbers();
    let b = seq![0u8, 1u8, 0u8, 160u8, 0u8, 2u8] + vb;
    assert(b.take(2) =~= seq![0u8, 1u8]);
    let r = b.skip(2);
    assert(r.subrange(0, 2) =~= seq![0u8, 160u8]);
    assert(r.subrange(2, 4) =~= seq![0u8, 2u8]);
    assert(r.subrange(4, 6) =~= vb);
    assert(r.skip(6) =~= Seq::<u8>::empty());
    assert(decode_fields(0, r.skip(6)) == Ok::<Seq<ParamSpec>, TransactionError>(Seq::empty()));
    assert(spec_decode_params(b) == Ok::<Seq<ParamSpec>, TransactionError>(seq![(FieldId::Version, vb)] + Seq::empty()));
    assert(seq![(FieldId::Version, vb)] + Seq::<ParamSpec>::empty() =~= seq![(FieldId::Version, vb)]);
    assert(first_version_field(seq![(FieldId::Version, vb)]) == Some(vb));

    let w = seq![0u8, 0u8] + vb;
    assert(be_u32(w) == v as u32);
    let b4 = seq![0u8, 1u8, 0u8, 160u8, 0u8, 4u8, 0u8, 0u8] + vb;
    assert(b4.take(2) =~= seq![0u8, 1u8]);
    let r4 = b4.skip(2);
    assert(r4.subrange(0, 2) =~= seq![0u8, 160u8]);
    assert(r4.subrange(2, 4) =~= seq![0u8, 4u8]);
    assert(r4.subrange(4, 8) =~= w);
    assert(r4.skip(8) =~= Seq::<u8>::empty());
    assert(decode_fields(0, r4.skip(8)) == Ok::<Seq<ParamSpec>, TransactionError>(Seq::empty()));
    assert(spec_decode_params(b4) == Ok::<Seq<ParamSpec>, TransactionError>(seq![(FieldId::Version, w)] + Seq::empty()));
    assert(seq![(FieldId::Version, w)] + Seq::<ParamSpec>::empty() =~= seq![(FieldId::Version, w)]);
    assert(first_version_field(seq![(FieldId::Version, w)]) == Some(w));
}

/// A successful login reply to a Hotline 1.8.5 or 1.9 client (handshake
/// sub-version other than 2, login version at least 151) whose parameters
/// lack both banner fields gets the banner identifier 0 and the server
/// name `mxd` appended after its own parameters, with its sizes set to
/// the new payload length.
pub proof fn lemma_augment_appends_banner_fields(sub: u16, v: u16, h: FrameHeader, payload: Seq<u8>)
    requires
        h.ty == 107,
        h.error == 0,
        sub != 2,
        v >= 151,
        payload.len() <= 1048576,
        spec_decode_params(payload) is Ok,
        spec_decode_params(payload)->Ok_0.len() <= 65533,
        !has_field(spec_decode_params(payload)->Ok_0, FieldId::BannerId),
        !has_field(spec_decode_params(payload)->Ok_0, FieldId::ServerName),
    ensures
        spec_augment(sub, Some(v), h, payload) matches Ok(Some((h2, p2)))
            && h2 == (FrameHeader { total_size: p2.len() as u32, data_size: p2.len() as u32, ..h })
            && spec_decode_params(p2) == Ok::<Seq<ParamSpec>, TransactionError>(
                spec_decode_params(payload)->Ok_0
                    + seq![(FieldId::BannerId, seq![0u8, 0u8, 0u8, 0u8]), (FieldId::ServerName, seq![109u8, 120u8, 100u8])],
            ),
{
    let ps = spec_decode_params(payload)->Ok_0;
    lemma_params_bytes_round_trip(payload);
    crate::field_id::lemma_field_protocol_numbers();
    let bp = (FieldId::BannerId, default_banner_bytes());
    let sp = (FieldId::ServerName, default_server_name_bytes());
    let nps = ps.push(bp).push(sp);
    assert(with_banner_fields(ps) == nps);
    assert(nps =~= ps + seq![(FieldId::BannerId, seq![0u8, 0u8, 0u8, 0u8]), (FieldId::ServerName, seq![109u8, 120u8, 100u8])]);
    assert(params_encodable(nps)) by {
        assert forall|i: int| 0 <= i < nps.len() implies #[trigger] nps[i].1.len() <= 65535 by {
            if i < ps.len() {
                assert(nps[i] == ps[i]);
            }
        }
    }
    assert(params_canonical(nps)) by {
        assert forall|i: int| 0 <= i < nps.len() implies crate::field_id::field_canonical(#[trigger] nps[i].0) by {
            if i < ps.len() {
                assert(nps[i] == ps[i]);
            }
        }
    }
    lemma_params_round_trip(nps);
    crate::params::lemma_encode_fields_push(ps, bp);
    crate::params::lemma_encode_fields_push(ps.push(bp), sp);
    let np = spec_encode_params(nps);
    assert(np.len() == payload.len() + 15);
}

/// The classification in protocol numbers: handshake sub-version 2 is
/// SynHX; otherwise a login version of 190 or more is Hotline 1.9, 151 to
/// 189 is Hotline 1.8.5, and a lower or missing version is unknown. Only
/// the two Hotline kinds get banner fields.
pub proof fn lemma_kind_thresholds(sub: u16, login: Option<u16>)
    ensures
        sub == 2 ==> spec_kind(sub, login) == ClientKind::SynHx,
        login matches Some(v) && sub != 2 && v >= 190 ==> spec_kind(sub, login) == ClientKind::Hotline19,
        login matches Some(v) && sub != 2 && 151 <= v < 190 ==> spec_kind(sub, login) == ClientKind::Hotline85,
        login matches Some(v) && sub != 2 && v < 151 ==> spec_kind(sub, login) == ClientKind::Unknown,
        sub != 2 && login is None ==> spec_kind(sub, login) == ClientKind::Unknown,
        spec_include_extras(sub, login) <==> (login matches Some(v) && sub != 2 && v >= 151),
{
}

proof fn lemma_first_version_field_at(ps: Seq<ParamSpec>, i: int)
    requires
        0 <= i < ps.len(),
        ps[i].0 == FieldId::Version,
        forall|j: int| 0 <= j < i ==> #[trigger] ps[j].0 != FieldId::Version,
    ensures
        first_version_field(ps) == Some(ps[i].1),
    decreases i,
{
    if i > 0 {
        assert(ps[0].0 != FieldId::Version);
        let rest = ps.drop_first();
        assert forall|j: int| 0 <= j < i - 1 implies #[trigger] rest[j].0 != FieldId::Version by {
            assert(rest[j] == ps[j + 1]);
        }
        lemma_first_version_field_at(rest, i - 1);
    }
}

proof fn lemma_first_version_field_none(ps: Seq<ParamSpec>)
    requires
        forall|j: int| 0 <= j < ps.len() ==> #[trigger] ps[j].0 != FieldId::Version,
    ensures
        first_version_field(ps) is None,
    decreases ps.len(),
{
    if ps.len() > 0 {
        let rest = ps.drop_first();
        assert forall|j: int| 0 <= j < rest.len() implies #[trigger] rest[j].0 != FieldId::Version by {
            assert(rest[j] == ps[j + 1]);
        }
        lemma_first_version_field_none(rest);
    }
}

/// The login version of a login request is read from its first version
/// field: a two-byte value is a big-endian `u16`; a four-byte value counts
/// when its two high bytes are zero, and is then its low two bytes; any
/// other value gives no version. A request with no version field gives
/// none.
pub proof fn lemma_login_version_from_first_version_field(payload: Seq<u8>, i: int)
    requires
        spec_decode_params(payload) is Ok,
        0 <= i <= spec_decode_params(payload)->Ok_0.len(),
        forall|j: int| 0 <= j < i ==> #[trigger] spec_decode_params(payload)->Ok_0[j].0 != FieldId::Version,
        i < spec_decode_params(payload)->Ok_0.len() ==> spec_decode_params(payload)->Ok_0[i].0 == FieldId::Version,
    ensures
        ({
            let ps = spec_decode_params(payload)->Ok_0;
            if i == ps.len() {
                spec_extract_login_version(payload) == Ok::<Option<u16>, TransactionError>(None)
            } else {
                let d = ps[i].1;
                spec_extract_login_version(payload) == Ok::<Option<u16>, TransactionError>(
                    if d.len() == 2 {
                        Some((d[0] as int * 256 + d[1] as int) as u16)
                    } else if d.len() == 4 && d[0] == 0 && d[1] == 0 {
                        Some((d[2] as int * 256 + d[3] as int) as u16)
                    } else {
                        None
                    },
                )
            }
        }),
{
    let ps = spec_decode_params(payload)->Ok_0;
    if i == ps.len() {
        lemma_first_version_field_none(ps);
    } else {
        lemma_first_version_field_at(ps, i);
    }
}

} // verus!
