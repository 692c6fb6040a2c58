//! The Hotline handshake: a 12-byte client request
//! (`"TRTP" | sub-protocol (4) | version (2) | sub-version (2)`, big-endian)
//! answered by an 8-byte reply (`"TRTP" | error code (4)`).

use vstd::prelude::*;
use crate::compat_policy::LOGIN_TRANSACTION_TYPE;
use crate::field_id::FieldId;
use crate::params::{encode_params, params_encodable, spec_encode_params};
use crate::transaction::{FrameHeader, Transaction, TransactionError};
use crate::transaction::{
    be_u16, be_u32, read_u16_at, read_u32_at, push_u32, u32_bytes, u16_bytes, lemma_u16_round_trip,
    lemma_u32_round_trip,
};

verus! {

/// Length of the client handshake request.
pub const HANDSHAKE_LEN: usize = 12;

/// Length of the server handshake reply.
pub const REPLY_LEN: usize = 8;

/// The only protocol version this server speaks.
pub const VERSION: u16 = 1;

/// Reply code: handshake accepted.
pub const HANDSHAKE_OK: u32 = 0;

/// Reply code: the protocol identifier was not `TRTP`.
pub const HANDSHAKE_ERR_INVALID: u32 = 1;

/// Reply code: the protocol version is not supported.
pub const HANDSHAKE_ERR_UNSUPPORTED_VERSION: u32 = 2;

/// Reply code: the client sent no handshake in time.
pub const HANDSHAKE_ERR_TIMEOUT: u32 = 3;

/// Prefix of a decode error caused by a wrong protocol identifier.
pub const HANDSHAKE_INVALID_PROTOCOL_TOKEN: &'static str = "handshake-invalid-protocol";

/// Prefix of a decode error caused by an unsupported version.
pub const HANDSHAKE_UNSUPPORTED_VERSION_TOKEN: &'static str = "handshake-unsupported-version";

/// The protocol identifier `TRTP` as bytes.
pub open spec fn protocol_id() -> Seq<u8> {
    seq![84u8, 82u8, 84u8, 80u8]
}

/// A parsed client handshake.
#[derive(Clone, Copy, Debug, PartialEq, Eq, Structural)]
pub struct Handshake {
    /// Application-specific sub-protocol identifier.
    pub sub_protocol: u32,
    /// Protocol version.
    pub version: u16,
    /// Application-defined sub-version.
    pub sub_version: u16,
}

/// Reasons a handshake is refused.
#[derive(Clone, Copy, Debug, PartialEq, Eq, Structural)]
pub enum HandshakeError {
    /// The request does not start with `TRTP`.
    InvalidProtocol,
    /// The request names a version other than [`VERSION`].
    UnsupportedVersion(u16),
}

impl HandshakeError {
    /// The reply code sent for this error.
    pub fn reply_code(&self) -> (c: u32)
        ensures
            c == (match *self {
                HandshakeError::InvalidProtocol => HANDSHAKE_ERR_INVALID,
                HandshakeError::UnsupportedVersion(_) => HANDSHAKE_ERR_UNSUPPORTED_VERSION,
            }),
    {
        match self {
            HandshakeError::InvalidProtocol => HANDSHAKE_ERR_INVALID,
            HandshakeError::UnsupportedVersion(_) => HANDSHAKE_ERR_UNSUPPORTED_VERSION,
        }
    }

    /// The token that opens this error's decode message.
    pub fn token(&self) -> (t: &'static str)
        ensures
            t == (match *self {
                HandshakeError::InvalidProtocol => HANDSHAKE_INVALID_PROTOCOL_TOKEN,
                HandshakeError::UnsupportedVersion(_) => HANDSHAKE_UNSUPPORTED_VERSION_TOKEN,
            }),
    {
        match self {
            HandshakeError::InvalidProtocol => HANDSHAKE_INVALID_PROTOCOL_TOKEN,
            HandshakeError::UnsupportedVersion(_) => HANDSHAKE_UNSUPPORTED_VERSION_TOKEN,
        }
    }
}

/// Outcome of parsing a 12-byte handshake request.
pub open spec fn spec_parse_handshake(b: Seq<u8>) -> Result<Handshake, HandshakeError> {
    if b.take(4) != protocol_id() {
        Err(HandshakeError::InvalidProtocol)
    } else {
        let version = be_u16(b.subrange(8, 10));
        if version != VERSION {
            Err(HandshakeError::UnsupportedVersion(version))
        } else {
            Ok(Handshake {
                sub_protocol: be_u32(b.subrange(4, 8)),
                version,
                sub_version: be_u16(b.subrange(10, 12)),
            })
        }
    }
}

/// Parse and validate a handshake request.
pub fn parse_handshake(buf: &[u8; HANDSHAKE_LEN]) -> (r: Result<Handshake, HandshakeError>)
    ensures
        r == spec_parse_handshake(buf@),
{
    let b = buf.as_slice();
    if !(b[0] == 84 && b[1] == 82 && b[2] == 84 && b[3] == 80) {
        proof {
            if b@.take(4) == protocol_id() {
                assert(b@.take(4)[0] == 84u8);
                assert(b@.take(4)[1] == 82u8);
                assert(b@.take(4)[2] == 84u8);
                assert(b@.take(4)[3] == 80u8);
            }
        }
        return Err(HandshakeError::InvalidProtocol);
    }
    assert(b@.take(4) =~= protocol_id());
    let version = read_u16_at(b, 8);
    if version != VERSION {
        return Err(HandshakeError::UnsupportedVersion(version));
    }
    Ok(Handshake {
        sub_protocol: read_u32_at(b, 4),
        version,
        sub_version: read_u16_at(b, 10),
    })
}

/// The 8-byte reply carrying `code`.
pub open spec fn spec_handshake_reply(code: u32) -> Seq<u8> {
    protocol_id() + u32_bytes(code)
}

/// Build the 8-byte handshake reply carrying `code`.
pub fn handshake_reply(code: u32) -> (v: Vec<u8>)
    ensures
        v@ == spec_handshake_reply(code),
        v@.len() == REPLY_LEN,
{
    let mut v: Vec<u8> = Vec::new();
    v.push(84);
    v.push(82);
    v.push(84);
    v.push(80);
    push_u32(&mut v, code);
    assert(v@ =~= spec_handshake_reply(code));
    v
}

/// `text` begins with `prefix`.
pub open spec fn starts_with(text: Seq<char>, prefix: Seq<char>) -> bool {
    prefix.len() <= text.len() && text.take(prefix.len() as int) == prefix
}

/// Whether `text` begins with `prefix`.
pub fn str_starts_with(text: &str, prefix: &str) -> (b: bool)
    ensures
        b == starts_with(text@, prefix@),
{
    let n = prefix.unicode_len();
    if n > text.unicode_len() {
        return false;
    }
    let mut i: usize = 0;
    while i < n
        invariant
            n == prefix@.len(),
            n <= text@.len(),
            i <= n,
            forall|j: int| 0 <= j < i ==> text@[j] == prefix@[j],
        decreases n - i,
    {
        if text.get_char(i) != prefix.get_char(i) {
            assert(text@.take(n as int)[i as int] != prefix@[i as int]);
            return false;
        }
        i = i + 1;
    }
    assert(text@.take(n as int) =~= prefix@);
    true
}

/// Reply code for a handshake decode error, read from the token that
/// opens its message; `None` when the message carries no known token.
pub fn error_code_from_str(text: &str) -> (r: Option<u32>)
    ensures
        r == (if starts_with(text@, HANDSHAKE_INVALID_PROTOCOL_TOKEN@) {
            Some(HANDSHAKE_ERR_INVALID)
        } else if starts_with(text@, HANDSHAKE_UNSUPPORTED_VERSION_TOKEN@) {
            Some(HANDSHAKE_ERR_UNSUPPORTED_VERSION)
        } else {
            None::<u32>
        }),
{
    if str_starts_with(text, HANDSHAKE_INVALID_PROTOCOL_TOKEN) {
        Some(HANDSHAKE_ERR_INVALID)
    } else if str_starts_with(text, HANDSHAKE_UNSUPPORTED_VERSION_TOKEN) {
        Some(HANDSHAKE_ERR_UNSUPPORTED_VERSION)
    } else {
        None
    }
}

/// The 12-byte client request for sub-protocol 0 and `sub_version`.
pub open spec fn spec_handshake_request(sub_version: u16) -> Seq<u8> {
    protocol_id() + u32_bytes(0) + u16_bytes(VERSION) + u16_bytes(sub_version)
}

/// Build the client handshake request for `sub_version`.
pub fn handshake_request(sub_version: u16) -> (r: [u8; HANDSHAKE_LEN])
    ensures
        r@ == spec_handshake_request(sub_version),
{
    let r = [
        84u8, 82u8, 84u8, 80u8, 0u8, 0u8, 0u8, 0u8,
        (VERSION / 256) as u8, (VERSION % 256) as u8,
        (sub_version / 256) as u8, (sub_version % 256) as u8,
    ];
    assert(r@ =~= spec_handshake_request(sub_version));
    r
}

/// Reasons a client refuses the server's handshake reply.
#[derive(Clone, Copy, Debug, PartialEq, Eq, Structural)]
pub enum HandshakeReplyError {
    /// The reply does not start with `TRTP`.
    ProtocolMismatch,
    /// The reply carries a non-zero error code.
    ErrorCode(u32),
}

impl HandshakeReplyError {
    /// Text describing the error; a code follows the text of the second
    /// kind.
    pub open spec fn spec_message(self) -> &'static str {
        match self {
            HandshakeReplyError::ProtocolMismatch => "protocol mismatch in handshake reply",
            HandshakeReplyError::ErrorCode(_) => "handshake returned error code",
        }
    }

    /// Human-readable description of the error.
    pub fn message(&self) -> (m: &'static str)
        ensures
            m == self.spec_message(),
    {
        match self {
            HandshakeReplyError::ProtocolMismatch => "protocol mismatch in handshake reply",
            HandshakeReplyError::ErrorCode(_) => "handshake returned error code",
        }
    }
}

/// Outcome of checking the server's 8-byte handshake reply.
pub open spec fn spec_validate_reply(reply: Seq<u8>) -> Result<(), HandshakeReplyError> {
    if reply.take(4) != protocol_id() {
        Err(HandshakeReplyError::ProtocolMismatch)
    } else if be_u32(reply.subrange(4, 8)) != HANDSHAKE_OK {
        Err(HandshakeReplyError::ErrorCode(be_u32(reply.subrange(4, 8))))
    } else {
        Ok(())
    }
}

/// Check the server's handshake reply: it must name the protocol and
/// carry the success code.
pub fn validate_handshake_reply(reply: [u8; REPLY_LEN]) -> (r: Result<(), HandshakeReplyError>)
    ensures
        r == spec_validate_reply(reply@),
{
    let b = reply.as_slice();
    if !(b[0] == 84 && b[1] == 82 && b[2] == 84 && b[3] == 80) {
        proof {
            if b@.take(4) == protocol_id() {
                assert(b@.take(4)[0] == 84u8);
                assert(b@.take(4)[1] == 82u8);
                assert(b@.take(4)[2] == 84u8);
                assert(b@.take(4)[3] == 80u8);
            }
        }
        return Err(HandshakeReplyError::ProtocolMismatch);
    }
    assert(b@.take(4) =~= protocol_id());
    let code = read_u32_at(b, 4);
    if code != HANDSHAKE_OK {
        return Err(HandshakeReplyError::ErrorCode(code));
    }
    Ok(())
}

/// The request a client builds is accepted by the server's parser, which
/// reads back sub-protocol 0, the supported version and the sub-version.
pub proof fn lemma_handshake_request_accepted(sub_version: u16)
    ensures
        spec_parse_handshake(spec_handshake_request(sub_version)) == Ok::<Handshake, HandshakeError>(
            Handshake { sub_protocol: 0, version: VERSION, sub_version },
        ),
{
    let b = spec_handshake_request(sub_version);
    lemma_u32_round_trip(0);
    lemma_u16_round_trip(VERSION);
    lemma_u16_round_trip(sub_version);
    assert(b.take(4) =~= protocol_id());
    assert(b.subrange(4, 8) =~= u32_bytes(0));
    assert(b.subrange(8, 10) =~= u16_bytes(VERSION));
    assert(b.subrange(10, 12) =~= u16_bytes(sub_version));
}

/// A client accepts the server's reply exactly when it carries the
/// success code.
pub proof fn lemma_reply_accepted_iff_ok(code: u32)
    ensures
        spec_validate_reply(spec_handshake_reply(code)) == (if code == HANDSHAKE_OK {
            Ok::<(), HandshakeReplyError>(())
        } else {
            Err(HandshakeReplyError::ErrorCode(code))
        }),
{
    let b = spec_handshake_reply(code);
    lemma_u32_round_trip(code);
    assert(b.take(4) =~= protocol_id());
    assert(b.subrange(4, 8) =~= u32_bytes(code));
}

/// Parameters of a login request.
pub open spec fn login_params(username: Seq<u8>, password: Seq<u8>) -> Seq<(FieldId, Seq<u8>)> {
    seq![(FieldId::Login, username), (FieldId::Password, password)]
}

/// Build the client's login request (transaction id 1) carrying the
/// account name and password; a value longer than 65535 bytes cannot be
/// sent.
pub fn login_request(username: &[u8], password: &[u8]) -> (r: Result<Transaction, TransactionError>)
    ensures
        username@.len() > 65535 || password@.len() > 65535 ==> r == Err::<Transaction, TransactionError>(TransactionError::FieldTooLarge),
        username@.len() <= 65535 && password@.len() <= 65535 ==> (r matches Ok(t) && {
            let p = spec_encode_params(login_params(username@, password@));
            &&& t.payload@ == p
            &&& t.header == (FrameHeader {
                flags: 0,
                is_reply: 0,
                ty: LOGIN_TRANSACTION_TYPE,
                id: 1,
                error: 0,
                total_size: p.len() as u32,
                data_size: p.len() as u32,
            })
        }),
{
    let u = crate::transaction::copy_range(username, 0, username.len());
    let pw = crate::transaction::copy_range(password, 0, password.len());
    assert(u@ =~= username@);
    assert(pw@ =~= password@);
    let params = vec![(FieldId::Login, u), (FieldId::Password, pw)];
    let ghost ps = login_params(username@, password@);
    assert(crate::params::params_view(params@) =~= ps);
    let payload = match encode_params(params.as_slice()) {
        Ok(p) => p,
        Err(e) => {
            proof {
                if username@.len() <= 65535 && password@.len() <= 65535 {
                    assert(params_encodable(ps));
                }
            }
            return Err(e);
        },
    };
    proof {
        if username@.len() > 65535 {
            assert(!params_encodable(ps)) by { assert(ps[0].1.len() > 65535); }
        }
        if password@.len() > 65535 {
            assert(!params_encodable(ps)) by { assert(ps[1].1.len() > 65535); }
        }
        if username@.len() <= 65535 && password@.len() <= 65535 {
            let t1 = ps.drop_first();
            let t2 = t1.drop_first();
            assert(t2 =~= Seq::<(FieldId, Seq<u8>)>::empty());
            assert(crate::params::encode_fields(t2) =~= Seq::<u8>::empty());
            assert(t1[0] == ps[1]);
            assert(crate::params::encode_fields(t1) == crate::params::field_entry(ps[1]) + crate::params::encode_fields(t2));
            assert(crate::params::encode_fields(ps) == crate::params::field_entry(ps[0]) + crate::params::encode_fields(t1));
            assert(crate::params::field_entry(ps[0]).len() == 4 + username@.len());
            assert(crate::params::field_entry(ps[1]).len() == 4 + password@.len());
            assert(payload@.len() == 2 + (4 + username@.len()) + (4 + password@.len()));
        }
    }
    let size = payload.len() as u32;
    let header = FrameHeader {
        flags: 0,
        is_reply: 0,
        ty: LOGIN_TRANSACTION_TYPE,
        id: 1,
        error: 0,
        total_size: size,
        data_size: size,
    };
    Ok(Transaction { header, payload })
}

} // verus!
