//! The parameter block carried in a transaction payload: a big-endian
//! `u16` count followed by that many `(id: u16, len: u16, bytes)` records.

use vstd::prelude::*;
use crate::field_id::{FieldId, field_code, field_from_code, field_canonical, lemma_field_code_round_trip};
use crate::transaction::{
    TransactionError, be_u16, u16_bytes, lemma_u16_round_trip, lemma_u16_bytes_round_trip,
    read_u16_at, push_u16, append_bytes, copy_range, be_u32, read_u32_at,
};

verus! {

/// One parameter as plain values.
pub type ParamSpec = (FieldId, Seq<u8>);

/// The parameters held in a vector, as plain values.
pub open spec fn params_view(ps: Seq<(FieldId, Vec<u8>)>) -> Seq<ParamSpec> {
    Seq::new(ps.len(), |i: int| (ps[i].0, ps[i].1@))
}

/// Wire bytes of one parameter record.
pub open spec fn field_entry(p: ParamSpec) -> Seq<u8> {
    u16_bytes(field_code(p.0)) + u16_bytes(p.1.len() as u16) + p.1
}

/// Wire bytes of a run of parameter records.
pub open spec fn encode_fields(ps: Seq<ParamSpec>) -> Seq<u8>
    decreases ps.len(),
{
    if ps.len() == 0 {
        Seq::empty()
    } else {
        field_entry(ps[0]) + encode_fields(ps.drop_first())
    }
}

/// Wire bytes of a parameter block.
pub open spec fn spec_encode_params(ps: Seq<ParamSpec>) -> Seq<u8> {
    u16_bytes(ps.len() as u16) + encode_fields(ps)
}

/// A parameter list fits the wire format: at most 65535 records, each
/// value at most 65535 bytes.
pub open spec fn params_encodable(ps: Seq<ParamSpec>) -> bool {
    &&& ps.len() <= 65535
    &&& forall|i: int| 0 <= i < ps.len() ==> #[trigger] ps[i].1.len() <= 65535
}

/// Every field identifier in the list is canonical.
pub open spec fn params_canonical(ps: Seq<ParamSpec>) -> bool {
    forall|i: int| 0 <= i < ps.len() ==> field_canonical(#[trigger] ps[i].0)
}

/// Reading `count` records from `b`, which must be consumed exactly.
pub open spec fn decode_fields(count: nat, b: Seq<u8>) -> Result<Seq<ParamSpec>, TransactionError>
    decreases count,
{
    if count == 0 {
        if b.len() == 0 {
            Ok(Seq::empty())
        } else {
            Err(TransactionError::SizeMismatch)
        }
    } else if b.len() < 4 {
        Err(TransactionError::ShortBuffer)
    } else {
        let len = be_u16(b.subrange(2, 4)) as int;
        if b.len() < 4 + len {
            Err(TransactionError::ShortBuffer)
        } else {
            match decode_fields((count - 1) as nat, b.skip(4 + len)) {
                Ok(rest) => Ok(
                    seq![(field_from_code(be_u16(b.subrange(0, 2))), b.subrange(4, 4 + len))]
                        + rest,
                ),
                Err(e) => Err(e),
            }
        }
    }
}

/// Reading a parameter block.
pub open spec fn spec_decode_params(b: Seq<u8>) -> Result<Seq<ParamSpec>, TransactionError> {
    if b.len() < 2 {
        Err(TransactionError::ShortBuffer)
    } else {
        decode_fields(be_u16(b.take(2)) as nat, b.skip(2))
    }
}

/// Prefix `acc` onto a successful result.
pub open spec fn prepend_ok(acc: Seq<ParamSpec>, r: Result<Seq<ParamSpec>, TransactionError>) -> Result<Seq<ParamSpec>, TransactionError> {
    match r {
        Ok(rest) => Ok(acc + rest),
        Err(e) => Err(e),
    }
}

/// Appending a parameter appends its record to the encoded records.
pub proof fn lemma_encode_fields_push(ps: Seq<ParamSpec>, p: ParamSpec)
    ensures
        encode_fields(ps.push(p)) == encode_fields(ps) + field_entry(p),
    decreases ps.len(),
{
    if ps.len() == 0 {
        assert(ps.push(p).drop_first() =~= Seq::<ParamSpec>::empty());
        assert(encode_fields(Seq::<ParamSpec>::empty()) =~= Seq::<u8>::empty());
        assert(encode_fields(ps) =~= Seq::<u8>::empty());
        assert(encode_fields(ps.push(p)) =~= field_entry(p));
    } else {
        assert(ps.push(p).drop_first() =~= ps.drop_first().push(p));
        lemma_encode_fields_push(ps.drop_first(), p);
        assert(encode_fields(ps.push(p)) =~= encode_fields(ps) + field_entry(p));
    }
}

proof fn lemma_decode_encode_fields(ps: Seq<ParamSpec>)
    requires
        params_encodable(ps),
        params_canonical(ps),
    ensures
        decode_fields(ps.len(), encode_fields(ps)) == Ok::<Seq<ParamSpec>, TransactionError>(ps),
    decreases ps.len(),
{
    if ps.len() > 0 {
        let b = encode_fields(ps);
        let p = ps[0];
        let rest = ps.drop_first();
        assert(params_encodable(rest)) by {
            assert forall|i: int| 0 <= i < rest.len() implies #[trigger] rest[i].1.len() <= 65535 by {
                assert(rest[i] == ps[i + 1]);
            }
        }
        assert(params_canonical(rest)) by {
            assert forall|i: int| 0 <= i < rest.len() implies field_canonical(#[trigger] rest[i].0) by {
                assert(rest[i] == ps[i + 1]);
            }
        }
        lemma_decode_encode_fields(rest);
        let len = p.1.len() as int;
        assert(ps[0].1.len() <= 65535);
        assert(b.subrange(0, 2) =~= u16_bytes(field_code(p.0)));
        assert(b.subrange(2, 4) =~= u16_bytes(len as u16));
        lemma_u16_round_trip(field_code(p.0));
        lemma_u16_round_trip(len as u16);
        assert(field_canonical(ps[0].0));
        assert(b.subrange(4, 4 + len) =~= p.1);
        assert(b.skip(4 + len) =~= encode_fields(rest));
        assert(b.len() >= 4 + len);
        assert(be_u16(b.subrange(2, 4)) as int == len);
        assert(field_from_code(be_u16(b.subrange(0, 2))) == p.0);
        assert(rest.len() == (ps.len() - 1) as nat);
        assert(seq![p] + rest =~= ps);
        assert(decode_fields(ps.len(), b) == Ok::<Seq<ParamSpec>, TransactionError>(seq![(field_from_code(be_u16(b.subrange(0, 2))), b.subrange(4, 4 + len))] + rest));
    } else {
        assert(encode_fields(ps) =~= Seq::<u8>::empty());
        assert(ps =~= Seq::<ParamSpec>::empty());
    }
}

#[verifier::rlimit(40)]
#[verifier::spinoff_prover]
proof fn lemma_encode_decode_fields(count: nat, b: Seq<u8>)
    requires
        decode_fields(count, b) is Ok,
        count <= 65535,
    ensures
        ({
            let ps = decode_fields(count, b)->Ok_0;
            &&& encode_fields(ps) == b
            &&& ps.len() == count
            &&& params_encodable(ps)
            &&& params_canonical(ps)
        }),
    decreases count,
{
    if count == 0 {
        assert(b =~= Seq::<u8>::empty());
        assert(encode_fields(Seq::<ParamSpec>::empty()) =~= Seq::<u8>::empty());
    } else {
        let len = be_u16(b.subrange(2, 4)) as int;
        let tail = b.skip(4 + len);
        lemma_encode_decode_fields((count - 1) as nat, tail);
        let rest = decode_fields((count - 1) as nat, tail)->Ok_0;
        let c = be_u16(b.subrange(0, 2));
        let p = (field_from_code(c), b.subrange(4, 4 + len));
        let ps = seq![p] + rest;
        assert(decode_fields(count, b) == Ok::<Seq<ParamSpec>, TransactionError>(ps));
        assert(ps.drop_first() =~= rest);
        assert(ps[0] == p);
        assert(field_entry(p) =~= b.subrange(0, 4 + len)) by {
            lemma_field_code_round_trip(c);
            lemma_u16_bytes_round_trip(b.subrange(0, 2));
            lemma_u16_bytes_round_trip(b.subrange(2, 4));
            assert(p.1.len() == len);
        }
        assert(encode_fields(ps) =~= b) by {
            assert(encode_fields(ps) == field_entry(p) + encode_fields(rest));
            assert(b =~= b.subrange(0, 4 + len) + tail);
        }
        assert(params_encodable(ps)) by {
            assert forall|i: int| 0 <= i < ps.len() implies #[trigger] ps[i].1.len() <= 65535 by {
                if i > 0 {
                    assert(ps[i] == rest[i - 1]);
                }
            }
        }
        assert(params_canonical(ps)) by {
            lemma_field_code_round_trip(c);
            assert forall|i: int| 0 <= i < ps.len() implies field_canonical(#[trigger] ps[i].0) by {
                if i > 0 {
                    assert(ps[i] == rest[i - 1]);
                }
            }
        }
    }
}

/// Decoding the encoding of a well-formed, canonical parameter list gives
/// the list back.
pub proof fn lemma_params_round_trip(ps: Seq<ParamSpec>)
    requires
        params_encodable(ps),
        params_canonical(ps),
    ensures
        spec_decode_params(spec_encode_params(ps)) == Ok::<Seq<ParamSpec>, TransactionError>(ps),
{
    let b = spec_encode_params(ps);
    lemma_u16_round_trip(ps.len() as u16);
    assert(b.take(2) =~= u16_bytes(ps.len() as u16));
    assert(b.skip(2) =~= encode_fields(ps));
    lemma_decode_encode_fields(ps);
}

/// Re-encoding a decoded parameter block reproduces its bytes exactly.
pub proof fn lemma_params_bytes_round_trip(b: Seq<u8>)
    requires
        spec_decode_params(b) is Ok,
    ensures
        spec_encode_params(spec_decode_params(b)->Ok_0) == b,
        params_encodable(spec_decode_params(b)->Ok_0),
        params_canonical(spec_decode_params(b)->Ok_0),
{
    lemma_encode_decode_fields(be_u16(b.take(2)) as nat, b.skip(2));
    lemma_u16_bytes_round_trip(b.take(2));
    assert(spec_encode_params(spec_decode_params(b)->Ok_0) =~= b);
}

/// Encode a parameter list as a parameter block.
pub fn encode_params(params: &[(FieldId, Vec<u8>)]) -> (r: Result<Vec<u8>, TransactionError>)
    ensures
        r is Ok <==> params_encodable(params_view(params@)),
        r matches Ok(v) ==> v@ == spec_encode_params(params_view(params@)),
        r matches Err(e) ==> (if params@.len() > 65535 {
            e == TransactionError::TooManyParams
        } else {
            e == TransactionError::FieldTooLarge
        }),
{
    let ghost pv = params_view(params@);
    if params.len() > 65535 {
        return Err(TransactionError::TooManyParams);
    }
    let mut out: Vec<u8> = Vec::new();
    push_u16(&mut out, params.len() as u16);
    let mut i: usize = 0;
    while i < params.len()
        invariant
            i <= params@.len() <= 65535,
            pv == params_view(params@),
            out@ == u16_bytes(params@.len() as u16) + encode_fields(pv.take(i as int)),
            forall|j: int| 0 <= j < i ==> #[trigger] pv[j].1.len() <= 65535,
        decreases params@.len() - i,
    {
        let (field, data) = &params[i];
        if data.len() > 65535 {
            assert(pv[i as int].1.len() > 65535);
            return Err(TransactionError::FieldTooLarge);
        }
        proof {
            assert(pv.take(i + 1) =~= pv.take(i as int).push(pv[i as int]));
            lemma_encode_fields_push(pv.take(i as int), pv[i as int]);
        }
        push_u16(&mut out, field.to_u16());
        push_u16(&mut out, data.len() as u16);
        append_bytes(&mut out, data.as_slice());
        i = i + 1;
        assert(out@ =~= u16_bytes(params@.len() as u16) + encode_fields(pv.take(i as int)));
    }
    assert(pv.take(i as int) =~= pv);
    Ok(out)
}

/// Decode a parameter block into its parameter list.
pub fn decode_params(payload: &[u8]) -> (r: Result<Vec<(FieldId, Vec<u8>)>, TransactionError>)
    ensures
        match (r, spec_decode_params(payload@)) {
            (Ok(v), Ok(ps)) => params_view(v@) == ps,
            (Err(e), Err(f)) => e == f,
            _ => false,
        },
{
    let ghost b = payload@;
    if payload.len() < 2 {
        return Err(TransactionError::ShortBuffer);
    }
    let count = read_u16_at(payload, 0);
    assert(b.subrange(0, 2) =~= b.take(2));
    let mut out: Vec<(FieldId, Vec<u8>)> = Vec::new();
    let mut pos: usize = 2;
    let mut i: u16 = 0;
    while i < count
        invariant
            b == payload@,
            2 <= pos <= b.len(),
            i <= count,
            count == be_u16(b.take(2)),
            spec_decode_params(b) == prepend_ok(params_view(out@), decode_fields((count - i) as nat, b.skip(pos as int))),
        decreases count - i,
    {
        let ghost rem = b.skip(pos as int);
        if payload.len() - pos < 4 {
            return Err(TransactionError::ShortBuffer);
        }
        let code = read_u16_at(payload, pos);
        let len = read_u16_at(payload, pos + 2) as usize;
        assert(rem.subrange(0, 2) =~= b.subrange(pos as int, pos + 2));
        assert(rem.subrange(2, 4) =~= b.subrange(pos + 2, pos + 4));
        if payload.len() - pos - 4 < len {
            return Err(TransactionError::ShortBuffer);
        }
        let data = copy_range(payload, pos + 4, pos + 4 + len);
        assert(rem.subrange(4, 4 + len) =~= b.subrange(pos + 4, pos + 4 + len));
        assert(rem.skip(4 + len) =~= b.skip(pos + 4 + len));
        let ghost before = params_view(out@);
        out.push((FieldId::from_u16(code), data));
        assert(params_view(out@) =~= before.push((field_from_code(code), data@)));
        proof {
            let p = (field_from_code(code), data@);
            match decode_fields((count - i - 1) as nat, b.skip(pos + 4 + len)) {
                Ok(rest) => {
                    assert(before + (seq![p] + rest) =~= before.push(p) + rest);
                },
                Err(e) => {},
            }
        }
        pos = pos + 4 + len;
        i = i + 1;
    }
    if pos != payload.len() {
        return Err(TransactionError::SizeMismatch);
    }
    assert(b.skip(pos as int) =~= Seq::<u8>::empty());
    assert(params_view(out@) + Seq::<ParamSpec>::empty() =~= params_view(out@));
    Ok(out)
}

/// Read a big-endian `u16` value that fills `data` exactly.
pub fn read_u16(data: &[u8]) -> (r: Result<u16, TransactionError>)
    ensures
        data@.len() == 2 ==> r == Ok::<u16, TransactionError>(be_u16(data@)),
        data@.len() != 2 ==> r == Err::<u16, TransactionError>(TransactionError::SizeMismatch),
{
    if data.len() != 2 {
        return Err(TransactionError::SizeMismatch);
    }
    assert(data@.subrange(0, 2) =~= data@);
    Ok(read_u16_at(data, 0))
}

/// Read a big-endian `u32` value that fills `data` exactly.
pub fn read_u32(data: &[u8]) -> (r: Result<u32, TransactionError>)
    ensures
        data@.len() == 4 ==> r == Ok::<u32, TransactionError>(be_u32(data@)),
        data@.len() != 4 ==> r == Err::<u32, TransactionError>(TransactionError::SizeMismatch),
{
    if data.len() != 4 {
        return Err(TransactionError::SizeMismatch);
    }
    assert(data@.subrange(0, 4) =~= data@);
    Ok(read_u32_at(data, 0))
}

/// Wire layout of a parameter block: a big-endian count, then for each
/// parameter its big-endian field code, its big-endian value length and
/// its value bytes, in order.
pub proof fn lemma_param_block_layout(ps: Seq<ParamSpec>, f: FieldId, v: Seq<u8>)
    requires
        ps.len() < 65535,
        v.len() <= 65535,
    ensures
        spec_encode_params(ps).take(2) == seq![(ps.len() / 256) as u8, (ps.len() % 256) as u8],
        spec_encode_params(ps.push((f, v))) == seq![((ps.len() + 1) / 256) as u8, ((ps.len() + 1) % 256) as u8]
            + encode_fields(ps)
            + seq![(field_code(f) / 256) as u8, (field_code(f) % 256) as u8, (v.len() / 256) as u8, (v.len() % 256) as u8]
            + v,
{
    lemma_encode_fields_push(ps, (f, v));
    assert(spec_encode_params(ps).take(2) =~= seq![(ps.len() / 256) as u8, (ps.len() % 256) as u8]);
    assert(spec_encode_params(ps.push((f, v))) =~= seq![((ps.len() + 1) / 256) as u8, ((ps.len() + 1) % 256) as u8]
            + encode_fields(ps)
            + seq![(field_code(f) / 256) as u8, (field_code(f) % 256) as u8, (v.len() / 256) as u8, (v.len() % 256) as u8]
            + v);
}

} // verus!
