//! Conversions used by the connection loop that frames transactions with
//! the stream codec and routes them as raw bytes.

use vstd::prelude::*;
use crate::codec::{HotlineTransaction, spec_from_parts};
use crate::routes::ERR_INTERNAL;
use crate::transaction::{
    FrameHeader, TransactionError, HEADER_LEN, header_bytes, header_from, spec_reply_header,
    append_bytes, copy_range, reply_header, lemma_header_prefix, lemma_header_bytes_len,
};

verus! {

/// Serialise a transaction as its header followed by its payload.
pub fn hotline_transaction_to_bytes(tx: &HotlineTransaction) -> (v: Vec<u8>)
    ensures
        v@ == header_bytes(tx@.0) + tx@.1,
{
    let mut v = tx.header().to_vec();
    append_bytes(&mut v, tx.payload());
    v
}

/// Outcome of reading `header || payload` bytes back as a transaction.
pub open spec fn spec_bytes_to_transaction(b: Seq<u8>) -> Result<(FrameHeader, Seq<u8>), TransactionError> {
    if b.len() < HEADER_LEN {
        Err(TransactionError::ShortBuffer)
    } else {
        let h = header_from(b);
        let p = b.skip(HEADER_LEN as int);
        match spec_from_parts(h, p) {
            Ok(()) => Ok((h, p)),
            Err(e) => Err(e),
        }
    }
}

/// Read `header || payload` bytes as a transaction.
pub fn bytes_to_hotline_transaction(bytes: &[u8]) -> (r: Result<HotlineTransaction, TransactionError>)
    ensures
        match (r, spec_bytes_to_transaction(bytes@)) {
            (Ok(tx), Ok(t)) => tx@ == t,
            (Err(e), Err(f)) => e == f,
            _ => false,
        },
{
    if bytes.len() < HEADER_LEN {
        return Err(TransactionError::ShortBuffer);
    }
    let header = FrameHeader::from_prefix(bytes);
    let payload = copy_range(bytes, HEADER_LEN, bytes.len());
    assert(payload@ =~= bytes@.skip(HEADER_LEN as int));
    HotlineTransaction::from_parts(header, payload)
}

/// The empty internal-error reply to a request header.
pub fn error_transaction(req_header: &FrameHeader) -> (tx: HotlineTransaction)
    ensures
        tx@ == (spec_reply_header(*req_header, ERR_INTERNAL, 0), Seq::<u8>::empty()),
{
    let header = reply_header(req_header, ERR_INTERNAL, 0);
    let r = HotlineTransaction::from_parts(header, Vec::new());
    match r {
        Ok(tx) => tx,
        Err(_) => {
            proof {
                assert(spec_from_parts(header, Seq::<u8>::empty()) is Ok);
            }
            vstd::pervasive::unreached()
        },
    }
}

/// A transaction that the stream codec would accept from its parts comes
/// back unchanged from its bytes.
pub proof fn lemma_transaction_bytes_round_trip(h: FrameHeader, p: Seq<u8>)
    requires
        spec_from_parts(h, p) is Ok,
    ensures
        spec_bytes_to_transaction(header_bytes(h) + p) == Ok::<(FrameHeader, Seq<u8>), TransactionError>((h, p)),
{
    lemma_header_bytes_len(h);
    lemma_header_prefix(h, p);
    assert((header_bytes(h) + p).skip(HEADER_LEN as int) =~= p);
}

} // verus!
