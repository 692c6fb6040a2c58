//! Route identifiers of the transaction types the router dispatches.

use vstd::prelude::*;

verus! {

/// Route of every transaction type without a route of its own.
pub const FALLBACK_ROUTE_ID: u32 = 0;

/// Transaction types with routes of their own.
pub open spec fn routed_type(id: u32) -> bool {
    id == 107 || id == 200 || id == 370 || id == 371 || id == 400 || id == 410
}

/// Route of a transaction type.
pub open spec fn spec_route_id(ty: u16) -> u32 {
    if routed_type(ty as u32) { ty as u32 } else { FALLBACK_ROUTE_ID }
}

/// The route identifiers with routes of their own, in order.
pub fn route_ids() -> (v: Vec<u32>)
    ensures
        v@ == seq![107u32, 200u32, 370u32, 371u32, 400u32, 410u32],
        forall|id: u32| v@.contains(id) <==> routed_type(id),
{
    let v = vec![107u32, 200u32, 370u32, 371u32, 400u32, 410u32];
    proof {
        assert forall|id: u32| v@.contains(id) <==> routed_type(id) by {
            if routed_type(id) {
                if id == 107 { assert(v@[0] == id); }
                if id == 200 { assert(v@[1] == id); }
                if id == 370 { assert(v@[2] == id); }
                if id == 371 { assert(v@[3] == id); }
                if id == 400 { assert(v@[4] == id); }
                if id == 410 { assert(v@[5] == id); }
            }
        }
    }
    v
}

/// Resolve the route of a transaction type: its own route when it has one,
/// the fallback route otherwise.
pub fn route_id_for(transaction_type: u16) -> (r: u32)
    ensures
        r == spec_route_id(transaction_type),
{
    let id = transaction_type as u32;
    if id == 107 || id == 200 || id == 370 || id == 371 || id == 400 || id == 410 {
        id
    } else {
        FALLBACK_ROUTE_ID
    }
}

} // verus!
