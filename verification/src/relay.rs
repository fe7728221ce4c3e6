//! The network relay: the in-process stand-in for the wire between the two
//! devices.
//!
//! Events flow in both directions at once; within each direction the relay
//! is a strict first-in-first-out pass-through with no transformation,
//! loss, duplication or reordering.

use vstd::prelude::*;

verus! {

use crate::events::NetworkEvent;

/// Forward everything pending in both directions: device A's outbound
/// events reach B in the order A sent them, and B's reach A likewise.
/// Traffic in one direction never disturbs the other.
pub fn relay_run(from_a: Vec<NetworkEvent>, from_b: Vec<NetworkEvent>) -> (out: (
    Vec<NetworkEvent>,
    Vec<NetworkEvent>,
))
    ensures
        out.0@ == from_a@,
        out.1@ == from_b@,
{
    let to_b = forward(from_a);
    let to_a = forward(from_b);
    (to_b, to_a)
}

/// Forward one direction's pending events, first in first out.
fn forward(pending: Vec<NetworkEvent>) -> (delivered: Vec<NetworkEvent>)
    ensures
        delivered@ == pending@,
{
    let ghost sent = pending@;
    let mut pending = pending;
    let mut delivered: Vec<NetworkEvent> = Vec::new();
    while pending.len() > 0
        invariant
            delivered@.len() + pending@.len() == sent.len(),
            pending@ == sent.skip(delivered@.len() as int),
            forall|i: int| 0 <= i < delivered@.len() ==> delivered@[i] == #[trigger] sent[i],
        decreases pending@.len(),
    {
        let event = pending.remove(0);
        proof {
            assert(event == sent[delivered@.len() as int]);
            assert(pending@ =~= sent.skip(delivered@.len() as int + 1));
        }
        delivered.push(event);
    }
    proof {
        assert(delivered@ =~= sent);
    }
    delivered
}

} // verus!
