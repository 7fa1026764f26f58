//! The library's cross-cutting guarantees, stated on their own so a reader
//! sees them in one place.  Each is proved from the contracts in the other
//! modules; none is assumed.

use vstd::prelude::*;
use crate::felt::Felt;
use crate::types::{
    OrderedEvent, OrderedL2ToL1Message, events_extended, messages_extended, events_increasing,
    messages_increasing, felt_set,
};
use crate::handler::SyscallHandler;

verus! {

/// Order stamps are contiguous from zero: a frame that starts with the
/// transaction's event counter at zero and has accumulated events through
/// the dispatcher holds exactly the orders `0, 1, ..., n-1`, in order.
/// Together with `events_increasing` this is the total ordering of events
/// across the transaction.
pub proof fn lemma_event_orders_contiguous_from_zero(evs: Seq<OrderedEvent>, n: int)
    requires
        events_extended(Seq::empty(), evs, 0, n),
    ensures
        evs.len() == n,
        forall|i: int| 0 <= i < evs.len() ==> (#[trigger] evs[i]).order == i,
        events_increasing(evs),
{
}

/// The same contiguity for L2-to-L1 message order stamps.
pub proof fn lemma_message_orders_contiguous_from_zero(msgs: Seq<OrderedL2ToL1Message>, n: int)
    requires
        messages_extended(Seq::empty(), msgs, 0, n),
    ensures
        msgs.len() == n,
        forall|i: int| 0 <= i < msgs.len() ==> (#[trigger] msgs[i]).order == i,
        messages_increasing(msgs),
{
}

/// Consecutive dispatcher steps compose: if one run of syscalls stamps the
/// orders `n0..n1` and a following run stamps `n1..n2`, the whole stamps
/// `n0..n2`.  This telescopes over a frame, so a frame's events always carry
/// the consecutive orders the transaction counter passed through.
pub proof fn lemma_events_extended_compose(
    a: Seq<OrderedEvent>,
    b: Seq<OrderedEvent>,
    c: Seq<OrderedEvent>,
    n0: int,
    n1: int,
    n2: int,
)
    requires
        events_extended(a, b, n0, n1),
        events_extended(b, c, n1, n2),
    ensures
        events_extended(a, c, n0, n2),
{
    assert forall|i: int| a.len() <= i < c.len() implies (#[trigger] c[i]).order == n0 + i
        - a.len() by {
        if i < b.len() {
            assert(c[i] == b[i]);
        }
    }
}

/// The same composition for messages.
pub proof fn lemma_messages_extended_compose(
    a: Seq<OrderedL2ToL1Message>,
    b: Seq<OrderedL2ToL1Message>,
    c: Seq<OrderedL2ToL1Message>,
    n0: int,
    n1: int,
    n2: int,
)
    requires
        messages_extended(a, b, n0, n1),
        messages_extended(b, c, n1, n2),
    ensures
        messages_extended(a, c, n0, n2),
{
    assert forall|i: int| a.len() <= i < c.len() implies (#[trigger] c[i]).order == n0 + i
        - a.len() by {
        if i < b.len() {
            assert(c[i] == b[i]);
        }
    }
}

/// A syscall's response can return the whole initial gas only when the
/// syscall's required gas is zero: the dispatcher guarantees
/// `gas_after <= initial_gas - required_gas` whenever the gas sufficed.
pub proof fn lemma_gas_equality_needs_zero_cost(
    gas_after: int,
    initial_gas: int,
    required: int,
)
    requires
        gas_after <= initial_gas - required,
        gas_after == initial_gas,
        required >= 0,
    ensures
        required == 0,
{
}

/// Every storage key the frame has read or written is recorded in
/// `accessed_keys`.  Each storage operation and each sub-call merge
/// preserves `accessed_covers`, so this holds at every point of a frame.
pub proof fn lemma_accessed_keys_cover_reads_and_writes(h: SyscallHandler)
    requires
        h.accessed_covers(),
    ensures
        forall|k: int| h.touched_keys@.contains(k) ==> felt_set(h.accessed_keys@).contains(k),
{
    assert forall|k: int| h.touched_keys@.contains(k) implies felt_set(
        h.accessed_keys@,
    ).contains(k) by {
        assert(h.touched_keys@ <= felt_set(h.accessed_keys@));
    }
}

} // verus!
