//! L2-to-L1 messages as the network reports them, the keccak-based message
//! hash, and the harvesting of events and messages from a finished execution
//! in order of emission.

use vstd::prelude::*;
use vstd::multiset::Multiset;
use crate::felt::{Felt, ContractAddress, felt_be32};
use crate::keccak_hash::{keccak256, keccak256_spec};
use crate::types::{CallInfo, Event, TransactionExecutionInfo, copy_felts};

verus! {

/// A message from L2 to L1, with the contract that sent it.
#[derive(Debug)]
pub struct StarknetMessageToL1 {
    pub from_address: ContractAddress,
    pub to_address: ContractAddress,
    pub payload: Vec<Felt>,
}

/// The canonical byte encoding of a message: sender, receiver, payload
/// length, and each payload felt, all as 32-byte big-endian words.
pub open spec fn message_encoding(
    from: ContractAddress,
    to: ContractAddress,
    payload: Seq<Felt>,
) -> Seq<u8> {
    felt_be32(from.0) + felt_be32(to.0) + felt_be32(
        Felt { l3: 0, l2: 0, l1: 0, l0: payload.len() as u64 },
    ) + cat_be32(payload)
}

/// The concatenated 32-byte encodings of a felt sequence.
pub open spec fn cat_be32(s: Seq<Felt>) -> Seq<u8>
    decreases s.len(),
{
    if s.len() == 0 {
        Seq::empty()
    } else {
        cat_be32(s.drop_last()) + felt_be32(s.last())
    }
}

impl StarknetMessageToL1 {
    pub fn new(
        from_address: ContractAddress,
        to_address: ContractAddress,
        payload: Vec<Felt>,
    ) -> (r: StarknetMessageToL1)
        ensures
            r.from_address == from_address,
            r.to_address == to_address,
            r.payload == payload,
    {
        StarknetMessageToL1 { from_address, to_address, payload }
    }

    /// The message hash: the keccak-256 digest of the canonical encoding.
    pub fn get_hash(&self) -> (r: Vec<u8>)
        requires
            32 * self.payload@.len() + 232 <= usize::MAX,
        ensures
            r@.len() == 32,
            r@ == keccak256_spec(
                message_encoding(self.from_address, self.to_address, self.payload@),
            ),
    {
        let mut enc: Vec<u8> = Vec::new();
        let mut from_bytes = self.from_address.0.to_bytes_be();
        enc.append(&mut from_bytes);
        let mut to_bytes = self.to_address.0.to_bytes_be();
        enc.append(&mut to_bytes);
        let len_felt = Felt::from_u64(self.payload.len() as u64);
        let mut len_bytes = len_felt.to_bytes_be();
        enc.append(&mut len_bytes);
        let ghost prefix = enc@;
        let mut i: usize = 0;
        while i < self.payload.len()
            invariant
                0 <= i <= self.payload@.len(),
                enc@ == prefix + cat_be32(self.payload@.take(i as int)),
                enc@.len() == 96 + 32 * i,
                prefix.len() == 96,
                32 * self.payload@.len() + 232 <= usize::MAX,
            decreases self.payload@.len() - i,
        {
            let mut b = self.payload[i].to_bytes_be();
            enc.append(&mut b);
            proof {
                assert(self.payload@.take(i + 1).drop_last() =~= self.payload@.take(i as int));
                assert(enc@ =~= prefix + cat_be32(self.payload@.take(i + 1)));
            }
            i = i + 1;
        }
        proof {
            assert(self.payload@.take(self.payload@.len() as int) =~= self.payload@);
            assert(enc@ =~= message_encoding(self.from_address, self.to_address, self.payload@));
        }
        keccak256(&enc)
    }
}

/// A harvested message: its order stamp, its sender, and its content.
#[derive(Debug)]
pub struct MessageToL1Info {
    pub order: u64,
    pub from_address: ContractAddress,
    pub to_address: ContractAddress,
    pub payload: Vec<Felt>,
}

/// The outcome of an execution from which messages and events are harvested:
/// one call, or a whole transaction.
#[derive(Debug)]
pub enum ExecutionInfo {
    Transaction(Box<TransactionExecutionInfo>),
    Call(Box<CallInfo>),
}

/// Collects every message of the call tree, stamped with its sender.
fn collect_messages(ci: &CallInfo, out: &mut Vec<MessageToL1Info>)
    ensures
        final(out)@.len() >= old(out)@.len(),
        forall|i: int|
            0 <= i < old(out)@.len() ==> final(out)@[i] == old(out)@[i],
        no_messages_shallow(*ci) ==> final(out)@ == old(out)@,
    decreases *ci,
{
    let mut i: usize = 0;
    while i < ci.l2_to_l1_messages.len()
        invariant
            out@.len() >= old(out)@.len(),
            forall|k: int| 0 <= k < old(out)@.len() ==> out@[k] == old(out)@[k],
            no_messages_shallow(*ci) ==> out@ == old(out)@,
        decreases ci.l2_to_l1_messages@.len() - i,
    {
        let msg = &ci.l2_to_l1_messages[i];
        out.push(
            MessageToL1Info {
                order: msg.order,
                from_address: ci.contract_address,
                to_address: msg.to_address,
                payload: copy_felts(&msg.payload),
            },
        );
        i = i + 1;
    }
    let mut j: usize = 0;
    while j < ci.internal_calls.len()
        invariant
            0 <= j <= ci.internal_calls@.len(),
            out@.len() >= old(out)@.len(),
            forall|k: int| 0 <= k < old(out)@.len() ==> out@[k] == old(out)@[k],
            no_messages_shallow(*ci) ==> out@ == old(out)@,
        decreases ci.internal_calls@.len() - j,
    {
        proof {
            assert(decreases_to!(*ci => ci.internal_calls@[j as int]));
        }
        collect_messages(&ci.internal_calls[j], out);
        j = j + 1;
    }
}

/// Collects every event of the call tree, stamped with its emitter.
fn collect_events(ci: &CallInfo, out: &mut Vec<Event>)
    ensures
        final(out)@.len() >= old(out)@.len(),
        forall|i: int|
            0 <= i < old(out)@.len() ==> final(out)@[i] == old(out)@[i],
        no_events_shallow(*ci) ==> final(out)@ == old(out)@,
    decreases *ci,
{
    let mut i: usize = 0;
    while i < ci.events.len()
        invariant
            out@.len() >= old(out)@.len(),
            forall|k: int| 0 <= k < old(out)@.len() ==> out@[k] == old(out)@[k],
            no_events_shallow(*ci) ==> out@ == old(out)@,
        decreases ci.events@.len() - i,
    {
        let ev = &ci.events[i];
        out.push(
            Event {
                order: ev.order,
                from_address: ci.contract_address,
                keys: copy_felts(&ev.keys),
                data: copy_felts(&ev.data),
            },
        );
        i = i + 1;
    }
    let mut j: usize = 0;
    while j < ci.internal_calls.len()
        invariant
            0 <= j <= ci.internal_calls@.len(),
            out@.len() >= old(out)@.len(),
            forall|k: int| 0 <= k < old(out)@.len() ==> out@[k] == old(out)@[k],
            no_events_shallow(*ci) ==> out@ == old(out)@,
        decreases ci.internal_calls@.len() - j,
    {
        proof {
            assert(decreases_to!(*ci => ci.internal_calls@[j as int]));
        }
        collect_events(&ci.internal_calls[j], out);
        j = j + 1;
    }
}

/// The call record and its sub-calls carry no messages at all.
pub open spec fn no_messages_shallow(ci: CallInfo) -> bool {
    ci.l2_to_l1_messages@.len() == 0 && ci.internal_calls@.len() == 0
}

/// The call record and its sub-calls carry no events at all.
pub open spec fn no_events_shallow(ci: CallInfo) -> bool {
    ci.events@.len() == 0 && ci.internal_calls@.len() == 0
}

/// No call record of the execution sends a message.
pub open spec fn messages_quiet(info: ExecutionInfo) -> bool {
    match info {
        ExecutionInfo::Call(ci) => no_messages_shallow(*ci),
        ExecutionInfo::Transaction(t) => {
            &&& (t.validate_info matches Some(ci) ==> no_messages_shallow(ci))
            &&& (t.call_info matches Some(ci) ==> no_messages_shallow(ci))
            &&& (t.fee_transfer_info matches Some(ci) ==> no_messages_shallow(ci))
        },
    }
}

/// The message orders never decrease along the sequence.
pub open spec fn messages_sorted(msgs: Seq<MessageToL1Info>) -> bool {
    forall|i: int, j: int|
        0 <= i < j < msgs.len() ==> (#[trigger] msgs[i]).order <= (#[trigger] msgs[j]).order
}

/// The event orders never decrease along the sequence.
pub open spec fn events_sorted(evs: Seq<Event>) -> bool {
    forall|i: int, j: int|
        0 <= i < j < evs.len() ==> (#[trigger] evs[i]).order <= (#[trigger] evs[j]).order
}

/// Sorts harvested messages by their order stamp (selection sort).
fn sort_messages(v: Vec<MessageToL1Info>) -> (r: Vec<MessageToL1Info>)
    ensures
        messages_sorted(r@),
        r@.len() == v@.len(),
        r@.to_multiset() == v@.to_multiset(),
{

    broadcast use vstd::seq_lib::group_to_multiset_ensures;

    let mut v = v;
    let ghost orig = v@.to_multiset();
    let ghost total = v@.len();
    let mut out: Vec<MessageToL1Info> = Vec::new();
    while v.len() > 0
        invariant
            out@.len() + v@.len() == total,
            out@.to_multiset().add(v@.to_multiset()) =~= orig,
            messages_sorted(out@),
            forall|i: int, j: int|
                0 <= i < out@.len() && 0 <= j < v@.len() ==> (#[trigger] out@[i]).order <= (
                #[trigger] v@[j]).order,
        decreases v@.len(),
    {
        let mut mi: usize = 0;
        let mut k: usize = 1;
        while k < v.len()
            invariant
                0 <= mi < v@.len(),
                mi < k,
                1 <= k <= v@.len(),
                forall|t: int| 0 <= t < k ==> v@[mi as int].order <= (#[trigger] v@[t]).order,
            decreases v@.len() - k,
        {
            if v[k].order < v[mi].order {
                mi = k;
            }
            k = k + 1;
        }
        let ghost pre = v@;
        let ghost pre_out = out@;
        let m = v.remove(mi);
        out.push(m);
        proof {
            assert(forall|j: int|
                0 <= j < v@.len() ==> #[trigger] v@[j] == if j < mi {
                    pre[j]
                } else {
                    pre[j + 1]
                });
            pre.to_multiset_ensures();
            pre_out.to_multiset_ensures();
            assert(v@ == pre.remove(mi as int));
            assert(out@ == pre_out.push(m));
            assert(v@.to_multiset() =~= pre.to_multiset().remove(pre[mi as int]));
            assert(out@.to_multiset() =~= pre_out.to_multiset().insert(pre[mi as int]));
            assert(out@.to_multiset().add(v@.to_multiset()) =~= orig);
        }
    }
    proof {
        v@.to_multiset_ensures();
        assert(v@.to_multiset().len() == 0);
        assert(v@.to_multiset() =~= Multiset::empty());
        assert(out@.to_multiset() =~= orig);
    }
    out
}

/// Sorts harvested events by their order stamp (selection sort).
fn sort_events(v: Vec<Event>) -> (r: Vec<Event>)
    ensures
        events_sorted(r@),
        r@.len() == v@.len(),
        r@.to_multiset() == v@.to_multiset(),
{

    broadcast use vstd::seq_lib::group_to_multiset_ensures;

    let mut v = v;
    let ghost orig = v@.to_multiset();
    let ghost total = v@.len();
    let mut out: Vec<Event> = Vec::new();
    while v.len() > 0
        invariant
            out@.len() + v@.len() == total,
            out@.to_multiset().add(v@.to_multiset()) =~= orig,
            events_sorted(out@),
            forall|i: int, j: int|
                0 <= i < out@.len() && 0 <= j < v@.len() ==> (#[trigger] out@[i]).order <= (
                #[trigger] v@[j]).order,
        decreases v@.len(),
    {
        let mut mi: usize = 0;
        let mut k: usize = 1;
        while k < v.len()
            invariant
                0 <= mi < v@.len(),
                mi < k,
                1 <= k <= v@.len(),
                forall|t: int| 0 <= t < k ==> v@[mi as int].order <= (#[trigger] v@[t]).order,
            decreases v@.len() - k,
        {
            if v[k].order < v[mi].order {
                mi = k;
            }
            k = k + 1;
        }
        let ghost pre = v@;
        let ghost pre_out = out@;
        let m = v.remove(mi);
        out.push(m);
        proof {
            assert(forall|j: int|
                0 <= j < v@.len() ==> #[trigger] v@[j] == if j < mi {
                    pre[j]
                } else {
                    pre[j + 1]
                });
            pre.to_multiset_ensures();
            pre_out.to_multiset_ensures();
            assert(v@ == pre.remove(mi as int));
            assert(out@ == pre_out.push(m));
            assert(v@.to_multiset() =~= pre.to_multiset().remove(pre[mi as int]));
            assert(out@.to_multiset() =~= pre_out.to_multiset().insert(pre[mi as int]));
            assert(out@.to_multiset().add(v@.to_multiset()) =~= orig);
        }
    }
    proof {
        v@.to_multiset_ensures();
        assert(v@.to_multiset().len() == 0);
        assert(v@.to_multiset() =~= Multiset::empty());
        assert(out@.to_multiset() =~= orig);
    }
    out
}

impl ExecutionInfo {
    /// Every message of the execution, in the global order of emission.
    pub fn get_sorted_l2_to_l1_messages(&self) -> (r: Vec<MessageToL1Info>)
        ensures
            messages_sorted(r@),
            messages_quiet(*self) ==> r@.len() == 0,
    {
        let mut collected: Vec<MessageToL1Info> = Vec::new();
        match self {
            ExecutionInfo::Call(ci) => collect_messages(ci, &mut collected),
            ExecutionInfo::Transaction(info) => {
                if let Some(ci) = &info.validate_info {
                    collect_messages(ci, &mut collected);
                }
                if let Some(ci) = &info.call_info {
                    collect_messages(ci, &mut collected);
                }
                if let Some(ci) = &info.fee_transfer_info {
                    collect_messages(ci, &mut collected);
                }
            },
        }
        sort_messages(collected)
    }

    /// Every event of the execution, in the global order of emission.
    pub fn get_sorted_events(&self) -> (r: Vec<Event>)
        ensures
            events_sorted(r@),
    {
        let mut collected: Vec<Event> = Vec::new();
        match self {
            ExecutionInfo::Call(ci) => collect_events(ci, &mut collected),
            ExecutionInfo::Transaction(info) => {
                if let Some(ci) = &info.validate_info {
                    collect_events(ci, &mut collected);
                }
                if let Some(ci) = &info.call_info {
                    collect_events(ci, &mut collected);
                }
                if let Some(ci) = &info.fee_transfer_info {
                    collect_events(ci, &mut collected);
                }
            },
        }
        sort_events(collected)
    }
}

} // verus!
