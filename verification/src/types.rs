//! Execution data types: ordered events and messages, call records, the
//! transaction and block contexts, entry-point descriptors and contract
//! classes.

use vstd::prelude::*;
use crate::felt::{Felt, ContractAddress, ClassHash, felts_wf};

verus! {

/// An event emitted by a contract, stamped with the per-transaction order
/// counter at the moment of emission.
#[derive(Clone, Debug)]
pub struct OrderedEvent {
    pub order: u64,
    pub keys: Vec<Felt>,
    pub data: Vec<Felt>,
}

/// An L2-to-L1 message, stamped like an event.
#[derive(Clone, Debug)]
pub struct OrderedL2ToL1Message {
    pub order: u64,
    pub to_address: ContractAddress,
    pub payload: Vec<Felt>,
}

/// An event paired with the address that emitted it, as reported to clients.
#[derive(Clone, Debug)]
pub struct Event {
    pub order: u64,
    pub from_address: ContractAddress,
    pub keys: Vec<Felt>,
    pub data: Vec<Felt>,
}

#[derive(Clone, Copy, PartialEq, Eq, Structural, Debug)]
pub enum CallType {
    Call,
    Delegate,
}

#[derive(Clone, Copy, PartialEq, Eq, Structural, Debug)]
pub enum EntryPointType {
    External,
    Constructor,
    L1Handler,
}

/// The set of values of a sequence of felts.
pub open spec fn felt_set(s: Seq<Felt>) -> Set<int> {
    Set::new(|v: int| exists|i: int| 0 <= i < s.len() && (#[trigger] s[i])@ == v)
}

/// The new entries of `b` beyond `a` are stamped with consecutive order
/// numbers from `n0` up to `n1`.
pub open spec fn events_extended(a: Seq<OrderedEvent>, b: Seq<OrderedEvent>, n0: int, n1: int) -> bool {
    &&& n0 <= n1
    &&& b.len() == a.len() + n1 - n0
    &&& forall|i: int| 0 <= i < a.len() ==> b[i] == a[i]
    &&& forall|i: int| a.len() <= i < b.len() ==> (#[trigger] b[i]).order == n0 + i - a.len()
}

/// As `events_extended`, for messages.
pub open spec fn messages_extended(
    a: Seq<OrderedL2ToL1Message>,
    b: Seq<OrderedL2ToL1Message>,
    n0: int,
    n1: int,
) -> bool {
    &&& n0 <= n1
    &&& b.len() == a.len() + n1 - n0
    &&& forall|i: int| 0 <= i < a.len() ==> b[i] == a[i]
    &&& forall|i: int| a.len() <= i < b.len() ==> (#[trigger] b[i]).order == n0 + i - a.len()
}

/// Orders strictly increase along the sequence of events.
pub open spec fn events_increasing(evs: Seq<OrderedEvent>) -> bool {
    forall|i: int, j: int| 0 <= i < j < evs.len() ==> (#[trigger] evs[i]).order < (#[trigger] evs[j]).order
}

/// Every order lies below the bound.
pub open spec fn events_bounded(evs: Seq<OrderedEvent>, n: int) -> bool {
    forall|i: int| 0 <= i < evs.len() ==> (#[trigger] evs[i]).order < n
}

pub open spec fn messages_increasing(msgs: Seq<OrderedL2ToL1Message>) -> bool {
    forall|i: int, j: int| 0 <= i < j < msgs.len() ==> (#[trigger] msgs[i]).order < (#[trigger] msgs[j]).order
}

pub open spec fn messages_bounded(msgs: Seq<OrderedL2ToL1Message>, n: int) -> bool {
    forall|i: int| 0 <= i < msgs.len() ==> (#[trigger] msgs[i]).order < n
}

/// Extending a strictly increasing, bounded event sequence with the next
/// consecutive orders keeps it strictly increasing and bounded.
pub proof fn lemma_events_extended_increasing(
    a: Seq<OrderedEvent>,
    b: Seq<OrderedEvent>,
    n0: int,
    n1: int,
)
    requires
        events_extended(a, b, n0, n1),
        events_increasing(a),
        events_bounded(a, n0),
    ensures
        events_increasing(b),
        events_bounded(b, n1),
{
    assert forall|i: int, j: int| 0 <= i < j < b.len() implies (#[trigger] b[i]).order < (
    #[trigger] b[j]).order by {
        if j < a.len() {
            assert(a[i].order < a[j].order);
        } else if i < a.len() {
            assert(b[i].order == a[i].order && a[i].order < n0);
        }
    }
}

pub proof fn lemma_messages_extended_increasing(
    a: Seq<OrderedL2ToL1Message>,
    b: Seq<OrderedL2ToL1Message>,
    n0: int,
    n1: int,
)
    requires
        messages_extended(a, b, n0, n1),
        messages_increasing(a),
        messages_bounded(a, n0),
    ensures
        messages_increasing(b),
        messages_bounded(b, n1),
{
    assert forall|i: int, j: int| 0 <= i < j < b.len() implies (#[trigger] b[i]).order < (
    #[trigger] b[j]).order by {
        if j < a.len() {
            assert(a[i].order < a[j].order);
        } else if i < a.len() {
            assert(b[i].order == a[i].order && a[i].order < n0);
        }
    }
}

/// The record of one executed call: who called what, with which data, and
/// everything the call accumulated.  `internal_calls` holds the records of
/// its sub-calls, so the records of a transaction form a tree.
#[derive(Debug)]
pub struct CallInfo {
    pub caller_address: ContractAddress,
    pub call_type: Option<CallType>,
    pub contract_address: ContractAddress,
    pub code_address: Option<ContractAddress>,
    pub class_hash: Option<ClassHash>,
    pub entry_point_selector: Option<Felt>,
    pub entry_point_type: Option<EntryPointType>,
    pub calldata: Vec<Felt>,
    pub retdata: Vec<Felt>,
    pub events: Vec<OrderedEvent>,
    pub l2_to_l1_messages: Vec<OrderedL2ToL1Message>,
    pub storage_read_values: Vec<Felt>,
    pub accessed_storage_keys: Vec<Felt>,
    pub internal_calls: Vec<CallInfo>,
    pub gas_consumed: u128,
    pub failure_flag: bool,
}

/// The result a caller needs from a finished call.
#[derive(Debug)]
pub struct CallResult {
    pub gas_consumed: u128,
    pub is_success: bool,
    pub retdata: Vec<crate::memory::MaybeRelocatable>,
}

impl CallInfo {
    /// The synthetic record of a constructor that did not run because the
    /// class has no constructor code.
    pub fn empty_constructor_call(
        contract_address: ContractAddress,
        caller_address: ContractAddress,
        class_hash: Option<ClassHash>,
        constructor_selector: Felt,
    ) -> (r: CallInfo)
        ensures
            r.contract_address == contract_address,
            r.caller_address == caller_address,
            r.class_hash == class_hash,
            r.entry_point_selector == Some(constructor_selector),
            r.entry_point_type == Some(EntryPointType::Constructor),
            r.call_type == Some(CallType::Call),
            r.calldata@ =~= Seq::<Felt>::empty(),
            r.retdata@ =~= Seq::<Felt>::empty(),
            r.events@ =~= Seq::<OrderedEvent>::empty(),
            r.l2_to_l1_messages@ =~= Seq::<OrderedL2ToL1Message>::empty(),
            r.storage_read_values@ =~= Seq::<Felt>::empty(),
            r.accessed_storage_keys@ =~= Seq::<Felt>::empty(),
            r.internal_calls@ =~= Seq::<CallInfo>::empty(),
            r.gas_consumed == 0,
            !r.failure_flag,
    {
        CallInfo {
            caller_address,
            call_type: Some(CallType::Call),
            contract_address,
            code_address: None,
            class_hash,
            entry_point_selector: Some(constructor_selector),
            entry_point_type: Some(EntryPointType::Constructor),
            calldata: Vec::new(),
            retdata: Vec::new(),
            events: Vec::new(),
            l2_to_l1_messages: Vec::new(),
            storage_read_values: Vec::new(),
            accessed_storage_keys: Vec::new(),
            internal_calls: Vec::new(),
            gas_consumed: 0,
            failure_flag: false,
        }
    }

    /// The call's outcome as its caller sees it.
    pub fn result(&self) -> (r: CallResult)
        ensures
            r.gas_consumed == self.gas_consumed,
            r.is_success == !self.failure_flag,
            r.retdata@ == crate::memory::felt_cells(self.retdata@),
    {
        let retdata = copy_felts_to_cells(&self.retdata);
        CallResult { gas_consumed: self.gas_consumed, is_success: !self.failure_flag, retdata }
    }
}

/// Copies a felt vector.
pub fn copy_felts(v: &Vec<Felt>) -> (r: Vec<Felt>)
    ensures
        r@ == v@,
{
    let mut out: Vec<Felt> = Vec::new();
    let mut i: usize = 0;
    while i < v.len()
        invariant
            0 <= i <= v@.len(),
            out@ =~= v@.take(i as int),
        decreases v@.len() - i,
    {
        out.push(v[i]);
        i = i + 1;
    }
    proof {
        assert(v@.take(v@.len() as int) =~= v@);
    }
    out
}

/// Copies a felt vector into memory cell values.
pub fn copy_felts_to_cells(v: &Vec<Felt>) -> (r: Vec<crate::memory::MaybeRelocatable>)
    ensures
        r@ == crate::memory::felt_cells(v@),
{
    let mut out: Vec<crate::memory::MaybeRelocatable> = Vec::new();
    let mut i: usize = 0;
    while i < v.len()
        invariant
            0 <= i <= v@.len(),
            out@ =~= crate::memory::felt_cells(v@.take(i as int)),
        decreases v@.len() - i,
    {
        out.push(crate::memory::MaybeRelocatable::Int(v[i]));
        proof {
            assert(crate::memory::felt_cells(v@.take(i + 1)) =~= crate::memory::felt_cells(
                v@.take(i as int),
            ).push(crate::memory::MaybeRelocatable::Int(v@[i as int])));
        }
        i = i + 1;
    }
    proof {
        assert(v@.take(v@.len() as int) =~= v@);
    }
    out
}

/// Per-transaction mutable counters and transaction facts, shared by every
/// call frame of one transaction.
#[derive(Clone, Debug)]
pub struct TransactionExecutionContext {
    pub n_emitted_events: u64,
    pub n_sent_messages: u64,
    pub version: Felt,
    pub account_contract_address: ContractAddress,
    pub max_fee: u128,
    pub transaction_hash: Felt,
    pub signature: Vec<Felt>,
    pub nonce: Felt,
    pub max_n_steps: u64,
}

impl TransactionExecutionContext {
    pub fn new_default() -> (r: TransactionExecutionContext)
        ensures
            r.n_emitted_events == 0,
            r.n_sent_messages == 0,
            r.version@ == 0,
            r.account_contract_address@ == 0,
            r.max_fee == 0,
            r.transaction_hash@ == 0,
            r.signature@ =~= Seq::<Felt>::empty(),
            r.nonce@ == 0,
            r.max_n_steps == 0,
    {
        TransactionExecutionContext {
            n_emitted_events: 0,
            n_sent_messages: 0,
            version: Felt::zero(),
            account_contract_address: ContractAddress::zero(),
            max_fee: 0,
            transaction_hash: Felt::zero(),
            signature: Vec::new(),
            nonce: Felt::zero(),
            max_n_steps: 0,
        }
    }

    pub fn new(
        account_contract_address: ContractAddress,
        transaction_hash: Felt,
        signature: Vec<Felt>,
        max_fee: u128,
        nonce: Felt,
        max_n_steps: u64,
        version: Felt,
    ) -> (r: TransactionExecutionContext)
        ensures
            r.n_emitted_events == 0,
            r.n_sent_messages == 0,
            r.account_contract_address == account_contract_address,
            r.transaction_hash == transaction_hash,
            r.signature == signature,
            r.max_fee == max_fee,
            r.nonce == nonce,
            r.max_n_steps == max_n_steps,
            r.version == version,
    {
        TransactionExecutionContext {
            n_emitted_events: 0,
            n_sent_messages: 0,
            version,
            account_contract_address,
            max_fee,
            transaction_hash,
            signature,
            nonce,
            max_n_steps,
        }
    }
}

/// Facts about the block being built.
#[derive(Clone, Copy, Debug)]
pub struct BlockInfo {
    pub block_number: u64,
    pub block_timestamp: u64,
    pub sequencer_address: ContractAddress,
}

/// The chain-wide execution context.
#[derive(Clone, Copy, Debug)]
pub struct BlockContext {
    pub block_info: BlockInfo,
    /// The chain id felt, from the OS configuration.
    pub chain_id: Felt,
    pub invoke_tx_max_n_steps: u64,
    pub validate_max_n_steps: u64,
}

/// The default chain-wide context: a genesis block, a zero chain id, and a
/// million-step ceiling for both runs.
pub open spec fn default_block_context() -> BlockContext {
    BlockContext {
        block_info: BlockInfo {
            block_number: 0,
            block_timestamp: 0,
            sequencer_address: ContractAddress(Felt { l3: 0, l2: 0, l1: 0, l0: 0 }),
        },
        chain_id: Felt { l3: 0, l2: 0, l1: 0, l0: 0 },
        invoke_tx_max_n_steps: 1000000,
        validate_max_n_steps: 1000000,
    }
}

impl BlockContext {
    pub fn new_default() -> (r: BlockContext)
        ensures
            r == default_block_context(),
            r.block_info.block_number == 0,
            r.block_info.block_timestamp == 0,
            r.block_info.sequencer_address@ == 0,
            r.chain_id@ == 0,
            r.invoke_tx_max_n_steps == 1000000,
            r.validate_max_n_steps == 1000000,
    {
        BlockContext {
            block_info: BlockInfo {
                block_number: 0,
                block_timestamp: 0,
                sequencer_address: ContractAddress::zero(),
            },
            chain_id: Felt::zero(),
            invoke_tx_max_n_steps: 1000000,
            validate_max_n_steps: 1000000,
        }
    }
}

/// One entry point of a contract class.
#[derive(Clone, Copy, PartialEq, Eq, Structural, Debug)]
pub struct ContractEntryPoint {
    pub selector: Felt,
    pub offset: u64,
}

/// A step a guest takes when its entry point runs: either it traps into a
/// syscall with the given request cells, or it halts with its return data.
#[derive(Clone, Debug)]
pub enum GuestOp {
    /// The guest writes these cells at the syscall pointer and traps.
    Syscall(Vec<crate::memory::MaybeRelocatable>),
}

/// What a contract's code does when an entry point runs: the syscalls it
/// issues, in order, and how it returns.  This models the observable
/// behaviour of guest bytecode toward the handler.
#[derive(Clone, Debug)]
pub struct GuestScript {
    pub ops: Vec<GuestOp>,
    pub retdata: Vec<Felt>,
    pub failure_flag: bool,
    pub gas_consumed: u128,
}

/// A contract class, as the handler sees it: its identity hash, its declared
/// entry points, and its observable behaviour.
#[derive(Clone, Debug)]
pub struct ContractClass {
    /// The class hash, computed at compilation time.
    pub class_hash: Felt,
    /// The constructor entry points, or `None` when the class declares no
    /// constructor table at all.
    pub constructor_entry_points: Option<Vec<ContractEntryPoint>>,
    pub external_entry_points: Vec<ContractEntryPoint>,
}

/// Two classes that agree on their hash and declared entry points.
pub open spec fn class_equiv(a: ContractClass, b: ContractClass) -> bool {
    &&& a.class_hash == b.class_hash
    &&& match (a.constructor_entry_points, b.constructor_entry_points) {
        (Some(x), Some(y)) => x@ == y@,
        (None, None) => true,
        _ => false,
    }
    &&& a.external_entry_points@ == b.external_entry_points@
}

/// Copies a contract class.
pub fn copy_class(c: &ContractClass) -> (r: ContractClass)
    ensures
        class_equiv(*c, r),
        r.class_hash == c.class_hash,
        r.constructor_entry_points is Some <==> c.constructor_entry_points is Some,
        c.constructor_entry_points matches Some(x) ==> (r.constructor_entry_points matches Some(y)
            && y@ == x@),
{
    let constructor_entry_points = match &c.constructor_entry_points {
        Some(eps) => Some(copy_entry_points(eps)),
        None => None,
    };
    let external_entry_points = copy_entry_points(&c.external_entry_points);
    ContractClass { class_hash: c.class_hash, constructor_entry_points, external_entry_points }
}

/// Copies an entry-point table.
pub fn copy_entry_points(v: &Vec<ContractEntryPoint>) -> (r: Vec<ContractEntryPoint>)
    ensures
        r@ == v@,
{
    let mut out: Vec<ContractEntryPoint> = Vec::new();
    let mut i: usize = 0;
    while i < v.len()
        invariant
            0 <= i <= v@.len(),
            out@ =~= v@.take(i as int),
        decreases v@.len() - i,
    {
        out.push(v[i]);
        i = i + 1;
    }
    proof {
        assert(v@.take(v@.len() as int) =~= v@);
    }
    out
}

/// Everything needed to run one entry point.
#[derive(Clone, Debug)]
pub struct ExecutionEntryPoint {
    pub contract_address: ContractAddress,
    pub calldata: Vec<Felt>,
    pub entry_point_selector: Felt,
    pub caller_address: ContractAddress,
    pub entry_point_type: EntryPointType,
    pub call_type: Option<CallType>,
    pub class_hash: Option<ClassHash>,
    pub initial_gas: u128,
}

impl ExecutionEntryPoint {
    #[allow(clippy::too_many_arguments)]
    pub fn new(
        contract_address: ContractAddress,
        calldata: Vec<Felt>,
        entry_point_selector: Felt,
        caller_address: ContractAddress,
        entry_point_type: EntryPointType,
        call_type: Option<CallType>,
        class_hash: Option<ClassHash>,
        initial_gas: u128,
    ) -> (r: ExecutionEntryPoint)
        ensures
            r == (ExecutionEntryPoint {
                contract_address,
                calldata,
                entry_point_selector,
                caller_address,
                entry_point_type,
                call_type,
                class_hash,
                initial_gas,
            }),
    {
        ExecutionEntryPoint {
            contract_address,
            calldata,
            entry_point_selector,
            caller_address,
            entry_point_type,
            call_type,
            class_hash,
            initial_gas,
        }
    }
}

/// What running an entry point produced: the call record when the run
/// completed, or the revert message when it did not.
#[derive(Debug)]
pub struct ExecutionResult {
    pub call_info: Option<CallInfo>,
    pub revert_error: Option<String>,
    pub n_reverted_steps: u64,
}

/// The outcome of one whole transaction.  VM-side resource accounting is
/// outside this handler's scope and carries no field here; the transaction
/// kind travels on the `Transaction` value itself.
#[derive(Debug)]
pub struct TransactionExecutionInfo {
    pub validate_info: Option<CallInfo>,
    pub call_info: Option<CallInfo>,
    pub revert_error: Option<String>,
    pub fee_transfer_info: Option<CallInfo>,
    pub actual_fee: u128,
}

impl TransactionExecutionInfo {
    pub fn new_without_fee_info(
        validate_info: Option<CallInfo>,
        call_info: Option<CallInfo>,
        revert_error: Option<String>,
    ) -> (r: TransactionExecutionInfo)
        ensures
            r.validate_info == validate_info,
            r.call_info == call_info,
            r.revert_error == revert_error,
            r.fee_transfer_info is None,
            r.actual_fee == 0,
    {
        TransactionExecutionInfo {
            validate_info,
            call_info,
            revert_error,
            fee_transfer_info: None,
            actual_fee: 0,
        }
    }

    pub fn set_fee_info(&mut self, actual_fee: u128, fee_transfer_info: Option<CallInfo>)
        ensures
            final(self).actual_fee == actual_fee,
            final(self).fee_transfer_info == fee_transfer_info,
            final(self).validate_info == old(self).validate_info,
            final(self).call_info == old(self).call_info,
            final(self).revert_error == old(self).revert_error,
    {
        self.actual_fee = actual_fee;
        self.fee_transfer_info = fee_transfer_info;
    }
}

} // verus!
