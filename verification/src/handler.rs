//! The syscall handler: one instance lives for the duration of one executing
//! entry point, owns that frame's accumulators and its expected-syscall-
//! pointer cursor, and performs each syscall against the transactional state
//! and the VM memory.

use vstd::prelude::*;
use crate::felt::{Felt, ContractAddress, ClassHash, felt_views, felts_wf};
use crate::errors::{SyscallHandlerError, StateError, TransactionError};
use crate::memory::{Relocatable, MaybeRelocatable, VmMemory, rel, cells_wf, felt_cells};
use crate::state::CachedState;
use crate::types::{
    OrderedEvent, OrderedL2ToL1Message, CallInfo, TransactionExecutionContext, BlockContext,
    BlockInfo, felt_set,
};
use crate::codec::{
    SyscallName, SelectorTable, SyscallResponse, ResponseBody, StorageReadRequest,
    StorageWriteRequest, EmitEventRequest, SendMessageToL1Request, ReplaceClassRequest,
    GetBlockHashRequest,
};

verus! {

/// The felt of the ASCII string `Out of gas`.
pub open spec fn out_of_gas_val() -> int {
    375233589013918064796019int
}

/// The felt of the ASCII string `Block number out of range`.
pub open spec fn block_out_of_range_val() -> int {
    416947535714815266189167582153091554788418570488723383674725int
}

/// The felt of the ASCII string `Unsupported address domain`.
pub open spec fn unsupported_domain_val() -> int {
    137283045993144043501733121243818978359763286750835609782282606int
}

/// The felt of the ASCII string `Invalid keccak input size`.
pub open spec fn invalid_keccak_size_val() -> int {
    460936957440218058043366978841036204030570905990848859175525int
}

/// The felt of the ASCII string `Syscall out of gas`.
pub open spec fn syscall_out_of_gas_val() -> int {
    7271647275966422122720959977524812442984819int
}

/// The felt of the ASCII string `CLASS_HASH_NOT_FOUND`.
pub open spec fn class_hash_not_found_val() -> int {
    384202928933128251697107453381487007374824001092int
}

/// The felt of the ASCII string `CONTRACT_ADDRESS_UNAVAILABLE`.
pub open spec fn contract_address_unavailable_val() -> int {
    7088548127261308405552589441057041250907113364082559841967156644933int
}

pub fn out_of_gas_felt() -> (r: Felt)
    ensures
        r@ == out_of_gas_val(),
        r.wf(),
        r == (Felt { l3: 0, l2: 0, l1: 20341, l0: 8367810592075374963 }),
{
    Felt { l3: 0, l2: 0, l1: 20341, l0: 8367810592075374963 }
}

pub fn block_out_of_range_felt() -> (r: Felt)
    ensures
        r@ == block_out_of_range_val(),
        r.wf(),
        r == (Felt { l3: 66, l2: 7813573190267860333, l1: 7090198671999202336, l0: 8027139061467473765 }),
{
    Felt { l3: 66, l2: 7813573190267860333, l1: 7090198671999202336, l0: 8027139061467473765 }
}

pub fn unsupported_domain_felt() -> (r: Felt)
    ensures
        r@ == unsupported_domain_val(),
        r.wf(),
        r == (Felt { l3: 21870, l2: 8319679514845279333, l1: 7214873686857377139, l0: 8295740943355701614 }),
{
    Felt { l3: 21870, l2: 8319679514845279333, l1: 7214873686857377139, l0: 8295740943355701614 }
}

pub fn invalid_keccak_size_felt() -> (r: Felt)
    ensures
        r@ == invalid_keccak_size_val(),
        r.wf(),
        r == (Felt { l3: 73, l2: 7959656509676462187, l1: 7305792290585340270, l0: 8103510787247143525 }),
{
    Felt { l3: 73, l2: 7959656509676462187, l1: 7305792290585340270, l0: 8103510787247143525 }
}

pub fn syscall_out_of_gas_felt() -> (r: Felt)
    ensures
        r@ == syscall_out_of_gas_val(),
        r.wf(),
        r == (Felt { l3: 0, l2: 21369, l1: 8314596455354494837, l0: 8367810592075374963 }),
{
    Felt { l3: 0, l2: 21369, l1: 8314596455354494837, l0: 8367810592075374963 }
}

pub fn class_hash_not_found_felt() -> (r: Felt)
    ensures
        r@ == class_hash_not_found_val(),
        r.wf(),
        r == (Felt { l3: 0, l2: 1129070931, l1: 6007599873342857038, l0: 5716298582623342148 }),
{
    Felt { l3: 0, l2: 1129070931, l1: 6007599873342857038, l0: 5716298582623342148 }
}

pub fn contract_address_unavailable_felt() -> (r: Felt)
    ensures
        r@ == contract_address_unavailable_val(),
        r.wf(),
        r == (Felt { l3: 1129270868, l2: 5927092614250710084, l1: 5928236102049943105, l0: 6215329552609201221 }),
{
    Felt { l3: 1129270868, l2: 5927092614250710084, l1: 5928236102049943105, l0: 6215329552609201221 }
}

/// The first block whose hash the current protocol version records; the
/// branch below it is kept as documented intent for a future version bump.
pub const V_0_12_0_FIRST_BLOCK: u64 = 0;

/// The address under which block hashes are stored.
pub fn block_hash_contract_address() -> (r: ContractAddress)
    ensures
        r@ == 1,
        r.wf(),
{
    ContractAddress(Felt::one())
}

/// Per-frame syscall counters.
pub struct ExecutionResourcesManager {
    pub syscall_counter: Vec<u64>,
}

/// The counter slot of each syscall name.
pub open spec fn name_index(name: SyscallName) -> int {
    match name {
        SyscallName::CallContract => 0,
        SyscallName::Deploy => 1,
        SyscallName::EmitEvent => 2,
        SyscallName::GetBlockNumber => 3,
        SyscallName::GetBlockTimestamp => 4,
        SyscallName::GetExecutionInfo => 5,
        SyscallName::Keccak => 6,
        SyscallName::LibraryCall => 7,
        SyscallName::ReplaceClass => 8,
        SyscallName::SendMessageToL1 => 9,
        SyscallName::StorageRead => 10,
        SyscallName::StorageWrite => 11,
    }
}

impl ExecutionResourcesManager {
    pub open spec fn wf(self) -> bool {
        self.syscall_counter@.len() == 12
    }

    pub fn new_default() -> (r: ExecutionResourcesManager)
        ensures
            r.wf(),
            r.syscall_counter@ =~= Seq::new(12, |i: int| 0u64),
    {
        let mut counter: Vec<u64> = Vec::new();
        let mut i: usize = 0;
        while i < 12
            invariant
                i <= 12,
                counter@ =~= Seq::new(i as nat, |j: int| 0u64),
            decreases 12 - i,
        {
            counter.push(0);
            proof {
                assert(Seq::new((i + 1) as nat, |j: int| 0u64) =~= Seq::new(
                    i as nat,
                    |j: int| 0u64,
                ).push(0u64));
            }
            i = i + 1;
        }
        ExecutionResourcesManager { syscall_counter: counter }
    }

    /// Increments the counter of a syscall name by one, saturating.
    pub fn increment_syscall_counter(&mut self, name: SyscallName)
        requires
            old(self).wf(),
        ensures
            final(self).wf(),
            final(self).syscall_counter@ == old(self).syscall_counter@.update(
                name_index(name),
                if old(self).syscall_counter@[name_index(name)] < u64::MAX {
                    (old(self).syscall_counter@[name_index(name)] + 1) as u64
                } else {
                    u64::MAX
                },
            ),
    {
        let idx: usize = match name {
            SyscallName::CallContract => 0,
            SyscallName::Deploy => 1,
            SyscallName::EmitEvent => 2,
            SyscallName::GetBlockNumber => 3,
            SyscallName::GetBlockTimestamp => 4,
            SyscallName::GetExecutionInfo => 5,
            SyscallName::Keccak => 6,
            SyscallName::LibraryCall => 7,
            SyscallName::ReplaceClass => 8,
            SyscallName::SendMessageToL1 => 9,
            SyscallName::StorageRead => 10,
            SyscallName::StorageWrite => 11,
        };
        let cur = self.syscall_counter[idx];
        let next = if cur < u64::MAX {
            cur + 1
        } else {
            u64::MAX
        };
        self.syscall_counter.set(idx, next);
    }
}

/// All felts a transaction context carries are well formed.
pub open spec fn tx_context_wf(tx: TransactionExecutionContext) -> bool {
    &&& tx.version.wf()
    &&& tx.account_contract_address.wf()
    &&& tx.transaction_hash.wf()
    &&& tx.nonce.wf()
    &&& felts_wf(tx.signature@)
}

/// All felts a block context carries are well formed.
pub open spec fn block_context_wf(b: BlockContext) -> bool {
    b.block_info.sequencer_address.wf() && b.chain_id.wf()
}

/// The syscall handler of one call frame.
pub struct SyscallHandler {
    /// Events this frame emitted, in emission order.
    pub events: Vec<OrderedEvent>,
    /// L2-to-L1 messages this frame sent, in emission order.
    pub l2_to_l1_messages: Vec<OrderedL2ToL1Message>,
    /// The call records of this frame's finished sub-calls.
    pub internal_calls: Vec<CallInfo>,
    /// Every response segment this handler wrote, with its size as a felt.
    pub read_only_segments: Vec<(Relocatable, MaybeRelocatable)>,
    /// Where the next syscall request must arrive.
    pub expected_syscall_ptr: Relocatable,
    /// The contract this frame executes.
    pub contract_address: ContractAddress,
    /// The contract that called this frame.
    pub caller_address: ContractAddress,
    /// Values read from this contract's storage, in read order, duplicates
    /// preserved; sub-call reads are merged in on return.
    pub read_values: Vec<Felt>,
    /// Every storage key this frame read or wrote; membership is what
    /// matters, so duplicates are harmless.
    pub accessed_keys: Vec<Felt>,
    pub support_reverted: bool,
    pub entry_point_selector: Felt,
    pub selector_table: SelectorTable,
    pub block_context: BlockContext,
    pub resources_manager: ExecutionResourcesManager,
    /// The set of storage keys this frame has read or written, kept only in
    /// the proof: `accessed_keys` must always cover it.
    pub touched_keys: Ghost<Set<int>>,
}

impl SyscallHandler {
    /// The per-frame configuration, which no syscall changes.
    pub open spec fn config(self) -> (ContractAddress, ContractAddress, bool, Felt, SelectorTable,
        BlockContext) {
        (
            self.contract_address,
            self.caller_address,
            self.support_reverted,
            self.entry_point_selector,
            self.selector_table,
            self.block_context,
        )
    }

    /// Every key read or written is recorded as accessed.
    pub open spec fn accessed_covers(self) -> bool {
        self.touched_keys@ <= felt_set(self.accessed_keys@)
    }

    pub open spec fn wf(self) -> bool {
        &&& self.selector_table.wf()
        &&& self.resources_manager.wf()
        &&& self.contract_address.wf()
        &&& self.caller_address.wf()
        &&& self.entry_point_selector.wf()
        &&& block_context_wf(self.block_context)
        &&& felts_wf(self.read_values@)
        &&& felts_wf(self.accessed_keys@)
    }

    /// A fresh handler for an entry point that begins executing.
    pub fn new(
        caller_address: ContractAddress,
        contract_address: ContractAddress,
        block_context: BlockContext,
        syscall_ptr: Relocatable,
        support_reverted: bool,
        entry_point_selector: Felt,
    ) -> (r: SyscallHandler)
        requires
            contract_address.wf(),
            caller_address.wf(),
            entry_point_selector.wf(),
            block_context_wf(block_context),
        ensures
            r.wf(),
            r.events@ =~= Seq::<OrderedEvent>::empty(),
            r.l2_to_l1_messages@ =~= Seq::<OrderedL2ToL1Message>::empty(),
            r.internal_calls@ =~= Seq::<CallInfo>::empty(),
            r.read_only_segments@ =~= Seq::<(Relocatable, MaybeRelocatable)>::empty(),
            r.read_values@ =~= Seq::<Felt>::empty(),
            r.accessed_keys@ =~= Seq::<Felt>::empty(),
            r.expected_syscall_ptr == syscall_ptr,
            r.contract_address == contract_address,
            r.caller_address == caller_address,
            r.support_reverted == support_reverted,
            r.entry_point_selector == entry_point_selector,
            r.block_context == block_context,
            r.touched_keys@ =~= Set::<int>::empty(),
            r.accessed_covers(),
    {
        SyscallHandler {
            events: Vec::new(),
            l2_to_l1_messages: Vec::new(),
            internal_calls: Vec::new(),
            read_only_segments: Vec::new(),
            expected_syscall_ptr: syscall_ptr,
            contract_address,
            caller_address,
            read_values: Vec::new(),
            accessed_keys: Vec::new(),
            support_reverted,
            entry_point_selector,
            selector_table: SelectorTable::new(),
            block_context,
            resources_manager: ExecutionResourcesManager::new_default(),
            touched_keys: Ghost(Set::empty()),
        }
    }

    /// A handler over default contexts, for exercising single syscalls.
    pub fn new_for_testing(block_info: BlockInfo, syscall_ptr: Relocatable) -> (r: SyscallHandler)
        requires
            block_info.sequencer_address.wf(),
        ensures
            r.wf(),
            r.events@ =~= Seq::<OrderedEvent>::empty(),
            r.l2_to_l1_messages@ =~= Seq::<OrderedL2ToL1Message>::empty(),
            r.internal_calls@ =~= Seq::<CallInfo>::empty(),
            r.read_only_segments@ =~= Seq::<(Relocatable, MaybeRelocatable)>::empty(),
            r.read_values@ =~= Seq::<Felt>::empty(),
            r.accessed_keys@ =~= Seq::<Felt>::empty(),
            r.expected_syscall_ptr == syscall_ptr,
            r.contract_address@ == 1,
            r.caller_address@ == 0,
            !r.support_reverted,
            r.entry_point_selector@ == 333,
            r.block_context.block_info == block_info,
            r.touched_keys@ =~= Set::<int>::empty(),
            r.accessed_covers(),
    {
        let mut block_context = BlockContext::new_default();
        block_context.block_info = block_info;
        SyscallHandler::new(
            ContractAddress::zero(),
            ContractAddress(Felt::one()),
            block_context,
            syscall_ptr,
            false,
            Felt::from_u64(333),
        )
    }

    /// Allocates a fresh memory segment holding `data` and records it as
    /// read-only, to be validated after the run.  Returns the segment start.
    pub fn allocate_segment(&mut self, memory: &mut VmMemory, data: Vec<MaybeRelocatable>) -> (r:
        Result<Relocatable, SyscallHandlerError>)
        requires
            old(memory).wf(),
            cells_wf(data@),
        ensures
            final(memory).wf(),
            r is Ok,
            ({
                let start = r->Ok_0;
                &&& start.segment_index == old(memory).n_segments()
                &&& start.offset == 0
                &&& final(memory).seqs() =~= old(memory).seqs().push(data@)
                &&& final(self).read_only_segments@ == old(self).read_only_segments@.push(
                    (start, MaybeRelocatable::Int(Felt { l3: 0, l2: 0, l1: 0, l0: data@.len() as u64 })),
                )
                &&& old(self).read_only_segments@.is_prefix_of(final(self).read_only_segments@)
            }),
            final(self).events == old(self).events,
            final(self).l2_to_l1_messages == old(self).l2_to_l1_messages,
            final(self).internal_calls == old(self).internal_calls,
            final(self).read_values == old(self).read_values,
            final(self).accessed_keys == old(self).accessed_keys,
            final(self).expected_syscall_ptr == old(self).expected_syscall_ptr,
            final(self).resources_manager == old(self).resources_manager,
            final(self).touched_keys == old(self).touched_keys,
            final(self).config() == old(self).config(),
    {
        let segment_start = memory.add_segment();
        let n = data.len();
        proof {
            assert(memory.used(segment_start.segment_index as int) == 0);
        }
        let segment_end = match memory.write_data(segment_start, &data) {
            Ok(e) => e,
            Err(_) => {
                proof {
                    assert(false);
                }
                return Err(SyscallHandlerError::Memory(
                    crate::errors::MemoryError::OffsetOverflow,
                ));
            },
        };
        let size_felt = Felt::from_u64(n as u64);
        self.read_only_segments.push((segment_start, MaybeRelocatable::Int(size_felt)));
        proof {
            assert(final(memory).seqs() =~= old(memory).seqs().push(data@));
            assert(old(self).read_only_segments@ =~= self.read_only_segments@.subrange(
                0,
                old(self).read_only_segments@.len() as int,
            ));
        }
        Ok(segment_start)
    }

    /// Builds the shared failure body: a one-cell read-only segment holding
    /// the felt-encoded error message.
    pub fn failure_from_error_msg(&mut self, memory: &mut VmMemory, error_msg: Felt) -> (r: Result<
        ResponseBody,
        SyscallHandlerError,
    >)
        requires
            old(memory).wf(),
            error_msg.wf(),
        ensures
            final(memory).wf(),
            r is Ok,
            ({
                let start = rel(old(memory).n_segments() as usize, 0);
                &&& r->Ok_0 == (ResponseBody::Failure {
                    retdata_start: start,
                    retdata_end: rel(start.segment_index, 1),
                })
                &&& final(memory).seqs() =~= old(memory).seqs().push(
                    seq![MaybeRelocatable::Int(error_msg)],
                )
                &&& final(self).read_only_segments@ == old(self).read_only_segments@.push(
                    (start, MaybeRelocatable::Int(Felt { l3: 0, l2: 0, l1: 0, l0: 1 })),
                )
                &&& old(self).read_only_segments@.is_prefix_of(final(self).read_only_segments@)
            }),
            final(self).events == old(self).events,
            final(self).l2_to_l1_messages == old(self).l2_to_l1_messages,
            final(self).internal_calls == old(self).internal_calls,
            final(self).read_values == old(self).read_values,
            final(self).accessed_keys == old(self).accessed_keys,
            final(self).expected_syscall_ptr == old(self).expected_syscall_ptr,
            final(self).resources_manager == old(self).resources_manager,
            final(self).touched_keys == old(self).touched_keys,
            final(self).config() == old(self).config(),
    {
        let mut data: Vec<MaybeRelocatable> = Vec::new();
        data.push(MaybeRelocatable::Int(error_msg));
        proof {
            assert(data@ =~= seq![MaybeRelocatable::Int(error_msg)]);
        }
        let retdata_start = self.allocate_segment(memory, data)?;
        let retdata_end = match retdata_start.add(1) {
            Ok(p) => p,
            Err(_) => {
                proof {
                    assert(false);
                }
                return Err(SyscallHandlerError::Memory(
                    crate::errors::MemoryError::OffsetOverflow,
                ));
            },
        };
        Ok(ResponseBody::Failure { retdata_start, retdata_end })
    }

    /// Records the key as accessed and reads its value; an unset slot reads
    /// as zero, while an input/output failure of the store is propagated.
    fn _storage_read(&mut self, state: &CachedState, key: Felt) -> (r: Result<Felt, StateError>)
        requires
            key.wf(),
            state.storage_wf(),
        ensures
            r is Ok,
            ({
                let v = r->Ok_0;
                &&& v@ == state.storage_value(old(self).contract_address@, key@)
                &&& v.wf()
                &&& final(self).accessed_keys@ == old(self).accessed_keys@.push(key)
                &&& final(self).read_values@ == old(self).read_values@.push(v)
                &&& final(self).touched_keys@ == old(self).touched_keys@.insert(key@)
                &&& old(self).accessed_covers() ==> final(self).accessed_covers()
            }),
            final(self).events == old(self).events,
            final(self).l2_to_l1_messages == old(self).l2_to_l1_messages,
            final(self).internal_calls == old(self).internal_calls,
            final(self).read_only_segments == old(self).read_only_segments,
            final(self).expected_syscall_ptr == old(self).expected_syscall_ptr,
            final(self).resources_manager == old(self).resources_manager,
            final(self).config() == old(self).config(),
    {
        self.accessed_keys.push(key);
        proof {
            self.touched_keys@ = self.touched_keys@.insert(key@);
            lemma_felt_set_push(old(self).accessed_keys@, key);
        }
        let value = match state.get_storage_at(&self.contract_address, &key) {
            Ok(v) => v,
            Err(e) => match e {
                StateError::Io(m) => {
                    return Err(StateError::Io(m));
                },
                _ => Felt::zero(),
            },
        };
        self.read_values.push(value);
        Ok(value)
    }

    /// Writes the value through to the state and records the key.
    fn syscall_storage_write(&mut self, state: &mut CachedState, key: Felt, value: Felt)
        requires
            key.wf(),
        ensures
            final(self).accessed_keys@ == old(self).accessed_keys@.push(key),
            final(self).touched_keys@ == old(self).touched_keys@.insert(key@),
            old(self).accessed_covers() ==> final(self).accessed_covers(),
            final(state).storage_writes@ == old(state).storage_writes@.insert(
                (old(self).contract_address@, key@),
                value,
            ),
            final(state).state_reader == old(state).state_reader,
            final(state).contract_classes == old(state).contract_classes,
            final(state).class_hash_writes == old(state).class_hash_writes,
            final(state).nonce_writes == old(state).nonce_writes,
            final(self).events == old(self).events,
            final(self).l2_to_l1_messages == old(self).l2_to_l1_messages,
            final(self).internal_calls == old(self).internal_calls,
            final(self).read_only_segments == old(self).read_only_segments,
            final(self).read_values == old(self).read_values,
            final(self).expected_syscall_ptr == old(self).expected_syscall_ptr,
            final(self).resources_manager == old(self).resources_manager,
            final(self).config() == old(self).config(),
    {
        self.accessed_keys.push(key);
        proof {
            self.touched_keys@ = self.touched_keys@.insert(key@);
            lemma_felt_set_push(old(self).accessed_keys@, key);
        }
        let addr = self.contract_address;
        state.set_storage_at(&addr, &key, value);
    }

    /// Reads a storage slot.  A nonzero reserved domain is a guest-visible
    /// failure; an unset slot reads as zero; the read value and the key are
    /// recorded.
    #[verifier::rlimit(100)]
    pub fn storage_read(
        &mut self,
        state: &CachedState,
        memory: &mut VmMemory,
        request: StorageReadRequest,
        remaining_gas: u128,
    ) -> (r: Result<SyscallResponse, SyscallHandlerError>)
        requires
            old(memory).wf(),
            request.reserved.wf(),
            request.key.wf(),
            state.storage_wf(),
        ensures
            final(memory).wf(),
            final(self).events == old(self).events,
            final(self).l2_to_l1_messages == old(self).l2_to_l1_messages,
            final(self).internal_calls == old(self).internal_calls,
            final(self).expected_syscall_ptr == old(self).expected_syscall_ptr,
            final(self).resources_manager == old(self).resources_manager,
            final(self).config() == old(self).config(),
            old(self).accessed_covers() ==> final(self).accessed_covers(),
            r is Ok,
            match r {
                Ok(resp) => {
                    &&& resp.gas == remaining_gas
                    &&& resp.wf()
                    &&& if request.reserved@ != 0 {
                        &&& resp.body == Some(
                            ResponseBody::Failure {
                                retdata_start: rel(old(memory).n_segments() as usize, 0),
                                retdata_end: rel(old(memory).n_segments() as usize, 1),
                            },
                        )
                        &&& final(memory).seqs() =~= old(memory).seqs().push(
                            seq![
                                MaybeRelocatable::Int(
                                    Felt {
                                        l3: 21870,
                                        l2: 8319679514845279333,
                                        l1: 7214873686857377139,
                                        l0: 8295740943355701614,
                                    },
                                ),
                            ],
                        )
                        &&& final(self).read_values == old(self).read_values
                        &&& final(self).accessed_keys == old(self).accessed_keys
                        &&& final(self).read_only_segments@ == old(self).read_only_segments@.push(
                            (
                                rel(old(memory).n_segments() as usize, 0),
                                MaybeRelocatable::Int(Felt { l3: 0, l2: 0, l1: 0, l0: 1 }),
                            ),
                        )
                    } else {
                        &&& resp.body matches Some(ResponseBody::StorageReadResponse { value })
                            && value@ == state.storage_value(old(self).contract_address@, request.key@)
                        &&& final(self).read_values@ == old(self).read_values@.push(
                            resp.body->Some_0->StorageReadResponse_value,
                        )
                        &&& final(self).accessed_keys@ == old(self).accessed_keys@.push(request.key)
                        &&& final(memory).seqs() == old(memory).seqs()
                        &&& final(self).read_only_segments == old(self).read_only_segments
                    }
                },
                Err(_) => false,
            },
    {
        if !request.reserved.is_zero() {
            let msg = unsupported_domain_felt();
            let body = self.failure_from_error_msg(memory, msg)?;
            return Ok(SyscallResponse { gas: remaining_gas, body: Some(body) });
        }
        let value = match self._storage_read(state, request.key) {
            Ok(v) => v,
            Err(e) => {
                return Err(SyscallHandlerError::State(e));
            },
        };
        Ok(
            SyscallResponse {
                gas: remaining_gas,
                body: Some(ResponseBody::StorageReadResponse { value }),
            },
        )
    }

    /// Writes a storage slot.  A nonzero reserved domain is a guest-visible
    /// failure; otherwise the write goes through and the key is recorded.
    #[verifier::rlimit(50)]
    pub fn storage_write(
        &mut self,
        state: &mut CachedState,
        memory: &mut VmMemory,
        request: StorageWriteRequest,
        remaining_gas: u128,
    ) -> (r: Result<SyscallResponse, SyscallHandlerError>)
        requires
            old(memory).wf(),
            request.reserved.wf(),
            request.key.wf(),
            request.value.wf(),
        ensures
            old(state).storage_wf() ==> final(state).storage_wf(),
            final(memory).wf(),
            r is Ok,
            final(self).events == old(self).events,
            final(self).l2_to_l1_messages == old(self).l2_to_l1_messages,
            final(self).internal_calls == old(self).internal_calls,
            final(self).expected_syscall_ptr == old(self).expected_syscall_ptr,
            final(self).resources_manager == old(self).resources_manager,
            final(self).read_values == old(self).read_values,
            final(self).config() == old(self).config(),
            old(self).accessed_covers() ==> final(self).accessed_covers(),
            ({
                let resp = r->Ok_0;
                &&& resp.gas == remaining_gas
                &&& resp.wf()
                &&& if request.reserved@ != 0 {
                    &&& resp.body == Some(
                        ResponseBody::Failure {
                            retdata_start: rel(old(memory).n_segments() as usize, 0),
                            retdata_end: rel(old(memory).n_segments() as usize, 1),
                        },
                    )
                    &&& final(memory).seqs() =~= old(memory).seqs().push(
                        seq![
                            MaybeRelocatable::Int(
                                Felt {
                                    l3: 21870,
                                    l2: 8319679514845279333,
                                    l1: 7214873686857377139,
                                    l0: 8295740943355701614,
                                },
                            ),
                        ],
                    )
                    &&& *final(state) == *old(state)
                    &&& final(self).accessed_keys == old(self).accessed_keys
                    &&& final(self).read_only_segments@ == old(self).read_only_segments@.push(
                        (
                            rel(old(memory).n_segments() as usize, 0),
                            MaybeRelocatable::Int(Felt { l3: 0, l2: 0, l1: 0, l0: 1 }),
                        ),
                    )
                } else {
                    &&& resp.body is None
                    &&& final(state).storage_writes@ == old(state).storage_writes@.insert(
                        (old(self).contract_address@, request.key@),
                        request.value,
                    )
                    &&& final(state).state_reader == old(state).state_reader
                    &&& final(state).contract_classes == old(state).contract_classes
                    &&& final(state).class_hash_writes == old(state).class_hash_writes
                    &&& final(state).nonce_writes == old(state).nonce_writes
                    &&& final(self).accessed_keys@ == old(self).accessed_keys@.push(request.key)
                    &&& final(memory).seqs() == old(memory).seqs()
                    &&& final(self).read_only_segments == old(self).read_only_segments
                }
            }),
    {
        if !request.reserved.is_zero() {
            let msg = unsupported_domain_felt();
            let body = self.failure_from_error_msg(memory, msg)?;
            return Ok(SyscallResponse { gas: remaining_gas, body: Some(body) });
        }
        self.syscall_storage_write(state, request.key, request.value);
        Ok(SyscallResponse { gas: remaining_gas, body: None })
    }

    /// Reads the key and data ranges and pushes an ordered event, stamped
    /// with the transaction's event counter, which is then incremented.
    pub fn emit_event(
        &mut self,
        tx: &mut TransactionExecutionContext,
        memory: &VmMemory,
        request: EmitEventRequest,
        remaining_gas: u128,
    ) -> (r: Result<SyscallResponse, SyscallHandlerError>)
        requires
            memory.wf(),
            old(tx).n_emitted_events < u64::MAX,
        ensures
            final(self).l2_to_l1_messages == old(self).l2_to_l1_messages,
            final(self).internal_calls == old(self).internal_calls,
            final(self).read_only_segments == old(self).read_only_segments,
            final(self).read_values == old(self).read_values,
            final(self).accessed_keys == old(self).accessed_keys,
            final(self).expected_syscall_ptr == old(self).expected_syscall_ptr,
            final(self).resources_manager == old(self).resources_manager,
            final(self).touched_keys == old(self).touched_keys,
            final(self).config() == old(self).config(),
            memory.felt_range_ok(request.keys_start, request.keys_end) && memory.felt_range_ok(
                request.data_start,
                request.data_end,
            ) ==> r is Ok,
            match r {
                Ok(resp) => {
                    &&& resp.gas == remaining_gas
                    &&& resp.body is None
                    &&& resp.wf()
                    &&& memory.felt_range_ok(request.keys_start, request.keys_end)
                    &&& memory.felt_range_ok(request.data_start, request.data_end)
                    &&& final(self).events@.len() == old(self).events@.len() + 1
                    &&& final(self).events@.drop_last() == old(self).events@
                    &&& ({
                        let ev = final(self).events@.last();
                        &&& ev.order == old(tx).n_emitted_events
                        &&& ev.keys@.len() == request.keys_end.offset - request.keys_start.offset
                        &&& forall|i: int|
                            0 <= i < ev.keys@.len() ==> (#[trigger] ev.keys@[i])@ == memory.felt_in(
                                request.keys_start.segment_index,
                                request.keys_start.offset + i,
                            )
                        &&& ev.data@.len() == request.data_end.offset - request.data_start.offset
                        &&& forall|i: int|
                            0 <= i < ev.data@.len() ==> (#[trigger] ev.data@[i])@ == memory.felt_in(
                                request.data_start.segment_index,
                                request.data_start.offset + i,
                            )
                    })
                    &&& *final(tx) == (TransactionExecutionContext {
                        n_emitted_events: (old(tx).n_emitted_events + 1) as u64,
                        ..*old(tx)
                    })
                },
                Err(e) => {
                    &&& !(memory.felt_range_ok(request.keys_start, request.keys_end)
                        && memory.felt_range_ok(request.data_start, request.data_end))
                    &&& final(self).events == old(self).events
                    &&& *final(tx) == *old(tx)
                    &&& e is Memory
                },
            },
    {
        let order = tx.n_emitted_events;
        let keys = match memory.get_felt_range(request.keys_start, request.keys_end) {
            Ok(v) => v,
            Err(e) => {
                return Err(SyscallHandlerError::Memory(e));
            },
        };
        let data = match memory.get_felt_range(request.data_start, request.data_end) {
            Ok(v) => v,
            Err(e) => {
                return Err(SyscallHandlerError::Memory(e));
            },
        };
        self.events.push(OrderedEvent { order, keys, data });
        tx.n_emitted_events = tx.n_emitted_events + 1;
        proof {
            assert(self.events@.drop_last() =~= old(self).events@);
        }
        Ok(SyscallResponse { gas: remaining_gas, body: None })
    }

    /// Reads the payload range and pushes an ordered message, stamped with
    /// the transaction's message counter, which is then incremented.
    pub fn send_message_to_l1(
        &mut self,
        tx: &mut TransactionExecutionContext,
        memory: &VmMemory,
        request: SendMessageToL1Request,
        remaining_gas: u128,
    ) -> (r: Result<SyscallResponse, SyscallHandlerError>)
        requires
            memory.wf(),
            old(tx).n_sent_messages < u64::MAX,
        ensures
            final(self).events == old(self).events,
            final(self).internal_calls == old(self).internal_calls,
            final(self).read_only_segments == old(self).read_only_segments,
            final(self).read_values == old(self).read_values,
            final(self).accessed_keys == old(self).accessed_keys,
            final(self).expected_syscall_ptr == old(self).expected_syscall_ptr,
            final(self).resources_manager == old(self).resources_manager,
            final(self).touched_keys == old(self).touched_keys,
            final(self).config() == old(self).config(),
            memory.felt_range_ok(request.payload_start, request.payload_end) ==> r is Ok,
            match r {
                Ok(resp) => {
                    &&& resp.gas == remaining_gas
                    &&& resp.body is None
                    &&& resp.wf()
                    &&& memory.felt_range_ok(request.payload_start, request.payload_end)
                    &&& final(self).l2_to_l1_messages@.len() == old(self).l2_to_l1_messages@.len()
                        + 1
                    &&& final(self).l2_to_l1_messages@.drop_last() == old(self).l2_to_l1_messages@
                    &&& ({
                        let msg = final(self).l2_to_l1_messages@.last();
                        &&& msg.order == old(tx).n_sent_messages
                        &&& msg.to_address == (ContractAddress(request.to_address))
                        &&& msg.payload@.len() == request.payload_end.offset
                            - request.payload_start.offset
                        &&& forall|i: int|
                            0 <= i < msg.payload@.len() ==> (#[trigger] msg.payload@[i])@
                                == memory.felt_in(
                                request.payload_start.segment_index,
                                request.payload_start.offset + i,
                            )
                    })
                    &&& *final(tx) == (TransactionExecutionContext {
                        n_sent_messages: (old(tx).n_sent_messages + 1) as u64,
                        ..*old(tx)
                    })
                },
                Err(e) => {
                    &&& !memory.felt_range_ok(request.payload_start, request.payload_end)
                    &&& final(self).l2_to_l1_messages == old(self).l2_to_l1_messages
                    &&& *final(tx) == *old(tx)
                    &&& e is Memory
                },
            },
    {
        let payload = match memory.get_felt_range(request.payload_start, request.payload_end) {
            Ok(v) => v,
            Err(e) => {
                return Err(SyscallHandlerError::Memory(e));
            },
        };
        self.l2_to_l1_messages.push(
            OrderedL2ToL1Message {
                order: tx.n_sent_messages,
                to_address: ContractAddress(request.to_address),
                payload,
            },
        );
        tx.n_sent_messages = tx.n_sent_messages + 1;
        proof {
            assert(self.l2_to_l1_messages@.drop_last() =~= old(self).l2_to_l1_messages@);
        }
        Ok(SyscallResponse { gas: remaining_gas, body: None })
    }

    /// Returns the current block number.
    pub fn get_block_number(&mut self, remaining_gas: u128) -> (r: Result<
        SyscallResponse,
        SyscallHandlerError,
    >)
        ensures
            *final(self) == *old(self),
            r is Ok,
            r->Ok_0 == (SyscallResponse {
                gas: remaining_gas,
                body: Some(
                    ResponseBody::GetBlockNumber {
                        number: Felt {
                            l3: 0,
                            l2: 0,
                            l1: 0,
                            l0: old(self).block_context.block_info.block_number,
                        },
                    },
                ),
            }),
            r->Ok_0.wf(),
    {
        Ok(
            SyscallResponse {
                gas: remaining_gas,
                body: Some(
                    ResponseBody::GetBlockNumber {
                        number: Felt::from_u64(self.block_context.block_info.block_number),
                    },
                ),
            },
        )
    }

    /// Returns the current block timestamp.
    pub fn get_block_timestamp(&mut self, remaining_gas: u128) -> (r: Result<
        SyscallResponse,
        SyscallHandlerError,
    >)
        ensures
            *final(self) == *old(self),
            r is Ok,
            r->Ok_0 == (SyscallResponse {
                gas: remaining_gas,
                body: Some(
                    ResponseBody::GetBlockTimestamp {
                        timestamp: Felt {
                            l3: 0,
                            l2: 0,
                            l1: 0,
                            l0: old(self).block_context.block_info.block_timestamp,
                        },
                    },
                ),
            }),
            r->Ok_0.wf(),
    {
        Ok(
            SyscallResponse {
                gas: remaining_gas,
                body: Some(
                    ResponseBody::GetBlockTimestamp {
                        timestamp: Felt::from_u64(self.block_context.block_info.block_timestamp),
                    },
                ),
            },
        )
    }

    /// Installs a new class hash for this contract address, changing its
    /// code for all later calls in this transaction.
    pub fn replace_class(
        &mut self,
        state: &mut CachedState,
        request: ReplaceClassRequest,
        remaining_gas: u128,
    ) -> (r: Result<SyscallResponse, SyscallHandlerError>)
        requires
            request.class_hash.wf(),
        ensures
            *final(self) == *old(self),
            r is Ok,
            r->Ok_0 == (SyscallResponse { gas: remaining_gas, body: None }),
            r->Ok_0.wf(),
            final(state).class_hash_writes@ == old(state).class_hash_writes@.insert(
                old(self).contract_address@,
                ClassHash(request.class_hash),
            ),
            final(state).state_reader == old(state).state_reader,
            final(state).contract_classes == old(state).contract_classes,
            final(state).storage_writes == old(state).storage_writes,
            final(state).nonce_writes == old(state).nonce_writes,
    {
        let addr = self.contract_address;
        let res = state.set_class_hash_at(addr, ClassHash(request.class_hash));
        match res {
            Ok(_) => Ok(SyscallResponse { gas: remaining_gas, body: None }),
            Err(e) => Err(SyscallHandlerError::State(e)),
        }
    }

    /// Returns the hash of an old enough block: blocks younger than ten
    /// blocks are refused with a guest-visible failure; the hash is read
    /// from the well-known block-hash contract, an unset entry as zero.
    pub fn get_block_hash(
        &mut self,
        state: &CachedState,
        memory: &mut VmMemory,
        request: GetBlockHashRequest,
        remaining_gas: u128,
    ) -> (r: Result<SyscallResponse, SyscallHandlerError>)
        requires
            old(memory).wf(),
            state.storage_wf(),
            // Near genesis the age window underflows; such blocks are left
            // out rather than given a guessed meaning.
            old(self).block_context.block_info.block_number >= 10,
        ensures
            final(memory).wf(),
            final(self).events == old(self).events,
            final(self).l2_to_l1_messages == old(self).l2_to_l1_messages,
            final(self).internal_calls == old(self).internal_calls,
            final(self).read_values == old(self).read_values,
            final(self).accessed_keys == old(self).accessed_keys,
            final(self).expected_syscall_ptr == old(self).expected_syscall_ptr,
            final(self).resources_manager == old(self).resources_manager,
            final(self).touched_keys == old(self).touched_keys,
            final(self).config() == old(self).config(),
            r is Ok,
            ({
                let resp = r->Ok_0;
                &&& resp.gas == remaining_gas
                &&& resp.wf()
                &&& if request.block_number > old(self).block_context.block_info.block_number - 10 {
                    &&& resp.body == Some(
                        ResponseBody::Failure {
                            retdata_start: rel(old(memory).n_segments() as usize, 0),
                            retdata_end: rel(old(memory).n_segments() as usize, 1),
                        },
                    )
                    &&& final(memory).seqs() =~= old(memory).seqs().push(
                        seq![
                            MaybeRelocatable::Int(
                                Felt {
                                    l3: 66,
                                    l2: 7813573190267860333,
                                    l1: 7090198671999202336,
                                    l0: 8027139061467473765,
                                },
                            ),
                        ],
                    )
                    &&& final(self).read_only_segments@ == old(self).read_only_segments@.push(
                        (
                            rel(old(memory).n_segments() as usize, 0),
                            MaybeRelocatable::Int(Felt { l3: 0, l2: 0, l1: 0, l0: 1 }),
                        ),
                    )
                } else {
                    &&& resp.body matches Some(ResponseBody::GetBlockHash { block_hash })
                        && block_hash@ == state.storage_value(1, request.block_number as int)
                    &&& final(memory).seqs() == old(memory).seqs()
                    &&& final(self).read_only_segments == old(self).read_only_segments
                }
            }),
    {
        let block_number = request.block_number;
        let current_block_number = self.block_context.block_info.block_number;
        if block_number > current_block_number - 10 {
            let msg = block_out_of_range_felt();
            let body = self.failure_from_error_msg(memory, msg)?;
            return Ok(SyscallResponse { gas: remaining_gas, body: Some(body) });
        }
        let block_hash = if block_number < V_0_12_0_FIRST_BLOCK {
            Felt::zero()
        } else {
            let addr = block_hash_contract_address();
            let key = Felt::from_u64(block_number);
            match state.get_storage_at(&addr, &key) {
                Ok(v) => v,
                Err(_) => Felt::zero(),
            }
        };
        Ok(
            SyscallResponse {
                gas: remaining_gas,
                body: Some(ResponseBody::GetBlockHash { block_hash }),
            },
        )
    }
}

/// A cell that is missing, holds a pointer, or holds a felt of 64 bits or
/// more refutes `keccak_cells_ok` for any count beyond it.
pub proof fn lemma_keccak_cells_witness(m: VmMemory, seg: usize, off: int, bad: int, count: int)
    requires
        bad < count,
        0 <= bad,
        !(m.has_felt_in(seg, off + bad) && m.felt_in(seg, off + bad) < p64()),
    ensures
        !keccak_cells_ok(m, seg, off, count),
{
    if keccak_cells_ok(m, seg, off, count) {
        assert(m.has_felt_in(seg, off + bad) && m.felt_in(seg, off + bad) < p64());
    }
}

/// Pushing a felt onto a sequence adds exactly its value to the felt set.
pub proof fn lemma_felt_set_push(s: Seq<Felt>, f: Felt)
    ensures
        felt_set(s.push(f)) =~= felt_set(s).insert(f@),
{
    assert forall|v: int| felt_set(s.push(f)).contains(v) implies felt_set(s).insert(f@).contains(
        v,
    ) by {
        let i = choose|i: int| 0 <= i < s.push(f).len() && (#[trigger] s.push(f)[i])@ == v;
        if i < s.len() {
            assert(s[i]@ == v);
        }
    }
    assert forall|v: int| felt_set(s).insert(f@).contains(v) implies felt_set(s.push(f)).contains(
        v,
    ) by {
        if v == f@ {
            assert(s.push(f)[s.len() as int]@ == v);
        } else {
            let i = choose|i: int| 0 <= i < s.len() && (#[trigger] s[i])@ == v;
            assert(s.push(f)[i]@ == v);
        }
    }
}

} // verus!

verus! {

use crate::felt::p64;
use crate::felt::p128;
use crate::codec::KeccakRequest;
use crate::keccak_hash::keccak_f1600_of;

/// The cells `get_execution_info` lays out in its fresh segment `seg`: the
/// signature, the transaction record, the block record, and the outer record
/// that points at both.
pub open spec fn exec_info_cells(
    tx: TransactionExecutionContext,
    block: BlockInfo,
    chain_id: Felt,
    caller: ContractAddress,
    contract: ContractAddress,
    selector: Felt,
    seg: usize,
) -> Seq<MaybeRelocatable> {
    let nsig = tx.signature@.len() as int;
    felt_cells(tx.signature@) + seq![
        MaybeRelocatable::Int(tx.version),
        MaybeRelocatable::Int(tx.account_contract_address.0),
        MaybeRelocatable::Int(Felt::spec_of_u128(tx.max_fee)),
        MaybeRelocatable::Ptr(rel(seg, 0)),
        MaybeRelocatable::Ptr(rel(seg, nsig)),
        MaybeRelocatable::Int(tx.transaction_hash),
        MaybeRelocatable::Int(chain_id),
        MaybeRelocatable::Int(tx.nonce),
        MaybeRelocatable::Int(Felt { l3: 0, l2: 0, l1: 0, l0: block.block_number }),
        MaybeRelocatable::Int(Felt { l3: 0, l2: 0, l1: 0, l0: block.block_timestamp }),
        MaybeRelocatable::Int(block.sequencer_address.0),
        MaybeRelocatable::Ptr(rel(seg, nsig + 8)),
        MaybeRelocatable::Ptr(rel(seg, nsig)),
        MaybeRelocatable::Int(caller.0),
        MaybeRelocatable::Int(contract.0),
        MaybeRelocatable::Int(selector),
    ]
}

/// The all-zero sponge state.
pub open spec fn keccak_zero_state() -> Seq<u64> {
    Seq::new(25, |i: int| 0u64)
}

/// One seventeen-felt chunk at `off` XORed into the first seventeen lanes.
pub open spec fn keccak_xor_chunk(state: Seq<u64>, m: VmMemory, seg: usize, off: int) -> Seq<u64> {
    Seq::new(
        25,
        |j: int|
            if 0 <= j < 17 {
                state[j] ^ (m.felt_in(seg, off + j) as u64)
            } else {
                state[j]
            },
    )
}

/// The sponge state after absorbing `k` chunks read from memory at `off`.
pub open spec fn keccak_state_after(m: VmMemory, seg: usize, off: int, k: int) -> Seq<u64>
    decreases k,
{
    if k <= 0 {
        keccak_zero_state()
    } else {
        keccak_f1600_of(
            keccak_xor_chunk(keccak_state_after(m, seg, off, k - 1), m, seg, off + 17 * (k - 1)),
        )
    }
}

/// The first `count` cells at `off` are felts that fit 64 bits.
pub open spec fn keccak_cells_ok(m: VmMemory, seg: usize, off: int, count: int) -> bool {
    forall|j: int|
        0 <= j < count ==> #[trigger] m.has_felt_in(seg, off + j) && m.felt_in(seg, off + j) < p64()
}

/// A block of felt cells that are all small extends by one more such cell.
pub proof fn lemma_keccak_cells_extend(m: VmMemory, seg: usize, off: int, n: int)
    requires
        keccak_cells_ok(m, seg, off, n),
        m.has_felt_in(seg, off + n),
        m.felt_in(seg, off + n) < p64(),
        n >= 0,
    ensures
        keccak_cells_ok(m, seg, off, n + 1),
{
    assert forall|j: int| 0 <= j < n + 1 implies #[trigger] m.has_felt_in(seg, off + j)
        && m.felt_in(seg, off + j) < p64() by {
        if j < n {
            assert(m.has_felt_in(seg, off + j) && m.felt_in(seg, off + j) < p64());
        }
    }
}

/// The gas cost of one keccak permutation round.
pub const KECCAK_ROUND_COST: u128 = 180000;

/// The number of rounds the keccak syscall completes: every chunk when gas
/// allows, else as many as the gas funds.
pub open spec fn keccak_rounds(n_chunks: int, gas: int) -> int {
    if n_chunks <= gas / (KECCAK_ROUND_COST as int) {
        n_chunks
    } else {
        gas / (KECCAK_ROUND_COST as int)
    }
}

/// Every recorded read-only segment starts a segment of the memory and its
/// recorded size is the felt of that segment's used size.
pub open spec fn read_only_segments_consistent(
    segs: Seq<(Relocatable, MaybeRelocatable)>,
    m: VmMemory,
) -> bool {
    forall|i: int|
        0 <= i < segs.len() ==> {
            let (p, sz) = #[trigger] segs[i];
            &&& p.segment_index < m.n_segments()
            &&& p.offset == 0
            &&& sz matches MaybeRelocatable::Int(f) && f@ == m.used(p.segment_index as int)
        }
}

/// The first `len` accessed flags of segment `s` are set.
pub open spec fn range_accessed(m: VmMemory, s: usize, len: int) -> bool {
    forall|o: int| 0 <= o < len ==> #[trigger] m.acc()[s as int][o] == true
}

impl SyscallHandler {
    /// Lays the execution context out in a fresh segment and returns a
    /// pointer to the outer record.  The segment is not registered as
    /// read-only, mirroring the protocol's layout duties.
    pub fn get_execution_info(
        &self,
        tx: &TransactionExecutionContext,
        memory: &mut VmMemory,
        remaining_gas: u128,
    ) -> (r: Result<SyscallResponse, SyscallHandlerError>)
        requires
            old(memory).wf(),
            tx_context_wf(*tx),
            self.wf(),
            tx.signature@.len() + 16 <= usize::MAX,
        ensures
            final(memory).wf(),
            r is Ok,
            ({
                let seg = old(memory).n_segments() as usize;
                let nsig = tx.signature@.len() as int;
                &&& r->Ok_0 == (SyscallResponse {
                    gas: remaining_gas,
                    body: Some(
                        ResponseBody::GetExecutionInfo { exec_info_ptr: rel(seg, nsig + 11) },
                    ),
                })
                &&& r->Ok_0.wf()
                &&& final(memory).seqs() =~= old(memory).seqs().push(
                    exec_info_cells(
                        *tx,
                        self.block_context.block_info,
                        self.block_context.chain_id,
                        self.caller_address,
                        self.contract_address,
                        self.entry_point_selector,
                        seg,
                    ),
                )
            }),
    {
        let seg_start = memory.add_segment();
        let seg = seg_start.segment_index;
        let nsig = tx.signature.len();
        let mut cells = crate::types::copy_felts_to_cells(&tx.signature);
        cells.push(MaybeRelocatable::Int(tx.version));
        cells.push(MaybeRelocatable::Int(tx.account_contract_address.0));
        cells.push(MaybeRelocatable::Int(Felt::from_u128(tx.max_fee)));
        cells.push(MaybeRelocatable::Ptr(Relocatable { segment_index: seg, offset: 0 }));
        cells.push(MaybeRelocatable::Ptr(Relocatable { segment_index: seg, offset: nsig }));
        cells.push(MaybeRelocatable::Int(tx.transaction_hash));
        cells.push(MaybeRelocatable::Int(self.block_context.chain_id));
        cells.push(MaybeRelocatable::Int(tx.nonce));
        cells.push(MaybeRelocatable::Int(Felt::from_u64(self.block_context.block_info.block_number)));
        cells.push(
            MaybeRelocatable::Int(Felt::from_u64(self.block_context.block_info.block_timestamp)),
        );
        cells.push(MaybeRelocatable::Int(self.block_context.block_info.sequencer_address.0));
        cells.push(MaybeRelocatable::Ptr(Relocatable { segment_index: seg, offset: nsig + 8 }));
        cells.push(MaybeRelocatable::Ptr(Relocatable { segment_index: seg, offset: nsig }));
        cells.push(MaybeRelocatable::Int(self.caller_address.0));
        cells.push(MaybeRelocatable::Int(self.contract_address.0));
        cells.push(MaybeRelocatable::Int(self.entry_point_selector));
        proof {
            assert(cells@ =~= exec_info_cells(
                *tx,
                self.block_context.block_info,
                self.block_context.chain_id,
                self.caller_address,
                self.contract_address,
                self.entry_point_selector,
                seg,
            ));
            assert(cells_wf(cells@)) by {
                assert(forall|i: int|
                    0 <= i < tx.signature@.len() ==> (#[trigger] cells@[i])
                        == MaybeRelocatable::Int(tx.signature@[i]));
            }
            assert(memory.used(seg as int) == 0);
        }
        let exec_info_ptr = match memory.write_data(seg_start, &cells) {
            Ok(_) => Relocatable { segment_index: seg, offset: nsig + 11 },
            Err(_) => {
                proof {
                    assert(false);
                }
                return Err(SyscallHandlerError::Memory(
                    crate::errors::MemoryError::OffsetOverflow,
                ));
            },
        };
        proof {
            assert(final(memory).seqs() =~= old(memory).seqs().push(cells@));
        }
        Ok(
            SyscallResponse {
                gas: remaining_gas,
                body: Some(ResponseBody::GetExecutionInfo { exec_info_ptr }),
            },
        )
    }

    /// Absorbs the input range, seventeen felts per permutation round, each
    /// round debiting its gas first.  A length that is no multiple of
    /// seventeen, and a round the gas cannot fund, are guest-visible
    /// failures; a felt above 64 bits is a fatal conversion error.
    #[verifier::rlimit(100)]
    #[verifier::loop_isolation(false)]
    pub fn keccak(
        &mut self,
        memory: &mut VmMemory,
        request: KeccakRequest,
        remaining_gas: u128,
    ) -> (r: Result<SyscallResponse, SyscallHandlerError>)
        requires
            old(memory).wf(),
        ensures
            final(memory).wf(),
            final(self).events == old(self).events,
            final(self).l2_to_l1_messages == old(self).l2_to_l1_messages,
            final(self).internal_calls == old(self).internal_calls,
            final(self).read_values == old(self).read_values,
            final(self).accessed_keys == old(self).accessed_keys,
            final(self).expected_syscall_ptr == old(self).expected_syscall_ptr,
            final(self).resources_manager == old(self).resources_manager,
            final(self).touched_keys == old(self).touched_keys,
            final(self).config() == old(self).config(),
            ({
                let seg = request.input_start.segment_index;
                let off = request.input_start.offset as int;
                let len = request.input_end.offset - request.input_start.offset;
                let n_chunks = len / 17;
                let rounds = keccak_rounds(n_chunks, remaining_gas as int);
                &&& (request.input_end.segment_index == seg && len >= 0 && (len % 17 != 0
                    || keccak_cells_ok(*old(memory), seg, off, 17 * rounds)) ==> r is Ok)
                &&& match r {
                    Ok(resp) => {
                        &&& resp.wf()
                        &&& request.input_end.segment_index == seg
                        &&& len >= 0
                        &&& if len % 17 != 0 {
                            // Bad length: gas untouched, failure retdata.
                            &&& final(self).read_only_segments@ == old(
                                self,
                            ).read_only_segments@.push(
                                (
                                    rel(old(memory).n_segments() as usize, 0),
                                    MaybeRelocatable::Int(Felt { l3: 0, l2: 0, l1: 0, l0: 1 }),
                                ),
                            )
                            &&& resp.gas == remaining_gas
                            &&& resp.body == Some(
                                ResponseBody::Failure {
                                    retdata_start: rel(old(memory).n_segments() as usize, 0),
                                    retdata_end: rel(old(memory).n_segments() as usize, 1),
                                },
                            )
                            &&& final(memory).seqs() =~= old(memory).seqs().push(
                                seq![
                                    MaybeRelocatable::Int(
                                        Felt {
                                            l3: 73,
                                            l2: 7959656509676462187,
                                            l1: 7305792290585340270,
                                            l0: 8103510787247143525,
                                        },
                                    ),
                                ],
                            )
                        } else if rounds < n_chunks {
                            // Starved: the funded rounds ran, then failure.
                            &&& final(self).read_only_segments@ == old(
                                self,
                            ).read_only_segments@.push(
                                (
                                    rel(old(memory).n_segments() as usize, 0),
                                    MaybeRelocatable::Int(Felt { l3: 0, l2: 0, l1: 0, l0: 1 }),
                                ),
                            )
                            &&& keccak_cells_ok(*old(memory), seg, off, 17 * rounds)
                            &&& resp.gas == remaining_gas - rounds * KECCAK_ROUND_COST
                            &&& resp.body == Some(
                                ResponseBody::Failure {
                                    retdata_start: rel(old(memory).n_segments() as usize, 0),
                                    retdata_end: rel(old(memory).n_segments() as usize, 1),
                                },
                            )
                            &&& final(memory).seqs() =~= old(memory).seqs().push(
                                seq![
                                    MaybeRelocatable::Int(
                                        Felt {
                                            l3: 0,
                                            l2: 21369,
                                            l1: 8314596455354494837,
                                            l0: 8367810592075374963,
                                        },
                                    ),
                                ],
                            )
                        } else {
                            // Every chunk absorbed.
                            &&& keccak_cells_ok(*old(memory), seg, off, 17 * n_chunks)
                            &&& resp.gas == remaining_gas - n_chunks * KECCAK_ROUND_COST
                            &&& ({
                                let st = keccak_state_after(*old(memory), seg, off, n_chunks);
                                resp.body == Some(
                                    ResponseBody::Keccak {
                                        hash_low: Felt::spec_of_u128(
                                            ((st[1] as u128) * 0x1_0000_0000_0000_0000 + (
                                            st[0] as u128)) as u128,
                                        ),
                                        hash_high: Felt::spec_of_u128(
                                            ((st[3] as u128) * 0x1_0000_0000_0000_0000 + (
                                            st[2] as u128)) as u128,
                                        ),
                                    },
                                )
                            })
                            &&& final(memory).seqs() == old(memory).seqs()
                            &&& final(self).read_only_segments == old(self).read_only_segments
                        }
                    },
                    Err(e) => {
                        &&& (e is Memory || e is Conversion)
                        &&& final(memory).seqs() == old(memory).seqs()
                        &&& final(self).read_only_segments == old(self).read_only_segments
                        &&& (e is Memory ==> request.input_end.segment_index != seg || len < 0
                            || exists|t: int|
                            0 <= t < 17 * rounds && !(#[trigger] old(memory).has_felt_in(
                                seg,
                                off + t,
                            )))
                        &&& (e is Conversion ==> exists|t: int|
                            0 <= t < 17 * rounds && #[trigger] old(memory).has_felt_in(seg, off + t)
                                && old(memory).felt_in(seg, off + t) >= p64())
                        &&& (request.input_end.segment_index != seg || len < 0 || (len % 17 == 0
                            && !keccak_cells_ok(*old(memory), seg, off, 17 * keccak_rounds(
                            len / 17,
                            remaining_gas as int,
                        ))))
                    },
                }
            }),
    {
        if request.input_end.segment_index != request.input_start.segment_index
            || request.input_end.offset < request.input_start.offset {
            return Err(
                SyscallHandlerError::Memory(
                    crate::errors::MemoryError::SegmentMismatch(
                        request.input_start,
                        request.input_end,
                    ),
                ),
            );
        }
        let seg = request.input_start.segment_index;
        let off = request.input_start.offset;
        let length = request.input_end.offset - request.input_start.offset;
        let mut gas = remaining_gas;
        if length % 17 != 0 {
            let msg = invalid_keccak_size_felt();
            let body = self.failure_from_error_msg(memory, msg)?;
            return Ok(SyscallResponse { gas, body: Some(body) });
        }
        let n_chunks = length / 17;
        proof {
            vstd::arithmetic::div_mod::lemma_fundamental_div_mod(length as int, 17);
        }
        let mut state: Vec<u64> = Vec::new();
        let mut z: usize = 0;
        while z < 25
            invariant
                state@ =~= Seq::new(z as nat, |i: int| 0u64),
                z <= 25,
            decreases 25 - z,
        {
            state.push(0);
            proof {
                assert(Seq::new((z + 1) as nat, |j: int| 0u64) =~= Seq::new(
                    z as nat,
                    |j: int| 0u64,
                ).push(0u64));
            }
            z = z + 1;
        }
        let ghost m0 = *memory;
        let mut i: usize = 0;
        while i < n_chunks
            invariant
                *memory == m0,
                *self == *old(self),
                m0.wf(),
                0 <= i <= n_chunks,
                off + length <= usize::MAX,
                17 * n_chunks == length,
                seg == request.input_start.segment_index,
                off == request.input_start.offset,
                i <= remaining_gas as int / (KECCAK_ROUND_COST as int),
                gas == remaining_gas - i * KECCAK_ROUND_COST,
                keccak_cells_ok(m0, seg, off as int, 17 * i),
                state@.len() == 25,
                state@ == keccak_state_after(m0, seg, off as int, i as int),
            decreases n_chunks - i,
        {
            if gas < KECCAK_ROUND_COST {
                proof {
                    assert(i == keccak_rounds(n_chunks as int, remaining_gas as int)) by {
                        vstd::arithmetic::div_mod::lemma_fundamental_div_mod_converse(
                            remaining_gas as int,
                            KECCAK_ROUND_COST as int,
                            i as int,
                            remaining_gas - i * (KECCAK_ROUND_COST as int),
                        );
                    }
                }
                let msg = syscall_out_of_gas_felt();
                let body = self.failure_from_error_msg(memory, msg)?;
                return Ok(SyscallResponse { gas, body: Some(body) });
            }
            gas = gas - KECCAK_ROUND_COST;
            proof {
                assert((i + 1) <= remaining_gas as int / (KECCAK_ROUND_COST as int)) by {
                    vstd::arithmetic::div_mod::lemma_div_is_ordered(
                        (i + 1) * (KECCAK_ROUND_COST as int),
                        remaining_gas as int,
                        KECCAK_ROUND_COST as int,
                    );
                    vstd::arithmetic::div_mod::lemma_div_by_multiple(
                        i + 1,
                        KECCAK_ROUND_COST as int,
                    );
                    assert((i + 1) * (KECCAK_ROUND_COST as int) == i * (KECCAK_ROUND_COST as int)
                        + KECCAK_ROUND_COST) by (nonlinear_arith);
                }
            }
            let ghost pre_state = state@;
            let mut j: usize = 0;
            while j < 17
                invariant
                    *memory == m0,
                    m0.wf(),
                    0 <= j <= 17,
                    0 <= i < n_chunks,
                    17 * n_chunks == length,
                    off + length <= usize::MAX,
                    seg == request.input_start.segment_index,
                    state@.len() == 25,
                    forall|t: int|
                        0 <= t < 17 ==> #[trigger] state@[t] == if t < j {
                            pre_state[t] ^ (m0.felt_in(seg, off + 17 * i + t) as u64)
                        } else {
                            pre_state[t]
                        },
                    forall|t: int| 17 <= t < 25 ==> #[trigger] state@[t] == pre_state[t],
                    keccak_cells_ok(m0, seg, off as int, 17 * i + j),
                decreases 17 - j,
            {
                proof {
                    assert(17 * i + j < length) by (nonlinear_arith)
                        requires
                            i < n_chunks,
                            j < 17,
                            17 * n_chunks == length,
                    ;
                    assert(i < keccak_rounds(n_chunks as int, remaining_gas as int));
                    assert(17 * i + j < 17 * keccak_rounds(n_chunks as int, remaining_gas as int))
                        by (nonlinear_arith)
                        requires
                            i < keccak_rounds(n_chunks as int, remaining_gas as int),
                            0 <= j < 17,
                    ;
                }
                let cell_ptr = Relocatable { segment_index: seg, offset: off + 17 * i + j };
                proof {
                    assert(cell_ptr == rel(seg, off + 17 * i + j));
                }
                let f = match memory.get_felt(cell_ptr) {
                    Ok(f) => f,
                    Err(e) => {
                        proof {
                            assert(!m0.has_felt_in(seg, off + (17 * i + j)));
                            lemma_keccak_cells_witness(
                                m0,
                                seg,
                                off as int,
                                17 * i + j,
                                17 * keccak_rounds(n_chunks as int, remaining_gas as int),
                            );
                            assert(n_chunks as int == (request.input_end.offset
                                - request.input_start.offset) / 17);
                        }
                        return Err(SyscallHandlerError::Memory(e));
                    },
                };
                let v = match f.to_u64() {
                    Some(v) => v,
                    None => {
                        proof {
                            assert(m0.has_felt_in(seg, off + (17 * i + j)));
                            assert(m0.felt_in(seg, off + (17 * i + j)) >= p64());
                            lemma_keccak_cells_witness(
                                m0,
                                seg,
                                off as int,
                                17 * i + j,
                                17 * keccak_rounds(n_chunks as int, remaining_gas as int),
                            );
                            assert(n_chunks as int == (request.input_end.offset
                                - request.input_start.offset) / 17);
                        }
                        return Err(SyscallHandlerError::Conversion(f));
                    },
                };
                let old_lane = state[j];
                state.set(j, old_lane ^ v);
                proof {
                    assert(m0.has_felt_in(seg, off + (17 * i + j)));
                    assert(m0.felt_in(seg, off + (17 * i + j)) == f@);
                    lemma_keccak_cells_extend(m0, seg, off as int, 17 * i + j);
                }
                j = j + 1;
            }
            proof {
                assert(state@ =~= keccak_xor_chunk(pre_state, m0, seg, off + 17 * i));
                assert(17 * i + 17 == 17 * (i + 1));
                assert(keccak_cells_ok(m0, seg, off as int, 17 * (i + 1)));
            }
            crate::keccak_hash::f1600(&mut state);
            proof {
                assert(state@ == keccak_state_after(m0, seg, off as int, i + 1));
            }
            i = i + 1;
        }
        proof {
            assert(keccak_rounds(n_chunks as int, remaining_gas as int) == n_chunks as int);
        }
        let hash_low = Felt::from_u128(((state[1] as u128) << 64) | (state[0] as u128));
        let hash_high = Felt::from_u128(((state[3] as u128) << 64) | (state[2] as u128));
        proof {
            let s1 = state@[1];
            let s0 = state@[0];
            let s3 = state@[3];
            let s2 = state@[2];
            assert((((s1 as u128) << 64u128) | (s0 as u128)) == (s1 as u128)
                * 0x1_0000_0000_0000_0000u128 + (s0 as u128)) by (bit_vector);
            assert((((s3 as u128) << 64u128) | (s2 as u128)) == (s3 as u128)
                * 0x1_0000_0000_0000_0000u128 + (s2 as u128)) by (bit_vector);
        }
        Ok(
            SyscallResponse {
                gas,
                body: Some(ResponseBody::Keccak { hash_low, hash_high }),
            },
        )
    }

    /// Checks, after the VM halts, that the guest stopped exactly at the
    /// expected syscall pointer and never grew the handler's read-only
    /// segments; the validated ranges are marked accessed.
    pub fn post_run(&self, memory: &mut VmMemory, syscall_stop_ptr: Relocatable) -> (r: Result<
        (),
        TransactionError,
    >)
        requires
            old(memory).wf(),
        ensures
            final(memory).wf(),
            final(memory).seqs() == old(memory).seqs(),
            r is Ok <==> syscall_stop_ptr == self.expected_syscall_ptr
                && read_only_segments_consistent(self.read_only_segments@, *old(memory)),
            r is Ok ==> forall|i: int|
                0 <= i < self.read_only_segments@.len() ==> range_accessed(
                    *final(memory),
                    (#[trigger] self.read_only_segments@[i]).0.segment_index,
                    old(memory).used(self.read_only_segments@[i].0.segment_index as int),
                ),
            r matches Err(e) ==> (e is InvalidStopPointer || e is InvalidSegmentSize || e
                is NotAFelt || e is OutOfBound),
            r matches Err(TransactionError::InvalidStopPointer(e, f)) ==> e
                == self.expected_syscall_ptr && f == syscall_stop_ptr && syscall_stop_ptr
                != self.expected_syscall_ptr,
            syscall_stop_ptr != self.expected_syscall_ptr ==> (r matches Err(
                TransactionError::InvalidStopPointer(e, f),
            ) && e == self.expected_syscall_ptr && f == syscall_stop_ptr),
    {
        let expected_stop_ptr = self.expected_syscall_ptr;
        if syscall_stop_ptr.segment_index != expected_stop_ptr.segment_index
            || syscall_stop_ptr.offset != expected_stop_ptr.offset {
            return Err(TransactionError::InvalidStopPointer(expected_stop_ptr, syscall_stop_ptr));
        }
        self.validate_read_only_segments(memory)
    }

    /// Validates that no read-only segment's used size differs from the
    /// recorded size, and marks each validated range as accessed.
    #[verifier::loop_isolation(false)]
    pub fn validate_read_only_segments(&self, memory: &mut VmMemory) -> (r: Result<
        (),
        TransactionError,
    >)
        requires
            old(memory).wf(),
        ensures
            final(memory).wf(),
            final(memory).seqs() == old(memory).seqs(),
            r is Ok <==> read_only_segments_consistent(self.read_only_segments@, *old(memory)),
            r is Ok ==> forall|i: int|
                0 <= i < self.read_only_segments@.len() ==> range_accessed(
                    *final(memory),
                    (#[trigger] self.read_only_segments@[i]).0.segment_index,
                    old(memory).used(self.read_only_segments@[i].0.segment_index as int),
                ),
            r matches Err(e) ==> {
                &&& (e is InvalidSegmentSize || e is NotAFelt || e is OutOfBound)
                &&& (e is InvalidSegmentSize ==> exists|i: int|
                    0 <= i < self.read_only_segments@.len() && (#[trigger] self.read_only_segments@[i]).0.segment_index
                        >= old(memory).n_segments())
                &&& (e is NotAFelt ==> exists|i: int|
                    0 <= i < self.read_only_segments@.len() && (#[trigger] self.read_only_segments@[i]).1
                        is Ptr)
                &&& (e is OutOfBound ==> exists|i: int|
                    0 <= i < self.read_only_segments@.len() && ((#[trigger] self.read_only_segments@[i]).1
                        matches MaybeRelocatable::Int(f) && (f@ != old(memory).used(
                        self.read_only_segments@[i].0.segment_index as int,
                    ) || self.read_only_segments@[i].0.offset != 0)))
            },
    {
        let ghost m0 = *memory;
        let n = self.read_only_segments.len();
        let mut i: usize = 0;
        while i < n
            invariant
                m0.wf(),
                memory.wf(),
                memory.seqs() == m0.seqs(),
                n == self.read_only_segments@.len(),
                0 <= i <= n,
                forall|k: int|
                    0 <= k < i ==> {
                        let (ptr, size) = #[trigger] self.read_only_segments@[k];
                        &&& ptr.segment_index < m0.n_segments()
                        &&& ptr.offset == 0
                        &&& size matches MaybeRelocatable::Int(f) && f@ == m0.used(
                            ptr.segment_index as int,
                        )
                    },
                forall|k: int|
                    0 <= k < i ==> range_accessed(
                        *memory,
                        (#[trigger] self.read_only_segments@[k]).0.segment_index,
                        m0.used(self.read_only_segments@[k].0.segment_index as int),
                    ),
            decreases n - i,
        {
            let (segment_ptr, segment_size) = self.read_only_segments[i];
            let used_size = match memory.get_segment_used_size(segment_ptr.segment_index) {
                Some(u) => u,
                None => {
                    proof {
                        assert(self.read_only_segments@[i as int].0.segment_index >= m0.n_segments());
                    }
                    return Err(TransactionError::InvalidSegmentSize);
                },
            };
            let seg_size = match segment_size {
                MaybeRelocatable::Int(size) => size,
                MaybeRelocatable::Ptr(_) => {
                    proof {
                        assert(self.read_only_segments@[i as int].1 is Ptr);
                    }
                    return Err(TransactionError::NotAFelt);
                },
            };
            let used_felt = Felt::from_u64(used_size as u64);
            if !seg_size.eq_felt(&used_felt) {
                proof {
                    assert(self.read_only_segments@[i as int].1 matches MaybeRelocatable::Int(f)
                        && f@ != m0.used(self.read_only_segments@[i as int].0.segment_index as int));
                }
                return Err(TransactionError::OutOfBound);
            }
            let ghost pre = *memory;
            match memory.mark_address_range_as_accessed(segment_ptr, used_size) {
                Ok(_) => {},
                Err(_) => {
                    proof {
                        // The size matches, so only a nonzero start offset
                        // can push the range out of bounds.
                        assert(segment_ptr.offset != 0);
                    }
                    return Err(TransactionError::OutOfBound);
                },
            }
            proof {
                assert(segment_ptr.offset == 0);
                assert(range_accessed(
                    *memory,
                    segment_ptr.segment_index,
                    m0.used(segment_ptr.segment_index as int),
                ));
                assert forall|k: int| 0 <= k < i implies range_accessed(
                    *memory,
                    (#[trigger] self.read_only_segments@[k]).0.segment_index,
                    m0.used(self.read_only_segments@[k].0.segment_index as int),
                ) by {
                    let sk = self.read_only_segments@[k].0.segment_index;
                    assert(range_accessed(pre, sk, m0.used(sk as int)));
                    assert forall|o: int| 0 <= o < m0.used(sk as int) implies #[trigger] memory.acc()[sk as int][o]
                        == true by {
                        assert(pre.acc()[sk as int][o] == true);
                    }
                }
            }
            i = i + 1;
        }
        Ok(())
    }
}

} // verus!

verus! {

use crate::codec::{
    SyscallRequest, CallContractRequest, LibraryCallRequest, DeployRequest, decode_request,
    selector_to_syscall, syscall_args_size, syscall_gas_cost, required_gas, response_cells,
    get_syscall_size_from_name, get_syscall_gas_cost, constructor_name,
};
use crate::types::{
    ExecutionEntryPoint, ExecutionResult, CallResult, CallType, EntryPointType, ContractClass,
    events_extended, messages_extended, copy_felts, copy_felts_to_cells,
};
use crate::keccak_hash::sn_keccak_spec;

/// The felt values of the range `[start, end)` of memory.
pub open spec fn range_views(m: VmMemory, start: Relocatable, end: Relocatable) -> Seq<int> {
    Seq::new(
        (end.offset - start.offset) as nat,
        |i: int| m.felt_in(start.segment_index, start.offset + i),
    )
}

/// Every felt a request carries is well formed.
pub open spec fn request_wf(req: SyscallRequest) -> bool {
    match req {
        SyscallRequest::CallContract(q) => q.contract_address.wf() && q.selector.wf(),
        SyscallRequest::LibraryCall(q) => q.class_hash.wf() && q.selector.wf(),
        SyscallRequest::Deploy(q) => q.class_hash.wf() && q.salt.wf() && q.deploy_from_zero.wf(),
        SyscallRequest::EmitEvent(_) => true,
        SyscallRequest::StorageRead(q) => q.reserved.wf() && q.key.wf(),
        SyscallRequest::StorageWrite(q) => q.reserved.wf() && q.key.wf() && q.value.wf(),
        SyscallRequest::SendMessageToL1(q) => q.to_address.wf(),
        SyscallRequest::ReplaceClass(q) => q.class_hash.wf(),
        SyscallRequest::Keccak(_) => true,
        SyscallRequest::GetBlockHash(_) => true,
        SyscallRequest::GetBlockNumber => true,
        SyscallRequest::GetBlockTimestamp => true,
        SyscallRequest::GetExecutionInfo => true,
    }
}

/// A request decoded from well-formed memory carries well-formed felts.
pub proof fn lemma_decoded_request_wf(m: VmMemory, p: Relocatable, name: SyscallName)
    requires
        m.wf(),
        decode_request(m, p, name) is Some,
    ensures
        request_wf(decode_request(m, p, name)->Some_0),
{
    lemma_wf_cell(m, p);
    lemma_wf_cell(m, p.spec_add(1));
    lemma_wf_cell(m, p.spec_add(2));
    lemma_wf_cell(m, p.spec_add(3));
    lemma_wf_cell(m, p.spec_add(4));
}

/// Any felt cell of well-formed memory is well formed.
pub proof fn lemma_wf_cell(m: VmMemory, p: Relocatable)
    requires
        m.wf(),
    ensures
        m.has_felt(p) ==> m.int_cell(p).wf(),
{
    if m.has_felt(p) {
        assert(cells_wf(m.seqs()[p.segment_index as int]));
        assert(m.seqs()[p.segment_index as int][p.offset as int].wf());
    }
}

/// A sub-call waiting for its entry point to be executed: the response is
/// written by `finish_call_syscall` once the result is known.
#[derive(Debug)]
pub struct PendingCall {
    pub entry_point: ExecutionEntryPoint,
    pub remaining_gas: u128,
    pub response_ptr: Relocatable,
}

/// A deploy whose constructor is waiting to be executed.
#[derive(Debug)]
pub struct PendingDeploy {
    pub entry_point: ExecutionEntryPoint,
    pub deployed_address: ContractAddress,
    pub remaining_gas: u128,
    pub response_ptr: Relocatable,
}

/// What one dispatched syscall left behind: a written response, or a
/// sub-execution for the driver to perform.
#[derive(Debug)]
pub enum SyscallStep {
    Done(SyscallResponse),
    PendingCall(PendingCall),
    PendingDeploy(PendingDeploy),
}

/// The constructor phase a deploy reached without running any code.
#[derive(Debug)]
pub enum DeployPhase {
    Finished(CallResult),
    NeedsConstructor(ExecutionEntryPoint),
}

/// A call record carries only well-formed felts where it matters to the
/// handler: its return data and its storage accumulators.
pub open spec fn call_info_wf(ci: CallInfo) -> bool {
    &&& felts_wf(ci.retdata@)
    &&& felts_wf(ci.storage_read_values@)
    &&& felts_wf(ci.accessed_storage_keys@)
}

/// Appends a copy of `src` to `dst`.
pub fn append_felts(dst: &mut Vec<Felt>, src: &Vec<Felt>)
    ensures
        final(dst)@ == old(dst)@ + src@,
{
    let mut i: usize = 0;
    while i < src.len()
        invariant
            0 <= i <= src@.len(),
            dst@ =~= old(dst)@ + src@.take(i as int),
        decreases src@.len() - i,
    {
        dst.push(src[i]);
        proof {
            assert(old(dst)@ + src@.take(i + 1) =~= (old(dst)@ + src@.take(i as int)).push(
                src@[i as int],
            ));
        }
        i = i + 1;
    }
    proof {
        assert(src@.take(src@.len() as int) =~= src@);
        assert(dst@ =~= old(dst)@ + src@);
    }
}

/// The felt set of a concatenation is the union of the felt sets.
pub proof fn lemma_felt_set_concat(a: Seq<Felt>, b: Seq<Felt>)
    ensures
        felt_set(a + b) =~= felt_set(a).union(felt_set(b)),
{
    assert forall|v: int| felt_set(a + b).contains(v) implies felt_set(a).union(
        felt_set(b),
    ).contains(v) by {
        let i = choose|i: int| 0 <= i < (a + b).len() && (#[trigger] (a + b)[i])@ == v;
        if i < a.len() {
            assert(a[i]@ == v);
        } else {
            assert(b[i - a.len()]@ == v);
        }
    }
    assert forall|v: int| felt_set(a).union(felt_set(b)).contains(v) implies felt_set(
        a + b,
    ).contains(v) by {
        if felt_set(a).contains(v) {
            let i = choose|i: int| 0 <= i < a.len() && (#[trigger] a[i])@ == v;
            assert((a + b)[i]@ == v);
        } else {
            let i = choose|i: int| 0 <= i < b.len() && (#[trigger] b[i])@ == v;
            assert((a + b)[a.len() + i]@ == v);
        }
    }
}

impl SyscallHandler {
    /// Builds the entry point a `call_contract` syscall executes: the callee
    /// is the requested contract, called externally by this contract.
    pub fn call_contract(
        &self,
        memory: &VmMemory,
        request: CallContractRequest,
        remaining_gas: u128,
    ) -> (r: Result<ExecutionEntryPoint, SyscallHandlerError>)
        requires
            memory.wf(),
        ensures
            match r {
                Ok(ep) => {
                    &&& memory.felt_range_ok(request.calldata_start, request.calldata_end)
                    &&& felt_views(ep.calldata@) == range_views(
                        *memory,
                        request.calldata_start,
                        request.calldata_end,
                    )
                    &&& felts_wf(ep.calldata@)
                    &&& ep.contract_address == request.contract_address
                    &&& ep.entry_point_selector == request.selector
                    &&& ep.caller_address == self.contract_address
                    &&& ep.entry_point_type == EntryPointType::External
                    &&& ep.call_type == Some(CallType::Call)
                    &&& ep.class_hash is None
                    &&& ep.initial_gas == remaining_gas
                },
                Err(e) => !memory.felt_range_ok(request.calldata_start, request.calldata_end) && e
                    is Memory,
            },
    {
        let calldata = match memory.get_felt_range(request.calldata_start, request.calldata_end) {
            Ok(v) => v,
            Err(e) => {
                return Err(SyscallHandlerError::Memory(e));
            },
        };
        proof {
            assert(felt_views(calldata@) =~= range_views(
                *memory,
                request.calldata_start,
                request.calldata_end,
            ));
        }
        Ok(
            ExecutionEntryPoint::new(
                request.contract_address,
                calldata,
                request.selector,
                self.contract_address,
                EntryPointType::External,
                Some(CallType::Call),
                None,
                remaining_gas,
            ),
        )
    }

    /// Builds the entry point a `library_call` executes: the requested
    /// class's code runs with this contract's own storage and caller.
    pub fn library_call(
        &self,
        memory: &VmMemory,
        request: LibraryCallRequest,
        remaining_gas: u128,
    ) -> (r: Result<ExecutionEntryPoint, SyscallHandlerError>)
        requires
            memory.wf(),
        ensures
            match r {
                Ok(ep) => {
                    &&& memory.felt_range_ok(request.calldata_start, request.calldata_end)
                    &&& felt_views(ep.calldata@) == range_views(
                        *memory,
                        request.calldata_start,
                        request.calldata_end,
                    )
                    &&& felts_wf(ep.calldata@)
                    &&& ep.contract_address == self.contract_address
                    &&& ep.entry_point_selector == request.selector
                    &&& ep.caller_address == self.caller_address
                    &&& ep.entry_point_type == EntryPointType::External
                    &&& ep.call_type == Some(CallType::Delegate)
                    &&& ep.class_hash == Some(ClassHash(request.class_hash))
                    &&& ep.initial_gas == remaining_gas
                },
                Err(e) => !memory.felt_range_ok(request.calldata_start, request.calldata_end) && e
                    is Memory,
            },
    {
        let calldata = match memory.get_felt_range(request.calldata_start, request.calldata_end) {
            Ok(v) => v,
            Err(e) => {
                return Err(SyscallHandlerError::Memory(e));
            },
        };
        proof {
            assert(felt_views(calldata@) =~= range_views(
                *memory,
                request.calldata_start,
                request.calldata_end,
            ));
        }
        Ok(
            ExecutionEntryPoint::new(
                self.contract_address,
                calldata,
                request.selector,
                self.caller_address,
                EntryPointType::External,
                Some(CallType::Delegate),
                Some(ClassHash(request.class_hash)),
                remaining_gas,
            ),
        )
    }

    /// Whether a class declares an empty constructor table; a class without
    /// any constructor table at all is a fatal error.
    pub fn constructor_entry_points_empty(&self, contract_class: &ContractClass) -> (r: Result<
        bool,
        StateError,
    >)
        ensures
            match r {
                Ok(b) => contract_class.constructor_entry_points matches Some(eps) && b == (
                eps@.len() == 0),
                Err(e) => contract_class.constructor_entry_points is None && e
                    == StateError::NoneEntryPointType,
            },
    {
        match &contract_class.constructor_entry_points {
            Some(eps) => Ok(eps.len() == 0),
            None => Err(StateError::NoneEntryPointType),
        }
    }

    /// The deployer identity and derived address of a deploy request.
    pub open spec fn deploy_address(self, m: VmMemory, request: DeployRequest) -> int {
        let deployer = if request.deploy_from_zero@ == 0 {
            self.contract_address@
        } else {
            0
        };
        crate::pedersen::contract_address_spec(
            request.salt@,
            request.class_hash@,
            range_views(m, request.calldata_start, request.calldata_end),
            deployer,
        )
    }

    /// Validates a deploy request, derives the deterministic address,
    /// installs the class there, and decides how the constructor runs: not
    /// at all (synthetic record), or as a pending entry point.
    #[verifier::rlimit(100)]
    pub fn syscall_deploy(
        &mut self,
        state: &mut CachedState,
        memory: &VmMemory,
        request: DeployRequest,
        remaining_gas: u128,
    ) -> (r: Result<(ContractAddress, DeployPhase), SyscallHandlerError>)
        requires
            memory.wf(),
            old(self).wf(),
            request.class_hash.wf(),
            request.salt.wf(),
            request.deploy_from_zero.wf(),
        ensures
            final(self).events == old(self).events,
            final(self).l2_to_l1_messages == old(self).l2_to_l1_messages,
            final(self).read_only_segments == old(self).read_only_segments,
            final(self).read_values == old(self).read_values,
            final(self).accessed_keys == old(self).accessed_keys,
            final(self).touched_keys == old(self).touched_keys,
            final(self).expected_syscall_ptr == old(self).expected_syscall_ptr,
            final(self).resources_manager == old(self).resources_manager,
            final(self).config() == old(self).config(),
            final(state).storage_writes == old(state).storage_writes,
            final(state).nonce_writes == old(state).nonce_writes,
            final(state).contract_classes == old(state).contract_classes,
            final(state).state_reader == old(state).state_reader,
            old(state).storage_wf() ==> final(state).storage_wf(),
            request.deploy_from_zero@ != 0 && request.deploy_from_zero@ != 1 ==> (r matches Err(
                SyscallHandlerError::DeployFromZero(f),
            ) && f == request.deploy_from_zero),
            ({
                // Success is owed whenever the arguments are readable and the
                // constructor question has a guest-visible answer.
                let addr_val = old(self).deploy_address(*memory, request);
                (request.deploy_from_zero@ == 0 || request.deploy_from_zero@ == 1)
                    && memory.felt_range_ok(request.calldata_start, request.calldata_end) && (
                addr_val == 0 || old(state).class_hash_at(addr_val) != 0 || match old(
                    state,
                ).class_of(request.class_hash@) {
                    None => true,
                    Some(class) => class.constructor_entry_points matches Some(eps) && (eps@.len()
                        > 0 || range_views(
                        *memory,
                        request.calldata_start,
                        request.calldata_end,
                    ).len() == 0),
                }) ==> r is Ok
            }),
            match r {
                Ok((addr, phase)) => {
                    &&& addr.wf()
                    &&& request.deploy_from_zero@ == 0 || request.deploy_from_zero@ == 1
                    &&& memory.felt_range_ok(request.calldata_start, request.calldata_end)
                    &&& ({
                        let addr_val = old(self).deploy_address(*memory, request);
                        if addr_val == 0 || old(state).class_hash_at(addr_val) != 0 {
                            // The address is unavailable: nothing changes.
                            &&& addr@ == 0
                            &&& phase matches DeployPhase::Finished(res) && !res.is_success
                                && res.gas_consumed == 0 && res.retdata@ == seq![
                                MaybeRelocatable::Int(
                                    Felt {
                                        l3: 1129270868,
                                        l2: 5927092614250710084,
                                        l1: 5928236102049943105,
                                        l0: 6215329552609201221,
                                    },
                                ),
                            ]
                            &&& *final(state) == *old(state)
                            &&& final(self).internal_calls == old(self).internal_calls
                        } else {
                            &&& addr@ == addr_val
                            &&& final(state).class_hash_writes@ == old(
                                state,
                            ).class_hash_writes@.insert(addr_val, ClassHash(request.class_hash))
                            &&& match old(state).class_of(request.class_hash@) {
                                None => {
                                    // No class under the hash: a guest-visible failure.
                                    &&& phase matches DeployPhase::Finished(res) && !res.is_success
                                        && res.gas_consumed == 0 && res.retdata@ == seq![
                                        MaybeRelocatable::Int(
                                            Felt {
                                                l3: 0,
                                                l2: 1129070931,
                                                l1: 6007599873342857038,
                                                l0: 5716298582623342148,
                                            },
                                        ),
                                    ]
                                    &&& final(self).internal_calls == old(self).internal_calls
                                },
                                Some(class) => {
                                    &&& class.constructor_entry_points matches Some(eps)
                                    &&& if eps@.len() == 0 {
                                        // Synthetic empty-constructor record.
                                        &&& range_views(
                                            *memory,
                                            request.calldata_start,
                                            request.calldata_end,
                                        ).len() == 0
                                        &&& final(self).internal_calls@.len() == old(
                                            self,
                                        ).internal_calls@.len() + 1
                                        &&& final(self).internal_calls@.drop_last() == old(
                                            self,
                                        ).internal_calls@
                                        &&& ({
                                            let ci = final(self).internal_calls@.last();
                                            &&& ci.contract_address == addr
                                            &&& ci.caller_address == old(self).contract_address
                                            &&& ci.class_hash == Some(ClassHash(request.class_hash))
                                            &&& ci.entry_point_type == Some(
                                                EntryPointType::Constructor,
                                            )
                                            &&& ci.events@.len() == 0
                                            &&& ci.l2_to_l1_messages@.len() == 0
                                            &&& ci.internal_calls@.len() == 0
                                            &&& ci.retdata@.len() == 0
                                            &&& ci.storage_read_values@.len() == 0
                                            &&& ci.accessed_storage_keys@.len() == 0
                                            &&& ci.gas_consumed == 0
                                            &&& !ci.failure_flag
                                        })
                                        &&& phase matches DeployPhase::Finished(res)
                                            && res.is_success && res.gas_consumed == 0
                                            && res.retdata@.len() == 0
                                    } else {
                                        &&& final(self).internal_calls == old(self).internal_calls
                                        &&& phase matches DeployPhase::NeedsConstructor(ep) && ep
                                            == (ExecutionEntryPoint {
                                            contract_address: addr,
                                            calldata: ep.calldata,
                                            entry_point_selector: ep.entry_point_selector,
                                            caller_address: old(self).contract_address,
                                            entry_point_type: EntryPointType::Constructor,
                                            call_type: Some(CallType::Call),
                                            class_hash: None,
                                            initial_gas: remaining_gas,
                                        }) && felt_views(ep.calldata@) == range_views(
                                            *memory,
                                            request.calldata_start,
                                            request.calldata_end,
                                        ) && felts_wf(ep.calldata@)
                                            && ep.entry_point_selector.wf()
                                            && ep.entry_point_selector@ == sn_keccak_spec(
                                            constructor_name(),
                                        )
                                    }
                                },
                            }
                        }
                    })
                },
                Err(e) => {
                    &&& (e matches SyscallHandlerError::DeployFromZero(f) ==> f
                        == request.deploy_from_zero && request.deploy_from_zero@ != 0
                        && request.deploy_from_zero@ != 1)
                    &&& (e is DeployFromZero || e is Memory || e is State)
                    &&& (e is Memory ==> !memory.felt_range_ok(
                        request.calldata_start,
                        request.calldata_end,
                    ))
                    &&& ((e is DeployFromZero || e is Memory) ==> *final(state) == *old(state))
                    &&& (e matches SyscallHandlerError::State(se) ==> {
                        // The class was installed before the constructor
                        // question failed; no rollback happens here.
                        &&& final(state).class_hash_writes@ == old(state).class_hash_writes@.insert(
                            old(self).deploy_address(*memory, request),
                            ClassHash(request.class_hash),
                        )
                        &&& match old(state).class_of(request.class_hash@) {
                            None => false,
                            Some(class) => (se == StateError::NoneEntryPointType
                                && class.constructor_entry_points is None) || (se
                                == StateError::ConstructorCalldataEmpty
                                && (class.constructor_entry_points matches Some(eps) && eps@.len()
                                == 0) && range_views(
                                *memory,
                                request.calldata_start,
                                request.calldata_end,
                            ).len() > 0),
                        }
                    })
                    &&& final(self).internal_calls == old(self).internal_calls
                },
            },
    {
        if !(request.deploy_from_zero.is_zero() || request.deploy_from_zero.is_one()) {
            return Err(SyscallHandlerError::DeployFromZero(request.deploy_from_zero));
        }
        let constructor_calldata = match memory.get_felt_range(
            request.calldata_start,
            request.calldata_end,
        ) {
            Ok(v) => v,
            Err(e) => {
                return Err(SyscallHandlerError::Memory(e));
            },
        };
        proof {
            assert(felt_views(constructor_calldata@) =~= range_views(
                *memory,
                request.calldata_start,
                request.calldata_end,
            ));
        }
        let deployer_address = if request.deploy_from_zero.is_zero() {
            self.contract_address
        } else {
            ContractAddress::zero()
        };
        let class_hash = ClassHash(request.class_hash);
        let address_felt = crate::pedersen::calculate_contract_address(
            &request.salt,
            &class_hash,
            &constructor_calldata,
            &deployer_address,
        );
        let contract_address = ContractAddress(address_felt);
        match state.deploy_contract(contract_address, class_hash) {
            Ok(_) => {},
            Err(_) => {
                let msg = contract_address_unavailable_felt();
                let mut retdata: Vec<MaybeRelocatable> = Vec::new();
                retdata.push(MaybeRelocatable::Int(msg));
                proof {
                    assert(retdata@ =~= seq![
                        MaybeRelocatable::Int(
                            Felt {
                                l3: 1129270868,
                                l2: 5927092614250710084,
                                l1: 5928236102049943105,
                                l0: 6215329552609201221,
                            },
                        ),
                    ]);
                }
                return Ok(
                    (
                        ContractAddress::zero(),
                        DeployPhase::Finished(
                            CallResult { gas_consumed: 0, is_success: false, retdata },
                        ),
                    ),
                );
            },
        }
        let phase = self.execute_constructor_entry_point(
            state,
            contract_address,
            class_hash,
            constructor_calldata,
            remaining_gas,
        )?;
        Ok((contract_address, phase))
    }

    /// Looks the class up and decides how its constructor runs: a missing
    /// class is a guest-visible failure; a class without constructor code
    /// accepts only empty calldata and yields a synthetic record.
    fn execute_constructor_entry_point(
        &mut self,
        state: &CachedState,
        contract_address: ContractAddress,
        class_hash: ClassHash,
        constructor_calldata: Vec<Felt>,
        remaining_gas: u128,
    ) -> (r: Result<DeployPhase, SyscallHandlerError>)
        requires
            felts_wf(constructor_calldata@),
        ensures
            final(self).events == old(self).events,
            final(self).l2_to_l1_messages == old(self).l2_to_l1_messages,
            final(self).read_only_segments == old(self).read_only_segments,
            final(self).read_values == old(self).read_values,
            final(self).accessed_keys == old(self).accessed_keys,
            final(self).touched_keys == old(self).touched_keys,
            final(self).expected_syscall_ptr == old(self).expected_syscall_ptr,
            final(self).resources_manager == old(self).resources_manager,
            final(self).config() == old(self).config(),
            match r {
                Ok(phase) => match state.class_of(class_hash@) {
                    None => phase matches DeployPhase::Finished(res) && !res.is_success
                        && res.gas_consumed == 0 && res.retdata@ == seq![
                        MaybeRelocatable::Int(
                            Felt {
                                l3: 0,
                                l2: 1129070931,
                                l1: 6007599873342857038,
                                l0: 5716298582623342148,
                            },
                        ),
                    ] && final(self).internal_calls == old(self).internal_calls,
                    Some(class) => {
                        &&& class.constructor_entry_points matches Some(eps)
                        &&& if eps@.len() == 0 {
                            &&& constructor_calldata@.len() == 0
                            &&& final(self).internal_calls@.len() == old(
                                self,
                            ).internal_calls@.len() + 1
                            &&& final(self).internal_calls@.drop_last() == old(self).internal_calls@
                            &&& ({
                                let ci = final(self).internal_calls@.last();
                                &&& ci.contract_address == contract_address
                                &&& ci.caller_address == old(self).contract_address
                                &&& ci.class_hash == Some(class_hash)
                                &&& ci.entry_point_type == Some(EntryPointType::Constructor)
                                &&& ci.events@.len() == 0
                                &&& ci.l2_to_l1_messages@.len() == 0
                                &&& ci.internal_calls@.len() == 0
                                &&& ci.retdata@.len() == 0
                                &&& ci.storage_read_values@.len() == 0
                                &&& ci.accessed_storage_keys@.len() == 0
                                &&& ci.gas_consumed == 0
                                &&& !ci.failure_flag
                            })
                            &&& phase matches DeployPhase::Finished(res) && res.is_success
                                && res.gas_consumed == 0 && res.retdata@.len() == 0
                        } else {
                            &&& final(self).internal_calls == old(self).internal_calls
                            &&& phase matches DeployPhase::NeedsConstructor(ep) && ep
                                == (ExecutionEntryPoint {
                                contract_address,
                                calldata: ep.calldata,
                                entry_point_selector: ep.entry_point_selector,
                                caller_address: old(self).contract_address,
                                entry_point_type: EntryPointType::Constructor,
                                call_type: Some(CallType::Call),
                                class_hash: None,
                                initial_gas: remaining_gas,
                            }) && ep.calldata@ == constructor_calldata@
                                && ep.entry_point_selector.wf()
                                && ep.entry_point_selector@ == sn_keccak_spec(constructor_name())
                        }
                    },
                },
                Err(e) => {
                    &&& e is State
                    &&& final(self).internal_calls == old(self).internal_calls
                    &&& match state.class_of(class_hash@) {
                        None => false,
                        Some(class) => match class.constructor_entry_points {
                            None => e matches SyscallHandlerError::State(se) && se
                                == StateError::NoneEntryPointType,
                            Some(eps) => eps@.len() == 0 && constructor_calldata@.len() > 0 && (e
                                matches SyscallHandlerError::State(se) && se
                                == StateError::ConstructorCalldataEmpty),
                        },
                    }
                },
            },
    {
        let compiled_class = match state.get_contract_class(&class_hash) {
            Ok(c) => c,
            Err(_) => {
                let msg = class_hash_not_found_felt();
                let mut retdata: Vec<MaybeRelocatable> = Vec::new();
                retdata.push(MaybeRelocatable::Int(msg));
                proof {
                    assert(retdata@ =~= seq![
                        MaybeRelocatable::Int(
                            Felt {
                                l3: 0,
                                l2: 1129070931,
                                l1: 6007599873342857038,
                                l0: 5716298582623342148,
                            },
                        ),
                    ]);
                }
                return Ok(
                    DeployPhase::Finished(
                        CallResult { gas_consumed: 0, is_success: false, retdata },
                    ),
                );
            },
        };
        let empty = match self.constructor_entry_points_empty(compiled_class) {
            Ok(b) => b,
            Err(e) => {
                return Err(SyscallHandlerError::State(e));
            },
        };
        if empty {
            if constructor_calldata.len() > 0 {
                return Err(SyscallHandlerError::State(StateError::ConstructorCalldataEmpty));
            }
            let selector = crate::codec::constructor_entry_point_selector();
            let call_info = CallInfo::empty_constructor_call(
                contract_address,
                self.contract_address,
                Some(class_hash),
                selector,
            );
            let result = call_info.result();
            self.internal_calls.push(call_info);
            proof {
                assert(self.internal_calls@.drop_last() =~= old(self).internal_calls@);
            }
            return Ok(DeployPhase::Finished(result));
        }
        let selector = crate::codec::constructor_entry_point_selector();
        Ok(
            DeployPhase::NeedsConstructor(
                ExecutionEntryPoint::new(
                    contract_address,
                    constructor_calldata,
                    selector,
                    self.contract_address,
                    EntryPointType::Constructor,
                    Some(CallType::Call),
                    None,
                    remaining_gas,
                ),
            ),
        )
    }

    /// Builds the deploy response: the remaining gas less what the
    /// constructor consumed, the return data in a fresh read-only segment,
    /// and the deployed address on success.
    pub fn build_deploy_response(
        &mut self,
        memory: &mut VmMemory,
        contract_address: ContractAddress,
        result: CallResult,
        remaining_gas: u128,
    ) -> (r: Result<SyscallResponse, SyscallHandlerError>)
        requires
            old(memory).wf(),
            cells_wf(result.retdata@),
        ensures
            final(memory).wf(),
            final(self).events == old(self).events,
            final(self).l2_to_l1_messages == old(self).l2_to_l1_messages,
            final(self).internal_calls == old(self).internal_calls,
            final(self).read_values == old(self).read_values,
            final(self).accessed_keys == old(self).accessed_keys,
            final(self).touched_keys == old(self).touched_keys,
            final(self).expected_syscall_ptr == old(self).expected_syscall_ptr,
            final(self).resources_manager == old(self).resources_manager,
            final(self).config() == old(self).config(),
            r is Ok,
            ({
                let resp = r->Ok_0;
                let start = rel(old(memory).n_segments() as usize, 0);
                let end = rel(start.segment_index, result.retdata@.len() as int);
                &&& resp.gas == if result.gas_consumed <= remaining_gas {
                    (remaining_gas - result.gas_consumed) as u128
                } else {
                    0
                }
                &&& resp.body == Some(
                    if result.is_success {
                        ResponseBody::Deploy {
                            contract_address: contract_address.0,
                            retdata_start: start,
                            retdata_end: end,
                        }
                    } else {
                        ResponseBody::Failure { retdata_start: start, retdata_end: end }
                    },
                )
                &&& contract_address.wf() ==> resp.wf()
                &&& final(memory).seqs() =~= old(memory).seqs().push(result.retdata@)
                &&& final(self).read_only_segments@ == old(self).read_only_segments@.push(
                    (
                        start,
                        MaybeRelocatable::Int(
                            Felt { l3: 0, l2: 0, l1: 0, l0: result.retdata@.len() as u64 },
                        ),
                    ),
                )
                &&& old(self).read_only_segments@.is_prefix_of(final(self).read_only_segments@)
            }),
    {
        let remaining = if result.gas_consumed <= remaining_gas {
            remaining_gas - result.gas_consumed
        } else {
            0
        };
        let retdata_len = result.retdata.len();
        let retdata_start = self.allocate_segment(memory, result.retdata)?;
        let retdata_end = match retdata_start.add(retdata_len) {
            Ok(p) => p,
            Err(_) => {
                proof {
                    assert(false);
                }
                return Err(SyscallHandlerError::Memory(
                    crate::errors::MemoryError::OffsetOverflow,
                ));
            },
        };
        let body = if result.is_success {
            ResponseBody::Deploy {
                contract_address: contract_address.0,
                retdata_start,
                retdata_end,
            }
        } else {
            ResponseBody::Failure { retdata_start, retdata_end }
        };
        Ok(SyscallResponse { gas: remaining, body: Some(body) })
    }
}

} // verus!

verus! {

pub broadcast proof fn lemma_seq_prefix_refl<T>(s: Seq<T>)
    ensures
        #[trigger] s.is_prefix_of(s),
{
    assert(s =~= s.subrange(0, s.len() as int));
}

pub broadcast proof fn lemma_seq_prefix_push<T>(s: Seq<T>, v: T)
    ensures
        #[trigger] s.is_prefix_of(s.push(v)),
{
    assert(s =~= s.push(v).subrange(0, s.len() as int));
}

pub broadcast proof fn lemma_seq_prefix_via_drop_last<T>(a: Seq<T>, b: Seq<T>)
    requires
        b.len() == a.len() + 1,
        b.drop_last() == a,
    ensures
        #[trigger] a.is_prefix_of(b),
{
    assert forall|i: int| 0 <= i < a.len() implies a[i] == b[i] by {
        assert(a[i] == b.drop_last()[i]);
    }
    assert(a =~= b.subrange(0, a.len() as int));
}

pub broadcast proof fn lemma_seq_prefix_push_eq<T>(a: Seq<T>, x: T, b: Seq<T>)
    requires
        b == a.push(x),
    ensures
        #![trigger a.push(x), a.is_prefix_of(b)]
        a.is_prefix_of(b),
{
    assert(a =~= b.subrange(0, a.len() as int));
}

pub broadcast proof fn lemma_felts_wf_push(s: Seq<Felt>, v: Felt)
    requires
        felts_wf(s),
        v.wf(),
    ensures
        #[trigger] felts_wf(s.push(v)),
{
    assert forall|i: int| 0 <= i < s.push(v).len() implies (#[trigger] s.push(v)[i]).wf() by {
        if i < s.len() {
            assert(s[i].wf());
        }
    }
}

/// Existing segments other than `keep` are unchanged; new ones may follow.
pub open spec fn mem_extends_except(a: VmMemory, b: VmMemory, keep: usize) -> bool {
    &&& b.n_segments() >= a.n_segments()
    &&& forall|s: int|
        0 <= s < a.n_segments() && s != keep ==> #[trigger] b.seqs()[s] == a.seqs()[s]
}

/// Every existing segment is unchanged; new ones may follow.
pub open spec fn mem_extends(a: VmMemory, b: VmMemory) -> bool {
    &&& b.n_segments() >= a.n_segments()
    &&& forall|s: int| 0 <= s < a.n_segments() ==> #[trigger] b.seqs()[s] == a.seqs()[s]
}

/// A decoded request that the handler can execute without a fatal error:
/// every range it names is readable, and a deploy's constructor question has
/// a guest-visible answer.
pub open spec fn request_executes(
    h: SyscallHandler,
    state: CachedState,
    m: VmMemory,
    req: SyscallRequest,
    remaining: int,
) -> bool {
    match req {
        SyscallRequest::EmitEvent(q) => m.felt_range_ok(q.keys_start, q.keys_end)
            && m.felt_range_ok(q.data_start, q.data_end),
        SyscallRequest::SendMessageToL1(q) => m.felt_range_ok(q.payload_start, q.payload_end),
        SyscallRequest::Keccak(q) => {
            let seg = q.input_start.segment_index;
            let off = q.input_start.offset as int;
            let len = q.input_end.offset - q.input_start.offset;
            &&& q.input_end.segment_index == seg
            &&& len >= 0
            &&& (len % 17 != 0 || keccak_cells_ok(
                m,
                seg,
                off,
                17 * keccak_rounds(len / 17, remaining),
            ))
        },
        SyscallRequest::CallContract(q) => m.felt_range_ok(q.calldata_start, q.calldata_end),
        SyscallRequest::LibraryCall(q) => m.felt_range_ok(q.calldata_start, q.calldata_end),
        SyscallRequest::Deploy(q) => {
            let addr_val = h.deploy_address(m, q);
            &&& (q.deploy_from_zero@ == 0 || q.deploy_from_zero@ == 1)
            &&& m.felt_range_ok(q.calldata_start, q.calldata_end)
            &&& (addr_val == 0 || state.class_hash_at(addr_val) != 0 || match state.class_of(
                q.class_hash@,
            ) {
                None => true,
                Some(class) => class.constructor_entry_points matches Some(eps) && (eps@.len() > 0
                    || range_views(m, q.calldata_start, q.calldata_end).len() == 0),
            })
        },
        _ => true,
    }
}

/// The dispatcher owes a successful step under these conditions: selector
/// and gas cells readable, the selector resolved with a recorded gas cost,
/// the arguments decodable, the request written at the segment's end with
/// room for the largest response, and — when the gas suffices — an
/// executable request.
pub open spec fn dispatch_succeeds(
    h: SyscallHandler,
    state: CachedState,
    m: VmMemory,
    p: Relocatable,
) -> bool {
    &&& m.has_felt(p)
    &&& selector_to_syscall(m.felt_at(p)) is Some
    &&& m.has_felt(p.spec_add(1))
    &&& m.felt_at(p.spec_add(1)) < p128()
    &&& {
        let name = selector_to_syscall(m.felt_at(p))->Some_0;
        let initial = m.felt_at(p.spec_add(1));
        &&& p.offset + 2 + syscall_args_size(name) + 5 <= usize::MAX
        &&& decode_request(m, p.spec_add(2), name) is Some
        &&& syscall_gas_cost(name) is Some
        &&& m.used(p.segment_index as int) == p.offset + 2 + syscall_args_size(name)
        &&& (initial < required_gas(name) || request_executes(
            h,
            state,
            m,
            decode_request(m, p.spec_add(2), name)->Some_0,
            initial - required_gas(name),
        ))
    }
}

/// Every serialized response is between two and five cells: the gas and tag
/// cells, then at most three body cells.
pub proof fn lemma_response_cells_len(resp: SyscallResponse)
    ensures
        2 <= response_cells(resp).len() <= 5,
{
    match resp.body {
        Some(b) => {
            match b {
                ResponseBody::StorageReadResponse { .. } => {},
                ResponseBody::GetBlockNumber { .. } => {},
                ResponseBody::GetBlockTimestamp { .. } => {},
                ResponseBody::GetBlockHash { .. } => {},
                ResponseBody::GetExecutionInfo { .. } => {},
                ResponseBody::CallContract { .. } => {},
                ResponseBody::Deploy { .. } => {},
                ResponseBody::Keccak { .. } => {},
                ResponseBody::Failure { .. } => {},
            }
        },
        None => {},
    }
}

/// Reads a felt cell, as a handler error.
fn get_felt_m(memory: &VmMemory, p: Relocatable) -> (r: Result<Felt, SyscallHandlerError>)
    requires
        memory.wf(),
    ensures
        match r {
            Ok(f) => memory.has_felt(p) && f@ == memory.felt_at(p) && f.wf() && f
                == memory.int_cell(p),
            Err(e) => !memory.has_felt(p) && e is Memory,
        },
{
    match memory.get_felt(p) {
        Ok(f) => {
            proof {
                crate::felt::lemma_felt_view_injective(f, memory.int_cell(p));
            }
            Ok(f)
        },
        Err(e) => Err(SyscallHandlerError::Memory(e)),
    }
}

/// Reads a pointer cell, as a handler error.
fn get_ptr_m(memory: &VmMemory, p: Relocatable) -> (r: Result<Relocatable, SyscallHandlerError>)
    ensures
        match r {
            Ok(q) => memory.has_ptr(p) && q == memory.ptr_cell(p),
            Err(e) => !memory.has_ptr(p) && e is Memory,
        },
{
    match memory.get_ptr(p) {
        Ok(q) => Ok(q),
        Err(e) => Err(SyscallHandlerError::Memory(e)),
    }
}

/// Offsets a pointer, as a handler error.
fn add_m(p: Relocatable, n: usize) -> (r: Result<Relocatable, SyscallHandlerError>)
    ensures
        match r {
            Ok(q) => p.offset + n <= usize::MAX && q == p.spec_add(n as int),
            Err(e) => p.offset + n > usize::MAX && e is Memory,
        },
{
    match p.add(n) {
        Ok(q) => Ok(q),
        Err(e) => Err(SyscallHandlerError::Memory(e)),
    }
}

impl SyscallHandler {
    /// Reads the argument cells of a syscall into its request value.
    #[verifier::rlimit(100)]
    pub fn read_syscall_request(
        &self,
        memory: &VmMemory,
        syscall_ptr: Relocatable,
        syscall_name: SyscallName,
    ) -> (r: Result<SyscallRequest, SyscallHandlerError>)
        requires
            memory.wf(),
        ensures
            match r {
                Ok(req) => decode_request(*memory, syscall_ptr, syscall_name) == Some(req)
                    && request_wf(req),
                Err(e) => (decode_request(*memory, syscall_ptr, syscall_name) is None
                    || syscall_ptr.offset + syscall_args_size(syscall_name) > usize::MAX) && (e
                    is Memory || e is UnknownSyscall) && (e is UnknownSyscall <==> syscall_name
                    is GetBlockTimestamp),
            },
    {
        proof {
            if decode_request(*memory, syscall_ptr, syscall_name) is Some {
                lemma_decoded_request_wf(*memory, syscall_ptr, syscall_name);
            }
        }
        match syscall_name {
            SyscallName::EmitEvent => {
                let keys_start = get_ptr_m(memory, syscall_ptr)?;
                let keys_end = get_ptr_m(memory, add_m(syscall_ptr, 1)?)?;
                let data_start = get_ptr_m(memory, add_m(syscall_ptr, 2)?)?;
                let data_end = get_ptr_m(memory, add_m(syscall_ptr, 3)?)?;
                Ok(
                    SyscallRequest::EmitEvent(
                        crate::codec::EmitEventRequest { keys_start, keys_end, data_start, data_end },
                    ),
                )
            },
            SyscallName::StorageRead => {
                let reserved = get_felt_m(memory, syscall_ptr)?;
                let key = get_felt_m(memory, add_m(syscall_ptr, 1)?)?;
                Ok(SyscallRequest::StorageRead(StorageReadRequest { reserved, key }))
            },
            SyscallName::CallContract => {
                let contract_address = ContractAddress(get_felt_m(memory, syscall_ptr)?);
                let selector = get_felt_m(memory, add_m(syscall_ptr, 1)?)?;
                let calldata_start = get_ptr_m(memory, add_m(syscall_ptr, 2)?)?;
                let calldata_end = get_ptr_m(memory, add_m(syscall_ptr, 3)?)?;
                Ok(
                    SyscallRequest::CallContract(
                        CallContractRequest {
                            contract_address,
                            selector,
                            calldata_start,
                            calldata_end,
                        },
                    ),
                )
            },
            SyscallName::LibraryCall => {
                let class_hash = get_felt_m(memory, syscall_ptr)?;
                let selector = get_felt_m(memory, add_m(syscall_ptr, 1)?)?;
                let calldata_start = get_ptr_m(memory, add_m(syscall_ptr, 2)?)?;
                let calldata_end = get_ptr_m(memory, add_m(syscall_ptr, 3)?)?;
                Ok(
                    SyscallRequest::LibraryCall(
                        LibraryCallRequest { class_hash, selector, calldata_start, calldata_end },
                    ),
                )
            },
            SyscallName::Deploy => {
                let class_hash = get_felt_m(memory, syscall_ptr)?;
                let salt = get_felt_m(memory, add_m(syscall_ptr, 1)?)?;
                let calldata_start = get_ptr_m(memory, add_m(syscall_ptr, 2)?)?;
                let calldata_end = get_ptr_m(memory, add_m(syscall_ptr, 3)?)?;
                let deploy_from_zero = get_felt_m(memory, add_m(syscall_ptr, 4)?)?;
                Ok(
                    SyscallRequest::Deploy(
                        DeployRequest {
                            class_hash,
                            salt,
                            calldata_start,
                            calldata_end,
                            deploy_from_zero,
                        },
                    ),
                )
            },
            SyscallName::GetBlockNumber => Ok(SyscallRequest::GetBlockNumber),
            SyscallName::StorageWrite => {
                let reserved = get_felt_m(memory, syscall_ptr)?;
                let key = get_felt_m(memory, add_m(syscall_ptr, 1)?)?;
                let value = get_felt_m(memory, add_m(syscall_ptr, 2)?)?;
                Ok(SyscallRequest::StorageWrite(StorageWriteRequest { reserved, key, value }))
            },
            SyscallName::GetExecutionInfo => Ok(SyscallRequest::GetExecutionInfo),
            SyscallName::SendMessageToL1 => {
                let to_address = get_felt_m(memory, syscall_ptr)?;
                let payload_start = get_ptr_m(memory, add_m(syscall_ptr, 1)?)?;
                let payload_end = get_ptr_m(memory, add_m(syscall_ptr, 2)?)?;
                Ok(
                    SyscallRequest::SendMessageToL1(
                        SendMessageToL1Request { to_address, payload_start, payload_end },
                    ),
                )
            },
            SyscallName::ReplaceClass => {
                let class_hash = get_felt_m(memory, syscall_ptr)?;
                Ok(SyscallRequest::ReplaceClass(ReplaceClassRequest { class_hash }))
            },
            SyscallName::Keccak => {
                let input_start = get_ptr_m(memory, syscall_ptr)?;
                let input_end = get_ptr_m(memory, add_m(syscall_ptr, 1)?)?;
                Ok(SyscallRequest::Keccak(crate::codec::KeccakRequest { input_start, input_end }))
            },
            SyscallName::GetBlockTimestamp => Err(SyscallHandlerError::UnknownSyscall),
        }
    }

    /// Counts the syscall, reads its request, and advances the pointer past
    /// the argument cells.
    pub fn read_and_validate_syscall_request(
        &mut self,
        memory: &VmMemory,
        syscall_ptr: &mut Relocatable,
        syscall_name: SyscallName,
    ) -> (r: Result<SyscallRequest, SyscallHandlerError>)
        requires
            memory.wf(),
            old(self).resources_manager.wf(),
        ensures
            final(self).resources_manager.wf(),
            final(self).events == old(self).events,
            final(self).l2_to_l1_messages == old(self).l2_to_l1_messages,
            final(self).internal_calls == old(self).internal_calls,
            final(self).read_only_segments == old(self).read_only_segments,
            final(self).read_values == old(self).read_values,
            final(self).accessed_keys == old(self).accessed_keys,
            final(self).touched_keys == old(self).touched_keys,
            final(self).expected_syscall_ptr == old(self).expected_syscall_ptr,
            final(self).config() == old(self).config(),
            final(self).resources_manager.syscall_counter@ == old(
                self,
            ).resources_manager.syscall_counter@.update(
                name_index(syscall_name),
                if old(self).resources_manager.syscall_counter@[name_index(syscall_name)]
                    < u64::MAX {
                    (old(self).resources_manager.syscall_counter@[name_index(syscall_name)]
                        + 1) as u64
                } else {
                    u64::MAX
                },
            ),
            decode_request(*memory, *old(syscall_ptr), syscall_name) is Some && old(
                syscall_ptr,
            ).offset + syscall_args_size(syscall_name) <= usize::MAX ==> r is Ok,
            match r {
                Ok(req) => {
                    &&& decode_request(*memory, *old(syscall_ptr), syscall_name) == Some(req)
                    &&& request_wf(req)
                    &&& old(syscall_ptr).offset + syscall_args_size(syscall_name) <= usize::MAX
                    &&& *final(syscall_ptr) == old(syscall_ptr).spec_add(
                        syscall_args_size(syscall_name),
                    )
                },
                Err(e) => (decode_request(*memory, *old(syscall_ptr), syscall_name) is None
                    || old(syscall_ptr).offset + syscall_args_size(syscall_name) > usize::MAX) && (
                e is Memory || e is UnknownSyscall),
            },
    {
        broadcast use lemma_seq_prefix_refl;

        self.resources_manager.increment_syscall_counter(syscall_name);
        let syscall_request = self.read_syscall_request(memory, *syscall_ptr, syscall_name)?;
        let size = get_syscall_size_from_name(syscall_name);
        *syscall_ptr = match syscall_ptr.add(size) {
            Ok(p) => p,
            Err(e) => {
                return Err(SyscallHandlerError::Memory(e));
            },
        };
        Ok(syscall_request)
    }

    /// Executes a decoded request with the given gas, yielding a finished
    /// response or a sub-execution for the driver.
    /// Executes a leaf request (one that needs no sub-execution) with the
    /// given gas.
    #[verifier::rlimit(100)]
    fn execute_leaf_syscall(
        &mut self,
        state: &mut CachedState,
        memory: &mut VmMemory,
        tx: &mut TransactionExecutionContext,
        request: SyscallRequest,
        remaining_gas: u128,
    ) -> (r: Result<SyscallResponse, SyscallHandlerError>)
        requires
            old(memory).wf(),
            old(self).wf(),
            old(state).storage_wf(),
            request_wf(request),
            old(tx).n_emitted_events < u64::MAX,
            old(tx).n_sent_messages < u64::MAX,
            tx_context_wf(*old(tx)),
            old(tx).signature@.len() + 16 <= usize::MAX,
            request is GetBlockHash ==> old(self).block_context.block_info.block_number >= 10,
            !(request is CallContract),
            !(request is LibraryCall),
            !(request is Deploy),
        ensures
            final(self).resources_manager == old(self).resources_manager,
            request_executes(*old(self), *old(state), *old(memory), request, remaining_gas as int)
                ==> r is Ok,
            final(memory).wf(),
            final(self).wf(),
            final(self).config() == old(self).config(),
            final(self).expected_syscall_ptr == old(self).expected_syscall_ptr,
            old(self).accessed_covers() ==> final(self).accessed_covers(),
            old(state).storage_wf() ==> final(state).storage_wf(),
            crate::state::class_tables_unchanged(*old(state), *final(state)),
            events_extended(
                old(self).events@,
                final(self).events@,
                old(tx).n_emitted_events as int,
                final(tx).n_emitted_events as int,
            ),
            messages_extended(
                old(self).l2_to_l1_messages@,
                final(self).l2_to_l1_messages@,
                old(tx).n_sent_messages as int,
                final(tx).n_sent_messages as int,
            ),
            old(self).internal_calls@.is_prefix_of(final(self).internal_calls@),
            old(self).read_values@.is_prefix_of(final(self).read_values@),
            old(self).accessed_keys@.is_prefix_of(final(self).accessed_keys@),
            old(self).read_only_segments@.is_prefix_of(final(self).read_only_segments@),
            *final(tx) == (TransactionExecutionContext {
                n_emitted_events: final(tx).n_emitted_events,
                n_sent_messages: final(tx).n_sent_messages,
                ..*old(tx)
            }),
            mem_extends(*old(memory), *final(memory)),
            match r {
                Ok(resp) => resp.wf() && resp.gas <= remaining_gas,
                Err(e) => !(e is SelectorNotInHandlerMap) && !(e is GasNotNarrow) && !(e
                    is SelectorDoesNotHaveAssociatedGas),
            },
    {
        broadcast use lemma_seq_prefix_refl, lemma_seq_prefix_push, lemma_seq_prefix_via_drop_last,
            lemma_seq_prefix_push_eq, lemma_felts_wf_push;

        match request {
            SyscallRequest::LibraryCall(_) | SyscallRequest::CallContract(_)
                | SyscallRequest::Deploy(_) => {
                proof {
                    assert(false);
                }
                Err(SyscallHandlerError::UnknownSyscall)
            },
            SyscallRequest::StorageRead(req) => {
                let resp = self.storage_read(state, memory, req, remaining_gas)?;
                Ok(resp)
            },
            SyscallRequest::StorageWrite(req) => {
                let resp = self.storage_write(state, memory, req, remaining_gas)?;
                Ok(resp)
            },
            SyscallRequest::GetExecutionInfo => {
                let resp = self.get_execution_info(tx, memory, remaining_gas)?;
                Ok(resp)
            },
            SyscallRequest::SendMessageToL1(req) => {
                let resp = self.send_message_to_l1(tx, memory, req, remaining_gas)?;
                Ok(resp)
            },
            SyscallRequest::EmitEvent(req) => {
                let resp = self.emit_event(tx, memory, req, remaining_gas)?;
                Ok(resp)
            },
            SyscallRequest::GetBlockNumber => {
                let resp = self.get_block_number(remaining_gas)?;
                Ok(resp)
            },
            SyscallRequest::GetBlockTimestamp => {
                let resp = self.get_block_timestamp(remaining_gas)?;
                Ok(resp)
            },
            SyscallRequest::GetBlockHash(req) => {
                let resp = self.get_block_hash(state, memory, req, remaining_gas)?;
                Ok(resp)
            },
            SyscallRequest::ReplaceClass(req) => {
                let resp = self.replace_class(state, req, remaining_gas)?;
                Ok(resp)
            },
            SyscallRequest::Keccak(req) => {
                let resp = self.keccak(memory, req, remaining_gas)?;
                Ok(resp)
            },
        }
    }


    /// Performs the deploy syscall up to its constructor: validates,
    /// derives, installs, and either finishes with a response or hands the
    /// constructor out as a pending execution.
    #[verifier::rlimit(100)]
    pub fn deploy(
        &mut self,
        state: &mut CachedState,
        memory: &mut VmMemory,
        request: DeployRequest,
        remaining_gas: u128,
    ) -> (r: Result<SyscallStep, SyscallHandlerError>)
        requires
            old(memory).wf(),
            old(self).wf(),
            old(state).storage_wf(),
            request.class_hash.wf(),
            request.salt.wf(),
            request.deploy_from_zero.wf(),
        ensures
            final(memory).wf(),
            final(self).wf(),
            final(self).config() == old(self).config(),
            final(self).expected_syscall_ptr == old(self).expected_syscall_ptr,
            old(self).accessed_covers() ==> final(self).accessed_covers(),
            old(state).storage_wf() ==> final(state).storage_wf(),
            final(self).events == old(self).events,
            final(self).l2_to_l1_messages == old(self).l2_to_l1_messages,
            final(self).resources_manager == old(self).resources_manager,
            old(self).internal_calls@.is_prefix_of(final(self).internal_calls@),
            crate::state::class_tables_unchanged(*old(state), *final(state)),
            ({
                let addr_val = old(self).deploy_address(*old(memory), request);
                (request.deploy_from_zero@ == 0 || request.deploy_from_zero@ == 1) && old(
                    memory,
                ).felt_range_ok(request.calldata_start, request.calldata_end) && (addr_val == 0
                    || old(state).class_hash_at(addr_val) != 0 || match old(state).class_of(
                    request.class_hash@,
                ) {
                    None => true,
                    Some(class) => class.constructor_entry_points matches Some(eps) && (eps@.len()
                        > 0 || range_views(
                        *old(memory),
                        request.calldata_start,
                        request.calldata_end,
                    ).len() == 0),
                }) ==> r is Ok
            }),
            old(self).read_values@.is_prefix_of(final(self).read_values@),
            old(self).accessed_keys@.is_prefix_of(final(self).accessed_keys@),
            old(self).read_only_segments@.is_prefix_of(final(self).read_only_segments@),
            mem_extends(*old(memory), *final(memory)),
            match r {
                Ok(step) => match step {
                    SyscallStep::Done(resp) => {
                        let addr_val = old(self).deploy_address(*old(memory), request);
                        let start = rel(old(memory).n_segments() as usize, 0);
                        &&& resp.wf()
                        &&& resp.gas <= remaining_gas
                        &&& if addr_val == 0 || old(state).class_hash_at(addr_val) != 0 {
                            // The address is unavailable: a one-cell failure.
                            &&& resp.gas == remaining_gas
                            &&& resp.body == Some(
                                ResponseBody::Failure {
                                    retdata_start: start,
                                    retdata_end: rel(start.segment_index, 1),
                                },
                            )
                            &&& final(memory).seqs() =~= old(memory).seqs().push(
                                seq![
                                    MaybeRelocatable::Int(
                                        Felt {
                                            l3: 1129270868,
                                            l2: 5927092614250710084,
                                            l1: 5928236102049943105,
                                            l0: 6215329552609201221,
                                        },
                                    ),
                                ],
                            )
                            &&& *final(state) == *old(state)
                            &&& final(self).internal_calls == old(self).internal_calls
                        } else {
                            &&& final(state).class_hash_writes@ == old(
                                state,
                            ).class_hash_writes@.insert(addr_val, ClassHash(request.class_hash))
                            &&& match old(state).class_of(request.class_hash@) {
                                None => {
                                    &&& resp.gas == remaining_gas
                                    &&& resp.body == Some(
                                        ResponseBody::Failure {
                                            retdata_start: start,
                                            retdata_end: rel(start.segment_index, 1),
                                        },
                                    )
                                    &&& final(memory).seqs() =~= old(memory).seqs().push(
                                        seq![
                                            MaybeRelocatable::Int(
                                                Felt {
                                                    l3: 0,
                                                    l2: 1129070931,
                                                    l1: 6007599873342857038,
                                                    l0: 5716298582623342148,
                                                },
                                            ),
                                        ],
                                    )
                                    &&& final(self).internal_calls == old(self).internal_calls
                                },
                                Some(class) => {
                                    // The synthetic empty-constructor record.
                                    &&& class.constructor_entry_points matches Some(eps)
                                        && eps@.len() == 0
                                    &&& resp.gas == remaining_gas
                                    &&& (resp.body matches Some(ResponseBody::Deploy {
                                        contract_address,
                                        retdata_start,
                                        retdata_end,
                                    }) && contract_address@ == addr_val && retdata_start == start
                                        && retdata_end == start)
                                    &&& final(memory).seqs() =~~= old(memory).seqs().push(
                                        Seq::empty(),
                                    )
                                    &&& final(self).internal_calls@.len() == old(
                                        self,
                                    ).internal_calls@.len() + 1
                                    &&& final(self).internal_calls@.drop_last() == old(
                                        self,
                                    ).internal_calls@
                                    &&& ({
                                        let ci = final(self).internal_calls@.last();
                                        &&& ci.contract_address@ == addr_val
                                        &&& ci.caller_address == old(self).contract_address
                                        &&& ci.class_hash == Some(ClassHash(request.class_hash))
                                        &&& ci.entry_point_type == Some(
                                            EntryPointType::Constructor,
                                        )
                                        &&& ci.retdata@.len() == 0
                                        &&& ci.gas_consumed == 0
                                        &&& !ci.failure_flag
                                    })
                                },
                            }
                        }
                    },
                    SyscallStep::PendingCall(pc) => {
                        &&& pc.remaining_gas == remaining_gas
                        &&& pc.entry_point.initial_gas == remaining_gas
                        &&& felts_wf(pc.entry_point.calldata@)
                        &&& pc.entry_point.contract_address.wf()
                        &&& pc.entry_point.caller_address.wf()
                        &&& pc.entry_point.entry_point_selector.wf()
                        &&& final(memory).seqs() == old(memory).seqs()
                        &&& *final(self) == *old(self)
                        &&& *final(state) == *old(state)
                    },
                    SyscallStep::PendingDeploy(pd) => {
                        let addr_val = old(self).deploy_address(*old(memory), request);
                        &&& pd.remaining_gas == remaining_gas
                        &&& pd.entry_point.initial_gas == remaining_gas
                        &&& felts_wf(pd.entry_point.calldata@)
                        &&& pd.entry_point.contract_address.wf()
                        &&& pd.entry_point.caller_address.wf()
                        &&& pd.entry_point.entry_point_selector.wf()
                        &&& pd.deployed_address.wf()
                        &&& pd.deployed_address@ == addr_val
                        &&& pd.entry_point.contract_address@ == addr_val
                        &&& pd.entry_point.caller_address == old(self).contract_address
                        &&& pd.entry_point.entry_point_type == EntryPointType::Constructor
                        &&& pd.entry_point.entry_point_selector@ == sn_keccak_spec(
                            constructor_name(),
                        )
                        &&& felt_views(pd.entry_point.calldata@) == range_views(
                            *old(memory),
                            request.calldata_start,
                            request.calldata_end,
                        )
                        &&& final(state).class_hash_writes@ == old(
                            state,
                        ).class_hash_writes@.insert(addr_val, ClassHash(request.class_hash))
                        &&& final(memory).seqs() == old(memory).seqs()
                        &&& *final(self) == *old(self)
                    },
                },
                Err(e) => !(e is SelectorNotInHandlerMap) && !(e is GasNotNarrow) && !(e
                    is SelectorDoesNotHaveAssociatedGas),
            },
    {
        broadcast use lemma_seq_prefix_refl, lemma_seq_prefix_push, lemma_seq_prefix_via_drop_last,
            lemma_seq_prefix_push_eq, lemma_felts_wf_push;

        let (addr, phase) = self.syscall_deploy(state, memory, request, remaining_gas)?;
        proof {
            match &phase {
                DeployPhase::Finished(result) => {
                    assert(cells_wf(result.retdata@));
                },
                DeployPhase::NeedsConstructor(ep) => {
                    assert(felts_wf(ep.calldata@));
                    assert(ep.contract_address.wf());
                    assert(ep.caller_address.wf());
                    assert(ep.entry_point_selector.wf());
                    assert(ep.initial_gas == remaining_gas);
                },
            }
        }
        self.deploy_phase_step(memory, addr, phase, remaining_gas)
    }

    /// Turns a finished deploy phase into its response, or hands the
    /// constructor out as a pending execution.
    fn deploy_phase_step(
        &mut self,
        memory: &mut VmMemory,
        addr: ContractAddress,
        phase: DeployPhase,
        remaining_gas: u128,
    ) -> (r: Result<SyscallStep, SyscallHandlerError>)
        requires
            old(memory).wf(),
            addr.wf(),
            phase matches DeployPhase::Finished(res) ==> cells_wf(res.retdata@),
            phase matches DeployPhase::NeedsConstructor(ep) ==> felts_wf(ep.calldata@)
                && ep.contract_address.wf() && ep.caller_address.wf()
                && ep.entry_point_selector.wf() && ep.initial_gas == remaining_gas,
        ensures
            final(memory).wf(),
            final(self).events == old(self).events,
            final(self).l2_to_l1_messages == old(self).l2_to_l1_messages,
            final(self).internal_calls == old(self).internal_calls,
            final(self).read_values == old(self).read_values,
            final(self).accessed_keys == old(self).accessed_keys,
            final(self).touched_keys == old(self).touched_keys,
            final(self).expected_syscall_ptr == old(self).expected_syscall_ptr,
            final(self).resources_manager == old(self).resources_manager,
            final(self).config() == old(self).config(),
            old(self).read_only_segments@.is_prefix_of(final(self).read_only_segments@),
            mem_extends(*old(memory), *final(memory)),
            r is Ok,
            match r {
                Ok(step) => match step {
                    SyscallStep::Done(resp) => {
                        &&& resp.wf()
                        &&& resp.gas <= remaining_gas
                        &&& phase matches DeployPhase::Finished(res) && {
                            let start = rel(old(memory).n_segments() as usize, 0);
                            let end = rel(start.segment_index, res.retdata@.len() as int);
                            &&& resp.gas == if res.gas_consumed <= remaining_gas {
                                (remaining_gas - res.gas_consumed) as u128
                            } else {
                                0
                            }
                            &&& resp.body == Some(
                                if res.is_success {
                                    ResponseBody::Deploy {
                                        contract_address: addr.0,
                                        retdata_start: start,
                                        retdata_end: end,
                                    }
                                } else {
                                    ResponseBody::Failure { retdata_start: start, retdata_end: end }
                                },
                            )
                            &&& final(memory).seqs() =~= old(memory).seqs().push(res.retdata@)
                            &&& final(self).read_only_segments@ == old(
                                self,
                            ).read_only_segments@.push(
                                (
                                    start,
                                    MaybeRelocatable::Int(
                                        Felt { l3: 0, l2: 0, l1: 0, l0: res.retdata@.len() as u64 },
                                    ),
                                ),
                            )
                        }
                    },
                    SyscallStep::PendingCall(_) => false,
                    SyscallStep::PendingDeploy(pd) => {
                        &&& phase matches DeployPhase::NeedsConstructor(ep) && pd.entry_point == ep
                        &&& pd.remaining_gas == remaining_gas
                        &&& pd.entry_point.initial_gas == remaining_gas
                        &&& felts_wf(pd.entry_point.calldata@)
                        &&& pd.entry_point.contract_address.wf()
                        &&& pd.entry_point.caller_address.wf()
                        &&& pd.entry_point.entry_point_selector.wf()
                        &&& pd.deployed_address == addr
                        &&& final(memory).seqs() == old(memory).seqs()
                        &&& *final(self) == *old(self)
                    },
                },
                Err(e) => !(e is SelectorNotInHandlerMap) && !(e is GasNotNarrow) && !(e
                    is SelectorDoesNotHaveAssociatedGas),
            },
    {
        broadcast use lemma_seq_prefix_refl, lemma_seq_prefix_push, lemma_seq_prefix_via_drop_last,
            lemma_seq_prefix_push_eq, lemma_felts_wf_push;

        match phase {
            DeployPhase::Finished(result) => {
                let resp = self.build_deploy_response(memory, addr, result, remaining_gas)?;
                Ok(SyscallStep::Done(resp))
            },
            DeployPhase::NeedsConstructor(ep) => Ok(
                SyscallStep::PendingDeploy(
                    PendingDeploy {
                        entry_point: ep,
                        deployed_address: addr,
                        remaining_gas,
                        response_ptr: Relocatable { segment_index: 0, offset: 0 },
                    },
                ),
            ),
        }
    }

    #[verifier::rlimit(100)]
    fn execute_syscall(
        &mut self,
        state: &mut CachedState,
        memory: &mut VmMemory,
        tx: &mut TransactionExecutionContext,
        request: SyscallRequest,
        remaining_gas: u128,
    ) -> (r: Result<SyscallStep, SyscallHandlerError>)
        requires
            old(memory).wf(),
            old(self).wf(),
            old(state).storage_wf(),
            request_wf(request),
            old(tx).n_emitted_events < u64::MAX,
            old(tx).n_sent_messages < u64::MAX,
            tx_context_wf(*old(tx)),
            old(tx).signature@.len() + 16 <= usize::MAX,
            request is GetBlockHash ==> old(self).block_context.block_info.block_number >= 10,
        ensures
            final(memory).wf(),
            final(self).wf(),
            final(self).config() == old(self).config(),
            final(self).expected_syscall_ptr == old(self).expected_syscall_ptr,
            old(self).accessed_covers() ==> final(self).accessed_covers(),
            old(state).storage_wf() ==> final(state).storage_wf(),
            crate::state::class_tables_unchanged(*old(state), *final(state)),
            events_extended(
                old(self).events@,
                final(self).events@,
                old(tx).n_emitted_events as int,
                final(tx).n_emitted_events as int,
            ),
            messages_extended(
                old(self).l2_to_l1_messages@,
                final(self).l2_to_l1_messages@,
                old(tx).n_sent_messages as int,
                final(tx).n_sent_messages as int,
            ),
            old(self).internal_calls@.is_prefix_of(final(self).internal_calls@),
            old(self).read_values@.is_prefix_of(final(self).read_values@),
            old(self).accessed_keys@.is_prefix_of(final(self).accessed_keys@),
            old(self).read_only_segments@.is_prefix_of(final(self).read_only_segments@),
            *final(tx) == (TransactionExecutionContext {
                n_emitted_events: final(tx).n_emitted_events,
                n_sent_messages: final(tx).n_sent_messages,
                ..*old(tx)
            }),
            final(self).resources_manager == old(self).resources_manager,
            mem_extends(*old(memory), *final(memory)),
            request_executes(*old(self), *old(state), *old(memory), request, remaining_gas as int)
                ==> r is Ok,
            match r {
                Ok(step) => match step {
                    SyscallStep::Done(resp) => resp.wf() && resp.gas <= remaining_gas,
                    SyscallStep::PendingCall(pc) => {
                        &&& pc.remaining_gas == remaining_gas
                        &&& pc.entry_point.initial_gas == remaining_gas
                        &&& felts_wf(pc.entry_point.calldata@)
                        &&& pc.entry_point.contract_address.wf()
                        &&& pc.entry_point.caller_address.wf()
                        &&& pc.entry_point.entry_point_selector.wf()
                        &&& final(memory).seqs() == old(memory).seqs()
                        &&& *final(self) == *old(self)
                        &&& *final(state) == *old(state)
                        &&& *final(tx) == *old(tx)
                    },
                    SyscallStep::PendingDeploy(pd) => {
                        &&& pd.remaining_gas == remaining_gas
                        &&& pd.entry_point.initial_gas == remaining_gas
                        &&& felts_wf(pd.entry_point.calldata@)
                        &&& pd.entry_point.contract_address.wf()
                        &&& pd.entry_point.caller_address.wf()
                        &&& pd.entry_point.entry_point_selector.wf()
                        &&& pd.deployed_address.wf()
                        &&& final(memory).seqs() == old(memory).seqs()
                        &&& *final(self) == *old(self)
                        &&& *final(tx) == *old(tx)
                    },
                },
                Err(e) => !(e is SelectorNotInHandlerMap) && !(e is GasNotNarrow) && !(e
                    is SelectorDoesNotHaveAssociatedGas),
            },
    {
        match request {
            SyscallRequest::LibraryCall(req) => {
                let ep = self.library_call(memory, req, remaining_gas)?;
                Ok(
                    SyscallStep::PendingCall(
                        PendingCall {
                            entry_point: ep,
                            remaining_gas,
                            response_ptr: Relocatable { segment_index: 0, offset: 0 },
                        },
                    ),
                )
            },
            SyscallRequest::CallContract(req) => {
                let ep = self.call_contract(memory, req, remaining_gas)?;
                Ok(
                    SyscallStep::PendingCall(
                        PendingCall {
                            entry_point: ep,
                            remaining_gas,
                            response_ptr: Relocatable { segment_index: 0, offset: 0 },
                        },
                    ),
                )
            },
            SyscallRequest::Deploy(req) => self.deploy(state, memory, req, remaining_gas),
            _ => {
                let resp = self.execute_leaf_syscall(state, memory, tx, request, remaining_gas)?;
                Ok(SyscallStep::Done(resp))
            },
        }
    }

    /// One full syscall: read the selector and gas at `syscall_ptr`, resolve
    /// and count the syscall, decode its arguments, debit the fixed gas or
    /// fail the guest with `Out of gas`, execute, and serialize the response
    /// just past the arguments, leaving `expected_syscall_ptr` right after.
    /// Sub-calls are returned for the driver to execute.
    #[verifier::rlimit(100)]
    pub fn syscall(
        &mut self,
        state: &mut CachedState,
        memory: &mut VmMemory,
        tx: &mut TransactionExecutionContext,
        syscall_ptr: Relocatable,
    ) -> (r: Result<SyscallStep, SyscallHandlerError>)
        requires
            old(memory).wf(),
            old(self).wf(),
            old(state).storage_wf(),
            old(tx).n_emitted_events < u64::MAX,
            old(tx).n_sent_messages < u64::MAX,
            tx_context_wf(*old(tx)),
            old(tx).signature@.len() + 16 <= usize::MAX,
        ensures
            final(memory).wf(),
            final(self).wf(),
            final(self).config() == old(self).config(),
            old(self).accessed_covers() ==> final(self).accessed_covers(),
            old(state).storage_wf() ==> final(state).storage_wf(),
            crate::state::class_tables_unchanged(*old(state), *final(state)),
            events_extended(
                old(self).events@,
                final(self).events@,
                old(tx).n_emitted_events as int,
                final(tx).n_emitted_events as int,
            ),
            messages_extended(
                old(self).l2_to_l1_messages@,
                final(self).l2_to_l1_messages@,
                old(tx).n_sent_messages as int,
                final(tx).n_sent_messages as int,
            ),
            old(self).internal_calls@.is_prefix_of(final(self).internal_calls@),
            old(self).read_values@.is_prefix_of(final(self).read_values@),
            old(self).accessed_keys@.is_prefix_of(final(self).accessed_keys@),
            old(self).read_only_segments@.is_prefix_of(final(self).read_only_segments@),
            *final(tx) == (TransactionExecutionContext {
                n_emitted_events: final(tx).n_emitted_events,
                n_sent_messages: final(tx).n_sent_messages,
                ..*old(tx)
            }),
            mem_extends_except(*old(memory), *final(memory), syscall_ptr.segment_index),
            r is Err ==> final(self).expected_syscall_ptr == old(self).expected_syscall_ptr,
            r is Err && syscall_ptr.segment_index < old(memory).n_segments()
                ==> final(memory).seqs()[syscall_ptr.segment_index as int]
                == old(memory).seqs()[syscall_ptr.segment_index as int],
            dispatch_succeeds(*old(self), *old(state), *old(memory), syscall_ptr) ==> r is Ok,
            old(memory).has_felt(syscall_ptr) && selector_to_syscall(
                old(memory).felt_at(syscall_ptr),
            ) is None ==> (r matches Err(SyscallHandlerError::SelectorNotInHandlerMap(f)) && f@
                == old(memory).felt_at(syscall_ptr)),
            old(memory).has_felt(syscall_ptr) && selector_to_syscall(
                old(memory).felt_at(syscall_ptr),
            ) is Some && syscall_ptr.offset + 1 <= usize::MAX && old(memory).has_felt(
                syscall_ptr.spec_add(1),
            ) && old(memory).felt_at(syscall_ptr.spec_add(1)) >= p128() ==> (r matches Err(
                SyscallHandlerError::GasNotNarrow(f),
            ) && f@ == old(memory).felt_at(syscall_ptr.spec_add(1))),
            match r {
                Ok(step) => {
                    &&& old(memory).has_felt(syscall_ptr)
                    &&& selector_to_syscall(old(memory).felt_at(syscall_ptr)) is Some
                    &&& old(memory).has_felt(syscall_ptr.spec_add(1))
                    &&& old(memory).felt_at(syscall_ptr.spec_add(1)) < p128()
                    &&& ({
                        let name = selector_to_syscall(old(memory).felt_at(syscall_ptr))->Some_0;
                        let initial_gas = old(memory).felt_at(syscall_ptr.spec_add(1));
                        let args_end = syscall_ptr.spec_add(2 + syscall_args_size(name));
                        &&& decode_request(*old(memory), syscall_ptr.spec_add(2), name) is Some
                        &&& syscall_gas_cost(name) is Some
                        &&& final(self).resources_manager.syscall_counter@ == old(
                            self,
                        ).resources_manager.syscall_counter@.update(
                            name_index(name),
                            if old(self).resources_manager.syscall_counter@[name_index(name)]
                                < u64::MAX {
                                (old(self).resources_manager.syscall_counter@[name_index(name)]
                                    + 1) as u64
                            } else {
                                u64::MAX
                            },
                        )
                        &&& match step {
                            SyscallStep::Done(resp) => {
                                &&& resp.wf()
                                &&& old(memory).used(syscall_ptr.segment_index as int)
                                    == syscall_ptr.offset + 2 + syscall_args_size(name)
                                &&& syscall_ptr.offset + 2 + syscall_args_size(name)
                                    + response_cells(resp).len() <= usize::MAX
                                &&& resp.gas <= initial_gas
                                &&& initial_gas >= required_gas(name) ==> resp.gas <= initial_gas
                                    - required_gas(name)
                                &&& initial_gas < required_gas(name) ==> {
                                    // The syscall body did not run: the felt
                                    // of `Out of gas` is the whole retdata
                                    // and nothing else moved.
                                    &&& resp.gas == initial_gas
                                    &&& resp.body == Some(
                                        ResponseBody::Failure {
                                            retdata_start: rel(
                                                old(memory).n_segments() as usize,
                                                0,
                                            ),
                                            retdata_end: rel(old(memory).n_segments() as usize, 1),
                                        },
                                    )
                                    &&& final(memory).seqs()[old(memory).n_segments()] == seq![
                                        MaybeRelocatable::Int(
                                            Felt {
                                                l3: 0,
                                                l2: 0,
                                                l1: 20341,
                                                l0: 8367810592075374963,
                                            },
                                        ),
                                    ]
                                    &&& *final(state) == *old(state)
                                    &&& *final(tx) == *old(tx)
                                    &&& final(self).events == old(self).events
                                    &&& final(self).l2_to_l1_messages == old(self).l2_to_l1_messages
                                    &&& final(self).internal_calls == old(self).internal_calls
                                    &&& final(self).read_values == old(self).read_values
                                    &&& final(self).accessed_keys == old(self).accessed_keys
                                }
                                &&& final(memory).seqs()[syscall_ptr.segment_index as int] == old(
                                    memory,
                                ).seqs()[syscall_ptr.segment_index as int] + response_cells(resp)
                                &&& final(self).expected_syscall_ptr == args_end.spec_add(
                                    response_cells(resp).len() as int,
                                )
                            },
                            SyscallStep::PendingCall(pc) => {
                                &&& pc.response_ptr == args_end
                                &&& pc.remaining_gas == initial_gas - required_gas(name)
                                &&& pc.entry_point.initial_gas == pc.remaining_gas
                                &&& felts_wf(pc.entry_point.calldata@)
                                &&& pc.entry_point.contract_address.wf()
                                &&& pc.entry_point.caller_address.wf()
                                &&& pc.entry_point.entry_point_selector.wf()
                                &&& final(memory).seqs() == old(memory).seqs()
                                &&& final(self).expected_syscall_ptr == old(
                                    self,
                                ).expected_syscall_ptr
                                &&& *final(state) == *old(state)
                                &&& final(self).events == old(self).events
                                &&& final(self).l2_to_l1_messages == old(self).l2_to_l1_messages
                                &&& final(self).internal_calls == old(self).internal_calls
                            },
                            SyscallStep::PendingDeploy(pd) => {
                                &&& pd.response_ptr == args_end
                                &&& pd.remaining_gas == initial_gas - required_gas(name)
                                &&& pd.entry_point.initial_gas == pd.remaining_gas
                                &&& felts_wf(pd.entry_point.calldata@)
                                &&& pd.entry_point.contract_address.wf()
                                &&& pd.entry_point.caller_address.wf()
                                &&& pd.entry_point.entry_point_selector.wf()
                                &&& pd.deployed_address.wf()
                                &&& final(memory).seqs() == old(memory).seqs()
                                &&& final(self).expected_syscall_ptr == old(
                                    self,
                                ).expected_syscall_ptr
                                &&& final(self).events == old(self).events
                                &&& final(self).l2_to_l1_messages == old(self).l2_to_l1_messages
                            },
                        }
                    })
                },
                Err(e) => {
                    &&& (e matches SyscallHandlerError::SelectorNotInHandlerMap(f) ==> old(
                        memory,
                    ).has_felt(syscall_ptr) && f@ == old(memory).felt_at(syscall_ptr)
                        && selector_to_syscall(f@) is None)
                    &&& (e matches SyscallHandlerError::GasNotNarrow(f) ==> old(memory).has_felt(
                        syscall_ptr.spec_add(1),
                    ) && f@ == old(memory).felt_at(syscall_ptr.spec_add(1)) && f@ >= p128())
                },
            },
    {
        broadcast use lemma_seq_prefix_refl, lemma_seq_prefix_push, lemma_seq_prefix_via_drop_last,
            lemma_seq_prefix_push_eq, lemma_felts_wf_push;

        let selector = match memory.get_felt(syscall_ptr) {
            Ok(f) => f,
            Err(e) => {
                return Err(SyscallHandlerError::Memory(e));
            },
        };
        let syscall_name = match self.selector_table.lookup(&selector) {
            Some(n) => n,
            None => {
                return Err(SyscallHandlerError::SelectorNotInHandlerMap(selector));
            },
        };
        let gas_ptr = match syscall_ptr.add(1) {
            Ok(p) => p,
            Err(e) => {
                return Err(SyscallHandlerError::Memory(e));
            },
        };
        let initial_gas_felt = match memory.get_felt(gas_ptr) {
            Ok(f) => f,
            Err(e) => {
                return Err(SyscallHandlerError::Memory(e));
            },
        };
        let initial_gas = match initial_gas_felt.to_u128() {
            Some(g) => g,
            None => {
                return Err(SyscallHandlerError::GasNotNarrow(initial_gas_felt));
            },
        };
        let mut args_ptr = match syscall_ptr.add(2) {
            Ok(p) => p,
            Err(e) => {
                return Err(SyscallHandlerError::Memory(e));
            },
        };
        let request = self.read_and_validate_syscall_request(memory, &mut args_ptr, syscall_name)?;
        let cost = match get_syscall_gas_cost(syscall_name) {
            Some(c) => c,
            None => {
                return Err(SyscallHandlerError::SelectorDoesNotHaveAssociatedGas(selector));
            },
        };
        let required: u128 = if cost >= 10000 {
            cost - 10000
        } else {
            0
        };
        let step = if initial_gas < required {
            let msg = out_of_gas_felt();
            let body = self.failure_from_error_msg(memory, msg)?;
            SyscallStep::Done(SyscallResponse { gas: initial_gas, body: Some(body) })
        } else {
            let remaining_gas = initial_gas - required;
            match self.execute_syscall(state, memory, tx, request, remaining_gas)? {
                SyscallStep::Done(resp) => SyscallStep::Done(resp),
                SyscallStep::PendingCall(pc) => {
                    return Ok(
                        SyscallStep::PendingCall(
                            PendingCall {
                                entry_point: pc.entry_point,
                                remaining_gas: pc.remaining_gas,
                                response_ptr: args_ptr,
                            },
                        ),
                    );
                },
                SyscallStep::PendingDeploy(pd) => {
                    return Ok(
                        SyscallStep::PendingDeploy(
                            PendingDeploy {
                                entry_point: pd.entry_point,
                                deployed_address: pd.deployed_address,
                                remaining_gas: pd.remaining_gas,
                                response_ptr: args_ptr,
                            },
                        ),
                    );
                },
            }
        };
        let resp = match step {
            SyscallStep::Done(resp) => resp,
            _ => {
                proof {
                    assert(false);
                }
                return Err(SyscallHandlerError::UnknownSyscall);
            },
        };
        proof {
            lemma_response_cells_len(resp);
        }
        let cells = resp.to_cairo_compatible_args();
        let end = match memory.write_data(args_ptr, &cells) {
            Ok(p) => p,
            Err(e) => {
                return Err(SyscallHandlerError::Memory(e));
            },
        };
        self.expected_syscall_ptr = end;
        Ok(SyscallStep::Done(resp))
    }
}

} // verus!

verus! {

impl SyscallHandler {
    /// Completes a pending sub-call once its entry point has executed: the
    /// return data is laid out in a fresh read-only segment, the child's
    /// storage reads and accessed keys are merged into this frame, the child
    /// record joins `internal_calls`, and the response is written.
    #[verifier::rlimit(100)]
    pub fn finish_call_syscall(
        &mut self,
        memory: &mut VmMemory,
        pending: PendingCall,
        exec_result: ExecutionResult,
    ) -> (r: Result<(), SyscallHandlerError>)
        requires
            old(memory).wf(),
            pending.response_ptr.segment_index < old(memory).n_segments(),
            exec_result.call_info matches Some(ci) ==> call_info_wf(ci),
        ensures
            final(memory).wf(),
            final(self).events == old(self).events,
            final(self).l2_to_l1_messages == old(self).l2_to_l1_messages,
            final(self).resources_manager == old(self).resources_manager,
            final(self).config() == old(self).config(),
            old(self).accessed_covers() ==> final(self).accessed_covers(),
            old(self).wf() ==> final(self).wf(),
            mem_extends_except(*old(memory), *final(memory), pending.response_ptr.segment_index),
            match r {
                Ok(_) => {
                    &&& exec_result.call_info is Some
                    &&& ({
                        let ci = exec_result.call_info->Some_0;
                        let retdata_start = rel(old(memory).n_segments() as usize, 0);
                        let retdata_end = rel(
                            retdata_start.segment_index,
                            ci.retdata@.len() as int,
                        );
                        let gas = if ci.gas_consumed <= pending.remaining_gas {
                            (pending.remaining_gas - ci.gas_consumed) as u128
                        } else {
                            0
                        };
                        let resp = SyscallResponse {
                            gas,
                            body: Some(
                                if ci.failure_flag {
                                    ResponseBody::Failure { retdata_start, retdata_end }
                                } else {
                                    ResponseBody::CallContract { retdata_start, retdata_end }
                                },
                            ),
                        };
                        &&& final(self).read_values@ == old(self).read_values@
                            + ci.storage_read_values@
                        &&& final(self).accessed_keys@ == old(self).accessed_keys@
                            + ci.accessed_storage_keys@
                        &&& final(self).internal_calls@ == old(self).internal_calls@.push(ci)
                        &&& final(self).read_only_segments@ == old(self).read_only_segments@.push(
                            (
                                retdata_start,
                                MaybeRelocatable::Int(
                                    Felt { l3: 0, l2: 0, l1: 0, l0: ci.retdata@.len() as u64 },
                                ),
                            ),
                        )
                        &&& old(memory).used(pending.response_ptr.segment_index as int)
                            == pending.response_ptr.offset
                        &&& pending.response_ptr.offset + response_cells(resp).len() <= usize::MAX
                        &&& final(memory).seqs()[pending.response_ptr.segment_index as int] == old(
                            memory,
                        ).seqs()[pending.response_ptr.segment_index as int] + response_cells(resp)
                        &&& final(self).expected_syscall_ptr == pending.response_ptr.spec_add(
                            response_cells(resp).len() as int,
                        )
                        &&& resp.gas <= pending.remaining_gas
                    })
                },
                Err(e) => exec_result.call_info is None ==> (e matches
                    SyscallHandlerError::ExecutionError(m) && (match exec_result.revert_error {
                        Some(rm) => m@ == rm@,
                        None => m@ == "Execution error"@,
                    })),
            },
            exec_result.call_info matches Some(ci) && old(memory).used(
                pending.response_ptr.segment_index as int,
            ) == pending.response_ptr.offset && pending.response_ptr.offset + 4 <= usize::MAX
                ==> r is Ok,
            r is Err ==> final(self).expected_syscall_ptr == old(self).expected_syscall_ptr,
    {
        broadcast use lemma_seq_prefix_refl, lemma_seq_prefix_push, lemma_seq_prefix_via_drop_last,
            lemma_seq_prefix_push_eq, lemma_felts_wf_push;

        let call_info = match exec_result.call_info {
            Some(ci) => ci,
            None => {
                let msg = match exec_result.revert_error {
                    Some(m) => m,
                    None => new_execution_error_message(),
                };
                return Err(SyscallHandlerError::ExecutionError(msg));
            },
        };
        let retdata_cells = copy_felts_to_cells(&call_info.retdata);
        proof {
            assert(cells_wf(retdata_cells@)) by {
                assert(forall|i: int|
                    0 <= i < call_info.retdata@.len() ==> (#[trigger] retdata_cells@[i])
                        == MaybeRelocatable::Int(call_info.retdata@[i]));
            }
        }
        let retdata_len = call_info.retdata.len();
        let retdata_start = self.allocate_segment(memory, retdata_cells)?;
        let retdata_end = match retdata_start.add(retdata_len) {
            Ok(p) => p,
            Err(_) => {
                proof {
                    assert(false);
                }
                return Err(SyscallHandlerError::Memory(
                    crate::errors::MemoryError::OffsetOverflow,
                ));
            },
        };
        let gas = if call_info.gas_consumed <= pending.remaining_gas {
            pending.remaining_gas - call_info.gas_consumed
        } else {
            0
        };
        let body = if call_info.failure_flag {
            ResponseBody::Failure { retdata_start, retdata_end }
        } else {
            ResponseBody::CallContract { retdata_start, retdata_end }
        };
        let resp = SyscallResponse { gas, body: Some(body) };
        let ghost pre_reads = self.read_values@;
        append_felts(&mut self.read_values, &call_info.storage_read_values);
        let ghost mid_accessed = self.accessed_keys@;
        append_felts(&mut self.accessed_keys, &call_info.accessed_storage_keys);
        proof {
            lemma_felt_set_concat(mid_accessed, call_info.accessed_storage_keys@);
            assert(felt_set(mid_accessed) <= felt_set(self.accessed_keys@));
            if old(self).wf() {
                let ci = exec_result.call_info->Some_0;
                assert forall|i: int| 0 <= i < self.read_values@.len() implies (
                #[trigger] self.read_values@[i]).wf() by {
                    if i < pre_reads.len() {
                        assert(pre_reads[i].wf());
                    } else {
                        assert(ci.storage_read_values@[i - pre_reads.len()].wf());
                    }
                }
                assert forall|i: int| 0 <= i < self.accessed_keys@.len() implies (
                #[trigger] self.accessed_keys@[i]).wf() by {
                    if i < mid_accessed.len() {
                        assert(mid_accessed[i].wf());
                    } else {
                        assert(ci.accessed_storage_keys@[i - mid_accessed.len()].wf());
                    }
                }
            }
        }
        self.internal_calls.push(call_info);
        let cells = resp.to_cairo_compatible_args();
        let end = match memory.write_data(pending.response_ptr, &cells) {
            Ok(p) => p,
            Err(e) => {
                return Err(SyscallHandlerError::Memory(e));
            },
        };
        self.expected_syscall_ptr = end;
        Ok(())
    }

    /// Completes a pending deploy once its constructor has executed: the
    /// child record joins `internal_calls` and the deploy response is
    /// written.
    #[verifier::rlimit(100)]
    pub fn finish_deploy_syscall(
        &mut self,
        memory: &mut VmMemory,
        pending: PendingDeploy,
        exec_result: ExecutionResult,
    ) -> (r: Result<(), SyscallHandlerError>)
        requires
            old(memory).wf(),
            pending.response_ptr.segment_index < old(memory).n_segments(),
            pending.deployed_address.wf(),
            exec_result.call_info matches Some(ci) ==> call_info_wf(ci),
        ensures
            final(memory).wf(),
            final(self).events == old(self).events,
            final(self).l2_to_l1_messages == old(self).l2_to_l1_messages,
            final(self).read_values == old(self).read_values,
            final(self).accessed_keys == old(self).accessed_keys,
            final(self).touched_keys == old(self).touched_keys,
            final(self).resources_manager == old(self).resources_manager,
            final(self).config() == old(self).config(),
            old(self).accessed_covers() ==> final(self).accessed_covers(),
            old(self).wf() ==> final(self).wf(),
            mem_extends_except(*old(memory), *final(memory), pending.response_ptr.segment_index),
            match r {
                Ok(_) => {
                    &&& exec_result.call_info is Some
                    &&& ({
                        let ci = exec_result.call_info->Some_0;
                        let retdata_start = rel(old(memory).n_segments() as usize, 0);
                        let retdata_end = rel(
                            retdata_start.segment_index,
                            ci.retdata@.len() as int,
                        );
                        let gas = if ci.gas_consumed <= pending.remaining_gas {
                            (pending.remaining_gas - ci.gas_consumed) as u128
                        } else {
                            0
                        };
                        let resp = SyscallResponse {
                            gas,
                            body: Some(
                                if !ci.failure_flag {
                                    ResponseBody::Deploy {
                                        contract_address: pending.deployed_address.0,
                                        retdata_start,
                                        retdata_end,
                                    }
                                } else {
                                    ResponseBody::Failure { retdata_start, retdata_end }
                                },
                            ),
                        };
                        &&& final(self).internal_calls@ == old(self).internal_calls@.push(ci)
                        &&& old(memory).used(pending.response_ptr.segment_index as int)
                            == pending.response_ptr.offset
                        &&& pending.response_ptr.offset + response_cells(resp).len() <= usize::MAX
                        &&& final(memory).seqs()[pending.response_ptr.segment_index as int] == old(
                            memory,
                        ).seqs()[pending.response_ptr.segment_index as int] + response_cells(resp)
                        &&& final(self).expected_syscall_ptr == pending.response_ptr.spec_add(
                            response_cells(resp).len() as int,
                        )
                        &&& resp.gas <= pending.remaining_gas
                    })
                },
                Err(e) => exec_result.call_info is None ==> (e matches
                    SyscallHandlerError::State(se) && (se matches StateError::CustomError(m) && (
                    match exec_result.revert_error {
                        Some(rm) => m@ == rm@,
                        None => m@ == "Execution error"@,
                    }))),
            },
            exec_result.call_info matches Some(ci) && old(memory).used(
                pending.response_ptr.segment_index as int,
            ) == pending.response_ptr.offset && pending.response_ptr.offset + 5 <= usize::MAX
                ==> r is Ok,
            r is Err ==> final(self).expected_syscall_ptr == old(self).expected_syscall_ptr,
    {
        broadcast use lemma_seq_prefix_refl, lemma_seq_prefix_push, lemma_seq_prefix_via_drop_last,
            lemma_seq_prefix_push_eq, lemma_felts_wf_push;

        let call_info = match exec_result.call_info {
            Some(ci) => ci,
            None => {
                let msg = match exec_result.revert_error {
                    Some(m) => m,
                    None => new_execution_error_message(),
                };
                return Err(SyscallHandlerError::State(StateError::CustomError(msg)));
            },
        };
        let result = call_info.result();
        self.internal_calls.push(call_info);
        proof {
            assert(cells_wf(result.retdata@)) by {
                let ci = exec_result.call_info->Some_0;
                assert(forall|i: int|
                    0 <= i < ci.retdata@.len() ==> (#[trigger] result.retdata@[i])
                        == MaybeRelocatable::Int(ci.retdata@[i]));
            }
        }
        let resp = self.build_deploy_response(
            memory,
            pending.deployed_address,
            result,
            pending.remaining_gas,
        )?;
        let cells = resp.to_cairo_compatible_args();
        let end = match memory.write_data(pending.response_ptr, &cells) {
            Ok(p) => p,
            Err(e) => {
                return Err(SyscallHandlerError::Memory(e));
            },
        };
        self.expected_syscall_ptr = end;
        Ok(())
    }
}

/// The default message of a sub-call that failed without a record.
fn new_execution_error_message() -> (r: String)
    ensures
        r@ == "Execution error"@,
{
    "Execution error".to_owned()
}

} // verus!
