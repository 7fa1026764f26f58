//! A testing object over the whole stack: a network state with its
//! transactional cache, the per-class behaviours, and the log of messages
//! and events harvested from executions.

use vstd::prelude::*;
use crate::felt::{Felt, ContractAddress, felts_wf, p64};
use crate::errors::{TransactionError, StarknetStateError};
use crate::memory::VmMemory;
use crate::state::{CachedState, InMemoryStateReader};
use crate::executor::{ScriptedExecutor, execute_entry_point};
use crate::types::{
    ContractClass, CallInfo, Event, EntryPointType, ExecutionEntryPoint, BlockContext,
    TransactionExecutionContext, TransactionExecutionInfo, copy_felts,
};
use crate::deploy_tx::{Deploy, Transaction, class_wf};
use crate::messages_l1::{
    StarknetMessageToL1, ExecutionInfo, MessageToL1Info, message_encoding, messages_quiet,
};
use crate::keccak_hash::keccak256_spec;
use crate::types::{Event as EventRecord};
use crate::handler::block_context_wf;

verus! {

/// The map denoted by a byte-keyed association list; a later entry wins.
pub open spec fn bytes_map_of(entries: Seq<(Vec<u8>, u64)>) -> Map<Seq<u8>, u64>
    decreases entries.len(),
{
    if entries.len() == 0 {
        Map::empty()
    } else {
        bytes_map_of(entries.drop_last()).insert(entries.last().0@, entries.last().1)
    }
}

/// A map from byte strings to counters, as an association list.
pub struct BytesMap {
    pub entries: Vec<(Vec<u8>, u64)>,
}

impl View for BytesMap {
    type V = Map<Seq<u8>, u64>;

    open spec fn view(&self) -> Map<Seq<u8>, u64> {
        bytes_map_of(self.entries@)
    }
}

/// Compares two byte strings.
pub fn bytes_eq(a: &Vec<u8>, b: &Vec<u8>) -> (r: bool)
    ensures
        r <==> a@ == b@,
{
    if a.len() != b.len() {
        proof {
            assert(a@.len() != b@.len());
        }
        return false;
    }
    let mut i: usize = 0;
    while i < a.len()
        invariant
            0 <= i <= a@.len(),
            a@.len() == b@.len(),
            forall|k: int| 0 <= k < i ==> a@[k] == b@[k],
        decreases a@.len() - i,
    {
        if a[i] != b[i] {
            return false;
        }
        i = i + 1;
    }
    proof {
        assert(a@ =~= b@);
    }
    true
}

proof fn lemma_bytes_map_found(entries: Seq<(Vec<u8>, u64)>, i: int)
    requires
        0 <= i < entries.len(),
        forall|j: int| i < j < entries.len() ==> (#[trigger] entries[j]).0@ != entries[i].0@,
    ensures
        bytes_map_of(entries).dom().contains(entries[i].0@),
        bytes_map_of(entries)[entries[i].0@] == entries[i].1,
    decreases entries.len(),
{
    if i == entries.len() - 1 {
    } else {
        assert(entries.drop_last()[i] == entries[i]);
        lemma_bytes_map_found(entries.drop_last(), i);
    }
}

proof fn lemma_bytes_map_absent(entries: Seq<(Vec<u8>, u64)>, k: Seq<u8>)
    requires
        forall|j: int| 0 <= j < entries.len() ==> (#[trigger] entries[j]).0@ != k,
    ensures
        !bytes_map_of(entries).dom().contains(k),
    decreases entries.len(),
{
    if entries.len() > 0 {
        lemma_bytes_map_absent(entries.drop_last(), k);
    }
}

impl BytesMap {
    pub fn new() -> (r: BytesMap)
        ensures
            r@ =~= Map::<Seq<u8>, u64>::empty(),
    {
        BytesMap { entries: Vec::new() }
    }

    pub fn get(&self, k: &Vec<u8>) -> (r: Option<u64>)
        ensures
            match r {
                Some(v) => self@.dom().contains(k@) && v == self@[k@],
                None => !self@.dom().contains(k@),
            },
    {
        let n = self.entries.len();
        let mut i: usize = n;
        while i > 0
            invariant
                0 <= i <= n,
                n == self.entries@.len(),
                forall|j: int| i <= j < n ==> (#[trigger] self.entries@[j]).0@ != k@,
            decreases i,
        {
            i = i - 1;
            if bytes_eq(&self.entries[i].0, k) {
                proof {
                    lemma_bytes_map_found(self.entries@, i as int);
                }
                return Some(self.entries[i].1);
            }
        }
        proof {
            lemma_bytes_map_absent(self.entries@, k@);
        }
        None
    }

    pub fn insert(&mut self, k: Vec<u8>, v: u64)
        ensures
            final(self)@ == old(self)@.insert(k@, v),
    {
        self.entries.push((k, v));
        proof {
            assert(self.entries@.drop_last() =~= old(self).entries@);
        }
    }
}

/// The hash a message is filed under: the keccak-256 digest of its
/// canonical encoding.
pub open spec fn message_hash_spec(m: MessageToL1Info) -> Seq<u8> {
    keccak256_spec(message_encoding(m.from_address, m.to_address, m.payload@))
}

/// One more pending instance of hash `h`, saturating.
pub open spec fn bumped(m: Map<Seq<u8>, u64>, h: Seq<u8>) -> u64 {
    if m.dom().contains(h) {
        if m[h] < u64::MAX {
            (m[h] + 1) as u64
        } else {
            u64::MAX
        }
    } else {
        1u64
    }
}

/// The pending counts after filing each message in turn.
pub open spec fn counts_after(m: Map<Seq<u8>, u64>, msgs: Seq<MessageToL1Info>) -> Map<
    Seq<u8>,
    u64,
>
    decreases msgs.len(),
{
    if msgs.len() == 0 {
        m
    } else {
        let h = message_hash_spec(msgs.first());
        counts_after(m.insert(h, bumped(m, h)), msgs.drop_first())
    }
}

pub proof fn lemma_counts_after_push(m: Map<Seq<u8>, u64>, msgs: Seq<MessageToL1Info>, x: MessageToL1Info)
    ensures
        counts_after(m, msgs.push(x)) == counts_after(m, msgs).insert(
            message_hash_spec(x),
            bumped(counts_after(m, msgs), message_hash_spec(x)),
        ),
    decreases msgs.len(),
{
    if msgs.len() == 0 {
        assert(msgs.push(x).first() == x);
        assert(msgs.push(x).drop_first() =~= Seq::<MessageToL1Info>::empty());
        assert(counts_after(m, msgs) == m);
        let h = message_hash_spec(x);
        assert(counts_after(m, msgs.push(x)) == counts_after(
            m.insert(h, bumped(m, h)),
            Seq::<MessageToL1Info>::empty(),
        ));
    } else {
        assert(msgs.push(x).first() == msgs.first());
        assert(msgs.push(x).drop_first() =~= msgs.drop_first().push(x));
        let h0 = message_hash_spec(msgs.first());
        lemma_counts_after_push(m.insert(h0, bumped(m, h0)), msgs.drop_first(), x);
        assert(counts_after(m, msgs) == counts_after(
            m.insert(h0, bumped(m, h0)),
            msgs.drop_first(),
        ));
    }
}

/// A state of a network under test.
pub struct StarknetState {
    pub state: CachedState,
    pub block_context: BlockContext,
    /// The declared behaviour of every class; stands in for compiled code.
    pub executor: ScriptedExecutor,
    /// How many times each message hash is pending consumption on L1.
    pub l2_to_l1_messages: BytesMap,
    /// Every message ever sent, in harvest order.
    pub l2_to_l1_messages_log: Vec<StarknetMessageToL1>,
    /// Every event ever emitted, in harvest order.
    pub events: Vec<Event>,
}

impl StarknetState {
    /// The parts of the state that message accounting never touches.
    pub open spec fn wf(self) -> bool {
        &&& self.state.storage_wf()
        &&& self.executor.wf()
        &&& block_context_wf(self.block_context)
    }

    pub fn new(context: Option<BlockContext>) -> (r: StarknetState)
        ensures
            r.l2_to_l1_messages@ =~= Map::<Seq<u8>, u64>::empty(),
            r.l2_to_l1_messages_log@ =~= Seq::<StarknetMessageToL1>::empty(),
            r.events@ =~= Seq::<Event>::empty(),
            context matches Some(c) ==> r.block_context == c,
            context is None ==> r.block_context == crate::types::default_block_context(),
            r.state.contract_classes@ =~= Map::<int, ContractClass>::empty(),
            r.state.storage_writes@ =~= Map::<(int, int), Felt>::empty(),
            r.state.class_hash_writes@ =~= Map::<int, crate::felt::ClassHash>::empty(),
            r.state.nonce_writes@ =~= Map::<int, Felt>::empty(),
            r.state.state_reader.address_to_storage@ =~= Map::<(int, int), Felt>::empty(),
            r.state.state_reader.address_to_class_hash@ =~= Map::<
                int,
                crate::felt::ClassHash,
            >::empty(),
            r.state.state_reader.class_hash_to_contract_class@ =~= Map::<
                int,
                ContractClass,
            >::empty(),
            r.executor.scripts@ =~= Map::<int, crate::types::GuestScript>::empty(),
            block_context_wf(r.block_context) ==> r.wf(),
    {
        let block_context = match context {
            Some(c) => c,
            None => BlockContext::new_default(),
        };
        let state_reader = InMemoryStateReader::new_default();
        let state = CachedState::new(state_reader);
        StarknetState {
            state,
            block_context,
            executor: ScriptedExecutor::new(),
            l2_to_l1_messages: BytesMap::new(),
            l2_to_l1_messages_log: Vec::new(),
            events: Vec::new(),
        }
    }

    pub fn new_with_states(block_context: Option<BlockContext>, state: CachedState) -> (r:
        StarknetState)
        ensures
            r.l2_to_l1_messages@ =~= Map::<Seq<u8>, u64>::empty(),
            r.l2_to_l1_messages_log@ =~= Seq::<StarknetMessageToL1>::empty(),
            r.events@ =~= Seq::<Event>::empty(),
            r.state == state,
            block_context matches Some(c) ==> r.block_context == c,
    {
        let block_context = match block_context {
            Some(c) => c,
            None => BlockContext::new_default(),
        };
        StarknetState {
            state,
            block_context,
            executor: ScriptedExecutor::new(),
            l2_to_l1_messages: BytesMap::new(),
            l2_to_l1_messages_log: Vec::new(),
            events: Vec::new(),
        }
    }

    /// The chain id of this network.
    pub fn chain_id(&self) -> (r: Felt)
        ensures
            r == self.block_context.chain_id,
    {
        Felt {
            l3: self.block_context.chain_id.l3,
            l2: self.block_context.chain_id.l2,
            l1: self.block_context.chain_id.l1,
            l0: self.block_context.chain_id.l0,
        }
    }

    /// Deploys a contract: builds the deploy transaction, declares the
    /// class, and executes it.  Returns the deployed address and the
    /// execution outcome.
    pub fn deploy(
        &mut self,
        contract_class: ContractClass,
        constructor_calldata: Vec<Felt>,
        contract_address_salt: Felt,
        hash_value: Option<Felt>,
        remaining_gas: u128,
    ) -> (r: Result<(ContractAddress, TransactionExecutionInfo), StarknetStateError>)
        requires
            old(self).wf(),
            class_wf(contract_class),
            felts_wf(constructor_calldata@),
            constructor_calldata@.len() < p64(),
            contract_address_salt.wf(),
            hash_value matches Some(h) ==> h.wf(),
        ensures
            final(self).wf(),
            final(self).block_context == old(self).block_context,
            final(self).executor == old(self).executor,
            ({
                // A deploy of a constructor-less class with empty calldata
                // onto a fresh, nonzero address is owed success.
                let addr_val = crate::pedersen::contract_address_spec(
                    contract_address_salt@,
                    contract_class.class_hash@,
                    crate::felt::felt_views(constructor_calldata@),
                    0,
                );
                (contract_class.constructor_entry_points matches Some(eps) && eps@.len() == 0)
                    && constructor_calldata@.len() == 0 && addr_val != 0 && old(
                    self,
                ).state.class_hash_at(addr_val) == 0 ==> r is Ok
            }),
            match r {
                Ok((addr, info)) => {
                    &&& addr@ == crate::pedersen::contract_address_spec(
                        contract_address_salt@,
                        contract_class.class_hash@,
                        crate::felt::felt_views(constructor_calldata@),
                        0,
                    )
                    &&& info.call_info is Some
                    &&& info.actual_fee == 0
                    &&& info.fee_transfer_info is None
                    &&& (final(self).state.class_of(contract_class.class_hash@) matches Some(c)
                        && crate::types::class_equiv(contract_class, c))
                    &&& ({
                        let ci = info.call_info->Some_0;
                        &&& ci.contract_address == addr
                        &&& ci.caller_address@ == 0
                        &&& ci.entry_point_type == Some(crate::types::EntryPointType::Constructor)
                        &&& (ci.class_hash matches Some(ch) && ch@ == contract_class.class_hash@)
                    })
                    &&& (contract_class.constructor_entry_points matches Some(eps) && eps@.len()
                        == 0 ==> {
                        let ci = info.call_info->Some_0;
                        &&& ci.retdata@.len() == 0
                        &&& !ci.failure_flag
                        &&& final(self).state.class_hash_at(addr@) == contract_class.class_hash@
                    })
                },
                Err(_) => true,
            },
    {
        let chain_id = self.chain_id();
        let version = Felt::one();
        let deploy = match hash_value {
            None => match Deploy::new(
                contract_address_salt,
                contract_class,
                constructor_calldata,
                chain_id,
                version,
            ) {
                Ok(d) => d,
                Err(_) => {
                    return Err(
                        StarknetStateError::Transaction(TransactionError::CallInfoIsNone),
                    );
                },
            },
            Some(h) => match Deploy::new_with_tx_hash(
                contract_address_salt,
                contract_class,
                constructor_calldata,
                version,
                h,
            ) {
                Ok(d) => d,
                Err(_) => {
                    return Err(
                        StarknetStateError::Transaction(TransactionError::CallInfoIsNone),
                    );
                },
            },
        };
        let contract_address = ContractAddress(deploy.contract_address.0);
        let contract_hash = deploy.class_hash();
        let class_copy = crate::types::copy_class(&deploy.contract_class);
        match self.state.set_contract_class(&contract_hash, class_copy) {
            Ok(_) => {},
            Err(e) => {
                return Err(StarknetStateError::Transaction(TransactionError::State(e)));
            },
        }
        let tx = Transaction::Deploy(deploy);
        let tx_execution_info = self.execute_tx(&tx, remaining_gas)?;
        Ok((contract_address, tx_execution_info))
    }

    /// Builds a default transaction context and executes one entry point,
    /// harvesting its messages and events.
    pub fn execute_entry_point_raw(
        &mut self,
        contract_address: ContractAddress,
        entry_point_selector: Felt,
        calldata: Vec<Felt>,
        caller_address: ContractAddress,
    ) -> (r: Result<CallInfo, StarknetStateError>)
        requires
            old(self).wf(),
            contract_address.wf(),
            entry_point_selector.wf(),
            felts_wf(calldata@),
            caller_address.wf(),
        ensures
            final(self).wf(),
            final(self).block_context == old(self).block_context,
            final(self).executor == old(self).executor,
            !old(self).executor.scripts@.dom().contains(
                old(self).state.class_hash_at(contract_address@),
            ) ==> r matches Err(StarknetStateError::Transaction(TransactionError::MissingClassHash)),
            match r {
                Ok(ci) => {
                    let h = old(self).state.class_hash_at(contract_address@);
                    &&& ci.contract_address == contract_address
                    &&& ci.caller_address == caller_address
                    &&& ci.entry_point_selector == Some(entry_point_selector)
                    &&& ci.entry_point_type == Some(crate::types::EntryPointType::External)
                    &&& ci.calldata@ == calldata@
                    &&& old(self).executor.scripts@.dom().contains(h)
                    &&& (ci.class_hash matches Some(ch) && ch@ == h)
                    &&& ci.retdata@ == old(self).executor.scripts@[h].retdata@
                    &&& ci.failure_flag == old(self).executor.scripts@[h].failure_flag
                },
                Err(_) => true,
            },
    {
        let call = ExecutionEntryPoint::new(
            contract_address,
            calldata,
            entry_point_selector,
            caller_address,
            EntryPointType::External,
            None,
            None,
            0,
        );
        let mut tx_execution_context = TransactionExecutionContext::new_default();
        let mut memory = VmMemory::new();
        let depth = self.block_context.invoke_tx_max_n_steps;
        let block_context = self.block_context;
        let result = match execute_entry_point(
            &self.executor,
            &call,
            &mut self.state,
            &mut memory,
            &block_context,
            &mut tx_execution_context,
            false,
            depth,
        ) {
            Ok(res) => res,
            Err(e) => {
                return Err(StarknetStateError::Transaction(e));
            },
        };
        let call_info = match result.call_info {
            Some(ci) => ci,
            None => {
                return Err(
                    StarknetStateError::Transaction(TransactionError::CallInfoIsNone),
                );
            },
        };
        let exec_info = ExecutionInfo::Call(Box::new(call_info));
        self.add_messages_and_events(&exec_info)?;
        let call_info = match exec_info {
            ExecutionInfo::Call(b) => *b,
            ExecutionInfo::Transaction(_) => {
                return Err(
                    StarknetStateError::Transaction(TransactionError::CallInfoIsNone),
                );
            },
        };
        Ok(call_info)
    }

    /// Executes a transaction and harvests its messages and events.
    pub fn execute_tx(&mut self, tx: &Transaction, remaining_gas: u128) -> (r: Result<
        TransactionExecutionInfo,
        StarknetStateError,
    >)
        requires
            old(self).wf(),
            tx matches Transaction::Deploy(d) ==> class_wf(d.contract_class)
                && d.contract_address.wf() && d.hash_value.wf() && d.version.wf() && felts_wf(
                d.constructor_calldata@,
            ),
        ensures
            final(self).wf(),
            final(self).block_context == old(self).block_context,
            final(self).executor == old(self).executor,
            r matches Ok(info) ==> info.call_info is Some,
            match tx {
                Transaction::Deploy(d) => {
                    &&& ((d.contract_class.constructor_entry_points matches Some(eps)
                        && eps@.len() == 0) && d.constructor_calldata@.len() == 0
                        && d.contract_address@ != 0 && old(self).state.class_hash_at(
                        d.contract_address@,
                    ) == 0 ==> r is Ok)
                    &&& (r matches Ok(info) ==> {
                        &&& info.actual_fee == 0
                        &&& info.fee_transfer_info is None
                        &&& info.validate_info is None
                        &&& (final(self).state.class_of(d.contract_hash@) matches Some(c)
                            && crate::types::class_equiv(d.contract_class, c))
                        &&& ({
                            let ci = info.call_info->Some_0;
                            &&& ci.contract_address == d.contract_address
                            &&& ci.caller_address@ == 0
                            &&& ci.entry_point_type == Some(
                                crate::types::EntryPointType::Constructor,
                            )
                            &&& (ci.class_hash matches Some(ch) && ch@ == d.contract_hash@)
                        })
                        &&& (d.contract_class.constructor_entry_points matches Some(eps)
                            && eps@.len() == 0 ==> {
                            let ci = info.call_info->Some_0;
                            &&& ci.retdata@.len() == 0
                            &&& !ci.failure_flag
                            &&& final(self).state.class_hash_at(d.contract_address@)
                                == d.contract_hash@
                        })
                    })
                },
            },
    {
        let block_context = self.block_context;
        let info = match tx.execute(&mut self.state, &block_context, &self.executor, remaining_gas)
            {
            Ok(i) => i,
            Err(e) => {
                return Err(StarknetStateError::Transaction(e));
            },
        };
        let exec_info = ExecutionInfo::Transaction(Box::new(info));
        self.add_messages_and_events(&exec_info)?;
        match exec_info {
            ExecutionInfo::Transaction(b) => Ok(*b),
            ExecutionInfo::Call(_) => Err(
                StarknetStateError::Transaction(TransactionError::CallInfoIsNone),
            ),
        }
    }

    /// Harvests the messages and events of an execution in emission order:
    /// each message's pending count rises by one and the logs grow, sorted
    /// by order stamp.  An execution that sent no message is owed success.
    pub fn add_messages_and_events(&mut self, exec_info: &ExecutionInfo) -> (r: Result<
        (),
        StarknetStateError,
    >)
        ensures
            final(self).state == old(self).state,
            final(self).block_context == old(self).block_context,
            final(self).executor == old(self).executor,
            final(self).events@.len() >= old(self).events@.len(),
            forall|k: int| 0 <= k < old(self).events@.len() ==> final(self).events@[k] == old(
                self,
            ).events@[k],
            forall|i: int, j: int|
                old(self).events@.len() <= i < j < final(self).events@.len() ==> (
                #[trigger] final(self).events@[i]).order <= (#[trigger] final(self).events@[j]).order,
            final(self).l2_to_l1_messages_log@.len() >= old(self).l2_to_l1_messages_log@.len(),
            messages_quiet(*exec_info) ==> (r is Ok && final(self).l2_to_l1_messages@ == old(
                self,
            ).l2_to_l1_messages@ && final(self).l2_to_l1_messages_log@.len() == old(
                self,
            ).l2_to_l1_messages_log@.len()),
            r is Err ==> *final(self) == *old(self),
    {
        let msgs = exec_info.get_sorted_l2_to_l1_messages();
        self.record_messages(msgs)?;
        let events = exec_info.get_sorted_events();
        self.record_events(events);
        Ok(())
    }

    /// Files each harvested message: the log grows by one entry per message
    /// and the per-hash pending count rises by one, starting at one for a
    /// hash never seen.  A message too large to hash is refused before
    /// anything is filed.
    pub fn record_messages(&mut self, msgs: Vec<MessageToL1Info>) -> (r: Result<
        (),
        StarknetStateError,
    >)
        ensures
            final(self).state == old(self).state,
            final(self).block_context == old(self).block_context,
            final(self).executor == old(self).executor,
            final(self).events == old(self).events,
            (forall|i: int|
                0 <= i < msgs@.len() ==> 32 * (#[trigger] msgs@[i]).payload@.len() + 232
                    <= usize::MAX) <==> r is Ok,
            final(self).l2_to_l1_messages_log@.len() >= old(self).l2_to_l1_messages_log@.len(),
            match r {
                Ok(_) => {
                    &&& final(self).l2_to_l1_messages@ == counts_after(
                        old(self).l2_to_l1_messages@,
                        msgs@,
                    )
                    &&& final(self).l2_to_l1_messages_log@.len() == old(
                        self,
                    ).l2_to_l1_messages_log@.len() + msgs@.len()
                    &&& (forall|k: int|
                        0 <= k < old(self).l2_to_l1_messages_log@.len() ==> final(self).l2_to_l1_messages_log@[k] == old(self).l2_to_l1_messages_log@[k])
                    &&& (forall|k: int|
                        0 <= k < msgs@.len() ==> {
                            let entry = #[trigger] final(self).l2_to_l1_messages_log@[old(
                                self,
                            ).l2_to_l1_messages_log@.len() + k];
                            &&& entry.from_address == msgs@[k].from_address
                            &&& entry.to_address == msgs@[k].to_address
                            &&& entry.payload@ == msgs@[k].payload@
                        })
                },
                Err(_) => *final(self) == *old(self),
            },
    {
        // Validate every payload first, so a refusal files nothing.
        let mut v: usize = 0;
        let limit: usize = (usize::MAX - 232) / 32;
        proof {
            vstd::arithmetic::div_mod::lemma_fundamental_div_mod((usize::MAX - 232) as int, 32);
        }
        while v < msgs.len()
            invariant
                *self == *old(self),
                limit == (usize::MAX - 232) / 32,
                0 <= v <= msgs@.len(),
                forall|i: int|
                    0 <= i < v ==> 32 * (#[trigger] msgs@[i]).payload@.len() + 232 <= usize::MAX,
            decreases msgs@.len() - v,
        {
            if msgs[v].payload.len() > limit {
                proof {
                    vstd::arithmetic::div_mod::lemma_fundamental_div_mod(
                        (usize::MAX - 232) as int,
                        32,
                    );
                }
                return Err(
                    StarknetStateError::Transaction(TransactionError::CustomError(
                        "message payload too long".to_owned(),
                    )),
                );
            }
            proof {
                vstd::arithmetic::div_mod::lemma_fundamental_div_mod((usize::MAX - 232) as int, 32);
            }
            v = v + 1;
        }
        let ghost counts0 = self.l2_to_l1_messages@;
        let ghost log0 = self.l2_to_l1_messages_log@;
        let mut i: usize = 0;
        while i < msgs.len()
            invariant
                self.state == old(self).state,
                self.block_context == old(self).block_context,
                self.executor == old(self).executor,
                self.events == old(self).events,
                0 <= i <= msgs@.len(),
                forall|k: int|
                    0 <= k < msgs@.len() ==> 32 * (#[trigger] msgs@[k]).payload@.len() + 232
                        <= usize::MAX,
                self.l2_to_l1_messages@ == counts_after(counts0, msgs@.take(i as int)),
                self.l2_to_l1_messages_log@.len() == log0.len() + i,
                forall|k: int| 0 <= k < log0.len() ==> self.l2_to_l1_messages_log@[k] == log0[k],
                forall|k: int|
                    0 <= k < i ==> {
                        let entry = #[trigger] self.l2_to_l1_messages_log@[log0.len() + k];
                        &&& entry.from_address == msgs@[k].from_address
                        &&& entry.to_address == msgs@[k].to_address
                        &&& entry.payload@ == msgs@[k].payload@
                    },
            decreases msgs@.len() - i,
        {
            let m = &msgs[i];
            let starknet_message = StarknetMessageToL1::new(
                m.from_address,
                m.to_address,
                copy_felts(&m.payload),
            );
            let message_hash = starknet_message.get_hash();
            self.l2_to_l1_messages_log.push(starknet_message);
            let next = match self.l2_to_l1_messages.get(&message_hash) {
                Some(c) => if c < u64::MAX {
                    c + 1
                } else {
                    u64::MAX
                },
                None => 1,
            };
            self.l2_to_l1_messages.insert(message_hash, next);
            proof {
                assert(msgs@.take(i + 1) =~= msgs@.take(i as int).push(msgs@[i as int]));
                lemma_counts_after_push(counts0, msgs@.take(i as int), msgs@[i as int]);
                assert(message_hash@ == message_hash_spec(msgs@[i as int]));
            }
            i = i + 1;
        }
        proof {
            assert(msgs@.take(msgs@.len() as int) =~= msgs@);
        }
        Ok(())
    }

    /// Appends each harvested event to the event log.
    pub fn record_events(&mut self, events: Vec<EventRecord>)
        ensures
            final(self).state == old(self).state,
            final(self).block_context == old(self).block_context,
            final(self).executor == old(self).executor,
            final(self).l2_to_l1_messages == old(self).l2_to_l1_messages,
            final(self).l2_to_l1_messages_log == old(self).l2_to_l1_messages_log,
            final(self).events@ == old(self).events@ + events@,
    {
        let mut events = events;
        self.events.append(&mut events);
    }

    /// Consumes one pending instance of the given message hash: unknown
    /// hashes and exhausted counts are refused.
    pub fn consume_message_hash(&mut self, message_hash: Vec<u8>) -> (r: Result<
        (),
        StarknetStateError,
    >)
        ensures
            final(self).state == old(self).state,
            final(self).block_context == old(self).block_context,
            final(self).executor == old(self).executor,
            final(self).events == old(self).events,
            final(self).l2_to_l1_messages_log == old(self).l2_to_l1_messages_log,
            match r {
                Ok(_) => {
                    &&& old(self).l2_to_l1_messages@.dom().contains(message_hash@)
                    &&& old(self).l2_to_l1_messages@[message_hash@] > 0
                    &&& final(self).l2_to_l1_messages@ == old(self).l2_to_l1_messages@.insert(
                        message_hash@,
                        (old(self).l2_to_l1_messages@[message_hash@] - 1) as u64,
                    )
                },
                Err(e) => {
                    &&& e is InvalidMessageHash
                    &&& (!old(self).l2_to_l1_messages@.dom().contains(message_hash@) || old(
                        self,
                    ).l2_to_l1_messages@[message_hash@] == 0)
                    &&& final(self).l2_to_l1_messages == old(self).l2_to_l1_messages
                },
            },
    {
        let val = match self.l2_to_l1_messages.get(&message_hash) {
            Some(v) => v,
            None => {
                return Err(StarknetStateError::InvalidMessageHash);
            },
        };
        if val == 0 {
            Err(StarknetStateError::InvalidMessageHash)
        } else {
            self.l2_to_l1_messages.insert(message_hash, val - 1);
            Ok(())
        }
    }
}

} // verus!
