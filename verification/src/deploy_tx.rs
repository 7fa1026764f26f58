//! The deploy transaction: derives the deterministic contract address and
//! transaction hash, installs the class, and runs the constructor through
//! the entry-point executor when the class has one.

use vstd::prelude::*;
use crate::felt::{Felt, ContractAddress, ClassHash, felt_views, felts_wf, p64};
use crate::errors::{SyscallHandlerError, StateError, TransactionError};
use crate::memory::VmMemory;
use crate::state::CachedState;
use crate::executor::{ScriptedExecutor, execute_entry_point};
use crate::pedersen::{contract_address_spec, deploy_tx_hash_spec};
use crate::keccak_hash::sn_keccak_spec;
use crate::codec::{constructor_name, constructor_entry_point_selector};
use crate::types::{
    ContractClass, CallInfo, EntryPointType, ExecutionEntryPoint, BlockContext,
    TransactionExecutionContext, TransactionExecutionInfo, copy_felts, class_equiv,
};
use crate::handler::block_context_wf;

verus! {

/// A deploy transaction on the network.
#[derive(Debug)]
pub struct Deploy {
    pub hash_value: Felt,
    pub version: Felt,
    pub contract_address: ContractAddress,
    pub contract_address_salt: Felt,
    pub contract_hash: ClassHash,
    pub contract_class: ContractClass,
    pub constructor_calldata: Vec<Felt>,
    pub skip_validate: bool,
    pub skip_execute: bool,
    pub skip_fee_transfer: bool,
}

/// A transaction ready to execute.
#[derive(Debug)]
pub enum Transaction {
    Deploy(Deploy),
}

/// All felts a contract class carries are well formed.
pub open spec fn class_wf(c: ContractClass) -> bool {
    c.class_hash.wf()
}

impl Deploy {
    /// The fields a deploy derives from its inputs: the class hash comes
    /// from compilation, the address from the salt, hash and calldata with
    /// the zero deployer.
    pub open spec fn derived_ok(self, calldata: Seq<Felt>) -> bool {
        &&& self.contract_hash == (ClassHash(self.contract_class.class_hash))
        &&& self.contract_address@ == contract_address_spec(
            self.contract_address_salt@,
            self.contract_class.class_hash@,
            felt_views(calldata),
            0,
        )
        &&& self.constructor_calldata@ == calldata
    }

    /// Builds a deploy, deriving the address and the transaction hash.
    pub fn new(
        contract_address_salt: Felt,
        contract_class: ContractClass,
        constructor_calldata: Vec<Felt>,
        chain_id: Felt,
        version: Felt,
    ) -> (r: Result<Deploy, SyscallHandlerError>)
        requires
            contract_address_salt.wf(),
            class_wf(contract_class),
            felts_wf(constructor_calldata@),
            constructor_calldata@.len() < p64(),
            chain_id.wf(),
            version.wf(),
        ensures
            match r {
                Ok(d) => {
                    &&& d.derived_ok(constructor_calldata@)
                    &&& d.contract_class == contract_class
                    &&& d.contract_address_salt == contract_address_salt
                    &&& d.version == version
                    &&& d.hash_value@ == deploy_tx_hash_spec(
                        version@,
                        d.contract_address@,
                        sn_keccak_spec(constructor_name()),
                        felt_views(constructor_calldata@),
                        chain_id@,
                    )
                    &&& d.contract_address.wf()
                    &&& d.hash_value.wf()
                    &&& !d.skip_validate && !d.skip_execute && !d.skip_fee_transfer
                },
                Err(_) => false,
            },
    {
        let class_hash = ClassHash(contract_class.class_hash);
        let address_felt = crate::pedersen::calculate_contract_address(
            &contract_address_salt,
            &class_hash,
            &constructor_calldata,
            &ContractAddress::zero(),
        );
        let contract_address = ContractAddress(address_felt);
        let selector = constructor_entry_point_selector();
        let hash_value = crate::pedersen::calculate_deploy_transaction_hash(
            &version,
            &contract_address,
            &selector,
            &constructor_calldata,
            &chain_id,
        );
        Ok(
            Deploy {
                hash_value,
                version,
                contract_address,
                contract_address_salt,
                contract_hash: class_hash,
                contract_class,
                constructor_calldata,
                skip_validate: false,
                skip_execute: false,
                skip_fee_transfer: false,
            },
        )
    }

    /// Builds a deploy with an externally supplied transaction hash.
    pub fn new_with_tx_hash(
        contract_address_salt: Felt,
        contract_class: ContractClass,
        constructor_calldata: Vec<Felt>,
        version: Felt,
        hash_value: Felt,
    ) -> (r: Result<Deploy, SyscallHandlerError>)
        requires
            contract_address_salt.wf(),
            class_wf(contract_class),
            felts_wf(constructor_calldata@),
            constructor_calldata@.len() < p64(),
            version.wf(),
            hash_value.wf(),
        ensures
            match r {
                Ok(d) => {
                    &&& d.derived_ok(constructor_calldata@)
                    &&& d.contract_class == contract_class
                    &&& d.contract_address_salt == contract_address_salt
                    &&& d.version == version
                    &&& d.hash_value == hash_value
                    &&& d.contract_address.wf()
                    &&& !d.skip_validate && !d.skip_execute && !d.skip_fee_transfer
                },
                Err(_) => false,
            },
    {
        let class_hash = ClassHash(contract_class.class_hash);
        let address_felt = crate::pedersen::calculate_contract_address(
            &contract_address_salt,
            &class_hash,
            &constructor_calldata,
            &ContractAddress::zero(),
        );
        let contract_address = ContractAddress(address_felt);
        Ok(
            Deploy {
                hash_value,
                version,
                contract_address,
                contract_address_salt,
                contract_hash: class_hash,
                contract_class,
                constructor_calldata,
                skip_validate: false,
                skip_execute: false,
                skip_fee_transfer: false,
            },
        )
    }

    /// The class hash of the deployed contract.
    pub fn class_hash(&self) -> (r: ClassHash)
        ensures
            r == self.contract_hash,
    {
        ClassHash(self.contract_hash.0)
    }

    /// Whether the class declares an empty constructor table; no table at
    /// all is a fatal error.
    pub fn constructor_entry_points_empty(&self, contract_class: &ContractClass) -> (r: Result<
        bool,
        StateError,
    >)
        ensures
            match r {
                Ok(b) => contract_class.constructor_entry_points matches Some(eps) && b == (
                eps@.len() == 0),
                Err(e) => contract_class.constructor_entry_points is None && e
                    == StateError::NoneEntryPointType,
            },
    {
        match &contract_class.constructor_entry_points {
            Some(eps) => Ok(eps.len() == 0),
            None => Err(StateError::NoneEntryPointType),
        }
    }

    /// Installs the class and the address binding, then runs the
    /// constructor, or synthesizes its record when the class has none.
    #[verifier::rlimit(100)]
    pub fn apply(
        &self,
        state: &mut CachedState,
        block_context: &BlockContext,
        executor: &ScriptedExecutor,
    ) -> (r: Result<TransactionExecutionInfo, TransactionError>)
        requires
            old(state).storage_wf(),
            executor.wf(),
            class_wf(self.contract_class),
            self.contract_address.wf(),
            self.hash_value.wf(),
            self.version.wf(),
            felts_wf(self.constructor_calldata@),
            block_context_wf(*block_context),
        ensures
            final(state).storage_wf(),
            // An empty-constructor deploy onto a fresh, nonzero address is
            // owed success.
            (self.contract_class.constructor_entry_points matches Some(eps) && eps@.len() == 0)
                && self.constructor_calldata@.len() == 0 && self.contract_address@ != 0 && old(
                state,
            ).class_hash_at(self.contract_address@) == 0 ==> r is Ok,
            match r {
                Ok(info) => {
                    &&& info.call_info is Some
                    &&& info.fee_transfer_info is None
                    &&& info.validate_info is None
                    // The class is declared under its hash and bound at the
                    // deterministic address.
                    &&& (final(state).class_of(self.contract_hash@) matches Some(c)
                        && class_equiv(self.contract_class, c))
                    &&& ({
                        let ci = info.call_info->Some_0;
                        &&& ci.contract_address == self.contract_address
                        &&& ci.caller_address@ == 0
                        &&& ci.entry_point_type == Some(EntryPointType::Constructor)
                        &&& ci.entry_point_selector matches Some(sel) && sel@ == sn_keccak_spec(
                            constructor_name(),
                        )
                        &&& (ci.class_hash matches Some(ch) && ch@ == self.contract_hash@)
                    })
                    &&& (self.contract_class.constructor_entry_points matches Some(eps)
                        && eps@.len() == 0 ==> {
                        let ci = info.call_info->Some_0;
                        &&& self.constructor_calldata@.len() == 0
                        &&& ci.class_hash == Some(self.contract_hash)
                        &&& ci.retdata@.len() == 0
                        &&& ci.calldata@.len() == 0
                        &&& ci.internal_calls@.len() == 0
                        &&& ci.gas_consumed == 0
                        &&& !ci.failure_flag
                        &&& crate::messages_l1::no_messages_shallow(ci)
                        &&& crate::messages_l1::no_events_shallow(ci)
                        &&& final(state).class_hash_at(self.contract_address@)
                            == self.contract_hash@
                        &&& info.revert_error is None
                    })
                    &&& (self.contract_class.constructor_entry_points matches Some(eps)
                        && eps@.len() > 0 ==> {
                        let ci = info.call_info->Some_0;
                        &&& ci.calldata@ == self.constructor_calldata@
                        &&& executor.scripts@.dom().contains(self.contract_hash@)
                        &&& ci.retdata@ == executor.scripts@[self.contract_hash@].retdata@
                        &&& ci.failure_flag == executor.scripts@[self.contract_hash@].failure_flag
                        &&& ci.gas_consumed == executor.scripts@[self.contract_hash@].gas_consumed
                        &&& info.revert_error is None
                    })
                },
                Err(_) => true,
            },
    {
        let class_hash = self.class_hash();
        let class_copy = crate::types::copy_class(&self.contract_class);
        match state.set_contract_class(&class_hash, class_copy) {
            Ok(_) => {},
            Err(e) => {
                return Err(TransactionError::State(e));
            },
        }
        match state.deploy_contract(self.contract_address, class_hash) {
            Ok(_) => {},
            Err(e) => {
                return Err(TransactionError::State(e));
            },
        }
        let empty = match self.constructor_entry_points_empty(&self.contract_class) {
            Ok(b) => b,
            Err(e) => {
                return Err(TransactionError::State(e));
            },
        };
        if empty {
            match self.handle_empty_constructor() {
                Ok(info) => Ok(info),
                Err(e) => Err(e),
            }
        } else {
            self.invoke_constructor(state, block_context, executor)
        }
    }

    /// The record of a deploy whose class has no constructor: the calldata
    /// must be empty, and a synthetic constructor record is produced.
    pub fn handle_empty_constructor(&self) -> (r: Result<
        TransactionExecutionInfo,
        TransactionError,
    >)
        ensures
            self.constructor_calldata@.len() == 0 ==> r is Ok,
            match r {
                Ok(info) => {
                    &&& self.constructor_calldata@.len() == 0
                    &&& info.call_info is Some
                    &&& info.fee_transfer_info is None
                    &&& info.validate_info is None
                    &&& info.revert_error is None
                    &&& ({
                        let ci = info.call_info->Some_0;
                        &&& ci.contract_address == self.contract_address
                        &&& ci.caller_address@ == 0
                        &&& ci.class_hash == Some(self.contract_hash)
                        &&& ci.entry_point_type == Some(EntryPointType::Constructor)
                        &&& ci.entry_point_selector matches Some(sel) && sel@ == sn_keccak_spec(
                            constructor_name(),
                        )
                        &&& ci.calldata@.len() == 0
                        &&& ci.retdata@.len() == 0
                        &&& ci.internal_calls@.len() == 0
                        &&& ci.events@.len() == 0
                        &&& ci.l2_to_l1_messages@.len() == 0
                        &&& ci.storage_read_values@.len() == 0
                        &&& ci.accessed_storage_keys@.len() == 0
                        &&& ci.gas_consumed == 0
                        &&& !ci.failure_flag
                    })
                },
                Err(e) => self.constructor_calldata@.len() > 0 && e
                    == TransactionError::EmptyConstructorCalldata,
            },
    {
        if self.constructor_calldata.len() > 0 {
            return Err(TransactionError::EmptyConstructorCalldata);
        }
        let selector = constructor_entry_point_selector();
        let call_info = CallInfo::empty_constructor_call(
            self.contract_address,
            ContractAddress::zero(),
            Some(ClassHash(self.contract_hash.0)),
            selector,
        );
        Ok(TransactionExecutionInfo::new_without_fee_info(None, Some(call_info), None))
    }

    /// Runs the constructor entry point under a fresh transaction context
    /// and memory.
    #[verifier::rlimit(100)]
    pub fn invoke_constructor(
        &self,
        state: &mut CachedState,
        block_context: &BlockContext,
        executor: &ScriptedExecutor,
    ) -> (r: Result<TransactionExecutionInfo, TransactionError>)
        requires
            old(state).storage_wf(),
            executor.wf(),
            self.contract_address.wf(),
            self.hash_value.wf(),
            self.version.wf(),
            felts_wf(self.constructor_calldata@),
            block_context_wf(*block_context),
        ensures
            final(state).storage_wf(),
            crate::state::class_tables_unchanged(*old(state), *final(state)),
            !executor.scripts@.dom().contains(
                old(state).class_hash_at(self.contract_address@),
            ) ==> r matches Err(TransactionError::MissingClassHash),
            match r {
                Ok(info) => {
                    &&& info.call_info is Some
                    &&& info.fee_transfer_info is None
                    &&& info.validate_info is None
                    &&& info.revert_error is None
                    &&& ({
                        let ci = info.call_info->Some_0;
                        let h = old(state).class_hash_at(self.contract_address@);
                        &&& ci.contract_address == self.contract_address
                        &&& ci.caller_address@ == 0
                        &&& ci.entry_point_type == Some(EntryPointType::Constructor)
                        &&& ci.entry_point_selector matches Some(sel) && sel@ == sn_keccak_spec(
                            constructor_name(),
                        )
                        &&& ci.calldata@ == self.constructor_calldata@
                        &&& executor.scripts@.dom().contains(h)
                        &&& (ci.class_hash matches Some(ch) && ch@ == h)
                        &&& ci.retdata@ == executor.scripts@[h].retdata@
                        &&& ci.failure_flag == executor.scripts@[h].failure_flag
                        &&& ci.gas_consumed == executor.scripts@[h].gas_consumed
                    })
                },
                Err(_) => true,
            },
    {
        let selector = constructor_entry_point_selector();
        let call = ExecutionEntryPoint::new(
            ContractAddress(self.contract_address.0),
            copy_felts(&self.constructor_calldata),
            selector,
            ContractAddress::zero(),
            EntryPointType::Constructor,
            None,
            None,
            0,
        );
        let mut tx_execution_context = TransactionExecutionContext::new(
            ContractAddress::zero(),
            Felt { l3: self.hash_value.l3, l2: self.hash_value.l2, l1: self.hash_value.l1, l0: self.hash_value.l0 },
            Vec::new(),
            0,
            Felt::zero(),
            block_context.invoke_tx_max_n_steps,
            Felt { l3: self.version.l3, l2: self.version.l2, l1: self.version.l1, l0: self.version.l0 },
        );
        let mut memory = VmMemory::new();
        let result = execute_entry_point(
            executor,
            &call,
            state,
            &mut memory,
            block_context,
            &mut tx_execution_context,
            true,
            block_context.validate_max_n_steps,
        )?;
        let call_info = match result.call_info {
            Some(ci) => ci,
            None => {
                return Err(TransactionError::CallInfoIsNone);
            },
        };
        Ok(
            TransactionExecutionInfo::new_without_fee_info(
                None,
                Some(call_info),
                result.revert_error,
            ),
        )
    }

    /// Applies the deploy and fills in the (zero) fee information.
    #[verifier::rlimit(100)]
    pub fn execute(
        &self,
        state: &mut CachedState,
        block_context: &BlockContext,
        executor: &ScriptedExecutor,
    ) -> (r: Result<TransactionExecutionInfo, TransactionError>)
        requires
            old(state).storage_wf(),
            executor.wf(),
            class_wf(self.contract_class),
            self.contract_address.wf(),
            self.hash_value.wf(),
            self.version.wf(),
            felts_wf(self.constructor_calldata@),
            block_context_wf(*block_context),
        ensures
            final(state).storage_wf(),
            (self.contract_class.constructor_entry_points matches Some(eps) && eps@.len() == 0)
                && self.constructor_calldata@.len() == 0 && self.contract_address@ != 0 && old(
                state,
            ).class_hash_at(self.contract_address@) == 0 ==> r is Ok,
            match r {
                Ok(info) => {
                    &&& info.call_info is Some
                    &&& info.actual_fee == 0
                    &&& info.fee_transfer_info is None
                    &&& (final(state).class_of(self.contract_hash@) matches Some(c)
                        && class_equiv(self.contract_class, c))
                    &&& ({
                        let ci = info.call_info->Some_0;
                        &&& ci.contract_address == self.contract_address
                        &&& ci.caller_address@ == 0
                        &&& ci.entry_point_type == Some(EntryPointType::Constructor)
                        &&& (ci.class_hash matches Some(ch) && ch@ == self.contract_hash@)
                    })
                    &&& (self.contract_class.constructor_entry_points matches Some(eps)
                        && eps@.len() == 0 ==> {
                        let ci = info.call_info->Some_0;
                        &&& ci.retdata@.len() == 0
                        &&& !ci.failure_flag
                        &&& crate::messages_l1::no_messages_shallow(ci)
                        &&& crate::messages_l1::no_events_shallow(ci)
                        &&& final(state).class_hash_at(self.contract_address@)
                            == self.contract_hash@
                    })
                    &&& info.validate_info is None
                },
                Err(_) => true,
            },
    {
        let mut tx_exec_info = self.apply(state, block_context, executor)?;
        tx_exec_info.set_fee_info(0, None);
        Ok(tx_exec_info)
    }

    /// A copy of this deploy with the simulation flags set.
    pub fn create_for_simulation(
        &self,
        skip_validate: bool,
        skip_execute: bool,
        skip_fee_transfer: bool,
    ) -> (r: Transaction)
        ensures
            r matches Transaction::Deploy(d) && d.skip_validate == skip_validate
                && d.skip_execute == skip_execute && d.skip_fee_transfer == skip_fee_transfer
                && d.contract_address == self.contract_address && d.contract_hash
                == self.contract_hash,
    {
        let tx = Deploy {
            hash_value: self.hash_value,
            version: self.version,
            contract_address: self.contract_address,
            contract_address_salt: self.contract_address_salt,
            contract_hash: self.contract_hash,
            contract_class: crate::types::copy_class(&self.contract_class),
            constructor_calldata: copy_felts(&self.constructor_calldata),
            skip_validate,
            skip_execute,
            skip_fee_transfer,
        };
        Transaction::Deploy(tx)
    }
}

impl Transaction {
    /// Executes the transaction against the state.
    #[verifier::rlimit(100)]
    pub fn execute(
        &self,
        state: &mut CachedState,
        block_context: &BlockContext,
        executor: &ScriptedExecutor,
        remaining_gas: u128,
    ) -> (r: Result<TransactionExecutionInfo, TransactionError>)
        requires
            old(state).storage_wf(),
            executor.wf(),
            self matches Transaction::Deploy(d) ==> class_wf(d.contract_class)
                && d.contract_address.wf() && d.hash_value.wf() && d.version.wf() && felts_wf(
                d.constructor_calldata@,
            ),
            block_context_wf(*block_context),
        ensures
            final(state).storage_wf(),
            r matches Ok(info) ==> info.call_info is Some,
            match self {
                Transaction::Deploy(d) => {
                    &&& ((d.contract_class.constructor_entry_points matches Some(eps)
                        && eps@.len() == 0) && d.constructor_calldata@.len() == 0
                        && d.contract_address@ != 0 && old(state).class_hash_at(
                        d.contract_address@,
                    ) == 0 ==> r is Ok)
                    &&& (r matches Ok(info) ==> {
                        &&& info.actual_fee == 0
                        &&& info.fee_transfer_info is None
                        &&& info.validate_info is None
                        &&& (final(state).class_of(d.contract_hash@) matches Some(c)
                            && class_equiv(d.contract_class, c))
                        &&& ({
                            let ci = info.call_info->Some_0;
                            &&& ci.contract_address == d.contract_address
                            &&& ci.caller_address@ == 0
                            &&& ci.entry_point_type == Some(EntryPointType::Constructor)
                            &&& (ci.class_hash matches Some(ch) && ch@ == d.contract_hash@)
                        })
                        &&& (d.contract_class.constructor_entry_points matches Some(eps)
                            && eps@.len() == 0 ==> {
                            let ci = info.call_info->Some_0;
                            &&& ci.retdata@.len() == 0
                            &&& !ci.failure_flag
                            &&& crate::messages_l1::no_messages_shallow(ci)
                            &&& crate::messages_l1::no_events_shallow(ci)
                            &&& final(state).class_hash_at(d.contract_address@)
                                == d.contract_hash@
                        })
                    })
                },
            },
    {
        let _ = remaining_gas;
        match self {
            Transaction::Deploy(d) => d.execute(state, block_context, executor),
        }
    }
}

} // verus!
