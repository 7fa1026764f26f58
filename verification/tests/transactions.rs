use starknet_syscalls::codec::ResponseBody;
use starknet_syscalls::deploy_tx::{Deploy, Transaction};
use starknet_syscalls::errors::{SyscallHandlerError, TransactionError};
use starknet_syscalls::felt::{ClassHash, ContractAddress, Felt};
use starknet_syscalls::handler::{SyscallHandler, SyscallStep};
use starknet_syscalls::keccak_hash::sn_keccak;
use starknet_syscalls::memory::{MaybeRelocatable, Relocatable, VmMemory};
use starknet_syscalls::pedersen::calculate_contract_address;
use starknet_syscalls::starknet_state::StarknetState;
use starknet_syscalls::state::{CachedState, InMemoryStateReader};
use starknet_syscalls::types::{
    BlockInfo, ContractClass, EntryPointType, GuestOp, GuestScript, TransactionExecutionContext,
};

fn felt(n: u64) -> Felt {
    Felt { l3: 0, l2: 0, l1: 0, l0: n }
}

fn empty_ctor_class(hash: Felt) -> ContractClass {
    ContractClass {
        class_hash: hash,
        constructor_entry_points: Some(Vec::new()),
        external_entry_points: Vec::new(),
    }
}

#[test]
fn test_deploy() {
    let mut starknet_state = StarknetState::new(None);
    let class_hash = felt(0x77);
    let contract_class = empty_ctor_class(class_hash);
    let salt = felt(1);

    let (address, info) = starknet_state
        .deploy(contract_class, Vec::new(), salt, None, 0)
        .unwrap();

    // The address is the deterministic derivation with the zero deployer.
    let expected = calculate_contract_address(
        &salt,
        &ClassHash(class_hash),
        &Vec::new(),
        &ContractAddress(felt(0)),
    );
    assert_eq!(address, ContractAddress(expected));
    let ci = info.call_info.unwrap();
    assert_eq!(ci.contract_address, ContractAddress(expected));
    assert_eq!(ci.caller_address, ContractAddress(felt(0)));
    assert_eq!(ci.class_hash, Some(ClassHash(class_hash)));
    assert_eq!(ci.entry_point_type, Some(EntryPointType::Constructor));
    assert!(!ci.failure_flag);
    assert_eq!(info.actual_fee, 0);
    // The class is installed at the address and declared under its hash.
    assert_eq!(
        starknet_state.state.get_class_hash_at(&ContractAddress(expected)),
        ClassHash(class_hash)
    );
    assert!(starknet_state.state.get_contract_class(&ClassHash(class_hash)).is_ok());
}

#[test]
fn deploy_contract_without_constructor_should_fail() {
    let mut state = CachedState::new(InMemoryStateReader::new_default());
    let executor = starknet_syscalls::executor::ScriptedExecutor::new();
    let class_hash = felt(0x77);
    let contract_class = empty_ctor_class(class_hash);
    let internal_deploy = Deploy::new(
        felt(0),
        contract_class,
        vec![felt(10)],
        felt(0),
        felt(0),
    )
    .unwrap();
    let block_context = starknet_syscalls::types::BlockContext::new_default();
    let result = internal_deploy.execute(&mut state, &block_context, &executor);
    assert!(matches!(
        result.unwrap_err(),
        TransactionError::EmptyConstructorCalldata
    ));
}

#[test]
fn invoke_constructor_test() {
    // A class whose constructor writes its first calldata felt under a key.
    let mut starknet_state = StarknetState::new(None);
    let class_hash = felt(0x88);
    let contract_class = ContractClass {
        class_hash,
        constructor_entry_points: Some(vec![starknet_syscalls::types::ContractEntryPoint {
            selector: felt(0),
            offset: 0,
        }]),
        external_entry_points: Vec::new(),
    };
    let owner_key = sn_keccak(&b"owner".to_vec());
    starknet_state.executor.register(
        &ClassHash(class_hash),
        GuestScript {
            ops: vec![GuestOp::Syscall(vec![
                MaybeRelocatable::Int(Felt { l3: 0, l2: 0, l1: 1400139634, l0: 7018689970536281189 }),
                MaybeRelocatable::Int(felt(100000)),
                MaybeRelocatable::Int(felt(0)),
                MaybeRelocatable::Int(owner_key),
                MaybeRelocatable::Int(felt(10)),
            ])],
            retdata: Vec::new(),
            failure_flag: false,
            gas_consumed: 0,
        },
    );
    let (address, info) = starknet_state
        .deploy(contract_class, vec![felt(10)], felt(0), None, 0)
        .unwrap();
    let ci = info.call_info.unwrap();
    assert_eq!(ci.entry_point_type, Some(EntryPointType::Constructor));
    assert_eq!(ci.calldata, vec![felt(10)]);
    // The constructor's write landed in the deployed contract's storage.
    assert_eq!(
        starknet_state.state.get_storage_at(&address, &owner_key).unwrap(),
        felt(10)
    );
}

#[test]
fn create_for_simulation_keeps_the_deploy_and_sets_the_flags() {
    let class_hash = felt(0x77);
    let deploy = Deploy::new(
        felt(0),
        empty_ctor_class(class_hash),
        Vec::new(),
        felt(0),
        felt(0),
    )
    .unwrap();
    let tx = deploy.create_for_simulation(true, false, true);
    let Transaction::Deploy(d) = tx;
    assert!(d.skip_validate);
    assert!(!d.skip_execute);
    assert!(d.skip_fee_transfer);
    assert_eq!(d.contract_address, deploy.contract_address);
}

#[test]
fn get_execution_info_lays_out_the_context_in_a_fresh_segment() {
    let mut memory = VmMemory::new();
    let base = memory.add_segment();
    let handler = SyscallHandler::new_for_testing(
        BlockInfo { block_number: 9, block_timestamp: 88, sequencer_address: ContractAddress(felt(3)) },
        base,
    );
    let mut tx = TransactionExecutionContext::new_default();
    tx.signature = vec![felt(5), felt(6)];
    let resp = handler.get_execution_info(&tx, &mut memory, 700).unwrap();
    assert_eq!(resp.gas, 700);
    let ptr = match resp.body {
        Some(ResponseBody::GetExecutionInfo { exec_info_ptr }) => exec_info_ptr,
        other => panic!("expected an execution-info body, got {:?}", other),
    };
    // The outer record sits eleven cells past the signature.
    assert_eq!(ptr.offset, 2 + 11);
    let seg = &memory.segments[ptr.segment_index];
    // The signature, then the transaction record, then the block record.
    assert_eq!(seg.cells[0], MaybeRelocatable::Int(felt(5)));
    assert_eq!(seg.cells[1], MaybeRelocatable::Int(felt(6)));
    assert_eq!(seg.cells[2 + 8], MaybeRelocatable::Int(felt(9)));
    assert_eq!(seg.cells[2 + 9], MaybeRelocatable::Int(felt(88)));
    assert_eq!(seg.cells[2 + 10], MaybeRelocatable::Int(felt(3)));
    // The outer record points back at both and names the frame.
    assert_eq!(
        seg.cells[ptr.offset],
        MaybeRelocatable::Ptr(Relocatable { segment_index: ptr.segment_index, offset: 2 + 8 })
    );
    assert_eq!(
        seg.cells[ptr.offset + 1],
        MaybeRelocatable::Ptr(Relocatable { segment_index: ptr.segment_index, offset: 2 })
    );
    assert_eq!(seg.cells[ptr.offset + 4], MaybeRelocatable::Int(felt(333)));
}

#[test]
fn replace_class_installs_the_new_hash_for_this_contract() {
    let mut memory = VmMemory::new();
    let base = memory.add_segment();
    let mut handler = SyscallHandler::new_for_testing(
        BlockInfo { block_number: 0, block_timestamp: 0, sequencer_address: ContractAddress(felt(0)) },
        base,
    );
    let mut state = CachedState::new(InMemoryStateReader::new_default());
    let mut tx = TransactionExecutionContext::new_default();
    let ptr = handler.expected_syscall_ptr;
    memory
        .write_data(
            ptr,
            &vec![
                // The replace_class selector.
                MaybeRelocatable::Int(Felt { l3: 0, l2: 0, l1: 1382379628, l0: 7017563984628904819 }),
                MaybeRelocatable::Int(felt(100000)),
                MaybeRelocatable::Int(felt(0xabc)),
            ],
        )
        .unwrap();
    let step = handler.syscall(&mut state, &mut memory, &mut tx, ptr).unwrap();
    match step {
        SyscallStep::Done(resp) => {
            assert_eq!(resp.gas, 95000);
            assert!(resp.body.is_none());
        }
        _ => panic!("replace_class needs no sub-execution"),
    }
    // The handler's own address (1 under the testing constructor) now maps
    // to the new class hash.
    assert_eq!(
        state.get_class_hash_at(&ContractAddress(felt(1))),
        ClassHash(felt(0xabc))
    );
}

#[test]
fn library_call_runs_foreign_code_on_own_storage() {
    let mut memory = VmMemory::new();
    let base = memory.add_segment();
    let mut handler = SyscallHandler::new_for_testing(
        BlockInfo { block_number: 0, block_timestamp: 0, sequencer_address: ContractAddress(felt(0)) },
        base,
    );
    let mut state = CachedState::new(InMemoryStateReader::new_default());
    let mut tx = TransactionExecutionContext::new_default();
    let nowhere = Relocatable { segment_index: 0, offset: 0 };
    let ptr = handler.expected_syscall_ptr;
    memory
        .write_data(
            ptr,
            &vec![
                // The library_call selector.
                MaybeRelocatable::Int(Felt { l3: 0, l2: 0, l1: 5007714, l0: 8241994658211785836 }),
                MaybeRelocatable::Int(felt(500000)),
                MaybeRelocatable::Int(felt(0xb)),
                MaybeRelocatable::Int(felt(9)),
                MaybeRelocatable::Ptr(nowhere),
                MaybeRelocatable::Ptr(nowhere),
            ],
        )
        .unwrap();
    let step = handler.syscall(&mut state, &mut memory, &mut tx, ptr).unwrap();
    match step {
        SyscallStep::PendingCall(pc) => {
            // The callee is this contract itself, delegating to the class.
            assert_eq!(pc.entry_point.contract_address, ContractAddress(felt(1)));
            assert_eq!(pc.entry_point.class_hash, Some(ClassHash(felt(0xb))));
            assert_eq!(
                pc.entry_point.call_type,
                Some(starknet_syscalls::types::CallType::Delegate)
            );
            // library_call costs as much as call_contract.
            assert_eq!(pc.remaining_gas, 500000 - 61000);
        }
        _ => panic!("library_call must hand out a sub-execution"),
    }
}

#[test]
fn block_query_selectors_resolve_but_lack_decoders_or_gas_entries() {
    // The selector table resolves both block queries, yet the request reader
    // has no arm for the timestamp, and the gas table no entry for the
    // number, so each dispatch is fatal in its own way.
    let mut memory = VmMemory::new();
    let base = memory.add_segment();
    let mut handler = SyscallHandler::new_for_testing(
        BlockInfo { block_number: 0, block_timestamp: 0, sequencer_address: ContractAddress(felt(0)) },
        base,
    );
    let mut state = CachedState::new(InMemoryStateReader::new_default());
    let mut tx = TransactionExecutionContext::new_default();
    let ts_selector = sn_keccak(&b"get_block_timestamp".to_vec());
    let ptr = handler.expected_syscall_ptr;
    memory
        .write_data(
            ptr,
            &vec![MaybeRelocatable::Int(ts_selector), MaybeRelocatable::Int(felt(100000))],
        )
        .unwrap();
    let err = handler.syscall(&mut state, &mut memory, &mut tx, ptr).unwrap_err();
    assert!(matches!(err, SyscallHandlerError::UnknownSyscall));

    let bn_selector = sn_keccak(&b"get_block_number".to_vec());
    let ptr = Relocatable { segment_index: base.segment_index, offset: ptr.offset + 2 };
    memory
        .write_data(
            ptr,
            &vec![MaybeRelocatable::Int(bn_selector), MaybeRelocatable::Int(felt(100000))],
        )
        .unwrap();
    let err = handler.syscall(&mut state, &mut memory, &mut tx, ptr).unwrap_err();
    assert!(matches!(
        err,
        SyscallHandlerError::SelectorDoesNotHaveAssociatedGas(_)
    ));
}

#[test]
fn test_execute_entry_point_raw() {
    let mut starknet_state = StarknetState::new(None);
    let contract_address = ContractAddress(felt(0x42));
    let class_hash = ClassHash(felt(0x77));
    starknet_state
        .state
        .set_class_hash_at(contract_address, class_hash)
        .unwrap();
    // The class computes the tenth number of the classic recurrence for the
    // calldata (1, 1, 10) and returns it.
    starknet_state.executor.register(
        &class_hash,
        GuestScript {
            ops: Vec::new(),
            retdata: vec![felt(144)],
            failure_flag: false,
            gas_consumed: 0,
        },
    );
    let entrypoint_selector = sn_keccak(&b"fib".to_vec());
    let result = starknet_state
        .execute_entry_point_raw(
            contract_address,
            entrypoint_selector,
            vec![felt(1), felt(1), felt(10)],
            ContractAddress(felt(0)),
        )
        .unwrap()
        .retdata;
    assert_eq!(result, vec![felt(144)]);
}
