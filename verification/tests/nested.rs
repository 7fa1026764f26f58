use starknet_syscalls::codec::ResponseBody;
use starknet_syscalls::errors::{StateError, SyscallHandlerError};
use starknet_syscalls::executor::{execute_entry_point, ScriptedExecutor};
use starknet_syscalls::felt::{ClassHash, ContractAddress, Felt};
use starknet_syscalls::handler::{SyscallHandler, SyscallStep};
use starknet_syscalls::memory::{MaybeRelocatable, Relocatable, VmMemory};
use starknet_syscalls::pedersen::calculate_contract_address;
use starknet_syscalls::state::{CachedState, InMemoryStateReader};
use starknet_syscalls::types::{
    BlockContext, BlockInfo, CallType, ContractClass, EntryPointType, ExecutionEntryPoint,
    GuestOp, GuestScript, TransactionExecutionContext,
};

fn felt(n: u64) -> Felt {
    Felt { l3: 0, l2: 0, l1: 0, l0: n }
}

const DEPLOY_SELECTOR: Felt = Felt { l3: 0, l2: 0, l1: 0, l0: 75202468540281 };
const CALL_CONTRACT_SELECTOR: Felt =
    Felt { l3: 0, l2: 0, l1: 1130458220, l0: 4859223969370301300 };
const STORAGE_READ_SELECTOR: Felt = Felt { l3: 0, l2: 0, l1: 5469295, l0: 8241982477936451940 };
const STORAGE_WRITE_SELECTOR: Felt =
    Felt { l3: 0, l2: 0, l1: 1400139634, l0: 7018689970536281189 };

fn empty_ctor_class(hash: Felt) -> ContractClass {
    ContractClass {
        class_hash: hash,
        constructor_entry_points: Some(Vec::new()),
        external_entry_points: Vec::new(),
    }
}

struct Rig {
    memory: VmMemory,
    handler: SyscallHandler,
    state: CachedState,
    tx: TransactionExecutionContext,
}

fn rig() -> Rig {
    let mut memory = VmMemory::new();
    let base = memory.add_segment();
    let handler = SyscallHandler::new_for_testing(
        BlockInfo { block_number: 0, block_timestamp: 0, sequencer_address: ContractAddress(felt(0)) },
        base,
    );
    let state = CachedState::new(InMemoryStateReader::new_default());
    let tx = TransactionExecutionContext::new_default();
    Rig { memory, handler, state, tx }
}

fn deploy_cells(class_hash: Felt, salt: Felt, deploy_from_zero: u64) -> Vec<MaybeRelocatable> {
    // An empty calldata range in a trivially valid position.
    let nowhere = Relocatable { segment_index: 0, offset: 0 };
    vec![
        MaybeRelocatable::Int(DEPLOY_SELECTOR),
        MaybeRelocatable::Int(felt(1000000)),
        MaybeRelocatable::Int(class_hash),
        MaybeRelocatable::Int(salt),
        MaybeRelocatable::Ptr(nowhere),
        MaybeRelocatable::Ptr(nowhere),
        MaybeRelocatable::Int(felt(deploy_from_zero)),
    ]
}

#[test]
fn deploy_with_empty_constructor_synthesizes_the_constructor_record() {
    let mut r = rig();
    let class_hash = felt(0x111);
    r.state
        .set_contract_class(&ClassHash(class_hash), empty_ctor_class(class_hash))
        .unwrap();
    let ptr = r.handler.expected_syscall_ptr;
    r.memory.write_data(ptr, &deploy_cells(class_hash, felt(3), 0)).unwrap();
    let step = r
        .handler
        .syscall(&mut r.state, &mut r.memory, &mut r.tx, ptr)
        .unwrap();
    let resp = match step {
        SyscallStep::Done(resp) => resp,
        _ => panic!("an empty constructor needs no sub-execution"),
    };
    // The deterministic address: deployer is the handler's own contract.
    let expected = calculate_contract_address(
        &felt(3),
        &ClassHash(class_hash),
        &Vec::new(),
        &r.handler.contract_address,
    );
    match resp.body {
        Some(ResponseBody::Deploy { contract_address, retdata_start, retdata_end }) => {
            assert_eq!(contract_address, expected);
            assert_eq!(retdata_start.offset, 0);
            assert_eq!(retdata_end.offset, 0);
        }
        other => panic!("expected a deploy body, got {:?}", other),
    }
    // The synthetic constructor record was appended.
    assert_eq!(r.handler.internal_calls.len(), 1);
    let ci = &r.handler.internal_calls[0];
    assert_eq!(ci.contract_address, ContractAddress(expected));
    assert_eq!(ci.entry_point_type, Some(EntryPointType::Constructor));
    assert!(!ci.failure_flag);
    // The class is now installed at the address.
    assert_eq!(r.state.get_class_hash_at(&ContractAddress(expected)), ClassHash(class_hash));
}

#[test]
fn deploy_with_empty_constructor_and_calldata_is_fatal() {
    let mut r = rig();
    let class_hash = felt(0x111);
    r.state
        .set_contract_class(&ClassHash(class_hash), empty_ctor_class(class_hash))
        .unwrap();
    // A one-felt calldata range.
    let data_seg = r.memory.add_segment();
    r.memory
        .write_data(data_seg, &vec![MaybeRelocatable::Int(felt(10))])
        .unwrap();
    let seg = data_seg.segment_index;
    let nowhere = Relocatable { segment_index: seg, offset: 0 };
    let end = Relocatable { segment_index: seg, offset: 1 };
    let ptr = r.handler.expected_syscall_ptr;
    r.memory
        .write_data(
            ptr,
            &vec![
                MaybeRelocatable::Int(DEPLOY_SELECTOR),
                MaybeRelocatable::Int(felt(1000000)),
                MaybeRelocatable::Int(class_hash),
                MaybeRelocatable::Int(felt(3)),
                MaybeRelocatable::Ptr(nowhere),
                MaybeRelocatable::Ptr(end),
                MaybeRelocatable::Int(felt(0)),
            ],
        )
        .unwrap();
    let err = r
        .handler
        .syscall(&mut r.state, &mut r.memory, &mut r.tx, ptr)
        .unwrap_err();
    assert!(matches!(
        err,
        SyscallHandlerError::State(StateError::ConstructorCalldataEmpty)
    ));
}

#[test]
fn deploy_from_zero_must_be_zero_or_one() {
    let mut r = rig();
    let class_hash = felt(0x111);
    r.state
        .set_contract_class(&ClassHash(class_hash), empty_ctor_class(class_hash))
        .unwrap();
    let ptr = r.handler.expected_syscall_ptr;
    r.memory.write_data(ptr, &deploy_cells(class_hash, felt(3), 2)).unwrap();
    let err = r
        .handler
        .syscall(&mut r.state, &mut r.memory, &mut r.tx, ptr)
        .unwrap_err();
    assert!(matches!(err, SyscallHandlerError::DeployFromZero(_)));
}

#[test]
fn deploy_of_a_missing_class_fails_for_the_guest() {
    let mut r = rig();
    let class_hash = felt(0x999);
    let ptr = r.handler.expected_syscall_ptr;
    r.memory.write_data(ptr, &deploy_cells(class_hash, felt(3), 1)).unwrap();
    let step = r
        .handler
        .syscall(&mut r.state, &mut r.memory, &mut r.tx, ptr)
        .unwrap();
    let resp = match step {
        SyscallStep::Done(resp) => resp,
        _ => panic!("a missing class needs no sub-execution"),
    };
    assert!(matches!(resp.body, Some(ResponseBody::Failure { .. })));
}

#[test]
fn nested_call_propagates_reads_and_accessed_keys() {
    // The parent calls the child; the child reads k1 and writes k2.
    let parent_addr = ContractAddress(felt(100));
    let child_addr = ContractAddress(felt(200));
    let parent_hash = ClassHash(felt(0xa));
    let child_hash = ClassHash(felt(0xb));
    let k1 = felt(31);
    let v1 = felt(41);
    let k2 = felt(32);
    let v2 = felt(52);

    let mut executor = ScriptedExecutor::new();
    let nowhere = Relocatable { segment_index: 0, offset: 0 };
    // The child performs one read and one write when called.
    executor.register(
        &child_hash,
        GuestScript {
            ops: vec![
                GuestOp::Syscall(vec![
                    MaybeRelocatable::Int(STORAGE_READ_SELECTOR),
                    MaybeRelocatable::Int(felt(100000)),
                    MaybeRelocatable::Int(felt(0)),
                    MaybeRelocatable::Int(k1),
                ]),
                GuestOp::Syscall(vec![
                    MaybeRelocatable::Int(STORAGE_WRITE_SELECTOR),
                    MaybeRelocatable::Int(felt(100000)),
                    MaybeRelocatable::Int(felt(0)),
                    MaybeRelocatable::Int(k2),
                    MaybeRelocatable::Int(v2),
                ]),
            ],
            retdata: vec![felt(7)],
            failure_flag: false,
            gas_consumed: 0,
        },
    );
    // The parent issues one call_contract to the child.
    executor.register(
        &parent_hash,
        GuestScript {
            ops: vec![GuestOp::Syscall(vec![
                MaybeRelocatable::Int(CALL_CONTRACT_SELECTOR),
                MaybeRelocatable::Int(felt(500000)),
                MaybeRelocatable::Int(child_addr.0),
                MaybeRelocatable::Int(felt(1)),
                MaybeRelocatable::Ptr(nowhere),
                MaybeRelocatable::Ptr(nowhere),
            ])],
            retdata: Vec::new(),
            failure_flag: false,
            gas_consumed: 0,
        },
    );

    let mut state = CachedState::new(InMemoryStateReader::new_default());
    state.set_class_hash_at(parent_addr, parent_hash).unwrap();
    state.set_class_hash_at(child_addr, child_hash).unwrap();
    // The child's slot k1 holds v1 beforehand.
    state.set_storage_at(&child_addr, &k1, v1);

    let call = ExecutionEntryPoint::new(
        parent_addr,
        Vec::new(),
        felt(1),
        ContractAddress(felt(0)),
        EntryPointType::External,
        Some(CallType::Call),
        None,
        500000,
    );
    let mut memory = VmMemory::new();
    let mut tx = TransactionExecutionContext::new_default();
    let block_context = BlockContext::new_default();
    let result = execute_entry_point(
        &executor,
        &call,
        &mut state,
        &mut memory,
        &block_context,
        &mut tx,
        false,
        8,
    )
    .unwrap();
    let parent = result.call_info.unwrap();

    // The child is the sole internal call, and its effects propagated up.
    assert_eq!(parent.internal_calls.len(), 1);
    let child = &parent.internal_calls[0];
    assert_eq!(child.contract_address, child_addr);
    assert_eq!(child.retdata, vec![felt(7)]);
    assert_eq!(child.storage_read_values, vec![v1]);
    assert_eq!(parent.storage_read_values, vec![v1]);
    assert!(parent.accessed_storage_keys.contains(&k1));
    assert!(parent.accessed_storage_keys.contains(&k2));
    // The write went through to the child's storage.
    assert_eq!(state.get_storage_at(&child_addr, &k2).unwrap(), v2);
}

#[test]
fn event_orders_are_globally_monotone_across_nesting() {
    // The parent emits, calls the child (which emits), then emits again:
    // the three events carry the consecutive orders 0, 1, 2, and harvesting
    // yields them sorted even though the tree interleaves them.
    let parent_addr = ContractAddress(felt(100));
    let child_addr = ContractAddress(felt(200));
    let parent_hash = ClassHash(felt(0xa));
    let child_hash = ClassHash(felt(0xb));
    let emit_selector = Felt { l3: 0, l2: 0, l1: 69, l0: 7883960464376688244 };
    let nowhere = Relocatable { segment_index: 0, offset: 0 };
    let mk_emit = || {
        GuestOp::Syscall(vec![
            MaybeRelocatable::Int(emit_selector),
            MaybeRelocatable::Int(felt(100000)),
            MaybeRelocatable::Ptr(nowhere),
            MaybeRelocatable::Ptr(nowhere),
            MaybeRelocatable::Ptr(nowhere),
            MaybeRelocatable::Ptr(nowhere),
        ])
    };
    let mut executor = ScriptedExecutor::new();
    executor.register(
        &child_hash,
        GuestScript { ops: vec![mk_emit()], retdata: Vec::new(), failure_flag: false, gas_consumed: 0 },
    );
    executor.register(
        &parent_hash,
        GuestScript {
            ops: vec![
                mk_emit(),
                GuestOp::Syscall(vec![
                    MaybeRelocatable::Int(CALL_CONTRACT_SELECTOR),
                    MaybeRelocatable::Int(felt(500000)),
                    MaybeRelocatable::Int(child_addr.0),
                    MaybeRelocatable::Int(felt(1)),
                    MaybeRelocatable::Ptr(nowhere),
                    MaybeRelocatable::Ptr(nowhere),
                ]),
                mk_emit(),
            ],
            retdata: Vec::new(),
            failure_flag: false,
            gas_consumed: 0,
        },
    );
    let mut state = CachedState::new(InMemoryStateReader::new_default());
    state.set_class_hash_at(parent_addr, parent_hash).unwrap();
    state.set_class_hash_at(child_addr, child_hash).unwrap();
    let call = starknet_syscalls::types::ExecutionEntryPoint::new(
        parent_addr,
        Vec::new(),
        felt(1),
        ContractAddress(felt(0)),
        EntryPointType::External,
        None,
        None,
        500000,
    );
    let mut memory = VmMemory::new();
    let mut tx = TransactionExecutionContext::new_default();
    let block_context = starknet_syscalls::types::BlockContext::new_default();
    let result = execute_entry_point(
        &executor,
        &call,
        &mut state,
        &mut memory,
        &block_context,
        &mut tx,
        false,
        8,
    )
    .unwrap();
    let parent = result.call_info.unwrap();
    assert_eq!(tx.n_emitted_events, 3);
    // The parent's own events are stamped around the child's.
    assert_eq!(parent.events.len(), 2);
    assert_eq!(parent.events[0].order, 0);
    assert_eq!(parent.events[1].order, 2);
    assert_eq!(parent.internal_calls[0].events.len(), 1);
    assert_eq!(parent.internal_calls[0].events[0].order, 1);
    // Harvesting yields them contiguous from zero.
    let info = starknet_syscalls::messages_l1::ExecutionInfo::Call(Box::new(parent));
    let sorted = info.get_sorted_events();
    assert_eq!(sorted.len(), 3);
    assert_eq!(sorted[0].order, 0);
    assert_eq!(sorted[1].order, 1);
    assert_eq!(sorted[2].order, 2);
}
