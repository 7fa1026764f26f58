use starknet_syscalls::codec::{ResponseBody, SyscallName, SyscallRequest, SyscallResponse};
use starknet_syscalls::handler::SyscallStep;
use starknet_syscalls::felt::{ContractAddress, Felt};
use starknet_syscalls::handler::{
    block_hash_contract_address, block_out_of_range_felt, invalid_keccak_size_felt,
    out_of_gas_felt, syscall_out_of_gas_felt, unsupported_domain_felt, SyscallHandler,
};
use starknet_syscalls::codec::GetBlockHashRequest;
use starknet_syscalls::memory::{MaybeRelocatable, Relocatable, VmMemory};
use starknet_syscalls::state::{CachedState, InMemoryStateReader};
use starknet_syscalls::types::{BlockInfo, TransactionExecutionContext};

fn felt(n: u64) -> Felt {
    Felt { l3: 0, l2: 0, l1: 0, l0: n }
}

fn block_info(number: u64, timestamp: u64) -> BlockInfo {
    BlockInfo {
        block_number: number,
        block_timestamp: timestamp,
        sequencer_address: ContractAddress(felt(0)),
    }
}

struct Rig {
    memory: VmMemory,
    handler: SyscallHandler,
    state: CachedState,
    tx: TransactionExecutionContext,
}

fn rig() -> Rig {
    let mut memory = VmMemory::new();
    let base = memory.add_segment();
    let handler = SyscallHandler::new_for_testing(block_info(0, 0), base);
    let state = CachedState::new(InMemoryStateReader::new_default());
    let tx = TransactionExecutionContext::new_default();
    Rig { memory, handler, state, tx }
}

const STORAGE_READ_SELECTOR: Felt = Felt { l3: 0, l2: 0, l1: 5469295, l0: 8241982477936451940 };
const STORAGE_WRITE_SELECTOR: Felt = Felt { l3: 0, l2: 0, l1: 1400139634, l0: 7018689970536281189 };
const EMIT_EVENT_SELECTOR: Felt = Felt { l3: 0, l2: 0, l1: 69, l0: 7883960464376688244 };
const SEND_MESSAGE_SELECTOR: Felt =
    Felt { l3: 0, l2: 0, l1: 23473947870586227, l0: 8314040072008584241 };
const KECCAK_SELECTOR: Felt = Felt { l3: 0, l2: 0, l1: 0, l0: 82898831237483 };

fn dispatch(rig: &mut Rig, cells: Vec<MaybeRelocatable>) -> SyscallStep {
    let ptr = rig.handler.expected_syscall_ptr;
    rig.memory.write_data(ptr, &cells).unwrap();
    rig.handler
        .syscall(&mut rig.state, &mut rig.memory, &mut rig.tx, ptr)
        .unwrap()
}

fn done(step: SyscallStep) -> SyscallResponse {
    match step {
        SyscallStep::Done(resp) => resp,
        _ => panic!("expected a finished syscall"),
    }
}

#[test]
fn storage_round_trip_reads_back_written_value() {
    let mut r = rig();
    // storage_write(reserved = 0, key = 7, value = 42)
    let resp = done(dispatch(
        &mut r,
        vec![
            MaybeRelocatable::Int(STORAGE_WRITE_SELECTOR),
            MaybeRelocatable::Int(felt(100000)),
            MaybeRelocatable::Int(felt(0)),
            MaybeRelocatable::Int(felt(7)),
            MaybeRelocatable::Int(felt(42)),
        ],
    ));
    assert_eq!(resp.gas, 95000);
    assert!(resp.body.is_none());
    // storage_read(reserved = 0, key = 7)
    let resp = done(dispatch(
        &mut r,
        vec![
            MaybeRelocatable::Int(STORAGE_READ_SELECTOR),
            MaybeRelocatable::Int(felt(100000)),
            MaybeRelocatable::Int(felt(0)),
            MaybeRelocatable::Int(felt(7)),
        ],
    ));
    assert_eq!(resp.gas, 95000);
    assert_eq!(resp.body, Some(ResponseBody::StorageReadResponse { value: felt(42) }));
    assert_eq!(r.handler.read_values, vec![felt(42)]);
    assert!(r.handler.accessed_keys.contains(&felt(7)));
}

#[test]
fn storage_read_of_unset_key_is_zero() {
    let mut r = rig();
    let resp = done(dispatch(
        &mut r,
        vec![
            MaybeRelocatable::Int(STORAGE_READ_SELECTOR),
            MaybeRelocatable::Int(felt(100000)),
            MaybeRelocatable::Int(felt(0)),
            MaybeRelocatable::Int(felt(9)),
        ],
    ));
    assert_eq!(resp.body, Some(ResponseBody::StorageReadResponse { value: felt(0) }));
    assert_eq!(r.handler.read_values, vec![felt(0)]);
}

#[test]
fn storage_write_to_reserved_domain_fails_without_state_change() {
    let mut r = rig();
    let resp = done(dispatch(
        &mut r,
        vec![
            MaybeRelocatable::Int(STORAGE_WRITE_SELECTOR),
            MaybeRelocatable::Int(felt(100000)),
            MaybeRelocatable::Int(felt(1)),
            MaybeRelocatable::Int(felt(0)),
            MaybeRelocatable::Int(felt(0)),
        ],
    ));
    assert_eq!(resp.gas, 95000);
    match resp.body {
        Some(ResponseBody::Failure { retdata_start, retdata_end }) => {
            assert_eq!(retdata_start, Relocatable { segment_index: 1, offset: 0 });
            assert_eq!(retdata_end, Relocatable { segment_index: 1, offset: 1 });
            assert_eq!(
                r.memory.segments[1].cells[0],
                MaybeRelocatable::Int(unsupported_domain_felt())
            );
        }
        other => panic!("expected a failure body, got {:?}", other),
    }
    // No write went through.
    assert!(r.state.storage_writes.entries.is_empty());
    assert!(r.handler.accessed_keys.is_empty());
}

#[test]
fn dispatcher_rejects_insufficient_gas_with_out_of_gas_retdata() {
    let mut r = rig();
    // storage_read needs 5000 gas after the base; give 100.
    let resp = done(dispatch(
        &mut r,
        vec![
            MaybeRelocatable::Int(STORAGE_READ_SELECTOR),
            MaybeRelocatable::Int(felt(100)),
            MaybeRelocatable::Int(felt(0)),
            MaybeRelocatable::Int(felt(7)),
        ],
    ));
    assert_eq!(resp.gas, 100);
    match resp.body {
        Some(ResponseBody::Failure { retdata_start, .. }) => {
            assert_eq!(
                r.memory.segments[retdata_start.segment_index].cells[0],
                MaybeRelocatable::Int(out_of_gas_felt())
            );
        }
        other => panic!("expected a failure body, got {:?}", other),
    }
    // Nothing was read.
    assert!(r.handler.read_values.is_empty());
}

#[test]
fn unknown_selector_is_fatal() {
    let mut r = rig();
    let ptr = r.handler.expected_syscall_ptr;
    r.memory
        .write_data(
            ptr,
            &vec![MaybeRelocatable::Int(felt(123456)), MaybeRelocatable::Int(felt(100000))],
        )
        .unwrap();
    let err = r
        .handler
        .syscall(&mut r.state, &mut r.memory, &mut r.tx, ptr)
        .unwrap_err();
    assert!(matches!(
        err,
        starknet_syscalls::errors::SyscallHandlerError::SelectorNotInHandlerMap(_)
    ));
}

#[test]
fn emit_event_and_send_message_are_stamped_in_order() {
    let mut r = rig();
    // A data segment holding two keys and one data felt.
    let data_seg = r.memory.add_segment();
    r.memory
        .write_data(
            data_seg,
            &vec![
                MaybeRelocatable::Int(felt(11)),
                MaybeRelocatable::Int(felt(12)),
                MaybeRelocatable::Int(felt(13)),
            ],
        )
        .unwrap();
    let seg = data_seg.segment_index;
    let at = |o: usize| Relocatable { segment_index: seg, offset: o };
    let resp = done(dispatch(
        &mut r,
        vec![
            MaybeRelocatable::Int(EMIT_EVENT_SELECTOR),
            MaybeRelocatable::Int(felt(100000)),
            MaybeRelocatable::Ptr(at(0)),
            MaybeRelocatable::Ptr(at(2)),
            MaybeRelocatable::Ptr(at(2)),
            MaybeRelocatable::Ptr(at(3)),
        ],
    ));
    assert_eq!(resp.gas, 99000);
    assert!(resp.body.is_none());
    assert_eq!(r.tx.n_emitted_events, 1);
    assert_eq!(r.handler.events.len(), 1);
    assert_eq!(r.handler.events[0].order, 0);
    assert_eq!(r.handler.events[0].keys, vec![felt(11), felt(12)]);
    assert_eq!(r.handler.events[0].data, vec![felt(13)]);
    // send_message_to_l1(to = 5, payload = [13])
    let resp = done(dispatch(
        &mut r,
        vec![
            MaybeRelocatable::Int(SEND_MESSAGE_SELECTOR),
            MaybeRelocatable::Int(felt(100000)),
            MaybeRelocatable::Int(felt(5)),
            MaybeRelocatable::Ptr(at(2)),
            MaybeRelocatable::Ptr(at(3)),
        ],
    ));
    assert_eq!(resp.gas, 95000);
    assert!(resp.body.is_none());
    assert_eq!(r.tx.n_sent_messages, 1);
    assert_eq!(r.handler.l2_to_l1_messages.len(), 1);
    assert_eq!(r.handler.l2_to_l1_messages[0].order, 0);
    assert_eq!(r.handler.l2_to_l1_messages[0].to_address, ContractAddress(felt(5)));
    assert_eq!(r.handler.l2_to_l1_messages[0].payload, vec![felt(13)]);
}

#[test]
fn keccak_of_a_sixteen_cell_range_fails_with_bad_size() {
    let mut r = rig();
    let data_seg = r.memory.add_segment();
    let cells: Vec<MaybeRelocatable> =
        (0..16).map(|_| MaybeRelocatable::Int(felt(0))).collect();
    r.memory.write_data(data_seg, &cells).unwrap();
    let seg = data_seg.segment_index;
    let resp = done(dispatch(
        &mut r,
        vec![
            MaybeRelocatable::Int(KECCAK_SELECTOR),
            MaybeRelocatable::Int(felt(1000000)),
            MaybeRelocatable::Ptr(Relocatable { segment_index: seg, offset: 0 }),
            MaybeRelocatable::Ptr(Relocatable { segment_index: seg, offset: 16 }),
        ],
    ));
    // keccak costs nothing up front, so the gas is untouched.
    assert_eq!(resp.gas, 1000000);
    match resp.body {
        Some(ResponseBody::Failure { retdata_start, .. }) => {
            assert_eq!(
                r.memory.segments[retdata_start.segment_index].cells[0],
                MaybeRelocatable::Int(invalid_keccak_size_felt())
            );
        }
        other => panic!("expected a failure body, got {:?}", other),
    }
}

#[test]
fn keccak_starves_after_the_first_funded_round() {
    let mut r = rig();
    let data_seg = r.memory.add_segment();
    let cells: Vec<MaybeRelocatable> =
        (0..34).map(|_| MaybeRelocatable::Int(felt(0))).collect();
    r.memory.write_data(data_seg, &cells).unwrap();
    let seg = data_seg.segment_index;
    let resp = done(dispatch(
        &mut r,
        vec![
            MaybeRelocatable::Int(KECCAK_SELECTOR),
            MaybeRelocatable::Int(felt(200000)),
            MaybeRelocatable::Ptr(Relocatable { segment_index: seg, offset: 0 }),
            MaybeRelocatable::Ptr(Relocatable { segment_index: seg, offset: 34 }),
        ],
    ));
    // One round of 180000 was debited, then the second round starved.
    assert_eq!(resp.gas, 20000);
    match resp.body {
        Some(ResponseBody::Failure { retdata_start, .. }) => {
            assert_eq!(
                r.memory.segments[retdata_start.segment_index].cells[0],
                MaybeRelocatable::Int(syscall_out_of_gas_felt())
            );
        }
        other => panic!("expected a failure body, got {:?}", other),
    }
}

#[test]
fn keccak_of_an_empty_range_is_zero() {
    let mut r = rig();
    let data_seg = r.memory.add_segment();
    let seg = data_seg.segment_index;
    let resp = done(dispatch(
        &mut r,
        vec![
            MaybeRelocatable::Int(KECCAK_SELECTOR),
            MaybeRelocatable::Int(felt(1000000)),
            MaybeRelocatable::Ptr(Relocatable { segment_index: seg, offset: 0 }),
            MaybeRelocatable::Ptr(Relocatable { segment_index: seg, offset: 0 }),
        ],
    ));
    assert_eq!(resp.gas, 1000000);
    assert_eq!(
        resp.body,
        Some(ResponseBody::Keccak { hash_low: felt(0), hash_high: felt(0) })
    );
}

#[test]
fn keccak_of_one_zero_chunk_applies_the_permutation() {
    let mut r = rig();
    let data_seg = r.memory.add_segment();
    let cells: Vec<MaybeRelocatable> =
        (0..17).map(|_| MaybeRelocatable::Int(felt(0))).collect();
    r.memory.write_data(data_seg, &cells).unwrap();
    let seg = data_seg.segment_index;
    let resp = done(dispatch(
        &mut r,
        vec![
            MaybeRelocatable::Int(KECCAK_SELECTOR),
            MaybeRelocatable::Int(felt(1000000)),
            MaybeRelocatable::Ptr(Relocatable { segment_index: seg, offset: 0 }),
            MaybeRelocatable::Ptr(Relocatable { segment_index: seg, offset: 17 }),
        ],
    ));
    assert_eq!(resp.gas, 1000000 - 180000);
    // The first four lanes of Keccak-f[1600] applied to the all-zero state.
    let low = Felt::from_u128(0x84d5ccf933c0478a_f1258f7940e1dde7);
    let high = Felt::from_u128(0xbd1547306f80494d_d598261ea65aa9ee);
    assert_eq!(resp.body, Some(ResponseBody::Keccak { hash_low: low, hash_high: high }));
}

#[test]
fn get_block_hash_reads_the_block_hash_contract() {
    let mut memory = VmMemory::new();
    let base = memory.add_segment();
    let mut handler = SyscallHandler::new_for_testing(block_info(20, 0), base);
    let mut state = CachedState::new(InMemoryStateReader::new_default());
    // The hash of block 5, stored under the well-known contract.
    state.set_storage_at(&block_hash_contract_address(), &felt(5), felt(777));
    let resp = handler
        .get_block_hash(&state, &mut memory, GetBlockHashRequest { block_number: 5 }, 500)
        .unwrap();
    assert_eq!(resp.gas, 500);
    assert_eq!(resp.body, Some(ResponseBody::GetBlockHash { block_hash: felt(777) }));
    // A block younger than ten blocks is refused.
    let resp = handler
        .get_block_hash(&state, &mut memory, GetBlockHashRequest { block_number: 15 }, 500)
        .unwrap();
    match resp.body {
        Some(ResponseBody::Failure { retdata_start, .. }) => {
            assert_eq!(
                memory.segments[retdata_start.segment_index].cells[0],
                MaybeRelocatable::Int(block_out_of_range_felt())
            );
        }
        other => panic!("expected a failure body, got {:?}", other),
    }
}

#[test]
fn request_decoding_returns_exactly_the_written_cells() {
    let mut r = rig();
    let args = r.memory.add_segment();
    r.memory
        .write_data(
            args,
            &vec![
                MaybeRelocatable::Int(felt(0)),
                MaybeRelocatable::Int(felt(7)),
                MaybeRelocatable::Int(felt(42)),
            ],
        )
        .unwrap();
    let req = r
        .handler
        .read_syscall_request(&r.memory, args, SyscallName::StorageWrite)
        .unwrap();
    match req {
        SyscallRequest::StorageWrite(q) => {
            assert_eq!(q.reserved, felt(0));
            assert_eq!(q.key, felt(7));
            assert_eq!(q.value, felt(42));
        }
        other => panic!("decoded the wrong request: {:?}", other),
    }
}

#[test]
fn post_run_validates_the_stop_pointer_and_segment_sizes() {
    let mut r = rig();
    // A failure response allocates a read-only segment to validate.
    let _ = done(dispatch(
        &mut r,
        vec![
            MaybeRelocatable::Int(STORAGE_WRITE_SELECTOR),
            MaybeRelocatable::Int(felt(100000)),
            MaybeRelocatable::Int(felt(1)),
            MaybeRelocatable::Int(felt(0)),
            MaybeRelocatable::Int(felt(0)),
        ],
    ));
    let stop = r.handler.expected_syscall_ptr;
    assert!(r.handler.post_run(&mut r.memory, stop).is_ok());
    let wrong = Relocatable { segment_index: stop.segment_index, offset: stop.offset + 1 };
    let err = r.handler.post_run(&mut r.memory, wrong).unwrap_err();
    assert!(matches!(
        err,
        starknet_syscalls::errors::TransactionError::InvalidStopPointer(_, _)
    ));
}

#[test]
fn block_queries_answer_from_the_block_context() {
    let mut memory = VmMemory::new();
    let base = memory.add_segment();
    let mut handler = SyscallHandler::new_for_testing(block_info(31, 1234), base);
    let resp = handler.get_block_number(500).unwrap();
    assert_eq!(resp.body, Some(ResponseBody::GetBlockNumber { number: felt(31) }));
    let resp = handler.get_block_timestamp(500).unwrap();
    assert_eq!(resp.body, Some(ResponseBody::GetBlockTimestamp { timestamp: felt(1234) }));
}
