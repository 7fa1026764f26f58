use starknet_syscalls::felt::{ContractAddress, Felt};
use starknet_syscalls::messages_l1::{ExecutionInfo, StarknetMessageToL1};
use starknet_syscalls::errors::StarknetStateError;
use starknet_syscalls::starknet_state::StarknetState;
use starknet_syscalls::types::{CallInfo, OrderedL2ToL1Message};

fn felt(n: u64) -> Felt {
    Felt { l3: 0, l2: 0, l1: 0, l0: n }
}

fn empty_call_info() -> CallInfo {
    CallInfo {
        caller_address: ContractAddress(felt(0)),
        call_type: None,
        contract_address: ContractAddress(felt(0)),
        code_address: None,
        class_hash: None,
        entry_point_selector: None,
        entry_point_type: None,
        calldata: Vec::new(),
        retdata: Vec::new(),
        events: Vec::new(),
        l2_to_l1_messages: Vec::new(),
        storage_read_values: Vec::new(),
        accessed_storage_keys: Vec::new(),
        internal_calls: Vec::new(),
        gas_consumed: 0,
        failure_flag: false,
    }
}

#[test]
fn test_add_messages_and_events() {
    let mut starknet_state = StarknetState::new(None);
    let test_msg_1 = OrderedL2ToL1Message {
        order: 0,
        to_address: ContractAddress(felt(0)),
        payload: vec![felt(0)],
    };
    let test_msg_2 = OrderedL2ToL1Message {
        order: 1,
        to_address: ContractAddress(felt(0)),
        payload: vec![felt(0)],
    };
    let mut ci = empty_call_info();
    ci.l2_to_l1_messages = vec![test_msg_1, test_msg_2];
    let exec_info = ExecutionInfo::Call(Box::new(ci));

    starknet_state.add_messages_and_events(&exec_info).unwrap();
    let msg_hash =
        StarknetMessageToL1::new(ContractAddress(felt(0)), ContractAddress(felt(0)), vec![felt(0)])
            .get_hash();

    // Both identical messages map to the same hash, pending twice.
    assert_eq!(starknet_state.l2_to_l1_messages.get(&msg_hash), Some(2));
    assert_eq!(starknet_state.l2_to_l1_messages_log.len(), 2);
}

#[test]
fn test_consume_message_hash() {
    let mut starknet_state = StarknetState::new(None);
    let test_msg_1 = OrderedL2ToL1Message {
        order: 0,
        to_address: ContractAddress(felt(0)),
        payload: vec![felt(0)],
    };
    let test_msg_2 = OrderedL2ToL1Message {
        order: 1,
        to_address: ContractAddress(felt(0)),
        payload: vec![felt(0)],
    };
    let mut ci = empty_call_info();
    ci.l2_to_l1_messages = vec![test_msg_1, test_msg_2];
    let exec_info = ExecutionInfo::Call(Box::new(ci));

    starknet_state.add_messages_and_events(&exec_info).unwrap();
    let msg_hash =
        StarknetMessageToL1::new(ContractAddress(felt(0)), ContractAddress(felt(0)), vec![felt(0)])
            .get_hash();

    starknet_state.consume_message_hash(msg_hash.clone()).unwrap();
    assert_eq!(starknet_state.l2_to_l1_messages.get(&msg_hash), Some(1));
}

#[test]
fn test_consume_message_hash_twice_should_fail() {
    let mut starknet_state = StarknetState::new(None);
    let test_msg = OrderedL2ToL1Message {
        order: 0,
        to_address: ContractAddress(felt(0)),
        payload: vec![felt(0)],
    };
    let mut ci = empty_call_info();
    ci.l2_to_l1_messages = vec![test_msg];
    let exec_info = ExecutionInfo::Call(Box::new(ci));

    starknet_state.add_messages_and_events(&exec_info).unwrap();
    let msg_hash =
        StarknetMessageToL1::new(ContractAddress(felt(0)), ContractAddress(felt(0)), vec![felt(0)])
            .get_hash();

    starknet_state.consume_message_hash(msg_hash.clone()).unwrap();
    let err = starknet_state.consume_message_hash(msg_hash).unwrap_err();
    assert!(matches!(err, StarknetStateError::InvalidMessageHash));
}

#[test]
fn consume_message_hash_of_unknown_hash_fails() {
    let mut starknet_state = StarknetState::new(None);
    let err = starknet_state.consume_message_hash(vec![1, 2, 3]).unwrap_err();
    assert!(matches!(err, StarknetStateError::InvalidMessageHash));
}

#[test]
fn events_are_harvested_in_order_across_the_tree() {
    let mut starknet_state = StarknetState::new(None);
    // A parent whose event has order 1 and a child whose event has order 0:
    // harvesting must yield them by order, not by tree position.
    let mut child = empty_call_info();
    child.events = vec![starknet_syscalls::types::OrderedEvent {
        order: 0,
        keys: vec![felt(1)],
        data: vec![],
    }];
    let mut parent = empty_call_info();
    parent.events = vec![starknet_syscalls::types::OrderedEvent {
        order: 1,
        keys: vec![felt(2)],
        data: vec![],
    }];
    parent.internal_calls = vec![child];
    let exec_info = ExecutionInfo::Call(Box::new(parent));
    starknet_state.add_messages_and_events(&exec_info).unwrap();
    assert_eq!(starknet_state.events.len(), 2);
    assert_eq!(starknet_state.events[0].order, 0);
    assert_eq!(starknet_state.events[0].keys, vec![felt(1)]);
    assert_eq!(starknet_state.events[1].order, 1);
    assert_eq!(starknet_state.events[1].keys, vec![felt(2)]);
}
