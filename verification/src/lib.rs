//! A verified model of the Starknet contract-execution syscall handler.
//!
//! Guest code running inside a Cairo virtual machine traps into the handler
//! to read and write persistent storage, emit events, send L2-to-L1 messages,
//! hash data, deploy contracts and invoke other contracts.  The handler
//! validates each request, debits gas, performs the effect against a
//! transactional state cache and writes a well-formed response back into VM
//! memory.  This crate implements that handler over an explicit model of the
//! VM's segmented memory and proves the gas, ordering, storage-propagation
//! and read-only-segment guarantees that the protocol relies on.

pub mod codec;
pub mod deploy_tx;
pub mod errors;
pub mod executor;
pub mod felt;
pub mod handler;
pub mod keccak_hash;
pub mod laws;
pub mod memory;
pub mod messages_l1;
pub mod pedersen;
pub mod starknet_state;
pub mod state;
pub mod types;
