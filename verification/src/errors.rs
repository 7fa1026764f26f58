//! Error types for the syscall handler, the state, and transactions.
//!
//! Three disjoint bands exist at runtime: guest-visible failures are encoded
//! as Failure responses (never as these errors); recoverable contract reverts
//! travel as `revert_error` strings; everything here is a fatal host error
//! that aborts the transaction.

use vstd::prelude::*;
use crate::felt::Felt;
use crate::memory::Relocatable;

verus! {

/// A fault while reading or writing modelled VM memory.
#[derive(Clone, PartialEq, Eq, Structural, Debug)]
pub enum MemoryError {
    /// The cell was never written.
    MissingCell(Relocatable),
    /// The cell holds a pointer where a felt was required.
    ExpectedInteger(Relocatable),
    /// The cell holds a felt where a pointer was required.
    ExpectedRelocatable(Relocatable),
    /// The segment index is not a segment of the memory.
    UnknownSegment(Relocatable),
    /// A write landed past the end of the segment.
    NonSequentialWrite(Relocatable),
    /// Pointer arithmetic overflowed the offset range.
    OffsetOverflow,
    /// Two pointers that must bound one range lie in different segments.
    SegmentMismatch(Relocatable, Relocatable),
}

/// A fatal host error raised by the syscall handler.
#[derive(Clone, Debug)]
pub enum SyscallHandlerError {
    /// The selector read at the syscall pointer names no syscall.
    SelectorNotInHandlerMap(Felt),
    /// The initial gas cell does not fit an unsigned 128-bit integer.
    GasNotNarrow(Felt),
    /// The resolved syscall has no recorded gas cost.
    SelectorDoesNotHaveAssociatedGas(Felt),
    /// A felt did not fit the integer width the syscall requires.
    Conversion(Felt),
    /// The `deploy_from_zero` argument was neither zero nor one.
    DeployFromZero(Felt),
    /// A memory read or write failed.
    Memory(MemoryError),
    /// A state access failed.
    State(StateError),
    /// A sub-call failed without producing a call record.
    ExecutionError(String),
    /// The resolved name has no request decoder.
    UnknownSyscall,
}

/// A fault in the transactional state cache.
#[derive(Clone, Debug)]
pub enum StateError {
    /// An input/output failure of the backing store; never produced by the
    /// in-memory reader, but distinguished so that it is propagated rather
    /// than read as zero.
    Io(String),
    /// The storage slot was never written.
    NoneStorage,
    /// No contract class is declared under the hash.
    MissingClassHash,
    /// No constructor entry points are recorded for the class.
    NoneEntryPointType,
    /// A deploy targeted the zero address.
    ContractAddressOutOfRange,
    /// A deploy targeted an address that is already in use.
    ContractAddressUnavailable,
    /// Constructor calldata was supplied to a class without a constructor.
    ConstructorCalldataEmpty,
    /// Running a constructor entry point failed.
    ExecutionEntryPoint,
    /// A sub-call reverted; the message travels with the error.
    CustomError(String),
}

/// A fatal error while executing a transaction or validating a frame.
#[derive(Clone, Debug)]
pub enum TransactionError {
    /// The syscall pointer after the run differs from the expected one:
    /// expected, then found.
    InvalidStopPointer(Relocatable, Relocatable),
    /// A recorded read-only segment is not a segment of the memory.
    InvalidSegmentSize,
    /// A recorded segment size is not a felt.
    NotAFelt,
    /// A recorded segment size differs from the segment's used size.
    OutOfBound,
    /// Constructor calldata was supplied to a class without a constructor.
    EmptyConstructorCalldata,
    /// A run produced no call record.
    CallInfoIsNone,
    /// The nesting budget for sub-calls ran out.
    MaxDepthReached,
    /// No contract class is declared under the hash.
    MissingClassHash,
    /// A syscall failed fatally during the run.
    Syscall(SyscallHandlerError),
    /// A state access failed during the run.
    State(StateError),
    /// A sub-call reverted and reverts are not supported here.
    CustomError(String),
}

/// An error of the network-state testing wrapper.
#[derive(Clone, Debug)]
pub enum StarknetStateError {
    Transaction(TransactionError),
    /// The message hash is unknown or its pending count is zero.
    InvalidMessageHash,
}

impl core::convert::From<MemoryError> for SyscallHandlerError {
    fn from(e: MemoryError) -> (r: SyscallHandlerError) {
        SyscallHandlerError::Memory(e)
    }
}

impl vstd::std_specs::convert::FromSpecImpl<MemoryError> for SyscallHandlerError {
    open spec fn obeys_from_spec() -> bool {
        true
    }

    open spec fn from_spec(e: MemoryError) -> SyscallHandlerError {
        SyscallHandlerError::Memory(e)
    }
}

} // verus!
