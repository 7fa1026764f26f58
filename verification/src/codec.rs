//! The request/response codec and the syscall tables: selector resolution,
//! fixed argument layouts, gas costs, and the serialized response shape
//! `(gas, tag, body...)`.

use vstd::prelude::*;
use crate::felt::{Felt, ContractAddress};
use crate::memory::{Relocatable, MaybeRelocatable, VmMemory};
use crate::keccak_hash::sn_keccak_spec;

verus! {

#[derive(Clone, Copy, PartialEq, Eq, Structural, Debug)]
pub enum SyscallName {
    CallContract,
    Deploy,
    EmitEvent,
    GetBlockNumber,
    GetBlockTimestamp,
    GetExecutionInfo,
    Keccak,
    LibraryCall,
    ReplaceClass,
    SendMessageToL1,
    StorageRead,
    StorageWrite,
}

/// The ASCII bytes of `get_block_timestamp`.
pub open spec fn get_block_timestamp_name() -> Seq<u8> {
    seq![0x67u8, 0x65u8, 0x74u8, 0x5fu8, 0x62u8, 0x6cu8, 0x6fu8, 0x63u8, 0x6bu8, 0x5fu8, 0x74u8,
        0x69u8, 0x6du8, 0x65u8, 0x73u8, 0x74u8, 0x61u8, 0x6du8, 0x70u8]
}

/// The ASCII bytes of `get_block_number`.
pub open spec fn get_block_number_name() -> Seq<u8> {
    seq![0x67u8, 0x65u8, 0x74u8, 0x5fu8, 0x62u8, 0x6cu8, 0x6fu8, 0x63u8, 0x6bu8, 0x5fu8, 0x6eu8,
        0x75u8, 0x6du8, 0x62u8, 0x65u8, 0x72u8]
}

/// The selector map: most syscalls are named by the felt of their CamelCase
/// ASCII name; the two block queries are named by the sn-keccak of their
/// snake_case name.
pub open spec fn selector_to_syscall(sel: int) -> Option<SyscallName> {
    if sel == 92376026794327011772951660 {
        Some(SyscallName::LibraryCall)
    } else if sel == 25500403217443378527601783667 {
        Some(SyscallName::ReplaceClass)
    } else if sel == 94901967946959054011942058057773508207 {
        Some(SyscallName::GetExecutionInfo)
    } else if sel == 100890693370601760042082660 {
        Some(SyscallName::StorageRead)
    } else if sel == 20853273475220472486191784820 {
        Some(SyscallName::CallContract)
    } else if sel == 433017908768303439907196859243777073 {
        Some(SyscallName::SendMessageToL1)
    } else if sel == 75202468540281 {
        Some(SyscallName::Deploy)
    } else if sel == 1280709301550335749748 {
        Some(SyscallName::EmitEvent)
    } else if sel == 25828017502874050592466629733 {
        Some(SyscallName::StorageWrite)
    } else if sel == sn_keccak_spec(get_block_timestamp_name()) {
        Some(SyscallName::GetBlockTimestamp)
    } else if sel == sn_keccak_spec(get_block_number_name()) {
        Some(SyscallName::GetBlockNumber)
    } else if sel == 82898831237483 {
        Some(SyscallName::Keccak)
    } else {
        None
    }
}

/// The resolved selector table; the two sn-keccak selectors are computed
/// once when the table is built.
pub struct SelectorTable {
    pub get_block_timestamp_selector: Felt,
    pub get_block_number_selector: Felt,
}

impl SelectorTable {
    pub open spec fn wf(self) -> bool {
        &&& self.get_block_timestamp_selector@ == sn_keccak_spec(get_block_timestamp_name())
        &&& self.get_block_number_selector@ == sn_keccak_spec(get_block_number_name())
    }

    pub fn new() -> (r: SelectorTable)
        ensures
            r.wf(),
    {
        let ts_name: Vec<u8> = vec![0x67, 0x65, 0x74, 0x5f, 0x62, 0x6c, 0x6f, 0x63, 0x6b, 0x5f,
            0x74, 0x69, 0x6d, 0x65, 0x73, 0x74, 0x61, 0x6d, 0x70];
        let bn_name: Vec<u8> = vec![0x67, 0x65, 0x74, 0x5f, 0x62, 0x6c, 0x6f, 0x63, 0x6b, 0x5f,
            0x6e, 0x75, 0x6d, 0x62, 0x65, 0x72];
        proof {
            assert(ts_name@ =~= get_block_timestamp_name());
            assert(bn_name@ =~= get_block_number_name());
        }
        let ts = crate::keccak_hash::sn_keccak(&ts_name);
        let bn = crate::keccak_hash::sn_keccak(&bn_name);
        SelectorTable { get_block_timestamp_selector: ts, get_block_number_selector: bn }
    }

    /// Resolves a selector felt to a syscall name.
    pub fn lookup(&self, sel: &Felt) -> (r: Option<SyscallName>)
        requires
            self.wf(),
        ensures
            r == selector_to_syscall(sel@),
    {
        if sel.eq_felt(&Felt { l3: 0, l2: 0, l1: 5007714, l0: 8241994658211785836 }) {
            Some(SyscallName::LibraryCall)
        } else if sel.eq_felt(&Felt { l3: 0, l2: 0, l1: 1382379628, l0: 7017563984628904819 }) {
            Some(SyscallName::ReplaceClass)
        } else if sel.eq_felt(
            &Felt { l3: 0, l2: 0, l1: 5144645991062135669, l0: 8388358300423317103 },
        ) {
            Some(SyscallName::GetExecutionInfo)
        } else if sel.eq_felt(&Felt { l3: 0, l2: 0, l1: 5469295, l0: 8241982477936451940 }) {
            Some(SyscallName::StorageRead)
        } else if sel.eq_felt(&Felt { l3: 0, l2: 0, l1: 1130458220, l0: 4859223969370301300 }) {
            Some(SyscallName::CallContract)
        } else if sel.eq_felt(
            &Felt { l3: 0, l2: 0, l1: 23473947870586227, l0: 8314040072008584241 },
        ) {
            Some(SyscallName::SendMessageToL1)
        } else if sel.eq_felt(&Felt { l3: 0, l2: 0, l1: 0, l0: 75202468540281 }) {
            Some(SyscallName::Deploy)
        } else if sel.eq_felt(&Felt { l3: 0, l2: 0, l1: 69, l0: 7883960464376688244 }) {
            Some(SyscallName::EmitEvent)
        } else if sel.eq_felt(&Felt { l3: 0, l2: 0, l1: 1400139634, l0: 7018689970536281189 }) {
            Some(SyscallName::StorageWrite)
        } else if sel.eq_felt(&self.get_block_timestamp_selector) {
            Some(SyscallName::GetBlockTimestamp)
        } else if sel.eq_felt(&self.get_block_number_selector) {
            Some(SyscallName::GetBlockNumber)
        } else if sel.eq_felt(&Felt { l3: 0, l2: 0, l1: 0, l0: 82898831237483 }) {
            Some(SyscallName::Keccak)
        } else {
            None
        }
    }
}

/// The ASCII bytes of `constructor`.
pub open spec fn constructor_name() -> Seq<u8> {
    seq![0x63u8, 0x6fu8, 0x6eu8, 0x73u8, 0x74u8, 0x72u8, 0x75u8, 0x63u8, 0x74u8, 0x6fu8, 0x72u8]
}

/// The selector of every constructor entry point: the sn-keccak of its name.
pub fn constructor_entry_point_selector() -> (r: Felt)
    ensures
        r@ == sn_keccak_spec(constructor_name()),
        r.wf(),
{
    let name: Vec<u8> = vec![0x63, 0x6f, 0x6e, 0x73, 0x74, 0x72, 0x75, 0x63, 0x74, 0x6f, 0x72];
    proof {
        assert(name@ =~= constructor_name());
    }
    crate::keccak_hash::sn_keccak(&name)
}

/// The number of argument cells each syscall reads after the selector and
/// gas cells.
pub open spec fn syscall_args_size(name: SyscallName) -> int {
    match name {
        SyscallName::CallContract => 4,
        SyscallName::Deploy => 5,
        SyscallName::EmitEvent => 4,
        SyscallName::GetBlockNumber => 0,
        SyscallName::GetBlockTimestamp => 0,
        SyscallName::GetExecutionInfo => 0,
        SyscallName::Keccak => 2,
        SyscallName::LibraryCall => 4,
        SyscallName::ReplaceClass => 1,
        SyscallName::SendMessageToL1 => 3,
        SyscallName::StorageRead => 2,
        SyscallName::StorageWrite => 3,
    }
}

pub fn get_syscall_size_from_name(name: SyscallName) -> (r: usize)
    ensures
        r == syscall_args_size(name),
{
    match name {
        SyscallName::CallContract => 4,
        SyscallName::Deploy => 5,
        SyscallName::EmitEvent => 4,
        SyscallName::GetBlockNumber => 0,
        SyscallName::GetBlockTimestamp => 0,
        SyscallName::GetExecutionInfo => 0,
        SyscallName::Keccak => 2,
        SyscallName::LibraryCall => 4,
        SyscallName::ReplaceClass => 1,
        SyscallName::SendMessageToL1 => 3,
        SyscallName::StorageRead => 2,
        SyscallName::StorageWrite => 3,
    }
}

/// The fixed gas cost of each syscall, where one is recorded.  The dispatcher
/// debits the cost less the syscall base; a missing entry is a fatal error.
pub open spec fn syscall_gas_cost(name: SyscallName) -> Option<int> {
    match name {
        SyscallName::CallContract => Some(71000),
        SyscallName::Deploy => Some(90000),
        SyscallName::EmitEvent => Some(11000),
        SyscallName::GetBlockNumber => None,
        SyscallName::GetBlockTimestamp => Some(0),
        SyscallName::GetExecutionInfo => Some(11000),
        SyscallName::Keccak => Some(0),
        SyscallName::LibraryCall => Some(71000),
        SyscallName::ReplaceClass => Some(15000),
        SyscallName::SendMessageToL1 => Some(15000),
        SyscallName::StorageRead => Some(15000),
        SyscallName::StorageWrite => Some(15000),
    }
}

/// The base cost already covered by issuing any syscall.
pub open spec fn syscall_base() -> int {
    10000
}

pub fn get_syscall_gas_cost(name: SyscallName) -> (r: Option<u128>)
    ensures
        match r {
            Some(c) => syscall_gas_cost(name) == Some(c as int),
            None => syscall_gas_cost(name) is None,
        },
{
    match name {
        SyscallName::CallContract => Some(71000),
        SyscallName::Deploy => Some(90000),
        SyscallName::EmitEvent => Some(11000),
        SyscallName::GetBlockNumber => None,
        SyscallName::GetBlockTimestamp => Some(0),
        SyscallName::GetExecutionInfo => Some(11000),
        SyscallName::Keccak => Some(0),
        SyscallName::LibraryCall => Some(71000),
        SyscallName::ReplaceClass => Some(15000),
        SyscallName::SendMessageToL1 => Some(15000),
        SyscallName::StorageRead => Some(15000),
        SyscallName::StorageWrite => Some(15000),
    }
}

/// The gas debited on entry: the recorded cost less the base, saturating.
pub open spec fn required_gas(name: SyscallName) -> int {
    match syscall_gas_cost(name) {
        Some(c) => if c >= syscall_base() {
            c - syscall_base()
        } else {
            0
        },
        None => 0,
    }
}

#[derive(Clone, Copy, PartialEq, Eq, Structural, Debug)]
pub struct CallContractRequest {
    pub contract_address: ContractAddress,
    pub selector: Felt,
    pub calldata_start: Relocatable,
    pub calldata_end: Relocatable,
}

#[derive(Clone, Copy, PartialEq, Eq, Structural, Debug)]
pub struct LibraryCallRequest {
    pub class_hash: Felt,
    pub selector: Felt,
    pub calldata_start: Relocatable,
    pub calldata_end: Relocatable,
}

#[derive(Clone, Copy, PartialEq, Eq, Structural, Debug)]
pub struct DeployRequest {
    pub class_hash: Felt,
    pub salt: Felt,
    pub calldata_start: Relocatable,
    pub calldata_end: Relocatable,
    pub deploy_from_zero: Felt,
}

#[derive(Clone, Copy, PartialEq, Eq, Structural, Debug)]
pub struct EmitEventRequest {
    pub keys_start: Relocatable,
    pub keys_end: Relocatable,
    pub data_start: Relocatable,
    pub data_end: Relocatable,
}

#[derive(Clone, Copy, PartialEq, Eq, Structural, Debug)]
pub struct StorageReadRequest {
    pub reserved: Felt,
    pub key: Felt,
}

#[derive(Clone, Copy, PartialEq, Eq, Structural, Debug)]
pub struct StorageWriteRequest {
    pub reserved: Felt,
    pub key: Felt,
    pub value: Felt,
}

#[derive(Clone, Copy, PartialEq, Eq, Structural, Debug)]
pub struct SendMessageToL1Request {
    pub to_address: Felt,
    pub payload_start: Relocatable,
    pub payload_end: Relocatable,
}

#[derive(Clone, Copy, PartialEq, Eq, Structural, Debug)]
pub struct ReplaceClassRequest {
    pub class_hash: Felt,
}

#[derive(Clone, Copy, PartialEq, Eq, Structural, Debug)]
pub struct KeccakRequest {
    pub input_start: Relocatable,
    pub input_end: Relocatable,
}

#[derive(Clone, Copy, PartialEq, Eq, Structural, Debug)]
pub struct GetBlockHashRequest {
    pub block_number: u64,
}

/// A decoded syscall request.
#[derive(Clone, Copy, PartialEq, Eq, Structural, Debug)]
pub enum SyscallRequest {
    CallContract(CallContractRequest),
    LibraryCall(LibraryCallRequest),
    Deploy(DeployRequest),
    EmitEvent(EmitEventRequest),
    StorageRead(StorageReadRequest),
    StorageWrite(StorageWriteRequest),
    SendMessageToL1(SendMessageToL1Request),
    ReplaceClass(ReplaceClassRequest),
    Keccak(KeccakRequest),
    GetBlockHash(GetBlockHashRequest),
    GetBlockNumber,
    GetBlockTimestamp,
    GetExecutionInfo,
}

/// What decoding the argument cells at `p` yields for each syscall; `None`
/// when a needed cell is missing or of the wrong kind.
pub open spec fn decode_request(m: VmMemory, p: Relocatable, name: SyscallName) -> Option<
    SyscallRequest,
> {
    match name {
        SyscallName::CallContract => if m.has_felt(p) && m.has_felt(p.spec_add(1)) && m.has_ptr(
            p.spec_add(2),
        ) && m.has_ptr(p.spec_add(3)) {
            Some(
                SyscallRequest::CallContract(
                    CallContractRequest {
                        contract_address: ContractAddress(m.int_cell(p)),
                        selector: m.int_cell(p.spec_add(1)),
                        calldata_start: m.ptr_cell(p.spec_add(2)),
                        calldata_end: m.ptr_cell(p.spec_add(3)),
                    },
                ),
            )
        } else {
            None
        },
        SyscallName::LibraryCall => if m.has_felt(p) && m.has_felt(p.spec_add(1)) && m.has_ptr(
            p.spec_add(2),
        ) && m.has_ptr(p.spec_add(3)) {
            Some(
                SyscallRequest::LibraryCall(
                    LibraryCallRequest {
                        class_hash: m.int_cell(p),
                        selector: m.int_cell(p.spec_add(1)),
                        calldata_start: m.ptr_cell(p.spec_add(2)),
                        calldata_end: m.ptr_cell(p.spec_add(3)),
                    },
                ),
            )
        } else {
            None
        },
        SyscallName::Deploy => if m.has_felt(p) && m.has_felt(p.spec_add(1)) && m.has_ptr(
            p.spec_add(2),
        ) && m.has_ptr(p.spec_add(3)) && m.has_felt(p.spec_add(4)) {
            Some(
                SyscallRequest::Deploy(
                    DeployRequest {
                        class_hash: m.int_cell(p),
                        salt: m.int_cell(p.spec_add(1)),
                        calldata_start: m.ptr_cell(p.spec_add(2)),
                        calldata_end: m.ptr_cell(p.spec_add(3)),
                        deploy_from_zero: m.int_cell(p.spec_add(4)),
                    },
                ),
            )
        } else {
            None
        },
        SyscallName::EmitEvent => if m.has_ptr(p) && m.has_ptr(p.spec_add(1)) && m.has_ptr(
            p.spec_add(2),
        ) && m.has_ptr(p.spec_add(3)) {
            Some(
                SyscallRequest::EmitEvent(
                    EmitEventRequest {
                        keys_start: m.ptr_cell(p),
                        keys_end: m.ptr_cell(p.spec_add(1)),
                        data_start: m.ptr_cell(p.spec_add(2)),
                        data_end: m.ptr_cell(p.spec_add(3)),
                    },
                ),
            )
        } else {
            None
        },
        SyscallName::StorageRead => if m.has_felt(p) && m.has_felt(p.spec_add(1)) {
            Some(
                SyscallRequest::StorageRead(
                    StorageReadRequest { reserved: m.int_cell(p), key: m.int_cell(p.spec_add(1)) },
                ),
            )
        } else {
            None
        },
        SyscallName::StorageWrite => if m.has_felt(p) && m.has_felt(p.spec_add(1)) && m.has_felt(
            p.spec_add(2),
        ) {
            Some(
                SyscallRequest::StorageWrite(
                    StorageWriteRequest {
                        reserved: m.int_cell(p),
                        key: m.int_cell(p.spec_add(1)),
                        value: m.int_cell(p.spec_add(2)),
                    },
                ),
            )
        } else {
            None
        },
        SyscallName::SendMessageToL1 => if m.has_felt(p) && m.has_ptr(p.spec_add(1)) && m.has_ptr(
            p.spec_add(2),
        ) {
            Some(
                SyscallRequest::SendMessageToL1(
                    SendMessageToL1Request {
                        to_address: m.int_cell(p),
                        payload_start: m.ptr_cell(p.spec_add(1)),
                        payload_end: m.ptr_cell(p.spec_add(2)),
                    },
                ),
            )
        } else {
            None
        },
        SyscallName::ReplaceClass => if m.has_felt(p) {
            Some(SyscallRequest::ReplaceClass(ReplaceClassRequest { class_hash: m.int_cell(p) }))
        } else {
            None
        },
        SyscallName::Keccak => if m.has_ptr(p) && m.has_ptr(p.spec_add(1)) {
            Some(
                SyscallRequest::Keccak(
                    KeccakRequest {
                        input_start: m.ptr_cell(p),
                        input_end: m.ptr_cell(p.spec_add(1)),
                    },
                ),
            )
        } else {
            None
        },
        SyscallName::GetBlockNumber => Some(SyscallRequest::GetBlockNumber),
        SyscallName::GetBlockTimestamp => None,
        SyscallName::GetExecutionInfo => Some(SyscallRequest::GetExecutionInfo),
    }
}

/// The body of a syscall response, one payload shape per syscall, or the
/// shared failure shape.
#[derive(Clone, Copy, PartialEq, Eq, Structural, Debug)]
pub enum ResponseBody {
    StorageReadResponse { value: Felt },
    GetBlockNumber { number: Felt },
    GetBlockTimestamp { timestamp: Felt },
    GetBlockHash { block_hash: Felt },
    GetExecutionInfo { exec_info_ptr: Relocatable },
    CallContract { retdata_start: Relocatable, retdata_end: Relocatable },
    Deploy { contract_address: Felt, retdata_start: Relocatable, retdata_end: Relocatable },
    Keccak { hash_low: Felt, hash_high: Felt },
    Failure { retdata_start: Relocatable, retdata_end: Relocatable },
}

/// A syscall response: the gas left after the call, and the body.
#[derive(Clone, Copy, PartialEq, Eq, Structural, Debug)]
pub struct SyscallResponse {
    pub gas: u128,
    pub body: Option<ResponseBody>,
}

/// The serialized cells of a response body.
pub open spec fn body_cells(body: ResponseBody) -> Seq<MaybeRelocatable> {
    match body {
        ResponseBody::StorageReadResponse { value } => seq![MaybeRelocatable::Int(value)],
        ResponseBody::GetBlockNumber { number } => seq![MaybeRelocatable::Int(number)],
        ResponseBody::GetBlockTimestamp { timestamp } => seq![MaybeRelocatable::Int(timestamp)],
        ResponseBody::GetBlockHash { block_hash } => seq![MaybeRelocatable::Int(block_hash)],
        ResponseBody::GetExecutionInfo { exec_info_ptr } => seq![
            MaybeRelocatable::Ptr(exec_info_ptr),
        ],
        ResponseBody::CallContract { retdata_start, retdata_end } => seq![
            MaybeRelocatable::Ptr(retdata_start),
            MaybeRelocatable::Ptr(retdata_end),
        ],
        ResponseBody::Deploy { contract_address, retdata_start, retdata_end } => seq![
            MaybeRelocatable::Int(contract_address),
            MaybeRelocatable::Ptr(retdata_start),
            MaybeRelocatable::Ptr(retdata_end),
        ],
        ResponseBody::Keccak { hash_low, hash_high } => seq![
            MaybeRelocatable::Int(hash_low),
            MaybeRelocatable::Int(hash_high),
        ],
        ResponseBody::Failure { retdata_start, retdata_end } => seq![
            MaybeRelocatable::Ptr(retdata_start),
            MaybeRelocatable::Ptr(retdata_end),
        ],
    }
}

/// The serialized cells of a whole response: the gas, the failure tag, then
/// the body.
pub open spec fn response_cells(resp: SyscallResponse) -> Seq<MaybeRelocatable> {
    let tag: u64 = if resp.body is Some && resp.body->0 is Failure {
        1
    } else {
        0
    };
    seq![
        MaybeRelocatable::Int(Felt::spec_of_u128(resp.gas)),
        MaybeRelocatable::Int(Felt { l3: 0, l2: 0, l1: 0, l0: tag }),
    ] + match resp.body {
        Some(b) => body_cells(b),
        None => Seq::empty(),
    }
}

impl SyscallResponse {
    /// Serializes the response for the guest.
    pub fn to_cairo_compatible_args(&self) -> (r: Vec<MaybeRelocatable>)
        requires
            self.wf(),
        ensures
            r@ == response_cells(*self),
            crate::memory::cells_wf(r@),
            r@.len() == 2 + match self.body {
                Some(b) => body_cells(b).len() as int,
                None => 0,
            },
    {
        let mut out: Vec<MaybeRelocatable> = Vec::new();
        let gas_felt = Felt::from_u128(self.gas);
        out.push(MaybeRelocatable::Int(gas_felt));
        let tag: u64 = match &self.body {
            Some(b) => match b {
                ResponseBody::Failure { .. } => 1,
                _ => 0,
            },
            None => 0,
        };
        out.push(MaybeRelocatable::Int(Felt { l3: 0, l2: 0, l1: 0, l0: tag }));
        match &self.body {
            Some(b) => match b {
                ResponseBody::StorageReadResponse { value } => {
                    out.push(MaybeRelocatable::Int(*value));
                },
                ResponseBody::GetBlockNumber { number } => {
                    out.push(MaybeRelocatable::Int(*number));
                },
                ResponseBody::GetBlockTimestamp { timestamp } => {
                    out.push(MaybeRelocatable::Int(*timestamp));
                },
                ResponseBody::GetBlockHash { block_hash } => {
                    out.push(MaybeRelocatable::Int(*block_hash));
                },
                ResponseBody::GetExecutionInfo { exec_info_ptr } => {
                    out.push(MaybeRelocatable::Ptr(*exec_info_ptr));
                },
                ResponseBody::CallContract { retdata_start, retdata_end } => {
                    out.push(MaybeRelocatable::Ptr(*retdata_start));
                    out.push(MaybeRelocatable::Ptr(*retdata_end));
                },
                ResponseBody::Deploy { contract_address, retdata_start, retdata_end } => {
                    out.push(MaybeRelocatable::Int(*contract_address));
                    out.push(MaybeRelocatable::Ptr(*retdata_start));
                    out.push(MaybeRelocatable::Ptr(*retdata_end));
                },
                ResponseBody::Keccak { hash_low, hash_high } => {
                    out.push(MaybeRelocatable::Int(*hash_low));
                    out.push(MaybeRelocatable::Int(*hash_high));
                },
                ResponseBody::Failure { retdata_start, retdata_end } => {
                    out.push(MaybeRelocatable::Ptr(*retdata_start));
                    out.push(MaybeRelocatable::Ptr(*retdata_end));
                },
            },
            None => {},
        }
        proof {
            assert(out@ =~= response_cells(*self));
        }
        out
    }

    /// A response is well formed when its felts are; only the body's felts
    /// can come from outside, the gas and tag cells are built here.
    pub open spec fn wf(self) -> bool {
        match self.body {
            Some(b) => crate::memory::cells_wf(body_cells(b)),
            None => true,
        }
    }
}

} // verus!
