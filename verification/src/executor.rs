//! The entry-point executor: a recursive invocation that installs a fresh
//! handler for each call frame, runs the frame's observable behaviour (its
//! syscalls and return data, as a guest script), validates the frame, and
//! harvests the handler's accumulators into a call record.  Sub-calls run
//! the same way, one nesting level deeper, against the same state.

use vstd::prelude::*;
use crate::felt::{ContractAddress, ClassHash, felts_wf};
use crate::errors::{TransactionError, SyscallHandlerError};
use crate::memory::{VmMemory, MaybeRelocatable, cells_wf};
use crate::state::{CachedState, FeltMap};
use crate::types::{
    GuestScript, GuestOp, CallInfo, ExecutionResult, ExecutionEntryPoint, BlockContext,
    TransactionExecutionContext, events_increasing, events_bounded, messages_increasing,
    messages_bounded, copy_felts, lemma_events_extended_increasing,
    lemma_messages_extended_increasing,
};
use crate::handler::{
    SyscallHandler, SyscallStep, call_info_wf, block_context_wf, tx_context_wf, mem_extends,
    mem_extends_except,
};

verus! {

/// Every cell a script writes and every felt it returns is well formed.
pub open spec fn script_wf(s: GuestScript) -> bool {
    &&& forall|i: int|
        0 <= i < s.ops@.len() ==> match #[trigger] s.ops@[i] {
            GuestOp::Syscall(cells) => cells_wf(cells@),
        }
    &&& felts_wf(s.retdata@)
}

/// The observable behaviour of every declared class, keyed by class hash.
/// This stands in for running bytecode, which is outside the handler.
pub struct ScriptedExecutor {
    pub scripts: FeltMap<GuestScript>,
}

impl ScriptedExecutor {
    pub open spec fn wf(self) -> bool {
        forall|h: int| self.scripts@.dom().contains(h) ==> script_wf(#[trigger] self.scripts@[h])
    }

    pub fn new() -> (r: ScriptedExecutor)
        ensures
            r.scripts@ =~= Map::<int, GuestScript>::empty(),
            r.wf(),
    {
        ScriptedExecutor { scripts: FeltMap::new() }
    }

    /// Declares what a class does when one of its entry points runs.
    pub fn register(&mut self, class_hash: &ClassHash, script: GuestScript)
        requires
            script_wf(script),
            old(self).wf(),
        ensures
            final(self).scripts@ == old(self).scripts@.insert(class_hash@, script),
            final(self).wf(),
    {
        self.scripts.insert(class_hash.0, script);
        proof {
            assert forall|h: int| self.scripts@.dom().contains(h) implies script_wf(
                #[trigger] self.scripts@[h],
            ) by {
                if h != class_hash@ {
                    assert(old(self).scripts@.dom().contains(h));
                }
            }
        }
    }
}

/// The class whose behaviour an entry point runs: the explicit class when
/// one is given, else the class installed at the callee's address.
pub open spec fn resolved_class_hash(ep: ExecutionEntryPoint, state: CachedState) -> int {
    match ep.class_hash {
        Some(h) => h@,
        None => state.class_hash_at(ep.contract_address@),
    }
}

/// The running frame's working facts, re-established after every syscall.
pub open spec fn frame_inv(
    handler: SyscallHandler,
    memory: VmMemory,
    state: CachedState,
    tx: TransactionExecutionContext,
) -> bool {
    &&& memory.wf()
    &&& state.storage_wf()
    &&& handler.wf()
    &&& handler.accessed_covers()
    &&& tx_context_wf(tx)
    &&& events_increasing(handler.events@)
    &&& events_bounded(handler.events@, tx.n_emitted_events as int)
    &&& messages_increasing(handler.l2_to_l1_messages@)
    &&& messages_bounded(handler.l2_to_l1_messages@, tx.n_sent_messages as int)
    &&& handler.expected_syscall_ptr.segment_index < memory.n_segments()
    &&& memory.used(handler.expected_syscall_ptr.segment_index as int)
        == handler.expected_syscall_ptr.offset
}

/// Performs one scripted guest step: writes the request cells at the
/// expected syscall pointer, dispatches, and drives any sub-execution to its
/// finish.
#[verifier::rlimit(100)]
#[allow(clippy::too_many_arguments)]
fn run_frame_step(
    executor: &ScriptedExecutor,
    handler: &mut SyscallHandler,
    state: &mut CachedState,
    memory: &mut VmMemory,
    block_context: &BlockContext,
    tx: &mut TransactionExecutionContext,
    request_cells: &Vec<MaybeRelocatable>,
    depth: u64,
) -> (r: Result<(), TransactionError>)
    requires
        executor.wf(),
        cells_wf(request_cells@),
        block_context_wf(*block_context),
        frame_inv(*old(handler), *old(memory), *old(state), *old(tx)),
        old(tx).n_emitted_events < u64::MAX,
        old(tx).n_sent_messages < u64::MAX,
        old(tx).signature@.len() + 16 <= usize::MAX,
    ensures
        final(tx).signature == old(tx).signature,
        final(tx).n_emitted_events >= old(tx).n_emitted_events,
        final(tx).n_sent_messages >= old(tx).n_sent_messages,
        final(memory).wf(),
        final(state).storage_wf(),
        crate::state::class_tables_unchanged(*old(state), *final(state)),
        tx_context_wf(*final(tx)),
        mem_extends_except(
            *old(memory),
            *final(memory),
            old(handler).expected_syscall_ptr.segment_index,
        ),
        final(handler).expected_syscall_ptr.segment_index == old(
            handler,
        ).expected_syscall_ptr.segment_index,
        final(handler).config() == old(handler).config(),
        r is Ok ==> frame_inv(*final(handler), *final(memory), *final(state), *final(tx)),
    decreases depth, 0nat,
{
    let ptr = handler.expected_syscall_ptr;
    match memory.write_data(ptr, request_cells) {
        Ok(_) => {},
        Err(e) => {
            return Err(TransactionError::Syscall(SyscallHandlerError::Memory(e)));
        },
    }
    let ghost pre_events = handler.events@;
    let ghost pre_msgs = handler.l2_to_l1_messages@;
    let ghost pre_ne = tx.n_emitted_events;
    let ghost pre_ns = tx.n_sent_messages;
    let step = match handler.syscall(state, memory, tx, ptr) {
        Ok(s) => s,
        Err(e) => {
            return Err(TransactionError::Syscall(e));
        },
    };
    proof {
        lemma_events_extended_increasing(
            pre_events,
            handler.events@,
            pre_ne as int,
            tx.n_emitted_events as int,
        );
        lemma_messages_extended_increasing(
            pre_msgs,
            handler.l2_to_l1_messages@,
            pre_ns as int,
            tx.n_sent_messages as int,
        );
    }
    match step {
        SyscallStep::Done(_) => Ok(()),
        SyscallStep::PendingCall(pending) => {
            if depth == 0 {
                return Err(TransactionError::MaxDepthReached);
            }
            let exec_result = execute_entry_point(
                executor,
                &pending.entry_point,
                state,
                memory,
                block_context,
                tx,
                false,
                depth - 1,
            )?;
            match handler.finish_call_syscall(memory, pending, exec_result) {
                Ok(_) => Ok(()),
                Err(e) => Err(TransactionError::Syscall(e)),
            }
        },
        SyscallStep::PendingDeploy(pending) => {
            if depth == 0 {
                return Err(TransactionError::MaxDepthReached);
            }
            let support = handler.support_reverted;
            let exec_result = execute_entry_point(
                executor,
                &pending.entry_point,
                state,
                memory,
                block_context,
                tx,
                support,
                depth - 1,
            )?;
            match handler.finish_deploy_syscall(memory, pending, exec_result) {
                Ok(_) => Ok(()),
                Err(e) => Err(TransactionError::Syscall(e)),
            }
        },
    }
}

/// Runs one entry point to completion: a fresh handler is installed over a
/// fresh syscall segment, the frame's syscalls are dispatched in order with
/// sub-calls recursing one level deeper, the frame is validated, and the
/// accumulators are harvested into the call record.
#[verifier::loop_isolation(false)]
#[verifier::rlimit(100)]
#[allow(clippy::too_many_arguments)]
pub fn execute_entry_point(
    executor: &ScriptedExecutor,
    entry_point: &ExecutionEntryPoint,
    state: &mut CachedState,
    memory: &mut VmMemory,
    block_context: &BlockContext,
    tx: &mut TransactionExecutionContext,
    support_reverted: bool,
    depth: u64,
) -> (r: Result<ExecutionResult, TransactionError>)
    requires
        old(memory).wf(),
        old(state).storage_wf(),
        executor.wf(),
        entry_point.contract_address.wf(),
        entry_point.caller_address.wf(),
        entry_point.entry_point_selector.wf(),
        felts_wf(entry_point.calldata@),
        block_context_wf(*block_context),
        tx_context_wf(*old(tx)),
        old(tx).signature@.len() + 16 <= usize::MAX,
    ensures
        final(memory).wf(),
        final(state).storage_wf(),
        crate::state::class_tables_unchanged(*old(state), *final(state)),
        tx_context_wf(*final(tx)),
        final(tx).signature == old(tx).signature,
        final(tx).n_emitted_events >= old(tx).n_emitted_events,
        final(tx).n_sent_messages >= old(tx).n_sent_messages,
        mem_extends(*old(memory), *final(memory)),
        !executor.scripts@.dom().contains(resolved_class_hash(*entry_point, *old(state)))
            ==> r matches Err(TransactionError::MissingClassHash),
        match r {
            Ok(res) => {
                &&& res.call_info is Some
                &&& res.revert_error is None
                &&& ({
                    let ci = res.call_info->Some_0;
                    let h = resolved_class_hash(*entry_point, *old(state));
                    &&& call_info_wf(ci)
                    &&& events_increasing(ci.events@)
                    &&& events_bounded(ci.events@, final(tx).n_emitted_events as int)
                    &&& messages_increasing(ci.l2_to_l1_messages@)
                    &&& messages_bounded(ci.l2_to_l1_messages@, final(tx).n_sent_messages as int)
                    &&& ci.contract_address == entry_point.contract_address
                    &&& ci.caller_address == entry_point.caller_address
                    &&& ci.entry_point_selector == Some(entry_point.entry_point_selector)
                    &&& ci.entry_point_type == Some(entry_point.entry_point_type)
                    &&& ci.calldata@ == entry_point.calldata@
                    &&& executor.scripts@.dom().contains(h)
                    &&& (ci.class_hash matches Some(ch) && ch@ == h)
                    &&& ci.retdata@ == executor.scripts@[h].retdata@
                    &&& ci.failure_flag == executor.scripts@[h].failure_flag
                    &&& ci.gas_consumed == executor.scripts@[h].gas_consumed
                })
            },
            Err(_) => true,
        },
    decreases depth, 1nat,
{
    let class_hash = match &entry_point.class_hash {
        Some(h) => ClassHash(h.0),
        None => state.get_class_hash_at(&entry_point.contract_address),
    };
    let script = match executor.scripts.get(&class_hash.0) {
        Some(s) => s,
        None => {
            return Err(TransactionError::MissingClassHash);
        },
    };
    proof {
        assert(script_wf(*script));
    }
    let base = memory.add_segment();
    let mut handler = SyscallHandler::new(
        entry_point.caller_address,
        entry_point.contract_address,
        *block_context,
        base,
        support_reverted,
        entry_point.entry_point_selector,
    );
    let n_ops = script.ops.len();
    let mut k: usize = 0;
    while k < n_ops
        invariant
            0 <= k <= n_ops,
            n_ops == script.ops@.len(),
            script_wf(*script),
            frame_inv(handler, *memory, *state, *tx),
            crate::state::class_tables_unchanged(*old(state), *state),
            handler.expected_syscall_ptr.segment_index == base.segment_index,
            base.segment_index >= old(memory).n_segments(),
            tx.signature == old(tx).signature,
            tx.n_emitted_events >= old(tx).n_emitted_events,
            tx.n_sent_messages >= old(tx).n_sent_messages,
            mem_extends(*old(memory), *memory),
        decreases n_ops - k,
    {
        if tx.n_emitted_events == u64::MAX || tx.n_sent_messages == u64::MAX {
            return Err(TransactionError::CustomError("counter exhausted".to_owned()));
        }
        let GuestOp::Syscall(request_cells) = &script.ops[k];
        proof {
            assert(cells_wf(request_cells@)) by {
                assert(match script.ops@[k as int] {
                    GuestOp::Syscall(cells) => cells_wf(cells@),
                });
            }
        }
        run_frame_step(
            executor,
            &mut handler,
            state,
            memory,
            block_context,
            tx,
            request_cells,
            depth,
        )?;
        k = k + 1;
    }
    let stop_ptr = handler.expected_syscall_ptr;
    match handler.post_run(memory, stop_ptr) {
        Ok(_) => {},
        Err(e) => {
            return Err(e);
        },
    }
    let retdata = copy_felts(&script.retdata);
    proof {
        assert(felts_wf(retdata@));
    }
    let call_info = CallInfo {
        caller_address: entry_point.caller_address,
        call_type: entry_point.call_type,
        contract_address: entry_point.contract_address,
        code_address: None,
        class_hash: Some(class_hash),
        entry_point_selector: Some(entry_point.entry_point_selector),
        entry_point_type: Some(entry_point.entry_point_type),
        calldata: copy_felts(&entry_point.calldata),
        retdata,
        events: handler.events,
        l2_to_l1_messages: handler.l2_to_l1_messages,
        storage_read_values: handler.read_values,
        accessed_storage_keys: handler.accessed_keys,
        internal_calls: handler.internal_calls,
        gas_consumed: script.gas_consumed,
        failure_flag: script.failure_flag,
    };
    Ok(ExecutionResult { call_info: Some(call_info), revert_error: None, n_reverted_steps: 0 })
}

} // verus!
