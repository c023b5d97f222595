//! The loop-detection policy, stated as theorems over the engine model.
//!
//! Each law quantifies over every engine state (subject only to the
//! engine's invariant and the step's arithmetic bound) and pins down what
//! one micro-operation step does to the session and which action it
//! answers with.

use vstd::prelude::*;

use crate::dummy_peripheral::{
    bump, inv, in_ranges, step_act, step_model, step_width_err, ActModel, EngineModel, OpEvent,
    ReadEvent,
};
use crate::errors::supported_width;
use crate::result_cache::{seq_lookup, SolvingResult};
use crate::bytes::value_bytes;

verus! {

/// Cache idempotence: once the cache holds a result for an address and
/// caching is enabled, a load from that address is answered with exactly
/// the cached value, converted to the load's width, and never starts or
/// replaces a session — every part of the engine state except the
/// operation counter is left as it was.
pub proof fn lemma_cache_idempotent<P>(
    m: EngineModel<P>,
    cache: Seq<SolvingResult>,
    prev: SolvingResult,
    pc: u64,
    addr: u64,
    size: usize,
    payload: P,
)
    requires
        m.cache_enable,
        in_ranges(m.ranges, addr),
        seq_lookup(cache, addr) == Some(prev),
        supported_width(size),
        !m.active,
    ensures
        ({
            let ev = OpEvent::Load { pc, source_addr: addr, dest_size: size };
            &&& step_width_err(m, cache, ev) is None
            &&& step_model(m, cache, ev, payload) == bump(m)
            &&& step_act(m, cache, ev) == (ActModel::Write {
                addr,
                bytes: value_bytes(prev.value, m.order, size as int),
            })
        }),
{
}

/// Cache disable reverts behavior: with caching disabled, a load from a
/// peripheral address starts a fresh session even when a cached entry
/// exists for that address.
pub proof fn lemma_cache_disable_reverts<P>(
    m: EngineModel<P>,
    cache: Seq<SolvingResult>,
    pc: u64,
    addr: u64,
    size: usize,
    payload: P,
)
    requires
        !m.cache_enable,
        in_ranges(m.ranges, addr),
    ensures
        ({
            let m2 = step_model(m, cache, OpEvent::Load { pc, source_addr: addr, dest_size: size },
            payload);
            &&& m2.active
            &&& m2.forgive == 0
            &&& m2.pcode_counter == 1
            &&& m2.trace == seq![payload]
            &&& m2.seeds == m.defaults
            &&& m2.last_read == (ReadEvent { pc, addr, size, event: m.event_counter })
        }),
{
}

/// Session replacement: a peripheral load that is not served from the
/// cache discards whatever session was in progress — counters, tolerated
/// jumps and trace all start over and the seeds are taken afresh from the
/// default bindings; nothing carries over.
pub proof fn lemma_session_replacement<P>(
    m: EngineModel<P>,
    cache: Seq<SolvingResult>,
    pc: u64,
    addr: u64,
    size: usize,
    payload: P,
)
    requires
        m.active,
        in_ranges(m.ranges, addr),
        !(m.cache_enable && seq_lookup(cache, addr) is Some),
    ensures
        ({
            let m2 = step_model(m, cache, OpEvent::Load { pc, source_addr: addr, dest_size: size },
            payload);
            &&& m2.active
            &&& m2.forgive == 0
            &&& m2.pcode_counter == 1
            &&& m2.trace == seq![payload]
            &&& m2.seeds == m.defaults
            &&& m2.last_read == (ReadEvent { pc, addr, size, event: m.event_counter })
        }),
{
}

/// Loop detection: while a session is live, a conditional branch whose
/// resolved destination is the recorded read's program counter or lies
/// before it asks for a solve and ends the session.
pub proof fn lemma_loop_detected<P>(
    m: EngineModel<P>,
    cache: Seq<SolvingResult>,
    dest: u64,
    payload: P,
)
    requires
        m.active,
        dest <= m.last_read.pc,
    ensures
        ({
            let ev = OpEvent::CondBranch { dest_addr: Some(dest) };
            &&& step_act(m, cache, ev) == ActModel::Solve
            &&& step_model(m, cache, ev, payload) == bump(EngineModel { active: false, ..m })
        }),
{
}

/// The solver is asked at most once per detection: with no session live,
/// a conditional branch never asks for a solve and changes nothing but
/// the operation counter.
pub proof fn lemma_solve_only_once<P>(
    m: EngineModel<P>,
    cache: Seq<SolvingResult>,
    dest: Option<u64>,
    payload: P,
)
    requires
        !m.active,
    ensures
        step_act(m, cache, OpEvent::CondBranch { dest_addr: dest }) == ActModel::Pass,
        step_model(m, cache, OpEvent::CondBranch { dest_addr: dest }, payload) == bump(m),
{
}

/// Forgiveness bound, first half: the first forward jump of a session is
/// tolerated — the session stays live, the jump is counted and recorded.
pub proof fn lemma_first_forward_jump_forgiven<P>(
    m: EngineModel<P>,
    cache: Seq<SolvingResult>,
    dest: u64,
    payload: P,
)
    requires
        m.active,
        m.forgive == 0,
        dest > m.last_read.pc,
    ensures
        ({
            let ev = OpEvent::CondBranch { dest_addr: Some(dest) };
            let m2 = step_model(m, cache, ev, payload);
            &&& step_act(m, cache, ev) == ActModel::Pass
            &&& m2.active
            &&& m2.forgive == 1
            &&& m2.trace == m.trace.push(payload)
        }),
{
}

/// Forgiveness bound, second half: a second forward jump in the same
/// session aborts it without a solve.
pub proof fn lemma_second_forward_jump_aborts<P>(
    m: EngineModel<P>,
    cache: Seq<SolvingResult>,
    dest: u64,
    payload: P,
)
    requires
        m.active,
        m.forgive == 1,
        dest > m.last_read.pc,
    ensures
        ({
            let ev = OpEvent::CondBranch { dest_addr: Some(dest) };
            let m2 = step_model(m, cache, ev, payload);
            &&& step_act(m, cache, ev) == ActModel::Pass
            &&& !m2.active
            &&& m2.trace == m.trace
        }),
{
}

/// Write invalidation: a store to the very address the live session's
/// read is tracking aborts the session; no solve is asked for.
pub proof fn lemma_write_invalidation<P>(
    m: EngineModel<P>,
    cache: Seq<SolvingResult>,
    payload: P,
)
    requires
        m.active,
    ensures
        ({
            let ev = OpEvent::Store { dest_addr: m.last_read.addr };
            let m2 = step_model(m, cache, ev, payload);
            &&& step_act(m, cache, ev) == ActModel::Pass
            &&& !m2.active
            &&& m2.trace == m.trace
        }),
{
}

/// Every step keeps the engine's invariant.
pub proof fn lemma_step_preserves_inv<P>(
    m: EngineModel<P>,
    cache: Seq<SolvingResult>,
    ev: OpEvent,
    payload: P,
)
    requires
        inv(m),
    ensures
        inv(step_model(m, cache, ev, payload)),
{
}

} // verus!
