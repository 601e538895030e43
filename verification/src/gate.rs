//! The admission controller: a bounded counter of requests in flight.
//!
//! The counter itself is shared state; the application holds it under a lock
//! and blocks on a condition variable while no slot is free. Every decision
//! about the counter's value is made here: whether a worker may be admitted,
//! what the counter becomes when one is, and what it becomes when a worker
//! leaves. A configured bound of zero disables admission control entirely.

use vstd::prelude::*;

verus! {

/// One operation a worker performs against the admission counter.
pub enum GateOp {
    Acquire,
    Release,
}

/// The counter's value after one operation. An acquire against a full gate
/// leaves the counter unchanged (the worker keeps waiting); a release of an
/// already-empty counter leaves it at zero. A bound of zero disables the
/// gate, so neither operation moves the counter.
pub open spec fn gate_step(active: int, max_concurrent: int, op: GateOp) -> int {
    match op {
        GateOp::Acquire => {
            if max_concurrent == 0 {
                active
            } else if active < max_concurrent {
                active + 1
            } else {
                active
            }
        },
        GateOp::Release => {
            if max_concurrent == 0 {
                active
            } else if active > 0 {
                active - 1
            } else {
                active
            }
        },
    }
}

/// The counter's value after a sequence of operations, in order.
pub open spec fn gate_run(active: int, max_concurrent: int, ops: Seq<GateOp>) -> int
    decreases ops.len(),
{
    if ops.len() == 0 {
        active
    } else {
        gate_step(gate_run(active, max_concurrent, ops.drop_last()), max_concurrent, ops.last())
    }
}

/// Law: under a positive bound, the admission counter stays within
/// `0 ..= max_concurrent` across every interleaving of acquires and
/// releases, however the workers' operations are ordered.
pub proof fn lemma_gate_bounded(active: int, max_concurrent: int, ops: Seq<GateOp>)
    requires
        max_concurrent > 0,
        0 <= active <= max_concurrent,
    ensures
        0 <= gate_run(active, max_concurrent, ops) <= max_concurrent,
    decreases ops.len(),
{
    if ops.len() > 0 {
        lemma_gate_bounded(active, max_concurrent, ops.drop_last());
    }
}

/// Whether a worker may take a slot now: always under a disabled gate,
/// otherwise only while the counter is below the bound.
pub fn can_admit(active: usize, max_concurrent: usize) -> (r: bool)
    ensures
        r == (max_concurrent == 0 || active < max_concurrent),
{
    max_concurrent == 0 || active < max_concurrent
}

/// The counter after a worker takes a slot. The caller re-checks
/// `can_admit` under its lock until it holds, so admission is only ever
/// performed below the bound, and the new value never exceeds it.
pub fn acquire_permit(active: usize, max_concurrent: usize) -> (r: usize)
    requires
        max_concurrent == 0 || active < max_concurrent,
    ensures
        r == gate_step(active as int, max_concurrent as int, GateOp::Acquire),
        max_concurrent == 0 ==> r == active,
        max_concurrent > 0 ==> r == active + 1 && r <= max_concurrent,
{
    if max_concurrent == 0 {
        active
    } else {
        active + 1
    }
}

/// The counter after a worker leaves, on every exit path. The counter never
/// goes negative: a release against an empty counter leaves it at zero.
pub fn release_permit(active: usize, max_concurrent: usize) -> (r: usize)
    ensures
        r == gate_step(active as int, max_concurrent as int, GateOp::Release),
        max_concurrent == 0 ==> r == active,
        max_concurrent > 0 && active > 0 ==> r == active - 1,
        max_concurrent > 0 && active == 0 ==> r == 0,
        r <= active,
        max_concurrent > 0 && active <= max_concurrent ==> r <= max_concurrent,
{
    if max_concurrent == 0 {
        active
    } else if active > 0 {
        active - 1
    } else {
        active
    }
}

} // verus!
