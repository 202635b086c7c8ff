//! The workers of a test: how long they go on, and what each of them does
//! with the end of one request.
//!
//! A worker is a loop without pauses. Before each request it asks whether to
//! go on; after each request it folds the outcome into the statistics.

use crate::client::{classification_of, conclude, elapsed_of, Attempt};
use crate::models::metrics::{Metrics, Observation, RequestOutcome};
use vstd::prelude::*;

verus! {

/// The moment at which a test that starts at `start_ms` and runs for
/// `duration_secs` seconds is over, in milliseconds; the latest moment that
/// can be told where the sum is beyond it.
pub open spec fn deadline_of(start_ms: u64, duration_secs: u64) -> u64 {
    if start_ms + duration_secs * 1000 > u64::MAX {
        u64::MAX
    } else {
        (start_ms + duration_secs * 1000) as u64
    }
}

/// The moment at which a test is over.
pub fn deadline(start_ms: u64, duration_secs: u64) -> (end_ms: u64)
    ensures
        end_ms == deadline_of(start_ms, duration_secs),
{
    let end: u128 = start_ms as u128 + (duration_secs as u128) * 1000;
    if end > u64::MAX as u128 {
        u64::MAX
    } else {
        end as u64
    }
}

/// What a worker does next.
#[derive(Debug, Clone, Copy, PartialEq, Eq, Structural)]
pub enum WorkerStep {
    /// Send one more request.
    Dispatch,
    /// End.
    Exit,
}

/// What a worker does next: it ends once the workers were told to stop,
/// once the test is over, or once no session is open any more; else it
/// sends one more request.
pub open spec fn step_of(cancelled: bool, now_ms: u64, deadline_ms: u64, active: usize) -> WorkerStep {
    if cancelled || now_ms >= deadline_ms || active == 0 {
        WorkerStep::Exit
    } else {
        WorkerStep::Dispatch
    }
}

/// What a worker of a session does next.
pub fn worker_step(cancelled: bool, now_ms: u64, deadline_ms: u64, active: usize) -> (step:
    WorkerStep)
    ensures
        step == step_of(cancelled, now_ms, deadline_ms, active),
{
    if cancelled {
        WorkerStep::Exit
    } else if now_ms >= deadline_ms {
        WorkerStep::Exit
    } else if active == 0 {
        WorkerStep::Exit
    } else {
        WorkerStep::Dispatch
    }
}

/// Folds the end of one attempt into the statistics and hands back its
/// outcome.
pub fn fold_attempt(
    metrics: &mut Metrics,
    attempt: &Attempt,
    measured_ms: u128,
    timeout_ms: u64,
) -> (outcome: RequestOutcome)
    requires
        old(metrics).wf(),
    ensures
        final(metrics).wf(),
        final(metrics).counts_timeouts_apart() == old(metrics).counts_timeouts_apart(),
        final(metrics)@ == old(metrics)@.push(outcome.observation()),
        outcome.observation() == (Observation {
            classification: classification_of(attempt),
            elapsed_ms: elapsed_of(attempt, measured_ms, timeout_ms),
        }),
{
    let outcome = conclude(attempt, measured_ms, timeout_ms);
    metrics.record(&outcome);
    outcome
}

} // verus!
