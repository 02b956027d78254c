//! The commit scheduler: the per-index policy that decides when pending
//! writes become a new readable generation, and the commit cycle that
//! executes that transition atomically.
//!
//! The policy is dual-triggered: time-based (the commit interval has passed
//! since the last commit) or size-based (enough documents are pending),
//! whichever fires first. The engine's flush outcome is an input to the
//! cycle: the surrounding driver performs the flush and reports whether it
//! succeeded, and the cycle is verified for every outcome.

use vstd::prelude::*;

use crate::error::Error;
use crate::handle::{
    step_begin_commit, step_commit_failed, step_commit_published, HandleV, IndexHandle,
    WriterState,
};
use crate::settings::CommitPolicy;

verus! {

/// The dual trigger: enough time since the last commit, or enough pending
/// documents. A clock that moved backwards never fires the time trigger.
pub open spec fn spec_should_commit(
    policy: CommitPolicy,
    pending: nat,
    now: u64,
    last_commit_time: u64,
) -> bool {
    ||| (now >= last_commit_time && now - last_commit_time >= policy.interval_ms)
    ||| pending >= policy.size_threshold
}

/// Whether the scheduler's dual-trigger policy fires.
pub fn should_commit(policy: &CommitPolicy, pending_count: usize, now: u64, last_commit_time: u64) -> (b:
    bool)
    ensures
        b == spec_should_commit(*policy, pending_count as nat, now, last_commit_time),
{
    (now >= last_commit_time && now - last_commit_time >= policy.interval_ms) || (pending_count
        as u64 >= policy.size_threshold)
}

/// One forced commit cycle, bypassing both triggers: move the writer to
/// `Committing`, apply the engine's flush outcome, and either publish the
/// new generation or recover. Skipped with `WriterBusy` when a cycle is
/// already in flight.
pub fn run_commit_cycle(handle: &mut IndexHandle, now: u64, engine_ok: bool) -> (r: Result<
    u64,
    Error,
>)
    requires
        old(handle)@.wf(),
        old(handle)@.current_generation < u64::MAX,
    ensures
        final(handle)@.wf(),
        final(handle)@.current_generation >= old(handle)@.current_generation,
        match r {
            Ok(g) => {
                &&& old(handle)@.writer_state != WriterState::Committing
                &&& engine_ok
                &&& step_commit_published(old(handle)@, final(handle)@, now)
                &&& g == old(handle)@.current_generation + 1
            },
            Err(e) => match e {
                Error::WriterBusy => old(handle)@.writer_state == WriterState::Committing
                    && final(handle)@ == old(handle)@,
                Error::CommitFailure => {
                    &&& old(handle)@.writer_state != WriterState::Committing
                    &&& !engine_ok
                    &&& step_commit_failed(old(handle)@, final(handle)@)
                },
                _ => false,
            },
        },
{
    let ghost pre = handle@;
    match handle.begin_commit() {
        Err(e) => Err(e),
        Ok(()) => {
            let r = handle.finish_commit(now, engine_ok);
            proof {
                if engine_ok {
                    assert(handle@ =~= (HandleV {
                        writer_state: WriterState::Idle,
                        pending: Seq::empty(),
                        committed: pre.committed + pre.pending,
                        current_generation: (pre.current_generation + 1) as u64,
                        last_commit_time: now,
                        ..pre
                    }));
                } else {
                    assert(handle@ =~= (HandleV { writer_state: WriterState::Idle, ..pre }));
                }
            }
            r
        },
    }
}

/// One scheduler tick for one handle: when a trigger fires and no cycle is
/// in flight, run a commit cycle. A tick that finds an in-flight cycle, or
/// no trigger fired, changes nothing and reports `Ok(None)`. A failed flush
/// is reported as `CommitFailure` but loses nothing: the next firing tick
/// retries the same pending documents.
pub fn tick(handle: &mut IndexHandle, now: u64, engine_ok: bool) -> (r: Result<Option<u64>, Error>)
    requires
        old(handle)@.wf(),
        old(handle)@.current_generation < u64::MAX,
    ensures
        final(handle)@.wf(),
        final(handle)@.current_generation >= old(handle)@.current_generation,
        match r {
            Ok(opt) => match opt {
                Some(g) => {
                    &&& old(handle)@.writer_state != WriterState::Committing
                    &&& spec_should_commit(
                        old(handle)@.policy,
                        old(handle)@.pending.len(),
                        now,
                        old(handle)@.last_commit_time,
                    )
                    &&& engine_ok
                    &&& step_commit_published(old(handle)@, final(handle)@, now)
                    &&& g == old(handle)@.current_generation + 1
                },
                None => {
                    &&& final(handle)@ == old(handle)@
                    &&& (old(handle)@.writer_state == WriterState::Committing
                        || !spec_should_commit(
                        old(handle)@.policy,
                        old(handle)@.pending.len(),
                        now,
                        old(handle)@.last_commit_time,
                    ))
                },
            },
            Err(e) => {
                &&& e matches Error::CommitFailure
                &&& old(handle)@.writer_state != WriterState::Committing
                &&& spec_should_commit(
                    old(handle)@.policy,
                    old(handle)@.pending.len(),
                    now,
                    old(handle)@.last_commit_time,
                )
                &&& !engine_ok
                &&& step_commit_failed(old(handle)@, final(handle)@)
            },
        },
{
    if matches!(handle.writer_state, WriterState::Committing) {
        return Ok(None);
    }
    let pending = handle.pending_count();
    if !should_commit(&handle.policy, pending, now, handle.last_commit_time) {
        return Ok(None);
    }
    match run_commit_cycle(handle, now, engine_ok) {
        Ok(g) => Ok(Some(g)),
        Err(e) => Err(e),
    }
}

} // verus!
