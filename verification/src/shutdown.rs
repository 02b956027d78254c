//! Shutdown drain: on a termination signal, every handle is asked to run
//! one final forced commit cycle, bypassing both scheduler triggers, before
//! the process exits. The drive is best effort with a bounded wait: an
//! engine failure or a timeout on one handle is reported and loses nothing
//! — that handle keeps its pending buffer and its old generation — and
//! never blocks the other handles' drains.

use vstd::prelude::*;

use crate::commit::run_commit_cycle;
use crate::error::Error;
use crate::handle::{step_commit_failed, step_commit_published, IndexHandle, WriterState};
use crate::index::IndexCatalog;

verus! {

/// How one handle's forced final commit ended, as reported by the engine
/// driver within the shutdown grace period.
#[derive(Debug, Clone, Copy, PartialEq, Eq, Structural)]
pub enum CommitOutcome {
    /// The flush completed and the new generation can be published.
    Success,
    /// The engine reported an I/O failure during the flush.
    IoFailure,
    /// The flush did not finish within the grace period.
    TimedOut,
}

/// The error reported for one handle's forced commit, if any.
pub open spec fn drain_error_of(o: CommitOutcome) -> Option<Error> {
    match o {
        CommitOutcome::Success => None,
        CommitOutcome::IoFailure => Some(Error::CommitFailure),
        CommitOutcome::TimedOut => Some(Error::ShutdownDrainTimeout),
    }
}

/// The errors a whole drain reports, in handle order.
pub open spec fn spec_drain_errors(os: Seq<CommitOutcome>) -> Seq<Error>
    decreases os.len(),
{
    if os.len() == 0 {
        Seq::empty()
    } else {
        let rest = spec_drain_errors(os.drop_last());
        match drain_error_of(os.last()) {
            Some(e) => rest.push(e),
            None => rest,
        }
    }
}

/// One handle's forced final commit, bypassing both triggers. On success
/// the pending buffer is published as a new generation; a failure or a
/// timeout is reported and leaves the pending buffer and the old
/// generation intact.
pub fn drain_handle(handle: &mut IndexHandle, now: u64, outcome: CommitOutcome) -> (r: Result<
    u64,
    Error,
>)
    requires
        old(handle)@.wf(),
        old(handle)@.current_generation < u64::MAX,
        old(handle)@.writer_state != WriterState::Committing,
    ensures
        final(handle)@.wf(),
        match outcome {
            CommitOutcome::Success => {
                &&& step_commit_published(old(handle)@, final(handle)@, now)
                &&& r matches Ok(g) && g == old(handle)@.current_generation + 1
            },
            CommitOutcome::IoFailure => {
                &&& step_commit_failed(old(handle)@, final(handle)@)
                &&& r matches Err(e) && e matches Error::CommitFailure
            },
            CommitOutcome::TimedOut => {
                &&& step_commit_failed(old(handle)@, final(handle)@)
                &&& r matches Err(e) && e matches Error::ShutdownDrainTimeout
            },
        },
{
    let engine_ok = matches!(outcome, CommitOutcome::Success);
    match run_commit_cycle(handle, now, engine_ok) {
        Ok(g) => Ok(g),
        Err(_) => {
            if matches!(outcome, CommitOutcome::TimedOut) {
                Err(Error::ShutdownDrainTimeout)
            } else {
                Err(Error::CommitFailure)
            }
        },
    }
}

/// Drains the whole catalog for shutdown: one forced commit cycle per
/// handle, each handle's outcome applied independently, and one reported
/// error per failed or timed-out handle, in handle order. Run after new
/// operations have been cancelled and in-flight ones drained, so no commit
/// cycle is still in flight.
pub fn drain_catalog(catalog: &mut IndexCatalog, now: u64, outcomes: &Vec<CommitOutcome>) -> (errors:
    Vec<Error>)
    requires
        old(catalog)@.wf(),
        outcomes@.len() == old(catalog)@.handles.len(),
        forall|i: int|
            0 <= i < old(catalog)@.handles.len() ==> (#[trigger] old(
                catalog,
            )@.handles[i]).current_generation < u64::MAX,
        forall|i: int|
            0 <= i < old(catalog)@.handles.len() ==> (#[trigger] old(
                catalog,
            )@.handles[i]).writer_state != WriterState::Committing,
    ensures
        final(catalog)@.wf(),
        final(catalog)@.settings == old(catalog)@.settings,
        final(catalog)@.handles.len() == old(catalog)@.handles.len(),
        forall|i: int|
            0 <= i < old(catalog)@.handles.len() ==> match outcomes@[i] {
                CommitOutcome::Success => step_commit_published(
                    #[trigger] old(catalog)@.handles[i],
                    final(catalog)@.handles[i],
                    now,
                ),
                CommitOutcome::IoFailure => step_commit_failed(
                    old(catalog)@.handles[i],
                    final(catalog)@.handles[i],
                ),
                CommitOutcome::TimedOut => step_commit_failed(
                    old(catalog)@.handles[i],
                    final(catalog)@.handles[i],
                ),
            },
        errors@ == spec_drain_errors(outcomes@),
{
    let ghost pre = catalog@;
    let mut errors: Vec<Error> = Vec::new();
    let mut i: usize = 0;
    proof {
        assert(outcomes@.subrange(0, 0) =~= Seq::<CommitOutcome>::empty());
    }
    while i < catalog.handles.len()
        invariant
            i <= catalog@.handles.len(),
            catalog@.settings == pre.settings,
            catalog@.handles.len() == pre.handles.len(),
            outcomes@.len() == pre.handles.len(),
            forall|k: int| i <= k < pre.handles.len() ==> catalog@.handles[k] == pre.handles[k],
            forall|k: int|
                0 <= k < pre.handles.len() ==> (#[trigger] pre.handles[k]).current_generation
                    < u64::MAX,
            forall|k: int|
                0 <= k < pre.handles.len() ==> (#[trigger] pre.handles[k]).writer_state
                    != WriterState::Committing,
            forall|k: int| 0 <= k < pre.handles.len() ==> (#[trigger] pre.handles[k]).wf(),
            forall|k: int| 0 <= k < catalog@.handles.len() ==> (#[trigger] catalog@.handles[k]).wf(),
            forall|a: int, b: int|
                0 <= a < b < pre.handles.len() ==> pre.handles[a].name != pre.handles[b].name,
            forall|k: int|
                0 <= k < i ==> match outcomes@[k] {
                    CommitOutcome::Success => step_commit_published(
                        #[trigger] pre.handles[k],
                        catalog@.handles[k],
                        now,
                    ),
                    CommitOutcome::IoFailure => step_commit_failed(
                        pre.handles[k],
                        catalog@.handles[k],
                    ),
                    CommitOutcome::TimedOut => step_commit_failed(
                        pre.handles[k],
                        catalog@.handles[k],
                    ),
                },
            errors@ == spec_drain_errors(outcomes@.subrange(0, i as int)),
        decreases catalog@.handles.len() - i,
    {
        let ghost pre_handles = catalog@.handles;
        let outcome = outcomes[i];
        proof {
            assert(catalog@.handles[i as int] == catalog.handles@[i as int]@);
            assert(catalog@.handles[i as int].wf());
            assert(catalog@.handles[i as int] == pre.handles[i as int]);
        }
        let h = &mut catalog.handles[i];
        let r = drain_handle(h, now, outcome);
        proof {
            assert(catalog@.handles =~= pre_handles.update(i as int, catalog@.handles[i as int]));
        }
        if let Err(e) = r {
            errors.push(e);
        }
        proof {
            assert(outcomes@.subrange(0, i + 1).drop_last() =~= outcomes@.subrange(0, i as int));
            assert(outcomes@.subrange(0, i + 1).last() == outcomes@[i as int]);
        }
        i += 1;
    }
    proof {
        assert(outcomes@.subrange(0, pre.handles.len() as int) =~= outcomes@);
        assert forall|a: int, b: int|
            0 <= a < b < catalog@.handles.len() implies catalog@.handles[a].name
            != catalog@.handles[b].name by {
            assert(catalog@.handles[a].name == pre.handles[a].name);
            assert(catalog@.handles[b].name == pre.handles[b].name);
        }
    }
    errors
}

} // verus!
