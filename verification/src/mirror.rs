//! The mirror synchronizer's decision machine.
//!
//! One synchronization of one repository is a short conversation
//! with the version-control layer: probe whether the target path
//! exists; clone into an absent path, or fetch into a present one
//! with pruning enabled; after a fetch, hard-reset to the fetched
//! branch head exactly when that reference resolves. The machine
//! here makes every decision of that conversation; the shell only
//! performs the operation each phase calls for and reports how it
//! went.
//!
//! A clone refused because the requested branch does not exist yet
//! is not a failure: the remote repository is empty, nothing is to
//! be mirrored, and the repository will be picked up on a later run
//! once it has content.

use vstd::prelude::*;

verus! {

/// How a version-control operation failed: whether the missing-
/// reference case was reported, and the underlying message.
#[derive(Clone, Debug)]
pub struct VcsError {
    /// The operation failed because a requested reference or object
    /// was not found.
    pub not_found: bool,
    /// The underlying cause, for the failure report.
    pub message: String,
}

/// What the shell reports back after performing the operation the
/// current phase called for.
pub enum MirrorEvent {
    /// Whether the target path exists.
    PathChecked(bool),
    /// How the clone of the requested branch into the absent path
    /// ended.
    CloneFinished(Result<(), VcsError>),
    /// How opening the present mirror and fetching from its remote
    /// ended; on success, whether the fetched branch reference
    /// resolves.
    FetchFinished(Result<bool, VcsError>),
    /// How the hard reset to the fetched branch head ended.
    ResetFinished(Result<(), VcsError>),
}

/// How a completed synchronization left the mirror.
#[derive(Clone, Copy, Debug, PartialEq, Eq, Structural)]
pub enum MirrorStatus {
    /// The path was absent and a fresh clone was made.
    Cloned,
    /// The path was absent and the remote has no content on the
    /// requested branch yet: nothing was created, and nothing
    /// failed.
    EmptyRemote,
    /// The path was present; the fetch brought the branch head and
    /// the mirror was hard-reset to it.
    Updated,
    /// The path was present and the fetch completed, but the branch
    /// reference did not resolve, so no reset was due.
    FetchedNoRef,
}

/// Where one synchronization stands: each non-terminal phase names
/// the operation the shell must perform next.
pub enum MirrorPhase {
    /// Probe whether the target path exists.
    Probing,
    /// The path is absent: clone the requested branch into it.
    Cloning,
    /// The path is present: open it and fetch from its remote, with
    /// tag and reference pruning, then look the branch reference up.
    Fetching,
    /// The fetched branch reference resolved: hard-reset the mirror
    /// to it, discarding local divergence.
    Resetting,
    /// The synchronization succeeded.
    Done(MirrorStatus),
    /// The synchronization failed, with the underlying message.
    Failed(String),
}

/// The machine's transition: what each phase's pending operation
/// decides. An event that does not answer the pending operation
/// leaves the phase as it is; in particular the two terminal phases
/// absorb every event.
pub open spec fn spec_step(phase: MirrorPhase, ev: MirrorEvent) -> MirrorPhase {
    match (phase, ev) {
        (MirrorPhase::Probing, MirrorEvent::PathChecked(false)) => MirrorPhase::Cloning,
        (MirrorPhase::Probing, MirrorEvent::PathChecked(true)) => MirrorPhase::Fetching,
        (MirrorPhase::Cloning, MirrorEvent::CloneFinished(r)) => match r {
            Ok(_) => MirrorPhase::Done(MirrorStatus::Cloned),
            Err(e) => if e.not_found {
                MirrorPhase::Done(MirrorStatus::EmptyRemote)
            } else {
                MirrorPhase::Failed(e.message)
            },
        },
        (MirrorPhase::Fetching, MirrorEvent::FetchFinished(r)) => match r {
            Ok(true) => MirrorPhase::Resetting,
            Ok(false) => MirrorPhase::Done(MirrorStatus::FetchedNoRef),
            Err(e) => MirrorPhase::Failed(e.message),
        },
        (MirrorPhase::Resetting, MirrorEvent::ResetFinished(r)) => match r {
            Ok(_) => MirrorPhase::Done(MirrorStatus::Updated),
            Err(e) => MirrorPhase::Failed(e.message),
        },
        (p, _) => p,
    }
}

/// Whether a phase is terminal: the synchronization has ended, well
/// or badly.
pub open spec fn is_terminal(phase: MirrorPhase) -> bool {
    phase is Done || phase is Failed
}

/// Advances one synchronization by one reported event, exactly as
/// `spec_step` describes.
pub fn mirror_step(phase: MirrorPhase, ev: MirrorEvent) -> (next: MirrorPhase)
    ensures
        next == spec_step(phase, ev),
{
    match (phase, ev) {
        (MirrorPhase::Probing, MirrorEvent::PathChecked(false)) => MirrorPhase::Cloning,
        (MirrorPhase::Probing, MirrorEvent::PathChecked(true)) => MirrorPhase::Fetching,
        (MirrorPhase::Cloning, MirrorEvent::CloneFinished(r)) => match r {
            Ok(_) => MirrorPhase::Done(MirrorStatus::Cloned),
            Err(e) => if e.not_found {
                MirrorPhase::Done(MirrorStatus::EmptyRemote)
            } else {
                MirrorPhase::Failed(e.message)
            },
        },
        (MirrorPhase::Fetching, MirrorEvent::FetchFinished(r)) => match r {
            Ok(true) => MirrorPhase::Resetting,
            Ok(false) => MirrorPhase::Done(MirrorStatus::FetchedNoRef),
            Err(e) => MirrorPhase::Failed(e.message),
        },
        (MirrorPhase::Resetting, MirrorEvent::ResetFinished(r)) => match r {
            Ok(_) => MirrorPhase::Done(MirrorStatus::Updated),
            Err(e) => MirrorPhase::Failed(e.message),
        },
        (p, _) => p,
    }
}

/// The phase reached from `phase` after the reported events, in
/// order.
pub open spec fn run_steps(phase: MirrorPhase, evs: Seq<MirrorEvent>) -> MirrorPhase
    decreases evs.len(),
{
    if evs.len() == 0 {
        phase
    } else {
        run_steps(spec_step(phase, evs[0]), evs.skip(1))
    }
}

/// A terminal phase absorbs every further event: once a
/// synchronization has ended, nothing reported later changes its
/// outcome.
pub proof fn lemma_terminal_absorbs(phase: MirrorPhase, evs: Seq<MirrorEvent>)
    requires
        is_terminal(phase),
    ensures
        run_steps(phase, evs) == phase,
    decreases evs.len(),
{
    if evs.len() > 0 {
        lemma_terminal_absorbs(phase, evs.skip(1));
    }
}

/// A clone refused with the missing-reference case succeeds as a
/// no-op: the machine ends well, not in failure, and no further
/// operation is asked of the shell.
pub proof fn lemma_empty_remote_is_benign(e: VcsError)
    requires
        e.not_found,
    ensures
        spec_step(MirrorPhase::Cloning, MirrorEvent::CloneFinished(Err(e))) == MirrorPhase::Done(
            MirrorStatus::EmptyRemote,
        ),
{
}

/// Synchronizing an absent path and then synchronizing the same
/// path again converges: the first run clones; a later run, finding
/// the path present, fetches and — whether or not the branch
/// reference resolves to a new head — ends well, and never clones
/// again. With no remote changes the reset, when one is due, moves
/// the mirror to the head it is already at, so the second run
/// changes no content.
pub proof fn lemma_repeat_sync_converges(ref_resolved: bool)
    ensures
        run_steps(
            MirrorPhase::Probing,
            seq![
                MirrorEvent::PathChecked(false),
                MirrorEvent::CloneFinished(Ok(())),
            ],
        ) == MirrorPhase::Done(MirrorStatus::Cloned),
        ref_resolved ==> run_steps(
            MirrorPhase::Probing,
            seq![
                MirrorEvent::PathChecked(true),
                MirrorEvent::FetchFinished(Ok(true)),
                MirrorEvent::ResetFinished(Ok(())),
            ],
        ) == MirrorPhase::Done(MirrorStatus::Updated),
        !ref_resolved ==> run_steps(
            MirrorPhase::Probing,
            seq![
                MirrorEvent::PathChecked(true),
                MirrorEvent::FetchFinished(Ok(false)),
            ],
        ) == MirrorPhase::Done(MirrorStatus::FetchedNoRef),
        spec_step(MirrorPhase::Probing, MirrorEvent::PathChecked(true)) != MirrorPhase::Cloning,
{
    reveal_with_fuel(run_steps, 4);
    assert(seq![
        MirrorEvent::PathChecked(false),
        MirrorEvent::CloneFinished(Ok(())),
    ].skip(1) =~= seq![MirrorEvent::CloneFinished(Ok::<(), VcsError>(()))]);
    assert(seq![
        MirrorEvent::PathChecked(true),
        MirrorEvent::FetchFinished(Ok(true)),
        MirrorEvent::ResetFinished(Ok(())),
    ].skip(1) =~= seq![
        MirrorEvent::FetchFinished(Ok::<bool, VcsError>(true)),
        MirrorEvent::ResetFinished(Ok::<(), VcsError>(())),
    ]);
    assert(seq![
        MirrorEvent::FetchFinished(Ok::<bool, VcsError>(true)),
        MirrorEvent::ResetFinished(Ok::<(), VcsError>(())),
    ].skip(1) =~= seq![MirrorEvent::ResetFinished(Ok::<(), VcsError>(()))]);
    assert(seq![
        MirrorEvent::PathChecked(true),
        MirrorEvent::FetchFinished(Ok(false)),
    ].skip(1) =~= seq![MirrorEvent::FetchFinished(Ok::<bool, VcsError>(false))]);
    assert(seq![MirrorEvent::CloneFinished(Ok::<(), VcsError>(()))].skip(1)
        =~= Seq::<MirrorEvent>::empty());
    assert(seq![MirrorEvent::ResetFinished(Ok::<(), VcsError>(()))].skip(1)
        =~= Seq::<MirrorEvent>::empty());
    assert(seq![MirrorEvent::FetchFinished(Ok::<bool, VcsError>(false))].skip(1)
        =~= Seq::<MirrorEvent>::empty());
}

} // verus!
