//! The conflict lock: whether the last reconciliation left conflicts behind, which
//! commands may start, and when the staging area may go.

use vstd::prelude::*;
use crate::walk::all_resolved;

verus! {

/// State of the tree-wide conflict lock.
#[derive(Clone, Copy, Debug, PartialEq, Eq, Structural)]
pub enum LockState {
    /// No marker: the last reconciliation left nothing unresolved.
    Clean,
    /// The marker is present: at least one file is unresolved.
    Conflicted,
}

/// A command of the operator that runs a reconciliation.
#[derive(Clone, Copy, Debug, PartialEq, Eq, Structural)]
pub enum Command {
    /// Fetch every upstream into a fresh staging area and reconcile.
    Update,
    /// Reconcile again against the staging area that is there.
    Resolve,
}

/// What to do with the marker file.
#[derive(Clone, Copy, Debug, PartialEq, Eq, Structural)]
pub enum MarkerAction {
    /// Leave it as it is.
    Keep,
    /// Write it.
    Create,
    /// Delete it.
    Remove,
}

/// Why a command did not start.
#[derive(Clone, Copy, Debug, PartialEq, Eq, Structural)]
pub enum Refusal {
    /// An update was asked for while conflicts are unresolved.
    AlreadyConflicted,
}

/// How a command that was let through begins.
#[derive(Clone, Copy, Debug, PartialEq, Eq, Structural)]
pub struct Start {
    /// The state while the reconciliation runs.
    pub state: LockState,
    /// What to do with the marker before reconciling.
    pub marker: MarkerAction,
    /// Whether the upstreams are fetched into a fresh staging area first.
    pub fetch: bool,
}

/// How a reconciliation ends.
#[derive(Clone, Copy, Debug, PartialEq, Eq, Structural)]
pub struct Settled {
    /// The state that the run leaves behind.
    pub state: LockState,
    /// What to do with the marker.
    pub marker: MarkerAction,
}

/// The state that the presence of the marker stands for.
pub open spec fn observed(marker_present: bool) -> LockState {
    if marker_present {
        LockState::Conflicted
    } else {
        LockState::Clean
    }
}

/// How a command begins in a state. An update is refused while conflicted and
/// otherwise fetches; a resolve always starts, and clears the marker first so
/// that a stale one cannot block it.
pub open spec fn start_spec(state: LockState, command: Command) -> Result<Start, Refusal> {
    match command {
        Command::Update => match state {
            LockState::Conflicted => Err(Refusal::AlreadyConflicted),
            LockState::Clean => Ok(
                Start { state: LockState::Clean, marker: MarkerAction::Keep, fetch: true },
            ),
        },
        Command::Resolve => Ok(
            Start { state: LockState::Clean, marker: MarkerAction::Remove, fetch: false },
        ),
    }
}

/// How a reconciliation ends: clean when every file resolved, otherwise
/// conflicted with the marker written.
pub open spec fn settle_spec(resolved: bool) -> Settled {
    if resolved {
        Settled { state: LockState::Clean, marker: MarkerAction::Keep }
    } else {
        Settled { state: LockState::Conflicted, marker: MarkerAction::Create }
    }
}

/// Whether cleanup deletes the staging area: only in the clean state.
pub open spec fn discards_staging(state: LockState) -> bool {
    state == LockState::Clean
}

/// Reads the lock state off the marker's presence.
pub fn observe(marker_present: bool) -> (s: LockState)
    ensures
        s == observed(marker_present),
{
    if marker_present {
        LockState::Conflicted
    } else {
        LockState::Clean
    }
}

/// True when the lock is set.
pub fn is_conflict_state(state: LockState) -> (r: bool)
    ensures
        r == (state == LockState::Conflicted),
{
    match state {
        LockState::Conflicted => true,
        LockState::Clean => false,
    }
}

/// Decides whether a command may start, as [`start_spec`] says.
pub fn start(state: LockState, command: Command) -> (r: Result<Start, Refusal>)
    ensures
        r == start_spec(state, command),
{
    match command {
        Command::Update => {
            if is_conflict_state(state) {
                Err(Refusal::AlreadyConflicted)
            } else {
                Ok(Start { state: LockState::Clean, marker: MarkerAction::Keep, fetch: true })
            }
        },
        Command::Resolve => Ok(
            Start { state: LockState::Clean, marker: MarkerAction::Remove, fetch: false },
        ),
    }
}

/// Ends a reconciliation with the tree-wide verdict, as [`settle_spec`] says.
pub fn settle(resolved: bool) -> (s: Settled)
    ensures
        s == settle_spec(resolved),
{
    if resolved {
        Settled { state: LockState::Clean, marker: MarkerAction::Keep }
    } else {
        Settled { state: LockState::Conflicted, marker: MarkerAction::Create }
    }
}

/// Cleanup after any command: tells whether the staging area is to be deleted.
/// It is deleted in the clean state and left untouched while conflicted; the
/// lock state itself never changes.
pub fn cleanup(state: LockState) -> (discard: bool)
    ensures
        discard == discards_staging(state),
{
    !is_conflict_state(state)
}

/// The line that tells the operator how a reconciliation ended.
pub fn summary(settled: Settled) -> (m: String)
    ensures
        m@ == if settled.state == LockState::Clean {
            "grafting completed"@
        } else {
            "conflicts found, please resolve and run the resolve command"@
        },
{
    match settled.state {
        LockState::Clean => String::from_str("grafting completed"),
        LockState::Conflicted => String::from_str(
            "conflicts found, please resolve and run the resolve command",
        ),
    }
}

impl Refusal {
    /// The line that tells the operator why the command did not start.
    pub fn message(&self) -> (m: String)
        ensures
            m@ == "already in conflict state, run the resolve command first"@,
    {
        String::from_str("already in conflict state, run the resolve command first")
    }
}

/// A run that ends with a conflict leaves the lock set, and the next update is
/// refused before anything is fetched or written.
pub proof fn lemma_update_refused_after_conflict()
    ensures
        settle_spec(false).state == LockState::Conflicted,
        start_spec(settle_spec(false).state, Command::Update) == Err::<Start, Refusal>(
            Refusal::AlreadyConflicted,
        ),
{
}

/// An update starts exactly in the clean state, and a resolve starts in
/// either state.
pub proof fn lemma_start_gating(state: LockState)
    ensures
        start_spec(state, Command::Update).is_ok() == (state == LockState::Clean),
        start_spec(state, Command::Resolve).is_ok(),
{
}

/// The lock is set after a run exactly when the run left a conflict, and it
/// is cleared only by a run that leaves none.
pub proof fn lemma_lock_follows_verdict(resolved: bool)
    ensures
        (settle_spec(resolved).state == LockState::Clean) == resolved,
        (settle_spec(resolved).marker == MarkerAction::Create) == !resolved,
{
}

/// While the lock is set the staging area survives cleanup; a run that
/// resolved everything makes it eligible for deletion.
pub proof fn lemma_cleanup_discipline(resolved: bool)
    ensures
        !discards_staging(LockState::Conflicted),
        discards_staging(LockState::Clean),
        discards_staging(settle_spec(resolved).state) == resolved,
{
}

/// The lock is tree-wide: a walk in which any one file stays unresolved ends
/// conflicted, keeps its staging area through cleanup and blocks the next update.
pub proof fn lemma_one_conflict_locks_tree(files: Seq<bool>, i: int)
    requires
        0 <= i < files.len(),
        !files[i],
    ensures
        settle_spec(all_resolved(files)).state == LockState::Conflicted,
        !discards_staging(settle_spec(all_resolved(files)).state),
        start_spec(settle_spec(all_resolved(files)).state, Command::Update).is_err(),
{
}

/// A walk in which every file resolves ends clean, with the staging area
/// free to go and the next update free to start.
pub proof fn lemma_all_resolved_unlocks_tree(files: Seq<bool>)
    requires
        all_resolved(files),
    ensures
        settle_spec(all_resolved(files)).state == LockState::Clean,
        discards_staging(settle_spec(all_resolved(files)).state),
        start_spec(settle_spec(all_resolved(files)).state, Command::Update).is_ok(),
{
}

} // verus!
