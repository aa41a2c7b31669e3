//! What a reconciliation does to the working tree and the baseline store, told
//! over their contents: each a map from a relative path to the text kept there.

use vstd::prelude::*;
use crate::lock::{discards_staging, LockState};
use crate::merge::merge_spec;
use crate::reconcile::{
    found_text, plan_of_verdict, reconcile_file_spec, skipped_plan, FetchedView, FilePlanView,
    ReadFailureView,
};

verus! {

/// The working tree and the baseline store of a project.
pub ghost struct Project {
    /// The live files, which the operator edits between runs.
    pub working: Map<Seq<char>, Seq<char>>,
    /// The last reconciled text of every path grafted so far.
    pub baseline: Map<Seq<char>, Seq<char>>,
}

/// Reading a path of a tree: its text, or `Missing` where nothing is kept.
pub open spec fn read(tree: Map<Seq<char>, Seq<char>>, path: Seq<char>) -> FetchedView {
    if tree.dom().contains(path) {
        FetchedView::Found(tree[path])
    } else {
        FetchedView::Missing
    }
}

/// A tree after an optional write at a path.
pub open spec fn written(
    tree: Map<Seq<char>, Seq<char>>,
    path: Seq<char>,
    text: Option<Seq<char>>,
) -> Map<Seq<char>, Seq<char>> {
    match text {
        Some(t) => tree.insert(path, t),
        None => tree,
    }
}

/// The project after a plan was carried out for a path.
pub open spec fn after_plan(p: Project, path: Seq<char>, plan: FilePlanView) -> Project {
    Project {
        working: written(p.working, path, plan.working),
        baseline: written(p.baseline, path, plan.baseline),
    }
}

/// The plan for a staged file whose reads all succeed against the project.
pub open spec fn plan_in(p: Project, path: Seq<char>, incoming: FetchedView) -> FilePlanView {
    match incoming {
        FetchedView::Found(text) => plan_of_verdict(
            merge_spec(
                found_text(read(p.baseline, path)),
                text,
                found_text(read(p.working, path)),
            ),
        ),
        _ => skipped_plan(),
    }
}

/// The project after one staged file was reconciled.
pub open spec fn after_file(p: Project, path: Seq<char>, incoming: FetchedView) -> Project {
    after_plan(p, path, plan_in(p, path, incoming))
}

/// Against a project whose files can all be read, reconciling a staged file
/// that is present or missing never fails, and gives the plan of [`plan_in`].
pub proof fn lemma_plan_in_is_reconciliation(p: Project, path: Seq<char>, incoming: FetchedView)
    requires
        !(incoming is Failed),
    ensures
        reconcile_file_spec(incoming, read(p.baseline, path), read(p.working, path)) == Ok::<
            FilePlanView,
            ReadFailureView,
        >(plan_in(p, path, incoming)),
{
}

/// A path met for the first time ends with the incoming text both in the
/// working tree and in the baseline store, whatever the working tree held.
pub proof fn lemma_first_encounter_seeds_project(p: Project, path: Seq<char>, incoming: Seq<char>)
    requires
        !p.baseline.dom().contains(path),
    ensures
        read(after_file(p, path, FetchedView::Found(incoming)).working, path)
            == FetchedView::Found(incoming),
        read(after_file(p, path, FetchedView::Found(incoming)).baseline, path)
            == FetchedView::Found(incoming),
        plan_in(p, path, FetchedView::Found(incoming)).resolved,
{
}

/// Where baseline, incoming and working text are the same, reconciling the
/// file resolves it and changes nothing.
pub proof fn lemma_settled_file_is_fixed_point(p: Project, path: Seq<char>, text: Seq<char>)
    requires
        read(p.baseline, path) == FetchedView::Found(text),
        read(p.working, path) == FetchedView::Found(text),
    ensures
        plan_in(p, path, FetchedView::Found(text)).resolved,
        after_file(p, path, FetchedView::Found(text)) == p,
{
    let q = after_file(p, path, FetchedView::Found(text));
    assert(q.working =~= p.working);
    assert(q.baseline =~= p.baseline);
}

/// A file that conflicts leaves the baseline store as it was, so that the
/// next attempt still merges against the true ancestor; the working tree
/// receives the text with the conflict markers.
pub proof fn lemma_conflict_keeps_baseline(p: Project, path: Seq<char>, incoming: Seq<char>)
    requires
        !plan_in(p, path, FetchedView::Found(incoming)).resolved,
    ensures
        after_file(p, path, FetchedView::Found(incoming)).baseline == p.baseline,
        merge_spec(
            found_text(read(p.baseline, path)),
            incoming,
            found_text(read(p.working, path)),
        ) is Conflict,
        read(after_file(p, path, FetchedView::Found(incoming)).working, path)
            == FetchedView::Found(
            crate::merge::verdict_text(
                merge_spec(
                    found_text(read(p.baseline, path)),
                    incoming,
                    found_text(read(p.working, path)),
                ),
            ),
        ),
{
}

/// A file that resolves with its incoming text present advances the baseline
/// to the merged text, which is also what the working tree then holds.
pub proof fn lemma_resolved_file_advances_baseline(
    p: Project,
    path: Seq<char>,
    incoming: Seq<char>,
)
    requires
        plan_in(p, path, FetchedView::Found(incoming)).resolved,
    ensures
        read(after_file(p, path, FetchedView::Found(incoming)).baseline, path) == read(
            after_file(p, path, FetchedView::Found(incoming)).working,
            path,
        ),
        after_file(p, path, FetchedView::Found(incoming)).baseline.dom().contains(path),
{
}

/// A staged file that has gone missing changes nothing and counts as resolved:
/// a deletion upstream is not carried over.
pub proof fn lemma_missing_incoming_changes_nothing(p: Project, path: Seq<char>)
    ensures
        after_file(p, path, FetchedView::Missing) == p,
        plan_in(p, path, FetchedView::Missing).resolved,
{
}

/// Reconciling one file touches no other path, and no baseline is ever lost.
pub proof fn lemma_other_paths_untouched(
    p: Project,
    path: Seq<char>,
    incoming: FetchedView,
    other: Seq<char>,
)
    ensures
        other != path ==> read(after_file(p, path, incoming).working, other) == read(
            p.working,
            other,
        ),
        other != path ==> read(after_file(p, path, incoming).baseline, other) == read(
            p.baseline,
            other,
        ),
        p.baseline.dom().contains(other) ==> after_file(
            p,
            path,
            incoming,
        ).baseline.dom().contains(other),
{
}

/// Running resolve after the operator edited a conflicted working file merges
/// again with the edited text as the working side.
pub proof fn lemma_resolve_reads_edited_working(
    p: Project,
    path: Seq<char>,
    incoming: Seq<char>,
    edited: Seq<char>,
)
    ensures
        plan_in(
            Project { working: p.working.insert(path, edited), baseline: p.baseline },
            path,
            FetchedView::Found(incoming),
        ) == plan_of_verdict(
            merge_spec(found_text(read(p.baseline, path)), incoming, Some(edited)),
        ),
{
}

/// The staging area after cleanup: gone where cleanup discards it, else as it was.
/// `None` stands for no staging area.
pub open spec fn staging_after_cleanup(
    state: LockState,
    staging: Option<Map<Seq<char>, Seq<char>>>,
) -> Option<Map<Seq<char>, Seq<char>>> {
    if discards_staging(state) {
        None
    } else {
        staging
    }
}

/// Cleanup removes the staging area in the clean state only; while
/// conflicted it does nothing, and every staged file is kept as it was.
pub proof fn lemma_cleanup_keeps_staging_while_conflicted(
    state: LockState,
    staging: Option<Map<Seq<char>, Seq<char>>>,
)
    ensures
        state == LockState::Conflicted ==> staging_after_cleanup(state, staging) == staging,
        state == LockState::Clean ==> staging_after_cleanup(state, staging).is_none(),
        staging_after_cleanup(state, staging).is_some() ==> staging_after_cleanup(state, staging)
            == staging,
{
}

} // verus!
