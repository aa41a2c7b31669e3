//! Reconciling one staged file: from what was read at the three places to what
//! has to be written, and whether the file counts as resolved.

use vstd::prelude::*;
use crate::merge::{merge, merge_spec, MergeVerdict, VerdictView};

verus! {

/// Result of trying to read one file.
#[derive(Clone, Debug, PartialEq, Eq)]
pub enum Fetched {
    /// The file exists and this is its text.
    Found(String),
    /// There is no file at the path.
    Missing,
    /// The file could not be read; the text says why.
    Failed(String),
}

/// Mathematical value of a [`Fetched`].
pub enum FetchedView {
    Found(Seq<char>),
    Missing,
    Failed(Seq<char>),
}

impl View for Fetched {
    type V = FetchedView;

    open spec fn view(&self) -> FetchedView {
        match self {
            Fetched::Found(t) => FetchedView::Found(t@),
            Fetched::Missing => FetchedView::Missing,
            Fetched::Failed(c) => FetchedView::Failed(c@),
        }
    }
}

/// Which of the three places a file was read from.
#[derive(Clone, Copy, Debug, PartialEq, Eq, Structural)]
pub enum Origin {
    /// The staging area.
    Incoming,
    /// The baseline store.
    Baseline,
    /// The working tree.
    Working,
}

/// A read that failed and ends the whole walk.
#[derive(Clone, Debug, PartialEq, Eq)]
pub struct ReadFailure {
    pub origin: Origin,
    pub cause: String,
}

/// Mathematical value of a [`ReadFailure`].
pub struct ReadFailureView {
    pub origin: Origin,
    pub cause: Seq<char>,
}

impl View for ReadFailure {
    type V = ReadFailureView;

    open spec fn view(&self) -> ReadFailureView {
        ReadFailureView { origin: self.origin, cause: self.cause@ }
    }
}

/// What the operator should be told about a file.
#[derive(Clone, Copy, Debug, PartialEq, Eq, Structural)]
pub enum Notice {
    /// Nothing to report.
    Quiet,
    /// The staged file vanished before it could be read; it was skipped.
    IncomingMissing,
    /// The file was left with conflict markers.
    Conflict,
}

/// What to do for one staged file.
#[derive(Clone, Debug, PartialEq, Eq)]
pub struct FilePlan {
    /// Whether the file counts as resolved in the tree-wide verdict.
    pub resolved: bool,
    /// Text to write to the working tree, if any.
    pub working: Option<String>,
    /// Text to write to the baseline store, if any.
    pub baseline: Option<String>,
    /// What to report.
    pub notice: Notice,
}

/// Mathematical value of a [`FilePlan`].
pub struct FilePlanView {
    pub resolved: bool,
    pub working: Option<Seq<char>>,
    pub baseline: Option<Seq<char>>,
    pub notice: Notice,
}

/// View of an optional owned text.
pub open spec fn owned_text(o: Option<String>) -> Option<Seq<char>> {
    match o {
        Some(t) => Some(t@),
        None => None,
    }
}

impl View for FilePlan {
    type V = FilePlanView;

    open spec fn view(&self) -> FilePlanView {
        FilePlanView {
            resolved: self.resolved,
            working: owned_text(self.working),
            baseline: owned_text(self.baseline),
            notice: self.notice,
        }
    }
}

/// The text of a file that was found, `None` for one that is missing or unreadable.
pub open spec fn found_text(f: FetchedView) -> Option<Seq<char>> {
    match f {
        FetchedView::Found(t) => Some(t),
        _ => None,
    }
}

/// The plan that follows from a verdict. A merged text goes to the working tree
/// and becomes the new baseline; a conflicted text goes to the working tree only,
/// so that the baseline stays the true ancestor for the next attempt.
pub open spec fn plan_of_verdict(v: VerdictView) -> FilePlanView {
    match v {
        VerdictView::Merged(t) => FilePlanView {
            resolved: true,
            working: Some(t),
            baseline: Some(t),
            notice: Notice::Quiet,
        },
        VerdictView::Conflict(t) => FilePlanView {
            resolved: false,
            working: Some(t),
            baseline: None,
            notice: Notice::Conflict,
        },
    }
}

/// The plan for a staged file whose incoming text is gone: nothing is written
/// and the file does not count against the verdict.
pub open spec fn skipped_plan() -> FilePlanView {
    FilePlanView { resolved: true, working: None, baseline: None, notice: Notice::IncomingMissing }
}

/// The reconciliation of one file. The three reads are judged in the order
/// incoming, baseline, working: the first that failed aborts with its cause; a
/// missing incoming file is skipped; otherwise the merge verdict decides.
pub open spec fn reconcile_file_spec(
    incoming: FetchedView,
    baseline: FetchedView,
    working: FetchedView,
) -> Result<FilePlanView, ReadFailureView> {
    match incoming {
        FetchedView::Failed(c) => Err(ReadFailureView { origin: Origin::Incoming, cause: c }),
        FetchedView::Missing => Ok(skipped_plan()),
        FetchedView::Found(text) => match (baseline, working) {
            (FetchedView::Failed(c), _) => Err(
                ReadFailureView { origin: Origin::Baseline, cause: c },
            ),
            (_, FetchedView::Failed(c)) => Err(
                ReadFailureView { origin: Origin::Working, cause: c },
            ),
            _ => Ok(plan_of_verdict(merge_spec(found_text(baseline), text, found_text(working)))),
        },
    }
}

/// Views of both arms of a reconciliation result.
pub open spec fn outcome_view(r: Result<FilePlan, ReadFailure>) -> Result<
    FilePlanView,
    ReadFailureView,
> {
    match r {
        Ok(p) => Ok(p@),
        Err(e) => Err(e@),
    }
}

/// Turns a merge verdict into the writes it asks for, as [`plan_of_verdict`] says.
pub fn plan_for(verdict: MergeVerdict) -> (p: FilePlan)
    ensures
        p@ == plan_of_verdict(verdict@),
{
    match verdict {
        MergeVerdict::Merged(t) => {
            let copy = t.clone();
            FilePlan { resolved: true, working: Some(t), baseline: Some(copy), notice: Notice::Quiet }
        },
        MergeVerdict::Conflict(t) => FilePlan {
            resolved: false,
            working: Some(t),
            baseline: None,
            notice: Notice::Conflict,
        },
    }
}

/// The text of a read as an optional slice.
fn found(f: &Fetched) -> (r: Option<&str>)
    ensures
        crate::merge::text_of(r) == found_text(f@),
{
    match f {
        Fetched::Found(t) => Some(t.as_str()),
        _ => None,
    }
}

/// Decides what to do for one staged file from the three reads, as
/// [`reconcile_file_spec`] says.
pub fn reconcile_file(incoming: &Fetched, baseline: &Fetched, working: &Fetched) -> (r: Result<
    FilePlan,
    ReadFailure,
>)
    ensures
        outcome_view(r) == reconcile_file_spec(incoming@, baseline@, working@),
{
    match incoming {
        Fetched::Failed(c) => Err(ReadFailure { origin: Origin::Incoming, cause: c.clone() }),
        Fetched::Missing => Ok(
            FilePlan {
                resolved: true,
                working: None,
                baseline: None,
                notice: Notice::IncomingMissing,
            },
        ),
        Fetched::Found(text) => {
            if let Fetched::Failed(c) = baseline {
                return Err(ReadFailure { origin: Origin::Baseline, cause: c.clone() });
            }
            if let Fetched::Failed(c) = working {
                return Err(ReadFailure { origin: Origin::Working, cause: c.clone() });
            }
            Ok(plan_for(merge(found(baseline), text.as_str(), found(working))))
        },
    }
}

/// On first encounter both the working tree and the baseline store receive the
/// incoming text, whatever the working tree held.
pub proof fn lemma_first_encounter_seeds_both(incoming: Seq<char>, working: FetchedView)
    requires
        !(working is Failed),
    ensures
        reconcile_file_spec(FetchedView::Found(incoming), FetchedView::Missing, working) == Ok::<
            FilePlanView,
            ReadFailureView,
        >(
            FilePlanView {
                resolved: true,
                working: Some(incoming),
                baseline: Some(incoming),
                notice: Notice::Quiet,
            },
        ),
{
}

/// A file is resolved exactly when its merge is clean, and only then does the
/// baseline advance; the working tree receives the verdict's text either way.
pub proof fn lemma_baseline_advances_only_when_merged(v: VerdictView)
    ensures
        plan_of_verdict(v).resolved == (v is Merged),
        plan_of_verdict(v).baseline.is_some() == (v is Merged),
        plan_of_verdict(v).working == Some(crate::merge::verdict_text(v)),
{
}

} // verus!
