//! The merge engine: one file's baseline, incoming and working text in, a verdict out.

use vstd::prelude::*;

verus! {

/// Outcome of merging one file.
#[derive(Clone, Debug, PartialEq, Eq)]
pub enum MergeVerdict {
    /// Every change was applied; the text is the merged file.
    Merged(String),
    /// Both sides changed the same region; the text carries inline conflict markers.
    Conflict(String),
}

/// Mathematical value of a [`MergeVerdict`].
pub enum VerdictView {
    Merged(Seq<char>),
    Conflict(Seq<char>),
}

impl View for MergeVerdict {
    type V = VerdictView;

    open spec fn view(&self) -> VerdictView {
        match self {
            MergeVerdict::Merged(t) => VerdictView::Merged(t@),
            MergeVerdict::Conflict(t) => VerdictView::Conflict(t@),
        }
    }
}

impl MergeVerdict {
    /// True when the verdict carries no conflict.
    pub fn is_merged(&self) -> (r: bool)
        ensures
            r == (self@ is Merged),
    {
        match self {
            MergeVerdict::Merged(_) => true,
            MergeVerdict::Conflict(_) => false,
        }
    }

    /// The text to put into the working tree, whichever the verdict.
    pub fn content(&self) -> (r: &str)
        ensures
            r@ == verdict_text(self@),
    {
        match self {
            MergeVerdict::Merged(t) => t.as_str(),
            MergeVerdict::Conflict(t) => t.as_str(),
        }
    }
}

/// The text that a verdict carries.
pub open spec fn verdict_text(v: VerdictView) -> Seq<char> {
    match v {
        VerdictView::Merged(t) => t,
        VerdictView::Conflict(t) => t,
    }
}

/// What `diffy::merge` returns for an ancestor and the two texts derived from it:
/// `Ok` with the merged text, or `Err` with the text holding conflict markers.
pub uninterp spec fn diffy_merge(ancestor: Seq<char>, ours: Seq<char>, theirs: Seq<char>) -> Result<
    Seq<char>,
    Seq<char>,
>;

/// Views of both arms of a merge result.
pub open spec fn result_text(r: Result<String, String>) -> Result<Seq<char>, Seq<char>> {
    match r {
        Ok(t) => Ok(t@),
        Err(t) => Err(t@),
    }
}

/// Calls `diffy::merge`. Trusted: the result is the one that diffy computes from
/// these three texts alone, named [`diffy_merge`]; nothing more is claimed of it.
#[verifier::external_body]
fn three_way(ancestor: &str, ours: &str, theirs: &str) -> (r: Result<String, String>)
    ensures
        result_text(r) == diffy_merge(ancestor@, ours@, theirs@),
{
    diffy::merge(ancestor, ours, theirs)
}

/// The verdict that stands for a three-way merge result.
pub open spec fn verdict_of_spec(r: Result<Seq<char>, Seq<char>>) -> VerdictView {
    match r {
        Ok(t) => VerdictView::Merged(t),
        Err(t) => VerdictView::Conflict(t),
    }
}

/// Turns a three-way merge result into a verdict, where a clean merge is `Merged`,
/// a text with conflict markers is `Conflict`.
pub fn verdict_of(r: Result<String, String>) -> (v: MergeVerdict)
    ensures
        v@ == verdict_of_spec(result_text(r)),
{
    match r {
        Ok(t) => MergeVerdict::Merged(t),
        Err(t) => MergeVerdict::Conflict(t),
    }
}

/// View of an optional text.
pub open spec fn text_of(o: Option<&str>) -> Option<Seq<char>> {
    match o {
        Some(t) => Some(t@),
        None => None,
    }
}

/// The merge policy.
///
/// Without a baseline the incoming text is taken as it is. With one, an absent
/// working file counts as empty text; three identical texts merge to themselves,
/// and anything else is decided by the three-way merge with the baseline as
/// ancestor, the incoming text as one branch and the working text as the other.
pub open spec fn merge_spec(
    baseline: Option<Seq<char>>,
    incoming: Seq<char>,
    working: Option<Seq<char>>,
) -> VerdictView {
    match baseline {
        None => VerdictView::Merged(incoming),
        Some(b) => {
            let w = match working {
                Some(w) => w,
                None => Seq::<char>::empty(),
            };
            if b == incoming && w == incoming {
                VerdictView::Merged(incoming)
            } else {
                verdict_of_spec(diffy_merge(b, incoming, w))
            }
        },
    }
}

/// Merges one file according to [`merge_spec`].
pub fn merge(baseline: Option<&str>, incoming: &str, working: Option<&str>) -> (v: MergeVerdict)
    ensures
        v@ == merge_spec(text_of(baseline), incoming@, text_of(working)),
{
    match baseline {
        None => MergeVerdict::Merged(String::from_str(incoming)),
        Some(b) => {
            let w = match working {
                Some(w) => w,
                None => "",
            };
            proof {
                reveal_strlit("");
                assert(""@ =~= Seq::<char>::empty());
            }
            if same_text(b, incoming) && same_text(w, incoming) {
                MergeVerdict::Merged(String::from_str(incoming))
            } else {
                verdict_of(three_way(b, incoming, w))
            }
        },
    }
}

/// Compares two texts character by character.
pub fn same_text(a: &str, b: &str) -> (r: bool)
    ensures
        r == (a@ == b@),
{
    let x = String::from_str(a);
    let y = String::from_str(b);
    x == y
}

/// A file whose baseline, incoming and working text are identical merges
/// cleanly to that same text.
pub proof fn lemma_identical_inputs_merge_to_themselves(t: Seq<char>)
    ensures
        merge_spec(Some(t), t, Some(t)) == VerdictView::Merged(t),
{
}

/// A file met for the first time is seeded with the incoming text, whatever
/// the working tree holds.
pub proof fn lemma_first_encounter_takes_incoming(incoming: Seq<char>, working: Option<Seq<char>>)
    ensures
        merge_spec(None, incoming, working) == VerdictView::Merged(incoming),
{
}

} // verus!
