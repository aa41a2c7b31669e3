//! The walk over the staged tree: an explicit stack of paths still to visit and
//! the running tree-wide verdict.

use vstd::prelude::*;
use crate::reconcile::{
    outcome_view, reconcile_file, reconcile_file_spec, Fetched, FilePlan, ReadFailure,
};

verus! {

/// The texts of a sequence of owned strings.
pub open spec fn texts(v: Seq<String>) -> Seq<Seq<char>> {
    Seq::new(v.len(), |i: int| v[i]@)
}

/// True when every recorded file resolved.
pub open spec fn all_resolved(files: Seq<bool>) -> bool {
    forall|i: int| 0 <= i < files.len() ==> files[i]
}

/// The running verdict after recording `files`, one after the other, on top of `start`.
pub open spec fn verdict_after(start: bool, files: Seq<bool>) -> bool
    decreases files.len(),
{
    if files.len() == 0 {
        start
    } else {
        verdict_after(start && files[0], files.drop_first())
    }
}

/// The running verdict of a walk together with the outcomes it was made of.
struct Tally {
    resolved: bool,
    files: Ghost<Seq<bool>>,
}

/// Depth-first walk over the staged tree.
///
/// The last path of the stack is the next to visit. A directory that is visited
/// is replaced by its entries; a file that is visited adds its outcome to the
/// verdict, which holds exactly while every file so far resolved.
pub struct TreeWalk {
    pending: Vec<String>,
    tally: Tally,
}

impl TreeWalk {
    #[verifier::type_invariant]
    spec fn tally_is_conjunction(self) -> bool {
        self.tally.resolved == all_resolved(self.tally.files@)
    }

    /// The paths still to visit, the next one last.
    pub closed spec fn pending(&self) -> Seq<Seq<char>> {
        texts(self.pending@)
    }

    /// The outcomes of the files recorded so far, in the order of their visits.
    pub closed spec fn files(&self) -> Seq<bool> {
        self.tally.files@
    }

    /// Whether every file recorded so far resolved.
    pub open spec fn resolved(&self) -> bool {
        all_resolved(self.files())
    }

    /// A walk that is about to visit `root` and has recorded no file.
    pub fn new(root: &str) -> (w: TreeWalk)
        ensures
            w.pending() == seq![root@],
            w.files() == Seq::<bool>::empty(),
    {
        let mut pending: Vec<String> = Vec::new();
        pending.push(String::from_str(root));
        let w = TreeWalk { pending, tally: Tally { resolved: true, files: Ghost(Seq::empty()) } };
        assert(w.pending() =~= seq![root@]);
        w
    }

    /// Takes the next path to visit off the stack; `None` when the walk is over.
    pub fn next_path(&mut self) -> (r: Option<String>)
        ensures
            final(self).files() == old(self).files(),
            match r {
                Some(p) => old(self).pending().len() > 0 && p@ == old(self).pending().last()
                    && final(self).pending() == old(self).pending().drop_last(),
                None => old(self).pending().len() == 0 && final(self).pending() == old(
                    self,
                ).pending(),
            },
    {
        proof {
            use_type_invariant(&*self);
        }
        let mut stack: Vec<String> = Vec::new();
        std::mem::swap(&mut stack, &mut self.pending);
        let r = stack.pop();
        std::mem::swap(&mut stack, &mut self.pending);
        proof {
            if r.is_some() {
                assert(final(self).pending() =~= old(self).pending().drop_last());
            }
        }
        r
    }

    /// Replaces the directory just visited by its entries, so that they are
    /// visited in the order given, each subtree before the next entry.
    pub fn enter_directory(&mut self, entries: Vec<String>)
        ensures
            final(self).files() == old(self).files(),
            final(self).pending() == old(self).pending() + texts(entries@).reverse(),
    {
        proof {
            use_type_invariant(&*self);
        }
        let mut entries = entries;
        let mut stack: Vec<String> = Vec::new();
        std::mem::swap(&mut stack, &mut self.pending);
        let ghost all = texts(entries@);
        let ghost before = texts(stack@);
        while entries.len() > 0
            invariant
                texts(entries@) =~= all.take(entries.len() as int),
                entries.len() <= all.len(),
                texts(stack@) =~= before + all.skip(entries.len() as int).reverse(),
            decreases entries.len(),
        {
            let ghost n = entries.len() as int;
            let ghost below = texts(stack@);
            let ghost prior = entries@;
            let e = entries.pop().unwrap();
            assert(e@ == all[n - 1]) by {
                assert(texts(prior)[n - 1] == all.take(n)[n - 1]);
            }
            stack.push(e);
            proof {
                assert(texts(stack@) =~= below.push(all[n - 1]));
                assert(all.skip(n - 1).reverse() =~= all.skip(n).reverse().push(all[n - 1]));
                assert(texts(entries@) =~= all.take(n - 1));
            }
        }
        proof {
            assert(all.skip(0) =~= all);
        }
        std::mem::swap(&mut stack, &mut self.pending);
    }

    /// Adds one file's outcome to the running verdict; a single conflict taints the tree.
    pub fn record(&mut self, file_resolved: bool)
        ensures
            final(self).files() == old(self).files().push(file_resolved),
            final(self).pending() == old(self).pending(),
    {
        proof {
            use_type_invariant(&*self);
        }
        let ghost files = self.tally.files@;
        let resolved = self.tally.resolved && file_resolved;
        proof {
            lemma_push_outcome(files, file_resolved);
        }
        self.tally = Tally { resolved, files: Ghost(files.push(file_resolved)) };
    }

    /// Reconciles the file just visited from its three reads and adds its
    /// outcome to the running verdict. A read that failed aborts: the error
    /// is handed on and the walk is left as it was.
    pub fn visit_file(&mut self, incoming: &Fetched, baseline: &Fetched, working: &Fetched) -> (r:
        Result<FilePlan, ReadFailure>)
        ensures
            outcome_view(r) == reconcile_file_spec(incoming@, baseline@, working@),
            final(self).pending() == old(self).pending(),
            final(self).files() == match r {
                Ok(plan) => old(self).files().push(plan.resolved),
                Err(_) => old(self).files(),
            },
    {
        let r = reconcile_file(incoming, baseline, working);
        if let Ok(plan) = &r {
            self.record(plan.resolved);
        }
        r
    }

    /// True when nothing is left to visit.
    pub fn is_done(&self) -> (r: bool)
        ensures
            r == (self.pending().len() == 0),
    {
        self.pending.len() == 0
    }

    /// The tree-wide verdict, known once nothing is left to visit: whether
    /// every file that was recorded resolved.
    pub fn verdict(&self) -> (r: Option<bool>)
        ensures
            r == if self.pending().len() == 0 {
                Some(all_resolved(self.files()))
            } else {
                None
            },
    {
        proof {
            use_type_invariant(self);
        }
        if self.pending.len() == 0 {
            Some(self.tally.resolved)
        } else {
            None
        }
    }
}

/// One more outcome keeps the conjunction exactly when it resolved.
pub proof fn lemma_push_outcome(files: Seq<bool>, outcome: bool)
    ensures
        all_resolved(files.push(outcome)) == (all_resolved(files) && outcome),
{
    let more = files.push(outcome);
    if all_resolved(more) {
        assert(more[files.len() as int] == outcome);
        assert forall|i: int| 0 <= i < files.len() implies files[i] by {
            assert(more[i] == files[i]);
        }
    }
}

/// Recording files one by one yields a verdict that holds exactly when the
/// starting verdict held and every recorded file resolved.
pub proof fn lemma_verdict_is_conjunction(start: bool, files: Seq<bool>)
    ensures
        verdict_after(start, files) == (start && all_resolved(files)),
    decreases files.len(),
{
    if files.len() > 0 {
        let rest = files.drop_first();
        lemma_verdict_is_conjunction(start && files[0], rest);
        if all_resolved(files) {
            assert forall|i: int| 0 <= i < rest.len() implies rest[i] by {
                assert(rest[i] == files[i + 1]);
            }
        }
        if files[0] && all_resolved(rest) {
            assert forall|i: int| 0 <= i < files.len() implies files[i] by {
                if i > 0 {
                    assert(files[i] == rest[i - 1]);
                }
            }
        }
    }
}

/// One unresolved file makes the verdict of the whole tree false, wherever it
/// stands among the files.
pub proof fn lemma_one_conflict_taints_tree(files: Seq<bool>, i: int)
    requires
        0 <= i < files.len(),
        !files[i],
    ensures
        !all_resolved(files),
        !verdict_after(true, files),
{
    lemma_verdict_is_conjunction(true, files);
}

} // verus!
