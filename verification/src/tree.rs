//! The staged tree as a value: files with their outcomes, directories with their
//! entries, and the verdict of a subtree.

use vstd::prelude::*;
use crate::walk::all_resolved;

verus! {

/// A node of the staged tree, each file marked with whether it resolved.
pub ghost enum StagedNode {
    File(bool),
    Directory(Seq<StagedNode>),
}

/// The verdict of a subtree: a file's own outcome; for a directory, whether
/// every entry's subtree resolved.
pub open spec fn subtree_verdict(n: StagedNode) -> bool
    decreases n,
{
    match n {
        StagedNode::File(resolved) => resolved,
        StagedNode::Directory(entries) => forall|i: int|
            0 <= i < entries.len() ==> subtree_verdict(#[trigger] entries[i]),
    }
}

/// The number of entries of a directory, 0 for a file.
pub open spec fn entry_count(n: StagedNode) -> nat {
    match n {
        StagedNode::File(_) => 0,
        StagedNode::Directory(entries) => entries.len(),
    }
}

/// The outcomes met by a depth-first walk through the first `k` entries of a
/// directory, in the order of the visits; for a file, its own outcome.
pub open spec fn outcomes_of_first(n: StagedNode, k: nat) -> Seq<bool>
    decreases n, k,
{
    match n {
        StagedNode::File(resolved) => seq![resolved],
        StagedNode::Directory(entries) => if k == 0 || k > entries.len() {
            Seq::<bool>::empty()
        } else {
            outcomes_of_first(n, (k - 1) as nat) + outcomes_of_first(
                entries[k - 1],
                entry_count(entries[k - 1]),
            )
        },
    }
}

/// The outcomes met by a depth-first walk through a whole subtree.
pub open spec fn outcomes(n: StagedNode) -> Seq<bool> {
    outcomes_of_first(n, entry_count(n))
}

/// Two runs of outcomes all resolve exactly when each of them does.
pub proof fn lemma_all_resolved_concat(a: Seq<bool>, b: Seq<bool>)
    ensures
        all_resolved(a + b) == (all_resolved(a) && all_resolved(b)),
{
    let c = a + b;
    if all_resolved(c) {
        assert forall|i: int| 0 <= i < a.len() implies a[i] by {
            assert(c[i] == a[i]);
        }
        assert forall|i: int| 0 <= i < b.len() implies b[i] by {
            assert(c[a.len() + i] == b[i]);
        }
    }
    if all_resolved(a) && all_resolved(b) {
        assert forall|i: int| 0 <= i < c.len() implies c[i] by {
            if i < a.len() {
                assert(c[i] == a[i]);
            } else {
                assert(c[i] == b[i - a.len()]);
            }
        }
    }
}

/// The first `k` entries of a directory all resolve exactly when every
/// outcome met on the walk through them does.
pub proof fn lemma_prefix_verdict(n: StagedNode, k: nat)
    requires
        n is Directory,
        k <= entry_count(n),
    ensures
        all_resolved(outcomes_of_first(n, k)) == (forall|i: int|
            0 <= i < k ==> subtree_verdict(#[trigger] n->Directory_0[i])),
    decreases n, k,
{
    let entries = n->Directory_0;
    if k > 0 {
        let last = entries[k - 1];
        lemma_prefix_verdict(n, (k - 1) as nat);
        lemma_verdict_is_conjunction_of_outcomes(last);
        lemma_all_resolved_concat(
            outcomes_of_first(n, (k - 1) as nat),
            outcomes_of_first(last, entry_count(last)),
        );
        if forall|i: int| 0 <= i < k ==> subtree_verdict(#[trigger] entries[i]) {
            assert(subtree_verdict(entries[k - 1]));
        }
    }
}

/// The verdict of a subtree, folded directory by directory, is the same as
/// the conjunction over every file that a depth-first walk visits in it:
/// one unresolved file anywhere below taints the whole tree.
pub proof fn lemma_verdict_is_conjunction_of_outcomes(n: StagedNode)
    ensures
        subtree_verdict(n) == all_resolved(outcomes(n)),
    decreases n, entry_count(n) + 1,
{
    match n {
        StagedNode::File(resolved) => {
            assert(outcomes(n)[0] == resolved);
        },
        StagedNode::Directory(entries) => {
            lemma_prefix_verdict(n, entries.len());
        },
    }
}

/// The outcomes still to come for a stack of nodes waiting to be visited, the
/// next one last: those of the last node's subtree, then those of the rest.
pub open spec fn outcomes_to_come(stack: Seq<StagedNode>) -> Seq<bool>
    decreases stack.len(),
{
    if stack.len() == 0 {
        Seq::<bool>::empty()
    } else {
        outcomes(stack.last()) + outcomes_to_come(stack.drop_last())
    }
}

/// Nodes put on top of a stack are visited before those below.
pub proof fn lemma_outcomes_of_stacked(below: Seq<StagedNode>, above: Seq<StagedNode>)
    ensures
        outcomes_to_come(below + above) == outcomes_to_come(above) + outcomes_to_come(below),
    decreases above.len(),
{
    if above.len() == 0 {
        assert(below + above =~= below);
        assert(outcomes_to_come(above) + outcomes_to_come(below) =~= outcomes_to_come(below));
    } else {
        let whole = below + above;
        assert(whole.last() == above.last());
        assert(whole.drop_last() =~= below + above.drop_last());
        lemma_outcomes_of_stacked(below, above.drop_last());
        assert(outcomes(above.last()) + (outcomes_to_come(above.drop_last()) + outcomes_to_come(
            below,
        )) =~= (outcomes(above.last()) + outcomes_to_come(above.drop_last()))
            + outcomes_to_come(below));
    }
}

/// The first `k` entries of a directory, stacked in reverse, are visited in
/// the order in which the directory lists them.
pub proof fn lemma_reversed_entries_keep_order(entries: Seq<StagedNode>, k: nat)
    requires
        k <= entries.len(),
    ensures
        outcomes_to_come(entries.take(k as int).reverse()) == outcomes_of_first(
            StagedNode::Directory(entries),
            k,
        ),
    decreases k,
{
    let stacked = entries.take(k as int).reverse();
    if k == 0 {
        assert(stacked.len() == 0);
    } else {
        let entry = entries[k - 1];
        let earlier = entries.take(k - 1).reverse();
        assert(stacked =~= seq![entry] + earlier);
        lemma_outcomes_of_stacked(seq![entry], earlier);
        lemma_reversed_entries_keep_order(entries, (k - 1) as nat);
        assert(outcomes_to_come(seq![entry]) =~= outcomes(entry)) by {
            assert(seq![entry].last() == entry);
            assert(seq![entry].drop_last().len() == 0);
            assert(outcomes_to_come(seq![entry].drop_last()) =~= Seq::<bool>::empty());
        }
    }
}

/// Visiting a file yields its outcome next and leaves the rest of the walk
/// as it was.
pub proof fn lemma_visiting_file(below: Seq<StagedNode>, resolved: bool)
    ensures
        outcomes_to_come(below.push(StagedNode::File(resolved))) == seq![resolved]
            + outcomes_to_come(below),
{
    let stack = below.push(StagedNode::File(resolved));
    assert(stack.last() == StagedNode::File(resolved));
    assert(stack.drop_last() =~= below);
}

/// Replacing a directory on the stack by its entries in reverse does not
/// change the outcomes to come: the stack walks the tree in the same
/// depth-first order as a recursive descent, each subtree before the next entry.
pub proof fn lemma_entering_directory(below: Seq<StagedNode>, entries: Seq<StagedNode>)
    ensures
        outcomes_to_come(below + entries.reverse()) == outcomes_to_come(
            below.push(StagedNode::Directory(entries)),
        ),
        outcomes_to_come(below.push(StagedNode::Directory(entries))) == outcomes(
            StagedNode::Directory(entries),
        ) + outcomes_to_come(below),
{
    let directory = StagedNode::Directory(entries);
    let stack = below.push(directory);
    assert(stack.last() == directory);
    assert(stack.drop_last() =~= below);
    lemma_outcomes_of_stacked(below, entries.reverse());
    lemma_reversed_entries_keep_order(entries, entries.len());
    assert(entries.take(entries.len() as int) =~= entries);
}

/// A walk that starts with the root alone on its stack meets exactly the
/// outcomes of the root's subtree, so its verdict is the verdict of the tree.
pub proof fn lemma_walk_from_root(root: StagedNode)
    ensures
        outcomes_to_come(seq![root]) == outcomes(root),
        all_resolved(outcomes_to_come(seq![root])) == subtree_verdict(root),
{
    assert(seq![root].last() == root);
    assert(seq![root].drop_last().len() == 0);
    assert(outcomes_to_come(seq![root].drop_last()) =~= Seq::<bool>::empty());
    assert(outcomes(root) + Seq::<bool>::empty() =~= outcomes(root));
    lemma_verdict_is_conjunction_of_outcomes(root);
}

} // verus!
