//! Where things are kept: the control directory with the baseline store, the
//! staging area inside it, and the marker of the conflict lock.

use vstd::prelude::*;
use crate::merge::same_text;

verus! {

/// Two path components joined by a slash.
pub open spec fn joined(dir: Seq<char>, name: Seq<char>) -> Seq<char> {
    dir + seq!['/'] + name
}

/// Joins two path components with a slash.
pub fn join(dir: &str, name: &str) -> (p: String)
    ensures
        p@ == joined(dir@, name@),
{
    let mut p = String::from_str(dir);
    p.append("/");
    p.append(name);
    proof {
        reveal_strlit("/");
        assert("/"@ =~= seq!['/']);
    }
    p
}

/// The names that lay out a project's control data. All paths are relative
/// to the project root, which is also the root of the working tree.
#[derive(Clone, Debug, PartialEq, Eq)]
pub struct Layout {
    /// Directory that holds the baseline store and the staging area.
    pub control_dir: String,
    /// Name of the staging area inside the control directory.
    pub staging_dir: String,
    /// Name of the marker file inside the staging area.
    pub lock_file: String,
    /// Path of the registry file.
    pub config_file: String,
}

impl Layout {
    /// Path of the staging area.
    pub open spec fn staging_root_spec(&self) -> Seq<char> {
        joined(self.control_dir@, self.staging_dir@)
    }

    /// Path of the marker file.
    pub open spec fn lock_path_spec(&self) -> Seq<char> {
        joined(self.staging_root_spec(), self.lock_file@)
    }

    /// Path of the staged file for a path of the working tree.
    pub open spec fn staged_path_spec(&self, relative: Seq<char>) -> Seq<char> {
        joined(self.staging_root_spec(), relative)
    }

    /// Path of the baseline file for a path of the working tree.
    pub open spec fn baseline_path_spec(&self, relative: Seq<char>) -> Seq<char> {
        joined(self.control_dir@, relative)
    }

    /// The working-tree path that a staged path stands for: what follows the
    /// staging root and its slash; `None` for a path that is not below the
    /// staging root.
    pub open spec fn relative_path_spec(&self, staged: Seq<char>) -> Option<Seq<char>> {
        let prefix = self.staging_root_spec() + seq!['/'];
        if prefix.is_prefix_of(staged) {
            Some(staged.skip(prefix.len() as int))
        } else {
            None
        }
    }

    /// The layout with the customary names.
    pub fn standard() -> (l: Layout)
        ensures
            l.control_dir@ == ".graft.lock"@,
            l.staging_dir@ == "tmp"@,
            l.lock_file@ == "conflict.lock"@,
            l.config_file@ == "graft.conf"@,
    {
        Layout {
            control_dir: String::from_str(".graft.lock"),
            staging_dir: String::from_str("tmp"),
            lock_file: String::from_str("conflict.lock"),
            config_file: String::from_str("graft.conf"),
        }
    }

    /// Path of the staging area.
    pub fn staging_root(&self) -> (p: String)
        ensures
            p@ == self.staging_root_spec(),
    {
        join(self.control_dir.as_str(), self.staging_dir.as_str())
    }

    /// Path of the marker file.
    pub fn lock_path(&self) -> (p: String)
        ensures
            p@ == self.lock_path_spec(),
    {
        let root = self.staging_root();
        join(root.as_str(), self.lock_file.as_str())
    }

    /// Path of the staged file for a path of the working tree.
    pub fn staged_path(&self, relative: &str) -> (p: String)
        ensures
            p@ == self.staged_path_spec(relative@),
    {
        let root = self.staging_root();
        join(root.as_str(), relative)
    }

    /// Path of the baseline file for a path of the working tree.
    pub fn baseline_path(&self, relative: &str) -> (p: String)
        ensures
            p@ == self.baseline_path_spec(relative@),
    {
        join(self.control_dir.as_str(), relative)
    }

    /// The working-tree path that a staged path stands for.
    pub fn relative_path(&self, staged: &str) -> (r: Option<String>)
        ensures
            crate::reconcile::owned_text(r) == self.relative_path_spec(staged@),
    {
        let mut prefix = self.staging_root();
        prefix.append("/");
        proof {
            reveal_strlit("/");
            assert("/"@ =~= seq!['/']);
        }
        let n: usize = staged.unicode_len();
        let k: usize = prefix.as_str().unicode_len();
        if k <= n && same_text(staged.substring_char(0, k), prefix.as_str()) {
            let rest = staged.substring_char(k, n);
            proof {
                assert(staged@.skip(k as int) =~= staged@.subrange(k as int, n as int));
                assert(prefix@.is_prefix_of(staged@)) by {
                    assert(staged@.subrange(0, k as int) == prefix@);
                    assert(prefix@ =~= staged@.subrange(0, prefix@.len() as int));
                }
            }
            Some(String::from_str(rest))
        } else {
            proof {
                if prefix@.is_prefix_of(staged@) {
                    assert(staged@.subrange(0, k as int) =~= prefix@);
                }
            }
            None
        }
    }
}

/// A staged path leads back to the working-tree path that it was made for.
pub proof fn lemma_relative_of_staged(layout: Layout, relative: Seq<char>)
    ensures
        layout.relative_path_spec(layout.staged_path_spec(relative)) == Some(relative),
{
    let prefix = layout.staging_root_spec() + seq!['/'];
    let staged = layout.staged_path_spec(relative);
    assert(staged =~= prefix + relative);
    assert(prefix.is_prefix_of(staged)) by {
        assert(staged.subrange(0, prefix.len() as int) =~= prefix);
    }
    assert(staged.skip(prefix.len() as int) =~= relative);
}

/// The marker lies inside the staging area: its path is the staged path of
/// the marker's name.
pub proof fn lemma_marker_inside_staging(layout: Layout)
    ensures
        layout.lock_path_spec() == layout.staged_path_spec(layout.lock_file@),
        layout.relative_path_spec(layout.lock_path_spec()) == Some(layout.lock_file@),
{
    lemma_relative_of_staged(layout, layout.lock_file@);
}

} // verus!
