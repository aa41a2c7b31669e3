use graft::merge::merge;
use graft::reconcile::{Fetched, Notice, Origin};
use graft::walk::TreeWalk;

fn names(v: &[&str]) -> Vec<String> {
    v.iter().map(|s| s.to_string()).collect()
}

#[test]
fn walk_starts_at_root_and_ends() {
    let mut w = TreeWalk::new("stage");
    assert!(!w.is_done());
    assert_eq!(w.verdict(), None);
    assert_eq!(w.next_path(), Some("stage".to_string()));
    assert!(w.is_done());
    assert_eq!(w.verdict(), Some(true));
    assert_eq!(w.next_path(), None);
    assert_eq!(w.verdict(), Some(true));
}

#[test]
fn entries_are_visited_depth_first_in_order() {
    let mut w = TreeWalk::new("s");
    assert_eq!(w.next_path().unwrap(), "s");
    w.enter_directory(names(&["s/a", "s/d", "s/z"]));
    assert_eq!(w.next_path().unwrap(), "s/a");
    w.record(true);
    assert_eq!(w.next_path().unwrap(), "s/d");
    w.enter_directory(names(&["s/d/1", "s/d/2"]));
    assert_eq!(w.next_path().unwrap(), "s/d/1");
    w.record(true);
    assert_eq!(w.next_path().unwrap(), "s/d/2");
    w.record(true);
    assert_eq!(w.verdict(), None);
    assert_eq!(w.next_path().unwrap(), "s/z");
    w.record(true);
    assert_eq!(w.next_path(), None);
    assert_eq!(w.verdict(), Some(true));
}

#[test]
fn empty_directory_resolves() {
    let mut w = TreeWalk::new("s");
    w.next_path();
    w.enter_directory(Vec::new());
    assert_eq!(w.verdict(), Some(true));
}

#[test]
fn one_conflict_taints_the_tree() {
    for bad in 0..3 {
        let mut w = TreeWalk::new("s");
        w.next_path();
        w.enter_directory(names(&["s/0", "s/1", "s/2"]));
        let mut i = 0;
        while let Some(_) = w.next_path() {
            w.record(i != bad);
            i += 1;
        }
        assert_eq!(i, 3);
        assert_eq!(w.verdict(), Some(false));
    }
}

#[test]
fn conflicting_file_makes_tree_verdict_false() {
    let mut w = TreeWalk::new("s");
    w.next_path();
    w.enter_directory(names(&["s/f"]));
    w.next_path();
    w.record(merge(Some("X\n"), "Y\n", Some("Z\n")).is_merged());
    assert_eq!(w.verdict(), Some(false));
}

#[test]
fn later_success_does_not_clear_a_conflict() {
    let mut w = TreeWalk::new("s");
    w.next_path();
    w.record(false);
    w.record(true);
    assert_eq!(w.verdict(), Some(false));
}

#[test]
fn visiting_files_folds_their_outcomes() {
    let mut w = TreeWalk::new("s");
    w.next_path();
    w.enter_directory(names(&["s/a", "s/b", "s/c"]));
    w.next_path();
    let plan = w
        .visit_file(&Fetched::Found("up\n".to_string()), &Fetched::Missing, &Fetched::Missing)
        .unwrap();
    assert_eq!(plan.baseline.as_deref(), Some("up\n"));
    w.next_path();
    let plan = w
        .visit_file(
            &Fetched::Found("Y\n".to_string()),
            &Fetched::Found("X\n".to_string()),
            &Fetched::Found("Z\n".to_string()),
        )
        .unwrap();
    assert_eq!(plan.notice, Notice::Conflict);
    w.next_path();
    let plan = w.visit_file(&Fetched::Missing, &Fetched::Missing, &Fetched::Missing).unwrap();
    assert_eq!(plan.notice, Notice::IncomingMissing);
    assert_eq!(w.verdict(), Some(false));
}

#[test]
fn failed_read_leaves_walk_as_it_was() {
    let mut w = TreeWalk::new("s");
    w.next_path();
    w.enter_directory(names(&["s/a", "s/b"]));
    w.next_path();
    let e = w
        .visit_file(&Fetched::Failed("io".to_string()), &Fetched::Missing, &Fetched::Missing)
        .unwrap_err();
    assert_eq!(e.origin, Origin::Incoming);
    assert_eq!(w.verdict(), None);
    assert_eq!(w.next_path().unwrap(), "s/b");
    assert_eq!(w.verdict(), Some(true));
}
