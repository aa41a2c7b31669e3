use graft::merge::MergeVerdict;
use graft::reconcile::{plan_for, reconcile_file, Fetched, FilePlan, Notice, Origin, ReadFailure};

fn found(t: &str) -> Fetched {
    Fetched::Found(t.to_string())
}

#[test]
fn first_encounter_seeds_working_tree_and_baseline() {
    for working in [Fetched::Missing, found("local\n")] {
        let plan = reconcile_file(&found("up\n"), &Fetched::Missing, &working).unwrap();
        assert_eq!(
            plan,
            FilePlan {
                resolved: true,
                working: Some("up\n".to_string()),
                baseline: Some("up\n".to_string()),
                notice: Notice::Quiet,
            }
        );
    }
}

#[test]
fn clean_merge_advances_baseline() {
    let plan = reconcile_file(&found("A2\nB\nC\n"), &found("A\nB\nC\n"), &found("A\nB\nC2\n"))
        .unwrap();
    assert!(plan.resolved);
    assert_eq!(plan.working.as_deref(), Some("A2\nB\nC2\n"));
    assert_eq!(plan.baseline.as_deref(), Some("A2\nB\nC2\n"));
    assert_eq!(plan.notice, Notice::Quiet);
}

#[test]
fn conflict_leaves_baseline_untouched() {
    let plan = reconcile_file(&found("Y\n"), &found("X\n"), &found("Z\n")).unwrap();
    assert!(!plan.resolved);
    assert_eq!(plan.baseline, None);
    assert_eq!(plan.notice, Notice::Conflict);
    let text = plan.working.unwrap();
    assert!(text.contains("Y") && text.contains("Z") && text.contains("======="));
}

#[test]
fn edited_working_file_is_merged_again_on_resolve() {
    let first = reconcile_file(&found("Y\n"), &found("X\n"), &found("Z\n")).unwrap();
    assert!(!first.resolved);
    let again = reconcile_file(&found("Y\n"), &found("X\n"), &found("Y\n")).unwrap();
    assert_eq!(
        again,
        FilePlan {
            resolved: true,
            working: Some("Y\n".to_string()),
            baseline: Some("Y\n".to_string()),
            notice: Notice::Quiet,
        }
    );
    let with_marks = reconcile_file(&found("Y\n"), &found("X\n"), &Fetched::Found(first.working.unwrap()))
        .unwrap();
    assert!(!with_marks.resolved);
}

#[test]
fn missing_incoming_file_is_skipped() {
    let plan = reconcile_file(&Fetched::Missing, &found("old\n"), &found("mine\n")).unwrap();
    assert_eq!(
        plan,
        FilePlan { resolved: true, working: None, baseline: None, notice: Notice::IncomingMissing }
    );
    let plan = reconcile_file(&Fetched::Missing, &Fetched::Failed("x".to_string()), &Fetched::Missing)
        .unwrap();
    assert!(plan.resolved);
}

#[test]
fn absent_working_file_merges_as_empty_text() {
    let plan = reconcile_file(&found("a\n"), &found("a\n"), &Fetched::Missing).unwrap();
    assert!(plan.resolved);
    assert_eq!(plan.working.as_deref(), Some(""));
    assert_eq!(plan.baseline.as_deref(), Some(""));
}

#[test]
fn unreadable_incoming_aborts() {
    let e = reconcile_file(&Fetched::Failed("denied".to_string()), &found("a"), &found("b"))
        .unwrap_err();
    assert_eq!(e, ReadFailure { origin: Origin::Incoming, cause: "denied".to_string() });
}

#[test]
fn unreadable_baseline_aborts() {
    let e = reconcile_file(
        &found("a"),
        &Fetched::Failed("disk".to_string()),
        &Fetched::Failed("other".to_string()),
    )
    .unwrap_err();
    assert_eq!(e, ReadFailure { origin: Origin::Baseline, cause: "disk".to_string() });
}

#[test]
fn unreadable_working_file_aborts() {
    let e = reconcile_file(&found("a"), &found("a"), &Fetched::Failed("perm".to_string()))
        .unwrap_err();
    assert_eq!(e, ReadFailure { origin: Origin::Working, cause: "perm".to_string() });
    let e = reconcile_file(&found("a"), &Fetched::Missing, &Fetched::Failed("perm".to_string()))
        .unwrap_err();
    assert_eq!(e.origin, Origin::Working);
}

#[test]
fn plan_follows_verdict() {
    let p = plan_for(MergeVerdict::Merged("m".to_string()));
    assert_eq!(
        p,
        FilePlan {
            resolved: true,
            working: Some("m".to_string()),
            baseline: Some("m".to_string()),
            notice: Notice::Quiet,
        }
    );
    let p = plan_for(MergeVerdict::Conflict("c".to_string()));
    assert_eq!(
        p,
        FilePlan {
            resolved: false,
            working: Some("c".to_string()),
            baseline: None,
            notice: Notice::Conflict,
        }
    );
}
