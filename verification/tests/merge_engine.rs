use graft::merge::{merge, same_text, verdict_of, MergeVerdict};

#[test]
fn identical_texts_merge_to_themselves() {
    let t = "A\nB\nC\n";
    assert_eq!(merge(Some(t), t, Some(t)), MergeVerdict::Merged(t.to_string()));
    assert_eq!(merge(Some(""), "", None), MergeVerdict::Merged(String::new()));
    assert_eq!(merge(Some("no newline"), "no newline", Some("no newline")),
        MergeVerdict::Merged("no newline".to_string()));
}

#[test]
fn first_encounter_takes_incoming_verbatim() {
    assert_eq!(merge(None, "new\n", None), MergeVerdict::Merged("new\n".to_string()));
    assert_eq!(
        merge(None, "new\n", Some("local edits\n")),
        MergeVerdict::Merged("new\n".to_string())
    );
    assert_eq!(merge(None, "", Some("kept?\n")), MergeVerdict::Merged(String::new()));
}

#[test]
fn disjoint_edits_merge_automatically() {
    let v = merge(Some("A\nB\nC\n"), "A2\nB\nC\n", Some("A\nB\nC2\n"));
    assert_eq!(v, MergeVerdict::Merged("A2\nB\nC2\n".to_string()));
    assert!(v.is_merged());
    assert_eq!(v.content(), "A2\nB\nC2\n");
}

#[test]
fn overlapping_edits_conflict() {
    let v = merge(Some("X\n"), "Y\n", Some("Z\n"));
    assert!(!v.is_merged());
    match v {
        MergeVerdict::Conflict(text) => {
            assert!(text.contains("Y"));
            assert!(text.contains("Z"));
            let open = text.find("<<<<<<<").unwrap();
            let mid = text.find("=======").unwrap();
            let close = text.find(">>>>>>>").unwrap();
            assert!(open < mid && mid < close);
            let y = text.find("Y\n").unwrap();
            let z = text.find("Z\n").unwrap();
            assert!(open < y && y < mid);
            assert!(mid < z && z < close);
        }
        MergeVerdict::Merged(text) => panic!("merged to {:?}", text),
    }
}

#[test]
fn upstream_change_reaches_untouched_working_file() {
    let v = merge(Some("one\ntwo\n"), "one\ntwo\nthree\n", Some("one\ntwo\n"));
    assert_eq!(v, MergeVerdict::Merged("one\ntwo\nthree\n".to_string()));
}

#[test]
fn local_change_survives_unchanged_upstream() {
    let v = merge(Some("one\ntwo\n"), "one\ntwo\n", Some("zero\none\ntwo\n"));
    assert_eq!(v, MergeVerdict::Merged("zero\none\ntwo\n".to_string()));
}

#[test]
fn absent_working_file_counts_as_empty() {
    let with_empty = merge(Some("a\n"), "b\n", Some(""));
    let with_none = merge(Some("a\n"), "b\n", None);
    assert_eq!(with_empty, with_none);
    assert!(!with_none.is_merged());
    assert_eq!(merge(Some("a\n"), "a\n", None), MergeVerdict::Merged(String::new()));
}

#[test]
fn same_edit_on_both_sides_is_no_conflict() {
    let v = merge(Some("a\n"), "b\n", Some("b\n"));
    assert_eq!(v, MergeVerdict::Merged("b\n".to_string()));
}

#[test]
fn verdict_follows_merge_result() {
    assert_eq!(verdict_of(Ok("m".to_string())), MergeVerdict::Merged("m".to_string()));
    assert_eq!(verdict_of(Err("c".to_string())), MergeVerdict::Conflict("c".to_string()));
    assert_eq!(MergeVerdict::Conflict("c".to_string()).content(), "c");
}

#[test]
fn same_text_compares_contents() {
    assert!(same_text("", ""));
    assert!(same_text("abc", "abc"));
    assert!(!same_text("abc", "abd"));
    assert!(!same_text("abc", "ab"));
}
