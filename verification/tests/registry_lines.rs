use graft::locator::get_filename_from_url;
use graft::registry::{format_entry, parse_entry, parse_registry, RepoEntry};

fn entry(filename: &str, upstream_path: &str) -> RepoEntry {
    RepoEntry { filename: Some(filename.to_string()), upstream_path: upstream_path.to_string() }
}

fn bare(upstream_path: &str) -> RepoEntry {
    RepoEntry { filename: None, upstream_path: upstream_path.to_string() }
}

#[test]
fn line_splits_at_separator() {
    assert_eq!(
        parse_entry("common: https://example.com/files/common.tar.gz"),
        entry("common", "https://example.com/files/common.tar.gz")
    );
    assert_eq!(parse_entry("a: b"), entry("a", "b"));
}

#[test]
fn line_without_separator_is_a_bare_locator() {
    assert_eq!(parse_entry(""), bare(""));
    assert_eq!(parse_entry("https://example.com/x.tar.gz"), bare("https://example.com/x.tar.gz"));
    assert_eq!(parse_entry("name:value"), bare("name:value"));
    assert_eq!(parse_entry(":"), bare(":"));
}

#[test]
fn last_two_fields_count() {
    assert_eq!(parse_entry("x: y: z"), entry("y", "z"));
    assert_eq!(parse_entry("w: x: y: z"), entry("y", "z"));
}

#[test]
fn empty_fields_are_kept() {
    assert_eq!(parse_entry(": "), entry("", ""));
    assert_eq!(parse_entry("a: "), entry("a", ""));
    assert_eq!(parse_entry(": b"), entry("", "b"));
    assert_eq!(parse_entry(": : "), entry("", ""));
    assert_eq!(parse_entry("a:: b"), entry("a:", "b"));
    assert_eq!(parse_entry("a:  b"), entry("a", " b"));
}

#[test]
fn fields_may_hold_any_characters() {
    assert_eq!(parse_entry("näme: üri/ß"), entry("näme", "üri/ß"));
}

#[test]
fn line_agrees_with_split() {
    for line in ["a: b", "x: y: z", ": ", "k: http://h/p: q", "a:  b: c", "plain", ""] {
        let mut parts: Vec<&str> = line.split(": ").collect();
        let upstream = parts.pop().unwrap().to_string();
        let filename = parts.pop().map(|s| s.to_string());
        assert_eq!(parse_entry(line), RepoEntry { filename, upstream_path: upstream });
    }
}

#[test]
fn entry_is_written_as_a_line() {
    assert_eq!(format_entry(&entry("common", "https://h/c.tgz")), "common: https://h/c.tgz");
    assert_eq!(format_entry(&bare("https://h/c.tgz")), "https://h/c.tgz");
    assert_eq!(format_entry(&entry("", "")), ": ");
}

#[test]
fn written_line_reads_back() {
    for e in [entry("common", "https://h/c.tgz"), bare("https://h/c.tgz"), entry("a:", " b"), bare("")] {
        assert_eq!(parse_entry(&format_entry(&e)), e);
    }
}

#[test]
fn registry_keeps_order_and_duplicates() {
    let lines = vec!["b: u2".to_string(), "u1".to_string(), "b: u2".to_string()];
    assert_eq!(parse_registry(&lines), vec![entry("b", "u2"), bare("u1"), entry("b", "u2")]);
    assert_eq!(parse_registry(&Vec::new()), Vec::new());
}

#[test]
fn file_name_is_last_path_segment() {
    assert_eq!(
        get_filename_from_url("https://example.com/files/common.tar.gz").unwrap(),
        "common.tar.gz"
    );
    assert_eq!(get_filename_from_url("http://h/a/b/c?x=1#frag").unwrap(), "c");
}

#[test]
fn file_name_falls_back_when_path_names_none() {
    assert_eq!(get_filename_from_url("https://example.com").unwrap(), "tmp.bin");
    assert_eq!(get_filename_from_url("https://example.com/").unwrap(), "tmp.bin");
    assert_eq!(get_filename_from_url("https://example.com/dir/").unwrap(), "tmp.bin");
    assert_eq!(get_filename_from_url("data:text/plain,Hello").unwrap(), "tmp.bin");
}

#[test]
fn file_name_is_percent_encoded() {
    assert_eq!(get_filename_from_url("https://example.com/a b").unwrap(), "a%20b");
}

#[test]
fn locator_that_is_no_url_is_an_error() {
    let e = get_filename_from_url("not a url").unwrap_err();
    assert!(!e.cause.is_empty());
    assert!(get_filename_from_url("").is_err());
    assert!(get_filename_from_url("/only/a/path").is_err());
}
