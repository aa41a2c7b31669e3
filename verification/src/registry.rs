//! The registry of upstreams: its entries, the line format they are kept in, and
//! the local file name under which an upstream's archive is stored.

use vstd::prelude::*;

verus! {

/// One upstream of the registry. Entries are ordered and may repeat; an entry
/// has no identity beyond its position.
#[derive(Clone, Debug, PartialEq, Eq)]
pub struct RepoEntry {
    /// Name given to the upstream, if any.
    pub filename: Option<String>,
    /// Where the upstream's archive is fetched from.
    pub upstream_path: String,
}

/// Mathematical value of a [`RepoEntry`].
pub struct RepoEntryView {
    pub filename: Option<Seq<char>>,
    pub upstream_path: Seq<char>,
}

impl View for RepoEntry {
    type V = RepoEntryView;

    open spec fn view(&self) -> RepoEntryView {
        RepoEntryView {
            filename: crate::reconcile::owned_text(self.filename),
            upstream_path: self.upstream_path@,
        }
    }
}

/// True when the separator `": "` stands at position `i` of `s`.
pub open spec fn sep_at(s: Seq<char>, i: int) -> bool {
    0 <= i && i + 2 <= s.len() && s[i] == ':' && s[i + 1] == ' '
}

/// Position of the last separator that ends at or before `end`, or -1.
pub open spec fn last_sep(s: Seq<char>, end: int) -> int
    decreases end,
{
    if end < 2 || end > s.len() {
        -1
    } else if sep_at(s, end - 2) {
        end - 2
    } else {
        last_sep(s, end - 1)
    }
}

/// The entry that a registry line stands for: the locator is what follows the
/// last separator, the name is the field before it. A line without a separator
/// is a locator without a name.
pub open spec fn entry_of_line(s: Seq<char>) -> RepoEntryView {
    let i = last_sep(s, s.len() as int);
    if i < 0 {
        RepoEntryView { filename: None, upstream_path: s }
    } else {
        let j = last_sep(s, i);
        let from = if j < 0 {
            0
        } else {
            j + 2
        };
        RepoEntryView {
            filename: Some(s.subrange(from, i)),
            upstream_path: s.subrange(i + 2, s.len() as int),
        }
    }
}

/// The line that an entry is kept as: the name, where there is one, then the
/// separator, then the locator.
pub open spec fn line_of_entry(e: RepoEntryView) -> Seq<char> {
    match e.filename {
        Some(name) => name + seq![':', ' '] + e.upstream_path,
        None => e.upstream_path,
    }
}

/// [`last_sep`] finds a separator that ends at or before `end`, and none ends
/// after it within that range; -1 means that there is none at all.
pub proof fn lemma_last_sep_is_last(s: Seq<char>, end: int)
    requires
        0 <= end <= s.len(),
    ensures
        -1 <= last_sep(s, end),
        last_sep(s, end) >= 0 ==> sep_at(s, last_sep(s, end)) && last_sep(s, end) + 2 <= end,
        forall|k: int| last_sep(s, end) < k && k + 2 <= end ==> !sep_at(s, k),
    decreases end,
{
    if end >= 2 && !sep_at(s, end - 2) {
        lemma_last_sep_is_last(s, end - 1);
    }
}

/// Finds the last separator that ends at or before `end`.
fn find_last_sep(line: &str, end: usize) -> (r: Option<usize>)
    requires
        end <= line@.len(),
    ensures
        match r {
            Some(i) => last_sep(line@, end as int) == i,
            None => last_sep(line@, end as int) == -1,
        },
{
    let mut e: usize = end;
    while e >= 2
        invariant
            e <= end <= line@.len(),
            last_sep(line@, end as int) == last_sep(line@, e as int),
        decreases e,
    {
        if line.get_char(e - 2) == ':' && line.get_char(e - 1) == ' ' {
            return Some(e - 2);
        }
        e = e - 1;
    }
    None
}

/// Reads one registry line, as [`entry_of_line`] says.
pub fn parse_entry(line: &str) -> (e: RepoEntry)
    ensures
        e@ == entry_of_line(line@),
{
    let n: usize = line.unicode_len();
    match find_last_sep(line, n) {
        None => RepoEntry { filename: None, upstream_path: String::from_str(line) },
        Some(i) => {
            proof {
                lemma_last_sep_is_last(line@, n as int);
            }
            let from: usize = match find_last_sep(line, i) {
                None => 0,
                Some(j) => {
                    proof {
                        lemma_last_sep_is_last(line@, i as int);
                    }
                    j + 2
                },
            };
            RepoEntry {
                filename: Some(String::from_str(line.substring_char(from, i))),
                upstream_path: String::from_str(line.substring_char(i + 2, n)),
            }
        },
    }
}

/// Writes an entry as a registry line, as [`line_of_entry`] says.
pub fn format_entry(entry: &RepoEntry) -> (line: String)
    ensures
        line@ == line_of_entry(entry@),
{
    match &entry.filename {
        Some(name) => {
            let mut line = name.clone();
            line.append(": ");
            line.append(entry.upstream_path.as_str());
            proof {
                reveal_strlit(": ");
                assert(": "@ =~= seq![':', ' ']);
            }
            line
        },
        None => entry.upstream_path.clone(),
    }
}

/// The entries of the first `n` lines, in order.
pub open spec fn entries_of_lines(lines: Seq<Seq<char>>, n: int) -> Seq<RepoEntryView> {
    Seq::new(n as nat, |i: int| entry_of_line(lines[i]))
}

/// The views of a list of entries.
pub open spec fn entries_view(v: Seq<RepoEntry>) -> Seq<RepoEntryView> {
    Seq::new(v.len(), |i: int| v[i]@)
}

/// Reads a registry, one entry per line and in the order of the lines.
pub fn parse_registry(lines: &Vec<String>) -> (entries: Vec<RepoEntry>)
    ensures
        entries_view(entries@) == entries_of_lines(
            crate::walk::texts(lines@),
            lines@.len() as int,
        ),
{
    let mut entries: Vec<RepoEntry> = Vec::new();
    let mut k: usize = 0;
    while k < lines.len()
        invariant
            k <= lines@.len(),
            entries@.len() == k,
            entries_view(entries@) =~= entries_of_lines(crate::walk::texts(lines@), k as int),
        decreases lines@.len() - k,
    {
        let e = parse_entry(lines[k].as_str());
        let ghost before = entries@;
        entries.push(e);
        proof {
            let lines_text = crate::walk::texts(lines@);
            assert(lines_text[k as int] == lines@[k as int]@);
            assert forall|i: int| 0 <= i < k + 1 implies entries_view(entries@)[i]
                == entries_of_lines(lines_text, k + 1)[i] by {
                if i < k {
                    assert(entries@[i] == before[i]);
                    assert(entries_view(before)[i] == entries_of_lines(lines_text, k as int)[i]);
                }
            }
        }
        k = k + 1;
    }
    entries
}

/// True when no separator stands anywhere in `s`.
pub open spec fn free_of_sep(s: Seq<char>) -> bool {
    forall|k: int| !sep_at(s, k)
}

/// An entry whose name and locator hold no separator is read back from its
/// line as it was written.
pub proof fn lemma_line_round_trip(e: RepoEntryView)
    requires
        free_of_sep(e.upstream_path),
        e.filename.is_some() ==> free_of_sep(e.filename.unwrap()),
    ensures
        entry_of_line(line_of_entry(e)) == e,
{
    let s = line_of_entry(e);
    match e.filename {
        None => {
            lemma_last_sep_is_last(s, s.len() as int);
        },
        Some(name) => {
            let u = e.upstream_path;
            let i = name.len() as int;
            assert(sep_at(s, i));
            lemma_last_sep_is_last(s, s.len() as int);
            let found = last_sep(s, s.len() as int);
            assert(found >= i);
            if found > i {
                if found == i + 1 {
                    assert(s[found] == ' ');
                } else {
                    assert(sep_at(u, found - i - 2)) by {
                        assert(s[found] == u[found - i - 2]);
                        assert(s[found + 1] == u[found - i - 1]);
                    }
                }
            }
            lemma_last_sep_is_last(s, i);
            let prev = last_sep(s, i);
            if prev >= 0 {
                assert(sep_at(name, prev)) by {
                    assert(s[prev] == name[prev]);
                    assert(s[prev + 1] == name[prev + 1]);
                }
            }
            assert(s.subrange(0, i) =~= name);
            assert(s.subrange(i + 2, s.len() as int) =~= u);
        },
    }
}

} // verus!
