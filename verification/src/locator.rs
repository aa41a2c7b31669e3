//! From an upstream's locator to the local file name of its archive.

use vstd::prelude::*;
use crate::walk::texts;

verus! {

/// The error type of the `url` crate.
#[verifier::external_type_specification]
#[verifier::external_body]
pub struct ExParseError(url::ParseError);

/// A locator that is no absolute URL.
#[derive(Clone, Debug, PartialEq, Eq)]
pub struct LocatorError {
    /// What the URL parser said of it.
    pub cause: String,
}

/// What `Url::parse` followed by `Url::path_segments` gives for a text: `None`
/// where the text is no absolute URL; `Some(None)` for a URL that cannot be a
/// base; else the segments of its path in order.
pub uninterp spec fn url_path_segments(url: Seq<char>) -> Option<Option<Seq<Seq<char>>>>;

/// Views of a parse outcome.
pub open spec fn segments_view(r: Result<Option<Vec<String>>, url::ParseError>) -> Option<
    Option<Seq<Seq<char>>>,
> {
    match r {
        Ok(Some(v)) => Some(Some(texts(v@))),
        Ok(None) => Some(None),
        Err(_) => None,
    }
}

/// Calls `url::Url::parse` and, on the parsed URL, `Url::path_segments`, whose
/// items it copies into owned strings. Trusted: the outcome is the one that
/// the `url` crate computes from this text alone, named [`url_path_segments`].
#[verifier::external_body]
fn path_segments(url: &str) -> (r: Result<Option<Vec<String>>, url::ParseError>)
    ensures
        segments_view(r) == url_path_segments(url@),
{
    let parsed = url::Url::parse(url)?;
    Ok(parsed.path_segments().map(|segments| segments.map(|s| s.to_string()).collect()))
}

/// Renders the `url` crate's error through its `Display`. Trusted, and
/// nothing is claimed of the text.
#[verifier::external_body]
fn describe(e: url::ParseError) -> (cause: String) {
    format!("{}", e)
}

/// The name used where the path of a URL names no file.
pub open spec fn fallback_name() -> Seq<char> {
    "tmp.bin"@
}

/// The file name that a URL's path segments stand for: the last segment, unless
/// there is none or it is empty.
pub open spec fn file_name_spec(segments: Option<Seq<Seq<char>>>) -> Seq<char> {
    match segments {
        Some(s) => if s.len() > 0 && s.last().len() > 0 {
            s.last()
        } else {
            fallback_name()
        },
        None => fallback_name(),
    }
}

/// View of optional path segments.
pub open spec fn optional_texts(segments: Option<Vec<String>>) -> Option<Seq<Seq<char>>> {
    match segments {
        Some(v) => Some(texts(v@)),
        None => None,
    }
}

/// Picks the file name out of a URL's path segments, as [`file_name_spec`] says.
pub fn file_name_of(segments: &Option<Vec<String>>) -> (name: String)
    ensures
        name@ == file_name_spec(optional_texts(*segments)),
{
    match segments {
        Some(v) => {
            if v.len() > 0 {
                let last = &v[v.len() - 1];
                assert(last@ == texts(v@).last());
                if last.as_str().unicode_len() > 0 {
                    return last.clone();
                }
            }
            String::from_str("tmp.bin")
        },
        None => String::from_str("tmp.bin"),
    }
}

/// The local file name for an upstream's archive: the last non-empty segment
/// of the locator's path, `tmp.bin` where there is none. A locator that does
/// not parse as an absolute URL is an error.
pub fn get_filename_from_url(url: &str) -> (r: Result<String, LocatorError>)
    ensures
        match url_path_segments(url@) {
            Some(segments) => r.is_ok() && r.unwrap()@ == file_name_spec(segments),
            None => r.is_err(),
        },
{
    match path_segments(url) {
        Ok(segments) => Ok(file_name_of(&segments)),
        Err(e) => Err(LocatorError { cause: describe(e) }),
    }
}

} // verus!
