//! Records for crawled files and the exclusion rule applied while crawling.

use vstd::prelude::*;
use crate::text::{chars_of, contains_chars, contains_seq, to_lowercase, unicode_lowercase};

verus! {

broadcast use vstd::string::group_string_axioms;

/// A regular file found while crawling a folder.
#[derive(Debug, Clone)]
pub struct CrawledFile {
    pub path: String,
    pub filename: String,
    pub extension: Option<String>,
    pub size_bytes: u64,
    pub created_at: Option<String>,
    pub modified_at: Option<String>,
}

/// The text `chrono` gives for a Unix time in seconds in the format
/// `%Y-%m-%d %H:%M:%S` (UTC), `None` when the time is out of its range.
pub uninterp spec fn unix_seconds_text(secs: i64) -> Option<Seq<char>>;

/// Calls `chrono::DateTime::from_timestamp` and formats the instant with
/// `format("%Y-%m-%d %H:%M:%S")`. Claimed: the result is the name
/// `unix_seconds_text` of `secs`.
#[verifier::external_body]
fn format_unix_seconds(secs: i64) -> (r: Option<String>)
    ensures
        r is Some <==> unix_seconds_text(secs) is Some,
        r matches Some(t) ==> unix_seconds_text(secs) == Some(t@),
{
    match chrono::DateTime::from_timestamp(secs, 0) {
        Some(dt) => Some(dt.format("%Y-%m-%d %H:%M:%S").to_string()),
        None => None,
    }
}

/// The timestamp text of a file time given in seconds since the Unix epoch
/// (empty when the time is out of range), or `None` when the time was not
/// available.
pub open spec fn file_time_text(secs: Option<u64>) -> Option<Seq<char>> {
    match secs {
        Some(s) => Some(
            match unix_seconds_text(s as i64) {
                Some(t) => t,
                None => seq![],
            },
        ),
        None => None,
    }
}

/// The timestamp text of a file time, if there is one.
pub fn file_time(secs: Option<u64>) -> (r: Option<String>)
    ensures
        r is Some <==> secs is Some,
        r matches Some(t) ==> file_time_text(secs) == Some(t@),
{
    match secs {
        Some(s) => Some(
            match format_unix_seconds(s as i64) {
                Some(t) => t,
                None => String::new(),
            },
        ),
        None => None,
    }
}

/// A file extension in lower case.
pub fn lowercase_extension(ext: &str) -> (r: String)
    ensures
        r@ == unicode_lowercase(ext@),
{
    to_lowercase(ext)
}

/// Builds the record of a crawled file: its path and file name as text, its
/// extension in lower case, its size, and its creation and modification
/// times as timestamp texts.
pub fn crawled_file(
    path: String,
    filename: String,
    extension: Option<String>,
    size_bytes: u64,
    created_secs: Option<u64>,
    modified_secs: Option<u64>,
) -> (r: CrawledFile)
    ensures
        r.path == path,
        r.filename == filename,
        r.size_bytes == size_bytes,
        r.extension is Some <==> extension is Some,
        r.extension matches Some(e) ==> e@ == unicode_lowercase(extension->0@),
        r.created_at is Some <==> created_secs is Some,
        r.created_at matches Some(t) ==> file_time_text(created_secs) == Some(t@),
        r.modified_at is Some <==> modified_secs is Some,
        r.modified_at matches Some(t) ==> file_time_text(modified_secs) == Some(t@),
{
    let extension = match extension {
        Some(e) => Some(lowercase_extension(e.as_str())),
        None => None,
    };
    CrawledFile {
        path,
        filename,
        extension,
        size_bytes,
        created_at: file_time(created_secs),
        modified_at: file_time(modified_secs),
    }
}

/// Whether a pattern names a sub-path (holds `\` or `/`).
pub open spec fn has_separator(p: Seq<char>) -> bool {
    p.contains('\\') || p.contains('/')
}

/// A path is excluded when one of its components equals a pattern, or when
/// a pattern holding a path separator occurs anywhere in the path's text.
pub open spec fn excluded_by(
    components: Seq<String>,
    path_text: Seq<char>,
    exclusions: Seq<String>,
) -> bool {
    ||| exists|i: int, j: int|
        0 <= i < components.len() && 0 <= j < exclusions.len() && #[trigger] components[i]@
            == #[trigger] exclusions[j]@
    ||| exists|j: int|
        0 <= j < exclusions.len() && has_separator(#[trigger] exclusions[j]@) && contains_seq(
            path_text,
            exclusions[j]@,
        )
}

fn has_separator_chars(v: &Vec<char>) -> (r: bool)
    ensures
        r == has_separator(v@),
{
    let mut i: usize = 0;
    while i < v.len()
        invariant
            i <= v.len(),
            forall|k: int| 0 <= k < i ==> v@[k] != '\\' && v@[k] != '/',
        decreases v.len() - i,
    {
        if v[i] == '\\' || v[i] == '/' {
            assert(v@[i as int] == v[i as int]);
            return true;
        }
        i = i + 1;
    }
    false
}

/// Check if a path should be excluded based on exclusion patterns, given the
/// path's components and its text.
pub fn is_excluded(components: &Vec<String>, path_text: &str, exclusions: &Vec<String>) -> (r:
    bool)
    ensures
        r == excluded_by(components@, path_text@, exclusions@),
{
    let mut i: usize = 0;
    while i < components.len()
        invariant
            i <= components.len(),
            forall|a: int, b: int|
                0 <= a < i && 0 <= b < exclusions@.len() ==> components@[a]@
                    != exclusions@[b]@,
        decreases components.len() - i,
    {
        let mut j: usize = 0;
        while j < exclusions.len()
            invariant
                i < components.len(),
                j <= exclusions.len(),
                forall|a: int, b: int|
                    0 <= a < i && 0 <= b < exclusions@.len() ==> components@[a]@
                        != exclusions@[b]@,
                forall|b: int| 0 <= b < j ==> components@[i as int]@ != exclusions@[b]@,
            decreases exclusions.len() - j,
        {
            if components[i] == exclusions[j] {
                return true;
            }
            j = j + 1;
        }
        i = i + 1;
    }
    let text = chars_of(path_text);
    let mut j: usize = 0;
    while j < exclusions.len()
        invariant
            j <= exclusions.len(),
            text@ == path_text@,
            forall|a: int, b: int|
                0 <= a < components@.len() && 0 <= b < exclusions@.len() ==> components@[a]@
                    != exclusions@[b]@,
            forall|b: int|
                0 <= b < j ==> !(has_separator(exclusions@[b]@) && contains_seq(
                    path_text@,
                    exclusions@[b]@,
                )),
        decreases exclusions.len() - j,
    {
        let pattern = chars_of(exclusions[j].as_str());
        if has_separator_chars(&pattern) && contains_chars(&text, &pattern) {
            return true;
        }
        j = j + 1;
    }
    false
}

/// Adding patterns never lets through a path that was excluded.
pub proof fn exclusion_is_monotonic(
    components: Seq<String>,
    path_text: Seq<char>,
    fewer: Seq<String>,
    more: Seq<String>,
)
    requires
        forall|j: int| 0 <= j < fewer.len() ==> more.contains(#[trigger] fewer[j]),
        excluded_by(components, path_text, fewer),
    ensures
        excluded_by(components, path_text, more),
{
    if exists|i: int, j: int|
        0 <= i < components.len() && 0 <= j < fewer.len() && #[trigger] components[i]@
            == #[trigger] fewer[j]@ {
        let (i, j) = choose|i: int, j: int|
            0 <= i < components.len() && 0 <= j < fewer.len() && #[trigger] components[i]@
                == #[trigger] fewer[j]@;
        assert(more.contains(fewer[j]));
        let k = choose|k: int| 0 <= k < more.len() && more[k] == fewer[j];
        assert(components[i]@ == more[k]@);
    } else {
        let j = choose|j: int|
            0 <= j < fewer.len() && has_separator(#[trigger] fewer[j]@) && contains_seq(
                path_text,
                fewer[j]@,
            );
        assert(more.contains(fewer[j]));
        let k = choose|k: int| 0 <= k < more.len() && more[k] == fewer[j];
        assert(has_separator(more[k]@));
    }
}

/// An excluded folder excludes everything below it: a path under an
/// excluded path (its components followed by more, its text followed by a
/// separator and more) is excluded too.
pub proof fn excluded_folder_excludes_its_contents(
    components: Seq<String>,
    path_text: Seq<char>,
    below: Seq<String>,
    separator: char,
    rest: Seq<char>,
    exclusions: Seq<String>,
)
    requires
        excluded_by(components, path_text, exclusions),
    ensures
        excluded_by(components + below, path_text + seq![separator] + rest, exclusions),
{
    let deeper = components + below;
    let text = path_text + seq![separator] + rest;
    if exists|i: int, j: int|
        0 <= i < components.len() && 0 <= j < exclusions.len() && #[trigger] components[i]@
            == #[trigger] exclusions[j]@ {
        let (i, j) = choose|i: int, j: int|
            0 <= i < components.len() && 0 <= j < exclusions.len() && #[trigger] components[i]@
                == #[trigger] exclusions[j]@;
        assert(deeper[i] == components[i]);
        assert(deeper[i]@ == exclusions[j]@);
    } else {
        let j = choose|j: int|
            0 <= j < exclusions.len() && has_separator(#[trigger] exclusions[j]@) && contains_seq(
                path_text,
                exclusions[j]@,
            );
        let p = exclusions[j]@;
        let k = choose|k: int|
            0 <= k && k + p.len() <= path_text.len() && #[trigger] path_text.subrange(k, k + p.len())
                == p;
        assert(text.subrange(k, k + p.len()) =~= path_text.subrange(k, k + p.len()));
        assert(contains_seq(text, p));
    }
}

} // verus!
