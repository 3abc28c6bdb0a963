//! The trusted boundary around the regex engine. The compiled matcher
//! type is declared opaque; what a compiled matcher holds and what
//! matching returns are named, and each call the library makes goes
//! through one wrapper whose contract states what the engine's source and
//! documentation show.

use vstd::prelude::*;

verus! {

#[verifier::external_type_specification]
#[verifier::external_body]
pub struct ExRegex(regex::Regex);

#[verifier::external_type_specification]
#[verifier::external_body]
pub struct ExRegexError(regex::Error);

/// The pattern string a compiled matcher was built from.
pub uninterp spec fn regex_source(re: regex::Regex) -> Seq<char>;

/// Whether the engine accepts `pattern`: a function of the pattern
/// string alone, since building a matcher is a deterministic parse plus
/// a fixed default size limit.
pub uninterp spec fn regex_compiles(pattern: Seq<char>) -> bool;

/// Whether `pattern` matches anywhere in `input`; a function of the two
/// strings alone.
pub uninterp spec fn regex_match(pattern: Seq<char>, input: Seq<char>) -> bool;

/// The text captured by group `idx` of `pattern` on `input` when the
/// pattern matches: group 0 is the whole match, group i the i-th
/// parenthesized group, and a group that did not participate is `None`.
pub uninterp spec fn regex_group(pattern: Seq<char>, input: Seq<char>, idx: int) -> Option<
    Seq<char>,
>;

/// View of one optional captured string.
pub open spec fn opt_string_view(o: Option<String>) -> Option<Seq<char>> {
    match o {
        Some(s) => Some(s@),
        None => None,
    }
}

/// Relies on `regex::Regex::new` and `Regex::as_str`: building a matcher
/// succeeds or fails as a function of the pattern string alone — a
/// deterministic parse under a fixed default size limit — and a
/// successfully compiled matcher keeps exactly the pattern string it was
/// built from; an invalid or oversized pattern is reported as an error.
#[verifier::external_body]
pub(crate) fn regex_new(pattern: &str) -> (r: Result<regex::Regex, regex::Error>)
    ensures
        r is Ok <==> regex_compiles(pattern@),
        r matches Ok(re) ==> regex_source(re) == pattern@,
{
    regex::Regex::new(pattern)
}

/// Relies on `regex::Regex::is_match`: true if and only if there is a
/// match for the pattern anywhere in the haystack.
#[verifier::external_body]
pub(crate) fn regex_is_match(re: &regex::Regex, path: &str) -> (r: bool)
    ensures
        r == regex_match(regex_source(*re), path@),
{
    re.is_match(path)
}

/// Relies on `regex::Regex::captures` and `regex::Captures::get`:
/// `captures` returns `Some` exactly when the pattern matches, and
/// `get(i)` hands out the text of capture group `i`, `None` for a group
/// that did not participate in the match.
#[verifier::external_body]
pub(crate) fn regex_capture_list(re: &regex::Regex, path: &str, n: usize) -> (r: Option<
    Vec<Option<String>>,
>)
    ensures
        r is Some <==> regex_match(regex_source(*re), path@),
        match r {
            Some(groups) => groups@.len() == n && forall|i: int|
                0 <= i < n ==> opt_string_view(#[trigger] groups@[i]) == regex_group(
                    regex_source(*re),
                    path@,
                    i + 1,
                ),
            None => true,
        },
{
    re.captures(path).map(|caps| {
        let mut out: Vec<Option<String>> = Vec::with_capacity(n);
        for i in 0..n {
            out.push(caps.get(i + 1).map(|m| m.as_str().to_string()));
        }
        out
    })
}

} // verus!
