//! Compiled patterns. A `Re` pairs a pattern with its compilation by the
//! `regex` crate; its fields are private to this module, which builds a
//! `Re` only by compiling the pattern it is known by, so every `Re` matches
//! as its pattern does.
use crate::stdlib::regex::{
    regex_all_captures, regex_build, regex_first_captures, regex_replace_all, spans_valid, whole_end,
    whole_start,
};
use vstd::prelude::*;
use vstd::string::*;

verus! {

#[verifier::external_type_specification]
#[verifier::external_body]
pub struct ExRegex(::regex::Regex);

/// A compiled pattern, together with the pattern it was compiled from.
pub struct Re {
    pattern: String,
    compiled: ::regex::Regex,
}

impl View for Re {
    type V = Seq<char>;

    /// A compiled pattern is known by the pattern it was compiled from.
    closed spec fn view(&self) -> Seq<char> {
        self.pattern@
    }
}

impl Re {
    /// The pattern this regex was compiled from.
    pub fn as_str(&self) -> (s: &str)
        ensures
            s@ == self@,
    {
        self.pattern.as_str()
    }
}

/// `regex::Regex::new`: compiles `pattern` into a `Re` known by `pattern`,
/// or gives the error's message.
/// The contract names the outcome `regex_build`; the pattern `$^` (which
/// only matches the empty string) compiles.
#[verifier::external_body]
pub(crate) fn build_regex(pattern: &str) -> (res: Result<Re, String>)
    ensures
        res is Ok <==> regex_build(pattern@) is Ok,
        res matches Ok(r) ==> r@ == pattern@,
        res matches Err(m) ==> (regex_build(pattern@) matches Err(e) && e == m@),
        pattern@ == "$^"@ ==> res is Ok,
{
    ::regex::Regex::new(pattern).map(|compiled| Re { pattern: pattern.to_owned(), compiled }).map_err(
        |e| e.to_string(),
    )
}

/// `regex::Regex::is_match`: whether `re` matches anywhere in `haystack`,
/// which is whether `Regex::captures` finds a match.
#[verifier::external_body]
pub(crate) fn is_match(re: &Re, haystack: &str) -> (res: bool)
    ensures
        res == regex_first_captures(re@, haystack@) is Some,
{
    re.compiled.is_match(haystack)
}

/// `regex::Regex::captures`, with each group's `Match` turned into its
/// byte span. The regex crate documents that every `Captures` has group 0,
/// which always participates, and that match offsets satisfy
/// `start <= end` and fall on character boundaries.
#[verifier::external_body]
pub(crate) fn first_captures(re: &Re, haystack: &str) -> (res: Option<Vec<Option<(usize, usize)>>>)
    ensures
        match res {
            Some(g) => regex_first_captures(re@, haystack@) == Some(g@) && spans_valid(
                haystack@,
                g@,
            ),
            None => regex_first_captures(re@, haystack@) is None,
        },
{
    re.compiled.captures(haystack).map(
        |c| (0..c.len()).map(|i| c.get(i).map(|m| (m.start(), m.end()))).collect(),
    )
}

/// `regex::Regex::captures_iter`, collected, with each group's `Match`
/// turned into its byte span (the same documented facts hold of each). The
/// matches are successive and non-overlapping, as the crate documents: each
/// one ends no later than the next one starts. The iteration starts where
/// `Regex::captures` searches, so there are none exactly when `captures`
/// finds no match, and the first is the one `captures` finds.
#[verifier::external_body]
pub(crate) fn all_captures(re: &Re, haystack: &str) -> (res: Vec<Vec<Option<(usize, usize)>>>)
    ensures
        res@.len() == regex_all_captures(re@, haystack@).len(),
        forall|i: int|
            0 <= i < res@.len() ==> (#[trigger] res@[i])@ == regex_all_captures(re@, haystack@)[i]
                && spans_valid(haystack@, res@[i]@),
        forall|i: int, j: int|
            0 <= i < j < res@.len() ==> whole_end((#[trigger] res@[i])@) <= whole_start((#[trigger] res@[j])@),
        res@.len() == 0 <==> regex_first_captures(re@, haystack@) is None,
        res@.len() > 0 ==> regex_first_captures(re@, haystack@) == Some(res@[0]@),
{
    re.compiled.captures_iter(haystack).map(
        |c| (0..c.len()).map(|i| c.get(i).map(|m| (m.start(), m.end()))).collect(),
    ).collect()
}

/// `regex::Regex::replace_all` with a string replacement, as an owned
/// string.
#[verifier::external_body]
pub(crate) fn replace_all(re: &Re, haystack: &str, replacement: &str) -> (res: String)
    ensures
        res@ == regex_replace_all(re@, haystack@, replacement@),
{
    re.compiled.replace_all(haystack, replacement).into_owned()
}

} // verus!
