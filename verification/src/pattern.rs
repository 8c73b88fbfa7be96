//! Regular expressions, as the `regex` crate compiles and runs them.
//!
//! What a compiled expression matches is not spelled out here. It is named:
//! the spec functions of this module stand for what `regex` answers, and the
//! contracts below tie each call to its name.

use crate::text::splice;
use regex::Captures;
use regex::Regex;
use vstd::prelude::*;

verus! {

/// `Regex` of `regex`: a compiled regular expression. Nothing of its inside
/// is known here; it is handed on to the calls below.
#[verifier::external_type_specification]
#[verifier::external_body]
pub struct ExRegex(regex::Regex);

/// `Error` of `regex`: why a pattern was refused. Nothing of its inside is
/// known here.
#[verifier::external_type_specification]
#[verifier::external_body]
pub struct ExRegexError(regex::Error);

/// The expression that `regex` compiles `pattern` to, or `None` where it
/// refuses the pattern.
pub uninterp spec fn compiled(pattern: Seq<char>) -> Option<Regex>;

/// The pattern that `regex` was compiled from.
pub uninterp spec fn source_of(regex: Regex) -> Seq<char>;

/// Whether `regex` matches anywhere in `haystack`.
pub uninterp spec fn matches_in(regex: Regex, haystack: Seq<char>) -> bool;

/// `haystack` with each match of `regex` replaced by what its first group
/// captured, then `text`, then what its third group captured. A group that
/// took no part in a match counts as empty.
pub uninterp spec fn rewritten(regex: Regex, haystack: Seq<char>, text: Seq<char>) -> Seq<char>;

/// `Regex::new` of `regex`: compiles the pattern `re`, or returns an error
/// where the pattern is invalid or compiles to more than the default size
/// limit. The outcome depends on the pattern alone; `compiled` names it. The
/// expression keeps the pattern that it was compiled from.
pub assume_specification[ Regex::new ](re: &str) -> (made: Result<Regex, regex::Error>)
    ensures
        made matches Ok(regex) ==> compiled(re@) == Some(regex) && source_of(regex) == re@,
        made is Err ==> compiled(re@) is None,
;

/// `Regex::as_str` of `regex`: the pattern string of the expression, which
/// `source_of` names.
pub assume_specification[ Regex::as_str ](regex: &Regex) -> (source: &str)
    ensures
        source@ == source_of(*regex),
;

/// `Regex::is_match` of `regex`: true if and only if the expression matches
/// somewhere in `haystack`. `matches_in` names the answer.
pub assume_specification[ Regex::is_match ](regex: &Regex, haystack: &str) -> (found: bool)
    ensures
        found == matches_in(*regex, haystack@),
;

/// `Regex::replace_all` of `regex`, with a replacement that joins the text of
/// group 1, `text` and the text of group 3 for each match. `rewritten` names
/// the result.
#[verifier::external_body]
pub(crate) fn replace_around(regex: &Regex, haystack: &str, text: &str) -> (replaced: String)
    ensures
        replaced@ == rewritten(*regex, haystack@, text@),
{
    regex.replace_all(haystack, |caps: &Captures| {
        splice(caps.get(1).map(|m| m.as_str()), text, caps.get(3).map(|m| m.as_str()))
    }).into_owned()
}

} // verus!
