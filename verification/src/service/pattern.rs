//! Regular expressions: what is taken on trust of the `regex` crate.

use regex::Regex;
use vstd::prelude::*;

verus! {

/// A compiled regular expression of the `regex` crate.
#[verifier::external_type_specification]
#[verifier::external_body]
pub struct ExRegex(Regex);

/// The reason the `regex` crate gives for rejecting a pattern.
#[verifier::external_type_specification]
#[verifier::external_body]
pub struct ExRegexError(regex::Error);

/// What a compiled expression holds: for each text in which it finds a
/// match, what its leftmost match there captures. That is, for each group
/// of the expression, the whole expression counting as group 0, the text
/// that the group matched, or none where the group took no part.
pub uninterp spec fn regex_captures(re: Regex) -> Map<Seq<char>, Seq<Option<Seq<char>>>>;

/// What compiling a pattern yields: what the compiled expression holds, or
/// `None` where the pattern is rejected.
pub uninterp spec fn pattern_captures(pattern: Seq<char>) -> Option<
    Map<Seq<char>, Seq<Option<Seq<char>>>>,
>;

/// `Regex::new` compiles a pattern. It accepts or rejects the pattern, and
/// the expression it returns matches and captures, by the pattern's text
/// alone.
pub assume_specification[ Regex::new ](re: &str) -> (r: Result<Regex, regex::Error>)
    ensures
        match r {
            Ok(compiled) => pattern_captures(re@) == Some(regex_captures(compiled)),
            Err(_) => pattern_captures(re@) is None,
        },
;

/// `Regex::is_match` says whether the expression finds a match anywhere in
/// the text.
pub assume_specification[ Regex::is_match ](re: &Regex, haystack: &str) -> (found: bool)
    ensures
        found == regex_captures(*re).contains_key(haystack@),
;

/// A clone of a compiled expression finds a match in the same texts and
/// captures the same there.
pub assume_specification[ <Regex as Clone>::clone ](re: &Regex) -> (copy: Regex)
    ensures
        regex_captures(copy) == regex_captures(*re),
;

/// The view of what was captured.
pub open spec fn groups_view(groups: Seq<Option<String>>) -> Seq<Option<Seq<char>>> {
    groups.map_values(
        |g: Option<String>|
            match g {
                Some(s) => Some(s@),
                None => None,
            },
    )
}

/// `Regex::captures`: what the leftmost match in the text captures, as
/// owned strings. There is something captured exactly when the expression
/// finds a match, and then the whole match is the first of the groups.
#[verifier::external_body]
pub(crate) fn captures(re: &Regex, text: &str) -> (groups: Option<Vec<Option<String>>>)
    ensures
        match groups {
            Some(g) => regex_captures(*re).contains_key(text@) && regex_captures(*re)[text@]
                == groups_view(g@) && g@.len() >= 1 && g@[0] is Some,
            None => !regex_captures(*re).contains_key(text@),
        },
{
    match re.captures(text) {
        Some(found) => Some(found.iter().map(|m| m.map(|m| m.as_str().to_string())).collect()),
        None => None,
    }
}

} // verus!
