//! The pattern that splits a value's text into magnitude and unit, and the
//! regular-expression engine that applies it.
//!
//! The pattern has two named groups: `magnitude`, a run of decimal digits, and
//! the optional `unit`, an alternation of the registry's suffixes in their
//! declared order. The engine is the `regex` crate; what it finds is not
//! proved here but named, and everything done with what it found is.

use regex::Regex;
use vstd::prelude::*;
use vstd::string::*;

verus! {

/// A compiled regular expression of the `regex` crate; opaque to the verifier.
#[verifier::external_type_specification]
#[verifier::external_body]
pub struct ExRegex(regex::Regex);

/// The error with which the `regex` crate rejects a pattern; opaque to the verifier.
#[verifier::external_type_specification]
#[verifier::external_body]
pub struct ExRegexError(regex::Error);

/// The pattern text that a compiled expression was made from: what
/// `regex::Regex::as_str` returns for it.
pub uninterp spec fn regex_source(regex: &Regex) -> Seq<char>;

/// What `regex` finds when it searches `haystack`: `None` where it matches
/// nowhere, else, for the leftmost match, the text captured by the group named
/// `first` and by the group named `second`, each `None` where the expression
/// has no such group or the group took no part in the match.
pub uninterp spec fn regex_captures(
    regex: &Regex,
    haystack: Seq<char>,
    first: Seq<char>,
    second: Seq<char>,
) -> Option<(Option<Seq<char>>, Option<Seq<char>>)>;

/// `regex::Regex::new` compiles a pattern. Whether it accepts the pattern is
/// left open; an expression that it returns was made from exactly that pattern.
pub assume_specification[ regex::Regex::new ](re: &str) -> (r: Result<Regex, regex::Error>)
    ensures
        r matches Ok(regex) ==> regex_source(&regex) == re@,
;

/// Runs `regex::Regex::captures` on `haystack` and copies out the text of the
/// groups named `first` and `second` (`regex::Captures::name`, then
/// `regex::Match::as_str`). The contract only gives the outcome its name: a
/// search depends on nothing but the expression and the text it is run on.
#[verifier::external_body]
pub(crate) fn capture_pair(regex: &Regex, haystack: &str, first: &str, second: &str) -> (r: Option<
    (Option<String>, Option<String>),
>)
    ensures
        r.deep_view() == regex_captures(regex, haystack@, first@, second@),
{
    regex.captures(haystack).map(
        |found|
            (
                found.name(first).map(|m| m.as_str().to_string()),
                found.name(second).map(|m| m.as_str().to_string()),
            ),
    )
}

/// Why a pattern could not be compiled.
#[derive(Debug, PartialEq, Eq)]
pub struct InvalidPatternError {
    /// The pattern that was rejected.
    pub pattern: String,
    /// What the engine said of it.
    pub reason: String,
}

/// Renders a `regex::Error` through its `Display` impl. Nothing is claimed of
/// the text.
#[verifier::external_body]
fn reason_text(error: &regex::Error) -> String {
    error.to_string()
}

/// Compiles `pattern`.
///
/// Whether the engine accepts a pattern is its own decision. The expression
/// that comes back was made from `pattern`, and an error names `pattern`.
pub fn compile(pattern: String) -> (r: Result<Regex, InvalidPatternError>)
    ensures
        match r {
            Ok(regex) => regex_source(&regex) == pattern@,
            Err(error) => error.pattern@ == pattern@,
        },
{
    match Regex::new(pattern.as_str()) {
        Ok(regex) => Ok(regex),
        Err(error) => Err(InvalidPatternError { reason: reason_text(&error), pattern }),
    }
}

/// The suffixes joined by `|`, in their order.
pub open spec fn spec_alternation(suffixes: Seq<Seq<char>>) -> Seq<char>
    decreases suffixes.len(),
{
    if suffixes.len() == 0 {
        Seq::<char>::empty()
    } else if suffixes.len() == 1 {
        suffixes[0]
    } else {
        spec_alternation(suffixes.drop_last()) + "|"@ + suffixes.last()
    }
}

/// The pattern for a registry whose suffixes, joined by `|`, are `alternation`.
pub open spec fn spec_pattern(alternation: Seq<char>) -> Seq<char> {
    "(?<magnitude>[0-9]+)(?<unit>"@ + alternation + ")?"@
}

/// Writes the pattern around an alternation of suffixes.
pub fn pattern_around(alternation: &str) -> (r: String)
    ensures
        r@ == spec_pattern(alternation@),
{
    let mut pattern = String::from_str("(?<magnitude>[0-9]+)(?<unit>");
    pattern.append(alternation);
    pattern.append(")?");
    pattern
}

} // verus!
