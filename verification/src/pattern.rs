//! Searching text with regular expressions.
//!
//! The matching engine is the `regex` crate. Nothing is proved of the engine
//! itself: what a search returns is given a name, and the rest of the crate
//! reasons about the searches through those names.

use vstd::prelude::*;

verus! {

#[verifier::external_type_specification]
#[verifier::external_body]
pub struct ExPatternError(regex::Error);

/// Whether `pattern`, compiled with default settings, matches anywhere in
/// `text`; `None` where the engine rejects the pattern.
pub uninterp spec fn pattern_search(pattern: Seq<char>, text: Seq<char>) -> Option<bool>;

/// What the capture group `group` holds in the first match of `pattern` in
/// `text`, with the two flags set as given. The outer `None` says that the
/// engine rejects the pattern; the inner one that there is no match, or that
/// the group took no part in it.
pub uninterp spec fn pattern_capture(
    pattern: Seq<char>,
    multi_line: bool,
    case_insensitive: bool,
    text: Seq<char>,
    group: Seq<char>,
) -> Option<Option<Seq<char>>>;

/// Compiles `pattern` with `regex::Regex::new` and asks `Regex::is_match`
/// whether it matches anywhere in `text`.
///
/// Trusted: the answer depends on the pattern and the text alone, and an
/// error comes back exactly where the pattern does not compile.
#[verifier::external_body]
pub(crate) fn search(pattern: &str, text: &str) -> (r: Result<bool, regex::Error>)
    ensures
        match r {
            Ok(found) => pattern_search(pattern@, text@) == Some(found),
            Err(_) => pattern_search(pattern@, text@) is None,
        },
{
    Ok(regex::Regex::new(pattern)?.is_match(text))
}

/// Compiles `pattern` with `regex::RegexBuilder` (`multi_line`,
/// `case_insensitive`, `build`), takes the first match in `text` with
/// `Regex::captures`, and copies out what `Captures::name` gives for `group`.
///
/// Trusted: the answer depends on the five arguments alone, and an error
/// comes back exactly where the pattern does not compile.
#[verifier::external_body]
pub(crate) fn capture(
    pattern: &str,
    multi_line: bool,
    case_insensitive: bool,
    text: &str,
    group: &str,
) -> (r: Result<Option<String>, regex::Error>)
    ensures
        match r {
            Ok(found) => pattern_capture(
                pattern@,
                multi_line,
                case_insensitive,
                text@,
                group@,
            ) == Some(found.deep_view()),
            Err(_) => pattern_capture(pattern@, multi_line, case_insensitive, text@, group@)
                is None,
        },
{
    let re = regex::RegexBuilder::new(pattern)
        .multi_line(multi_line)
        .case_insensitive(case_insensitive)
        .build()?;
    match re.captures(text) {
        Some(caps) => match caps.name(group) {
            Some(m) => Ok(Some(m.as_str().to_string())),
            None => Ok(None),
        },
        None => Ok(None),
    }
}

} // verus!
