//! Regular-expression matching through the `regex` crate.
//!
//! The matching engine is not restated: each wrapper's result is named by an
//! uninterpreted function of the pattern and the text. An invalid pattern
//! behaves as a pattern that never matches.
use vstd::prelude::*;

verus! {

/// Whether `Regex::new(pattern)` matches somewhere in `text`
/// (`false` for a pattern that does not compile).
pub uninterp spec fn regex_matches(pattern: Seq<char>, text: Seq<char>) -> bool;

/// The capture groups of the leftmost-first match of `pattern` in `text`
/// (`Regex::captures`); group 0 is the whole match, a group that did not
/// take part is `None`. `None` when there is no match or the pattern does
/// not compile.
pub uninterp spec fn regex_captures(pattern: Seq<char>, text: Seq<char>) -> Option<
    Seq<Option<Seq<char>>>,
>;

/// The capture groups of every successive non-overlapping match
/// (`Regex::captures_iter`); empty when the pattern does not compile.
pub uninterp spec fn regex_captures_all(pattern: Seq<char>, text: Seq<char>) -> Seq<
    Seq<Option<Seq<char>>>,
>;

/// The pieces of `text` between successive non-overlapping matches
/// (`Regex::split`); the whole text as one piece when the pattern does not
/// compile.
pub uninterp spec fn regex_split(pattern: Seq<char>, text: Seq<char>) -> Seq<Seq<char>>;

/// `Regex::new(pattern)` then `Regex::is_match(text)`; the result is the
/// named `regex_matches` of the two arguments.
#[verifier::external_body]
pub(crate) fn is_match(pattern: &str, text: &str) -> (r: bool)
    ensures
        r == regex_matches(pattern@, text@),
{
    match regex::Regex::new(pattern) {
        Ok(re) => re.is_match(text),
        Err(_) => false,
    }
}

/// `Regex::new(pattern)` then `Regex::captures(text)`, each group turned
/// into an owned string; the result is the named `regex_captures`.
#[verifier::external_body]
pub(crate) fn captures(pattern: &str, text: &str) -> (r: Option<Vec<Option<String>>>)
    ensures
        r.deep_view() == regex_captures(pattern@, text@),
{
    match regex::Regex::new(pattern) {
        Ok(re) => re.captures(text).map(
            |c| c.iter().map(|m| m.map(|m| m.as_str().to_string())).collect(),
        ),
        Err(_) => None,
    }
}

/// `Regex::new(pattern)` then `Regex::captures_iter(text)`, each match's
/// groups turned into owned strings; the result is the named
/// `regex_captures_all`.
#[verifier::external_body]
pub(crate) fn captures_all(pattern: &str, text: &str) -> (r: Vec<Vec<Option<String>>>)
    ensures
        r.deep_view() == regex_captures_all(pattern@, text@),
{
    match regex::Regex::new(pattern) {
        Ok(re) => re.captures_iter(text).map(
            |c| c.iter().map(|m| m.map(|m| m.as_str().to_string())).collect(),
        ).collect(),
        Err(_) => Vec::new(),
    }
}

/// `Regex::new(pattern)` then `Regex::split(text)`, each piece turned into
/// an owned string; the result is the named `regex_split`.
#[verifier::external_body]
pub(crate) fn split(pattern: &str, text: &str) -> (r: Vec<String>)
    ensures
        r.deep_view() == regex_split(pattern@, text@),
{
    match regex::Regex::new(pattern) {
        Ok(re) => re.split(text).map(|p| p.to_string()).collect(),
        Err(_) => vec![text.to_string()],
    }
}

/// Text of capture group `i` (empty when the group is absent).
pub open spec fn group(caps: Seq<Option<Seq<char>>>, i: int) -> Seq<char> {
    if 0 <= i < caps.len() {
        match caps[i] {
            Some(t) => t,
            None => Seq::<char>::empty(),
        }
    } else {
        Seq::<char>::empty()
    }
}

pub fn group_exec(caps: &Vec<Option<String>>, i: usize) -> (r: Vec<char>)
    ensures
        r@ == group(caps.deep_view(), i as int),
{
    if i < caps.len() {
        match &caps[i] {
            Some(t) => crate::text::chars_of(t.as_str()),
            None => Vec::new(),
        }
    } else {
        Vec::new()
    }
}

} // verus!
