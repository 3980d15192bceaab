//! Trusted boundary to the `fancy_regex` crate.
//!
//! The engine treats a compiled pattern's behaviour as a function of the
//! pattern and the searched text alone: `regex_ok` names which patterns
//! compile, `regex_match` names where a match exists, `regex_capture`
//! names what the first match's capture yields.  Matching can also fail
//! at run time (the crate bounds backtracking), so no wrapper promises
//! an `Ok`.
use vstd::prelude::*;

verus! {

/// Whether `fancy_regex` accepts `pat` as a pattern.
pub uninterp spec fn regex_ok(pat: Seq<char>) -> bool;

/// Whether the pattern matches anywhere in `text`.
pub uninterp spec fn regex_match(pat: Seq<char>, text: Seq<char>) -> bool;

/// What the first match yields: group 1 when the pattern has a capture
/// group (empty when that group took no part in the match), else the
/// whole match; empty when there is no match.
pub uninterp spec fn regex_capture(pat: Seq<char>, text: Seq<char>) -> Seq<char>;

/// Relies on `fancy_regex::Regex::new`: compiling a pattern succeeds or
/// fails on the pattern text alone.
#[verifier::external_body]
pub fn regex_valid(pat: &str) -> (r: Result<(), String>)
    ensures
        r is Ok <==> regex_ok(pat@),
{
    match fancy_regex::Regex::new(pat) {
        Ok(_) => Ok(()),
        Err(e) => Err(e.to_string()),
    }
}

/// Relies on `fancy_regex::Regex::new` and `Regex::is_match`: whether
/// the compiled pattern matches anywhere in `text`; matching itself may
/// fail at run time, so an `Err` is possible even for a pattern that
/// compiles.
#[verifier::external_body]
pub fn regex_is_match(pat: &str, text: &str) -> (r: Result<bool, String>)
    ensures
        !regex_ok(pat@) ==> r is Err,
        r matches Ok(b) ==> regex_ok(pat@) && b == regex_match(pat@, text@),
{
    match fancy_regex::Regex::new(pat) {
        Ok(re) => match re.is_match(text) {
            Ok(b) => Ok(b),
            Err(e) => Err(e.to_string()),
        },
        Err(e) => Err(e.to_string()),
    }
}

/// Relies on `fancy_regex::Regex::new` and `Regex::captures`: the first
/// match's capture, as `regex_capture` names it.
#[verifier::external_body]
pub fn regex_capture_first(pat: &str, text: &str) -> (r: Result<String, String>)
    ensures
        !regex_ok(pat@) ==> r is Err,
        r matches Ok(s) ==> regex_ok(pat@) && s@ == regex_capture(pat@, text@),
{
    let re = match fancy_regex::Regex::new(pat) {
        Ok(re) => re,
        Err(e) => return Err(e.to_string()),
    };
    match re.captures(text) {
        Ok(Some(c)) => {
            let g = if c.len() > 1 { c.get(1) } else { c.get(0) };
            Ok(g.map_or(String::new(), |m| m.as_str().to_string()))
        },
        Ok(None) => Ok(String::new()),
        Err(e) => Err(e.to_string()),
    }
}

} // verus!
