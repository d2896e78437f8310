//! Pattern matching for the ignore and exclude options.
//!
//! Patterns are regular expressions, held as strings; whether a pattern
//! matches a path is decided by the regex engine behind a trusted boundary.

use vstd::prelude::*;

verus! {

pub uninterp spec fn regex_ok(pattern: Seq<char>) -> bool;

pub uninterp spec fn regex_is_match(pattern: Seq<char>, text: Seq<char>) -> bool;

/// Relies on regex::Regex::new: whether the pattern is a valid regular
/// expression.  The result depends on the pattern alone.
#[verifier::external_body]
pub fn pattern_is_valid(pattern: &str) -> (r: bool)
    ensures
        r == regex_ok(pattern@),
{
    regex::Regex::new(pattern).is_ok()
}

/// Relies on regex::Regex::new and regex::Regex::is_match: whether the
/// pattern compiles and matches somewhere in the text.  The result depends
/// on the pattern and the text alone; an invalid pattern matches nothing.
#[verifier::external_body]
pub fn pattern_matches(pattern: &str, text: &str) -> (r: bool)
    ensures
        r == (regex_ok(pattern@) && regex_is_match(pattern@, text@)),
{
    match regex::Regex::new(pattern) {
        Ok(re) => re.is_match(text),
        Err(_) => false,
    }
}

/// Whether any of the patterns matches the text.
pub open spec fn any_pattern_matches(patterns: Seq<Seq<char>>, text: Seq<char>) -> bool {
    exists|i: int|
        0 <= i < patterns.len() && regex_ok(#[trigger] patterns[i]) && regex_is_match(
            patterns[i],
            text,
        )
}

/// Whether any of the patterns matches the text.
pub fn matches_any(patterns: &Vec<String>, text: &str) -> (r: bool)
    ensures
        r == any_pattern_matches(patterns.deep_view(), text@),
{
    let n = patterns.len();
    let mut i: usize = 0;
    while i < n
        invariant
            n == patterns@.len(),
            i <= n,
            forall|k: int|
                0 <= k < i ==> !(regex_ok(#[trigger] patterns.deep_view()[k]) && regex_is_match(
                    patterns.deep_view()[k],
                    text@,
                )),
        decreases n - i,
    {
        proof {
            assert(patterns.deep_view()[i as int] == patterns@[i as int]@);
        }
        if pattern_matches(patterns[i].as_str(), text) {
            return true;
        }
        i += 1;
    }
    false
}

/// Whether every pattern is a valid regular expression; a run rejects its
/// pattern options up front, before any analysis.
pub fn patterns_valid(patterns: &Vec<String>) -> (r: bool)
    ensures
        r == (forall|i: int|
            0 <= i < patterns.deep_view().len() ==> regex_ok(#[trigger] patterns.deep_view()[i])),
{
    let n = patterns.len();
    let mut i: usize = 0;
    while i < n
        invariant
            n == patterns@.len(),
            i <= n,
            forall|k: int| 0 <= k < i ==> regex_ok(#[trigger] patterns.deep_view()[k]),
        decreases n - i,
    {
        proof {
            assert(patterns.deep_view()[i as int] == patterns@[i as int]@);
        }
        if !pattern_is_valid(patterns[i].as_str()) {
            assert(!regex_ok(patterns.deep_view()[i as int]));
            return false;
        }
        i += 1;
    }
    true
}

} // verus!
