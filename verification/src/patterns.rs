//! Regular-expression matching, as the `regex` crate does it.

use vstd::prelude::*;

verus! {

/// All non-overlapping matches of `pattern` in `haystack`, leftmost first, as
/// `regex::Regex::captures_iter` reports them; `None` when `regex::Regex::new`
/// rejects the pattern. A match is the sequence of its groups: group 0 is the
/// whole match, a group that took no part in the match is `None`.
pub uninterp spec fn regex_captures(pattern: Seq<char>, haystack: Seq<char>) -> Option<
    Seq<Seq<Option<Seq<char>>>>,
>;

/// `regex::Regex::new` followed by `regex::Regex::captures_iter`: every
/// match of the pattern in the haystack with the text of each of its groups,
/// or nothing when the pattern does not compile.
#[verifier::external_body]
pub(crate) fn captures_of(pattern: &str, haystack: &str) -> (found: Option<Vec<Vec<Option<String>>>>)
    ensures
        found.deep_view() == regex_captures(pattern@, haystack@),
{
    let re = regex::Regex::new(pattern).ok()?;
    Some(
        re.captures_iter(haystack).map(
            |c| c.iter().map(|g| g.map(|m| m.as_str().to_string())).collect(),
        ).collect(),
    )
}

/// Text of group `i` of a match; `None` when the match has no such group or
/// the group took no part.
pub open spec fn group(groups: Seq<Option<Seq<char>>>, i: int) -> Option<Seq<char>> {
    if 0 <= i < groups.len() {
        groups[i]
    } else {
        None
    }
}

/// Text of group `i` of a match, if the group took part.
pub fn group_of(groups: &Vec<Option<String>>, i: usize) -> (r: Option<&String>)
    ensures
        r.deep_view() == group(groups.deep_view(), i as int),
{
    if i < groups.len() {
        match &groups[i] {
            Some(text) => Some(text),
            None => None,
        }
    } else {
        None
    }
}

} // verus!
