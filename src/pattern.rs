//! Regular-expression matching, done by the `regex` crate. What a pattern
//! matches is named here and not restated: the engine's semantics stay the
//! crate's own. A pattern that does not compile matches nothing.

use vstd::prelude::*;
use crate::model::opt_view;

verus! {

/// A name for what `Regex::is_match` answers for `pattern` on `text`.
pub uninterp spec fn regex_is_match(pattern: Seq<char>, text: Seq<char>) -> bool;

/// A name for the first capture group of the leftmost match that
/// `Regex::captures` finds for `pattern` in `text`.
pub uninterp spec fn regex_first_group(pattern: Seq<char>, text: Seq<char>) -> Option<Seq<char>>;

/// A name for the first capture group of each successive match that
/// `Regex::captures_iter` yields for `pattern` in `text`.
pub uninterp spec fn regex_groups(pattern: Seq<char>, text: Seq<char>) -> Seq<Option<Seq<char>>>;

/// The views of a sequence of optional strings.
pub open spec fn opt_views(v: Seq<Option<String>>) -> Seq<Option<Seq<char>>> {
    v.map_values(|o: Option<String>| opt_view(o))
}

/// Relies on `regex::Regex::new` and `Regex::is_match`: whether `pattern`
/// matches somewhere in `text`.
#[verifier::external_body]
pub(crate) fn is_match(pattern: &str, text: &str) -> (r: bool)
    ensures
        r == regex_is_match(pattern@, text@),
{
    regex::Regex::new(pattern).map(|re| re.is_match(text)).unwrap_or(false)
}

/// Relies on `regex::Regex::new` and `Regex::captures`: group 1 of the
/// leftmost match of `pattern` in `text`.
#[verifier::external_body]
pub(crate) fn first_group(pattern: &str, text: &str) -> (r: Option<String>)
    ensures
        opt_view(r) == regex_first_group(pattern@, text@),
{
    let re = regex::Regex::new(pattern).ok()?;
    re.captures(text).and_then(|c| c.get(1)).map(|m| m.as_str().to_string())
}

/// Relies on `regex::Regex::new` and `Regex::captures_iter`: group 1 of
/// each successive match of `pattern` in `text`, in order.
#[verifier::external_body]
pub(crate) fn all_groups(pattern: &str, text: &str) -> (r: Vec<Option<String>>)
    ensures
        opt_views(r@) == regex_groups(pattern@, text@),
{
    match regex::Regex::new(pattern) {
        Ok(re) => re.captures_iter(text).map(|c| c.get(1).map(|m| m.as_str().to_string())).collect(),
        Err(_) => Vec::new(),
    }
}

} // verus!
