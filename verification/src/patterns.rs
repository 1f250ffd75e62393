//! The regular-expression engine, as far as the linter relies on it.
//!
//! Matching is done by the `regex` crate. Nothing in this module is proved:
//! each function states what the library assumes of the engine.

use vstd::prelude::*;

verus! {

/// What `regex::Regex::is_match` answers for the pattern on the text, or
/// `None` where `regex::Regex::new` refuses the pattern.
pub uninterp spec fn regex_is_match(pattern: Seq<char>, text: Seq<char>) -> Option<bool>;

/// The first and second capture group of every match that
/// `regex::Regex::captures_iter` finds for the pattern in the text, in the
/// order of the matches, or `None` where `regex::Regex::new` refuses the
/// pattern. A group that took no part in a match reads as the empty text.
pub uninterp spec fn regex_captures(pattern: Seq<char>, text: Seq<char>) -> Option<
    Seq<(Seq<char>, Seq<char>)>,
>;

/// The texts of a list of captured pairs.
pub open spec fn pairs_view(pairs: Seq<(String, String)>) -> Seq<(Seq<char>, Seq<char>)> {
    pairs.map_values(|p: (String, String)| (p.0@, p.1@))
}

/// The texts of an optional list of captured pairs.
pub open spec fn captures_view(found: Option<Vec<(String, String)>>) -> Option<
    Seq<(Seq<char>, Seq<char>)>,
> {
    match found {
        Some(pairs) => Some(pairs_view(pairs@)),
        None => None,
    }
}

/// Compiles `pattern` with `regex::Regex::new` and asks `Regex::is_match`
/// whether it matches anywhere in `text`.
///
/// Assumed: the answer depends on the pattern and the text alone, and a
/// refused pattern gives `None`.
#[verifier::external_body]
pub(crate) fn is_match(pattern: &str, text: &str) -> (found: Option<bool>)
    ensures
        found == regex_is_match(pattern@, text@),
{
    match regex::Regex::new(pattern) {
        Ok(re) => Some(re.is_match(text)),
        Err(_) => None,
    }
}

/// Compiles `pattern` with `regex::Regex::new` and walks
/// `Regex::captures_iter` over `text`, handing out groups one and two of
/// each match as owned strings.
///
/// Assumed: the list depends on the pattern and the text alone, and a
/// refused pattern gives `None`.
#[verifier::external_body]
pub(crate) fn captures(pattern: &str, text: &str) -> (found: Option<Vec<(String, String)>>)
    ensures
        captures_view(found) == regex_captures(pattern@, text@),
{
    match regex::Regex::new(pattern) {
        Ok(re) => Some(
            re.captures_iter(text).map(
                |c| (
                    c.get(1).map_or(String::new(), |m| m.as_str().to_owned()),
                    c.get(2).map_or(String::new(), |m| m.as_str().to_owned()),
                ),
            ).collect(),
        ),
        Err(_) => None,
    }
}

} // verus!
