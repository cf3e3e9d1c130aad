//! Regular expressions, for the few patterns of the pipeline whose matches
//! cannot be found by one walk over the text.

use crate::text::{opt_view, opt_views};
use regex::Regex;
use vstd::prelude::*;

verus! {

/// The text that `text` becomes when every match of the regular expression
/// `pattern` gives way to `replacement`, in which `$n` stands for the n-th
/// group of the match. There is none where `pattern` is no regular
/// expression.
pub uninterp spec fn regex_replaced(
    pattern: Seq<char>,
    text: Seq<char>,
    replacement: Seq<char>,
) -> Option<Seq<char>>;

/// The groups of the first match of the regular expression `pattern` in
/// `text`: the whole match first, then each group of the pattern, or nothing
/// for a group that took no part in the match. There are none where `text`
/// has no match or `pattern` is no regular expression.
pub uninterp spec fn regex_groups(pattern: Seq<char>, text: Seq<char>) -> Option<
    Seq<Option<Seq<char>>>,
>;

/// What follows the first match of the regular expression `pattern` in
/// `text`. There is none where `text` has no match or `pattern` is no regular
/// expression.
pub uninterp spec fn regex_rest(pattern: Seq<char>, text: Seq<char>) -> Option<Seq<char>>;

/// `Regex::new` and `Regex::replace_all` with a replacement text: compiles
/// the pattern and replaces all matches, from left to right and without
/// overlap. The result depends on the three texts alone.
#[verifier::external_body]
pub(crate) fn replace_all(pattern: &str, text: &str, replacement: &str) -> (out: Option<String>)
    ensures
        opt_view(out) == regex_replaced(pattern@, text@, replacement@),
{
    match Regex::new(pattern) {
        Ok(re) => Some(re.replace_all(text, replacement).into_owned()),
        Err(_) => None,
    }
}

/// `Regex::new` and `Regex::captures`: compiles the pattern and finds the
/// leftmost match with its groups. The result depends on the two texts
/// alone.
#[verifier::external_body]
pub(crate) fn captures(pattern: &str, text: &str) -> (out: Option<Vec<Option<String>>>)
    ensures
        match out {
            Some(groups) => regex_groups(pattern@, text@) == Some(opt_views(groups@)),
            None => regex_groups(pattern@, text@) is None,
        },
{
    let re = Regex::new(pattern).ok()?;
    let found = re.captures(text)?;
    Some(found.iter().map(|g| g.map(|m| m.as_str().to_string())).collect())
}

/// `Regex::new` and `Regex::find`: compiles the pattern, finds the leftmost
/// match and hands out the text behind it. The result depends on the two
/// texts alone.
#[verifier::external_body]
pub(crate) fn rest_after(pattern: &str, text: &str) -> (out: Option<String>)
    ensures
        opt_view(out) == regex_rest(pattern@, text@),
{
    let re = Regex::new(pattern).ok()?;
    let found = re.find(text)?;
    Some(text[found.end()..].to_string())
}

} // verus!
