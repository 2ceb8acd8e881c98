//! Regular expressions.

use vstd::prelude::*;

verus! {

/// What the regular expression `pattern` captures in `text`: `None` where
/// `pattern` is no valid expression or nothing in `text` matches it, else
/// the capture groups of the leftmost match in the order of their opening
/// brackets, the whole match first, each with the text it matched or `None`
/// where the group took no part in the match.
pub uninterp spec fn regex_captures(pattern: Seq<char>, text: Seq<char>) -> Option<
    Seq<Option<Seq<char>>>,
>;

/// `Regex::new` on `pattern`, then `Regex::captures` on `text`, with each
/// group's match copied out as a string.
#[verifier::external_body]
pub(crate) fn captures(pattern: &str, text: &str) -> (r: Option<Vec<Option<String>>>)
    ensures
        r.deep_view() == regex_captures(pattern@, text@),
{
    let re = regex::Regex::new(pattern).ok()?;
    let caps = re.captures(text)?;
    Some(caps.iter().map(|m| m.map(|m| m.as_str().to_string())).collect())
}

/// `text` with the leftmost match of the regular expression `pattern`
/// replaced by `with`; `text` itself where nothing matches or `pattern` is
/// no valid expression.
pub uninterp spec fn regex_replace(pattern: Seq<char>, text: Seq<char>, with: Seq<char>) -> Seq<
    char,
>;

/// `Regex::new` on `pattern`, then `Regex::replace` on `text` and `with`.
#[verifier::external_body]
pub(crate) fn replace(pattern: &str, text: &str, with: &str) -> (r: String)
    ensures
        r@ == regex_replace(pattern@, text@, with@),
{
    match regex::Regex::new(pattern) {
        Ok(re) => re.replace(text, with).into_owned(),
        Err(_) => text.to_string(),
    }
}

} // verus!
