//! Searching texts with the `regex` crate.

use vstd::prelude::*;
use crate::text::found_text;

verus! {

/// What the `regex` crate finds first in `text` for the pattern `pattern`:
/// `None` where it does not take the pattern, `Some(None)` where the pattern
/// matches nowhere, else the matched text.
pub uninterp spec fn regex_first(pattern: Seq<char>, text: Seq<char>) -> Option<
    Option<Seq<char>>,
>;

/// Calls `Regex::new` and, on the regex it gives, `Regex::find`. Not proved:
/// that what is handed out is what `regex_first` names for pattern and text.
#[verifier::external_body]
pub(crate) fn first_match(pattern: &str, text: &str) -> (found: Option<Option<String>>)
    ensures
        found_text(found) == regex_first(pattern@, text@),
{
    match regex::Regex::new(pattern) {
        Ok(re) => Some(re.find(text).map(|m| m.as_str().to_string())),
        Err(_) => None,
    }
}

} // verus!
