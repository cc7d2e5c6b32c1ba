//! Regular expressions, matched by the `regex` crate.

use vstd::prelude::*;

verus! {

/// What the first match of the regular expression `pattern` in `text` holds
/// in its capture group `group` (group 0 is the whole match): `None` when
/// `pattern` is no regular expression, when nothing in `text` matches, and
/// when the group took no part in the match.
pub uninterp spec fn captured(pattern: Seq<char>, text: Seq<char>, group: int) -> Option<Seq<char>>;

/// Compiles `pattern` with `regex::Regex::new`, searches `text` with
/// `Regex::captures` and reads the group with `Captures::get`. The contract
/// claims only that the outcome is `captured` of the three arguments: the same
/// pattern, text and group always give the same capture.
#[verifier::external_body]
pub(crate) fn capture(pattern: &str, text: &str, group: usize) -> (found: Option<String>)
    ensures
        found matches Some(s) ==> captured(pattern@, text@, group as int) == Some(s@),
        found is None ==> captured(pattern@, text@, group as int) is None,
{
    match regex::Regex::new(pattern) {
        Ok(re) => re.captures(text).and_then(|caps| caps.get(group)).map(|m| m.as_str().to_owned()),
        Err(_) => None,
    }
}

} // verus!
