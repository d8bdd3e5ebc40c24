//! Finding links in message text with regular expressions.
use vstd::prelude::*;

verus! {

/// The text of the first capture group of the leftmost match of `pattern`
/// in `text`, if the pattern matches and the group took part.
pub uninterp spec fn first_group(pattern: Seq<char>, text: Seq<char>) -> Option<Seq<char>>;

/// The texts of the first capture group of the successive non-overlapping
/// matches of `pattern` in `text`, in order, for the matches in which the
/// group took part.
pub uninterp spec fn all_first_groups(pattern: Seq<char>, text: Seq<char>) -> Seq<Seq<char>>;

/// Whether `part` occurs in `text`.
pub open spec fn occurs_in(part: Seq<char>, text: Seq<char>) -> bool {
    exists|i: int| 0 <= i <= text.len() - part.len() && #[trigger] text.subrange(i, i + part.len()) == part
}

/// `regex::Regex::new(pattern)` and then `Regex::captures(text)`, group 1.
/// The result is named by `first_group`; a capture group's text is a piece
/// of the searched text (`Match::as_str` gives the matched substring of the
/// haystack). When the pattern does not compile the result is `None`; the
/// patterns of this library are fixed and compile.
#[verifier::external_body]
pub(crate) fn regex_first_group(pattern: &str, text: &str) -> (res: Option<String>)
    ensures
        match res {
            Some(s) => first_group(pattern@, text@) == Some(s@),
            None => first_group(pattern@, text@) is None,
        },
        res matches Some(s) ==> occurs_in(s@, text@),
{
    let re = match regex::Regex::new(pattern) {
        Ok(re) => re,
        Err(_) => return None,
    };
    match re.captures(text) {
        Some(caps) => match caps.get(1) {
            Some(m) => Some(m.as_str().to_string()),
            None => None,
        },
        None => None,
    }
}

/// `regex::Regex::new(pattern)` and then `Regex::captures_iter(text)`, group
/// 1 of each match. The result is named by `all_first_groups`; each text is a
/// piece of the searched text. When the pattern does not compile the result
/// is empty.
#[verifier::external_body]
pub(crate) fn regex_all_first_groups(pattern: &str, text: &str) -> (res: Vec<String>)
    ensures
        res@.map_values(|s: String| s@) == all_first_groups(pattern@, text@),
        forall|k: int| 0 <= k < res@.len() ==> occurs_in(#[trigger] res@[k]@, text@),
{
    let re = match regex::Regex::new(pattern) {
        Ok(re) => re,
        Err(_) => return Vec::new(),
    };
    let mut out = Vec::new();
    for caps in re.captures_iter(text) {
        if let Some(m) = caps.get(1) {
            out.push(m.as_str().to_string());
        }
    }
    out
}

} // verus!
