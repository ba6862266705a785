use vstd::prelude::*;

verus! {

/// The text of capture group `group` in the leftmost match of the regular
/// expression `pattern` on `text`; `None` when the pattern does not compile,
/// does not match, or the group took no part in the match.
pub uninterp spec fn regex_group(
    pattern: Seq<char>,
    text: Seq<char>,
    group: Seq<char>,
) -> Option<Seq<char>>;

/// The texts of the successive non-overlapping matches of the regular
/// expression `pattern` on `text`, left to right; empty when the pattern does
/// not compile.
pub uninterp spec fn regex_matches(pattern: Seq<char>, text: Seq<char>) -> Seq<Seq<char>>;

/// Relies on `regex::Regex::new`, `Regex::captures` and `Captures::name`: the
/// named group of the leftmost match, which depends on the three strings alone.
#[verifier::external_body]
pub(crate) fn capture_group(pattern: &str, text: &str, group: &str) -> (r: Option<String>)
    ensures
        match r {
            Some(s) => regex_group(pattern@, text@, group@) == Some(s@),
            None => regex_group(pattern@, text@, group@) == None::<Seq<char>>,
        },
{
    let re = regex::Regex::new(pattern).ok()?;
    let caps = re.captures(text)?;
    caps.name(group).map(|m| m.as_str().to_string())
}

/// Relies on `regex::Regex::new` and `Regex::find_iter`: the texts of all
/// matches, left to right, which depend on the two strings alone.
#[verifier::external_body]
pub(crate) fn find_all(pattern: &str, text: &str) -> (r: Vec<String>)
    ensures
        r@.len() == regex_matches(pattern@, text@).len(),
        forall|i: int| 0 <= i < r@.len() ==> r@[i]@ == regex_matches(pattern@, text@)[i],
{
    match regex::Regex::new(pattern) {
        Ok(re) => re.find_iter(text).map(|m| m.as_str().to_string()).collect(),
        Err(_) => Vec::new(),
    }
}

} // verus!
