//! The regular expressions of the library and the trusted items through
//! which it calls the `regex` crate.
//!
//! Each wrapper compiles a pattern with `regex::Regex::new` and applies one
//! matching operation to it. What the operation returns is named, not
//! described: the names below are functions of their arguments alone. A
//! pattern that does not compile gives `None` from every wrapper.
use regex::Regex;
use vstd::prelude::*;

verus! {

/// What compiling `pattern` and asking `is_match(text)` gives (`None` when the
/// pattern does not compile).
pub uninterp spec fn regex_is_match_result(pattern: Seq<char>, text: Seq<char>) -> Option<bool>;

/// What compiling `pattern` and asking `captures(text)` gives, each group as
/// the characters it matched (`None` when the pattern does not compile;
/// `Some(None)` when the text does not match).
pub uninterp spec fn regex_captures_result(pattern: Seq<char>, text: Seq<char>) -> Option<
    Option<Seq<Option<Seq<char>>>>,
>;

/// What compiling `pattern` and asking `replace_all(text, replacement)`
/// gives (`None` when the pattern does not compile).
pub uninterp spec fn regex_replace_all_result(
    pattern: Seq<char>,
    text: Seq<char>,
    replacement: Seq<char>,
) -> Option<Seq<char>>;

/// The characters of each capture group, `None` for a group that did not
/// take part in the match.
pub open spec fn groups_view<'a>(groups: Seq<Option<&'a str>>) -> Seq<Option<Seq<char>>> {
    groups.map_values(
        |g: Option<&'a str>|
            match g {
                Some(s) => Some(s@),
                None => None,
            },
    )
}

/// Capture group `k` of a named `captures` result, when the pattern
/// compiled, the text matched and the group took part (`None` otherwise:
/// with the fixed patterns of this library a failed compile and a group
/// that takes no part in a match do not occur, and count as no match).
pub open spec fn capture_group(
    res: Option<Option<Seq<Option<Seq<char>>>>>,
    k: int,
) -> Option<Seq<char>> {
    match res {
        Some(Some(g)) => if 0 <= k < g.len() {
            g[k]
        } else {
            None
        },
        _ => None,
    }
}

/// Capture group `k` of a `captures` answer.
pub(crate) fn capture_group_exec<'a>(caps: Option<Option<Vec<Option<&'a str>>>>, k: usize) -> (res: Option<
    &'a str,
>)
    ensures
        match res {
            Some(s) => capture_group(
                match caps {
                    None => None,
                    Some(None) => Some(None),
                    Some(Some(g)) => Some(Some(groups_view(g@))),
                },
                k as int,
            ) == Some(s@),
            None => capture_group(
                match caps {
                    None => None,
                    Some(None) => Some(None),
                    Some(Some(g)) => Some(Some(groups_view(g@))),
                },
                k as int,
            ) is None,
        },
{
    match caps {
        Some(Some(groups)) => {
            if k < groups.len() {
                groups[k]
            } else {
                None
            }
        },
        _ => None,
    }
}

/// Calls `regex::Regex::new(pattern)` and then `Regex::is_match(text)`.
/// Claims only that the answer is the named result for these two strings:
/// `None` when `Regex::new` returns an error, else `Some` of `is_match`.
#[verifier::external_body]
pub(crate) fn regex_is_match(pattern: &str, text: &str) -> (res: Option<bool>)
    ensures
        res == regex_is_match_result(pattern@, text@),
{
    match Regex::new(pattern) {
        Ok(re) => Some(re.is_match(text)),
        Err(_) => None,
    }
}

/// Calls `regex::Regex::new(pattern)` and then `Regex::captures(text)`,
/// handing out every group (`Captures::iter`) as the slice of `text` it
/// matched (`Match::as_str`). Claims that the answer is the named result for
/// these two strings and, as the `regex` documentation guarantees, that a
/// match always has group 0.
#[verifier::external_body]
pub(crate) fn regex_captures<'a>(pattern: &str, text: &'a str) -> (res: Option<
    Option<Vec<Option<&'a str>>>,
>)
    ensures
        match res {
            None => regex_captures_result(pattern@, text@) is None,
            Some(None) => regex_captures_result(pattern@, text@) == Some(
                None::<Seq<Option<Seq<char>>>>,
            ),
            Some(Some(groups)) => {
                &&& regex_captures_result(pattern@, text@) == Some(Some(groups_view(groups@)))
                &&& groups@.len() >= 1
                &&& groups@[0] is Some
            },
        },
{
    match Regex::new(pattern) {
        Err(_) => None,
        Ok(re) => match re.captures(text) {
            None => Some(None),
            Some(caps) => {
                let mut groups = Vec::new();
                for m in caps.iter() {
                    groups.push(if let Some(m) = m { Some(m.as_str()) } else { None });
                }
                Some(Some(groups))
            },
        },
    }
}

/// Calls `regex::Regex::new(pattern)` and then
/// `Regex::replace_all(text, replacement)`, owning the result. Claims only
/// that the answer is the named result for these three strings.
#[verifier::external_body]
pub(crate) fn regex_replace_all(pattern: &str, text: &str, replacement: &str) -> (res: Option<
    String,
>)
    ensures
        match res {
            None => regex_replace_all_result(pattern@, text@, replacement@) is None,
            Some(s) => regex_replace_all_result(pattern@, text@, replacement@) == Some(s@),
        },
{
    match Regex::new(pattern) {
        Ok(re) => Some(re.replace_all(text, replacement).into_owned()),
        Err(_) => None,
    }
}

} // verus!
