//! The two regular expressions of a tag line, matched by the `regex` crate.
//!
//! Each wrapper compiles its pattern and searches once; its contract states
//! what the `regex` crate's leftmost-first semantics give for that pattern.
use crate::text::is_white_space;
use vstd::prelude::*;

verus! {

/// A tag name: a non-whitespace character, then any number of characters that
/// are neither `:` nor a newline.
pub const TAG_NAME_PATTERN: &'static str = r"^\S[^:\n]*";

/// A parenthesised group: `(`, one or more characters, `)`.
pub const GROUP_PATTERN: &'static str = r"\(.+\)";

/// The first index at or after `i` that holds `:` or a newline, or `s.len()`.
pub open spec fn run_end(s: Seq<char>, i: int) -> int
    decreases s.len() - i,
{
    if i >= s.len() || s[i] == ':' || s[i] == '\n' {
        i
    } else {
        run_end(s, i + 1)
    }
}

/// Where the match of `TAG_NAME_PATTERN` in `s` ends; it always starts at 0.
pub open spec fn tag_name_end(s: Seq<char>) -> Option<int> {
    if s.len() >= 1 && !is_white_space(s[0]) {
        Some(run_end(s, 1))
    } else {
        None
    }
}

/// The index of the last `)` in `s`, or -1.
pub open spec fn last_close(s: Seq<char>) -> int
    decreases s.len(),
{
    if s.len() == 0 {
        -1
    } else if s.last() == ')' {
        s.len() - 1
    } else {
        last_close(s.drop_last())
    }
}

/// The first index `k >= i` with `s[k] == '('` and `k + 2 <= l`, or -1.
pub open spec fn first_open(s: Seq<char>, l: int, i: int) -> int
    decreases s.len() - i,
{
    if i < 0 || i >= s.len() || i + 2 > l {
        -1
    } else if s[i] == '(' {
        i
    } else {
        first_open(s, l, i + 1)
    }
}

/// The match of `GROUP_PATTERN` in `s` (no newline in it), as the indices of
/// its `(` and `)`: the first `(` that some later `)` closes with at least one
/// character between, and the last `)`.
pub open spec fn group_of(s: Seq<char>) -> Option<(int, int)> {
    let l = last_close(s);
    let k = first_open(s, l, 0);
    if k >= 0 {
        Some((k, l))
    } else {
        None
    }
}

/// Relies on regex::Regex::new and regex::Regex::find: the match of `^\S[^:\n]*`
/// starts at the start of the haystack; `[^:\n]*` is greedy, and `\S` is a
/// character outside Unicode's `White_Space`. The result is the matched text.
#[verifier::external_body]
pub(crate) fn find_tag_name(pattern: &str, hay: &str) -> (r: Option<String>)
    requires
        pattern@ == TAG_NAME_PATTERN@,
    ensures
        r is Some <==> tag_name_end(hay@) is Some,
        r is Some ==> r->0@ == hay@.subrange(0, tag_name_end(hay@)->0),
{
    regex::Regex::new(pattern).ok()?.find(hay).map(|m| m.as_str().to_string())
}

/// Relies on regex::Regex::new and regex::Regex::find: the leftmost-first match
/// of `\(.+\)`, where `.` is any character but a newline and `.+` is greedy.
/// The result is the text before the match, and the matched text.
#[verifier::external_body]
pub(crate) fn find_group(pattern: &str, hay: &str) -> (r: Option<(String, String)>)
    requires
        pattern@ == GROUP_PATTERN@,
        !hay@.contains('\n'),
    ensures
        match (r, group_of(hay@)) {
            (Some((before, group)), Some((k, l))) => before@ == hay@.subrange(0, k)
                && group@ == hay@.subrange(k, l + 1),
            (None, None) => true,
            _ => false,
        },
{
    let m = regex::Regex::new(pattern).ok()?.find(hay)?;
    Some((hay[..m.start()].to_string(), m.as_str().to_string()))
}

/// Relies on `FromIterator<char>` for `String`: the string holds exactly the
/// characters given, in order.
#[verifier::external_body]
pub(crate) fn string_of(cs: &Vec<char>) -> (r: String)
    ensures
        r@ == cs@,
{
    cs.iter().collect()
}

} // verus!
