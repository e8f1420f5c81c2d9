//! What holds of every extraction.
use crate::pattern::{group_of, run_end, tag_name_end};
use crate::tag::{
    comment_text, extract, is_comment, lemma_group_bounds, lemma_run_end, lines_of, parse_line_spec,
    tags_of_lines, tags_view, Tag,
};
use crate::text::{is_white_space, trim, trim_end, trim_start};
use vstd::prelude::*;

verus! {

/// Each tag of a sequence of lines comes from the line its number names,
/// each line that gives a tag has one in the sequence, and the line numbers
/// strictly increase.
pub proof fn lemma_tags_of_lines(ls: Seq<Seq<char>>)
    ensures
        forall|j: int|
            #![trigger tags_of_lines(ls)[j]]
            0 <= j < tags_of_lines(ls).len() ==> {
                let t = tags_of_lines(ls)[j];
                &&& t.line < ls.len()
                &&& parse_line_spec(ls[t.line as int], t.line) == Some(t)
            },
        forall|j1: int, j2: int|
            0 <= j1 < j2 < tags_of_lines(ls).len() ==> tags_of_lines(ls)[j1].line
                < tags_of_lines(ls)[j2].line,
        forall|k: int|
            0 <= k < ls.len() && (#[trigger] parse_line_spec(ls[k], k as nat)) is Some ==> exists|
                j: int,
            |
                0 <= j < tags_of_lines(ls).len() && (#[trigger] tags_of_lines(ls)[j]).line == k,
    decreases ls.len(),
{
    if ls.len() > 0 {
        let prev = ls.drop_last();
        lemma_tags_of_lines(prev);
        let n = (ls.len() - 1) as nat;
        assert(forall|k: int| 0 <= k < prev.len() ==> prev[k] == ls[k]);
        let tp = tags_of_lines(prev);
        let tl = tags_of_lines(ls);
        assert forall|k: int|
            0 <= k < ls.len() && (#[trigger] parse_line_spec(ls[k], k as nat)) is Some implies exists|
                j: int,
            |
                0 <= j < tl.len() && (#[trigger] tl[j]).line == k by {
            if k < n {
                assert(parse_line_spec(prev[k], k as nat) is Some);
                let j = choose|j: int| 0 <= j < tp.len() && (#[trigger] tp[j]).line == k;
                assert(tl[j] == tp[j]);
            } else {
                assert(tl[tl.len() - 1].line == k);
            }
        }
    }
}

/// A line that is not a `//` comment, once trimmed, gives no tag.
pub proof fn lemma_non_comment_line_gives_no_tag(text: Seq<char>, k: int)
    requires
        0 <= k < lines_of(text).len(),
        !is_comment(trim(lines_of(text)[k])),
    ensures
        forall|j: int| 0 <= j < extract(text).len() ==> (#[trigger] extract(text)[j]).line != k,
{
    lemma_tags_of_lines(lines_of(text));
}

/// A comment line whose text does not start with `@` gives no tag.
pub proof fn lemma_plain_comment_gives_no_tag(text: Seq<char>, k: int)
    requires
        0 <= k < lines_of(text).len(),
        is_comment(trim(lines_of(text)[k])),
        !(comment_text(lines_of(text)[k]).len() >= 1 && comment_text(lines_of(text)[k])[0] == '@'),
    ensures
        forall|j: int| 0 <= j < extract(text).len() ==> (#[trigger] extract(text)[j]).line != k,
{
    lemma_tags_of_lines(lines_of(text));
}

/// The tags of a text come in strictly increasing line order.
pub proof fn lemma_tags_in_line_order(text: Seq<char>)
    ensures
        forall|j1: int, j2: int|
            0 <= j1 < j2 < extract(text).len() ==> extract(text)[j1].line < extract(text)[j2].line,
{
    lemma_tags_of_lines(lines_of(text));
}

/// Extraction is a function of the text: two runs of `extract_tags` on one
/// text give the same tags.
pub proof fn lemma_extract_twice(text: Seq<char>, first: Seq<Tag>, second: Seq<Tag>)
    requires
        tags_view(first) == extract(text),
        tags_view(second) == extract(text),
    ensures
        tags_view(first) == tags_view(second),
{
}

/// Trimming the end of `s` leaves a prefix of it that keeps every
/// non-whitespace character.
proof fn lemma_trim_end_prefix(s: Seq<char>)
    ensures
        trim_end(s).len() <= s.len(),
        trim_end(s) == s.subrange(0, trim_end(s).len() as int),
        forall|k: int| 0 <= k < s.len() && !is_white_space(s[k]) ==> k < trim_end(s).len(),
    decreases s.len(),
{
    if s.len() > 0 && is_white_space(s.last()) {
        lemma_trim_end_prefix(s.drop_last());
        assert forall|k: int| 0 <= k < s.len() && !is_white_space(s[k]) implies k < trim_end(
            s,
        ).len() by {
            assert(s.drop_last()[k] == s[k]);
        }
        assert(s.drop_last().subrange(0, trim_end(s).len() as int) =~= s.subrange(
            0,
            trim_end(s).len() as int,
        ));
    } else {
        assert(s.subrange(0, s.len() as int) =~= s);
    }
}

/// A run free of `:` and newlines from `i` to `k` ends at `k` or later.
proof fn lemma_run_end_past(s: Seq<char>, i: int, k: int)
    requires
        0 <= i <= k <= s.len(),
        forall|j: int| i <= j < k ==> s[j] != ':' && s[j] != '\n',
    ensures
        run_end(s, i) >= k,
    decreases k - i,
{
    if i < k {
        lemma_run_end_past(s, i + 1, k);
        assert(run_end(s, i) == run_end(s, i + 1));
    } else {
        lemma_run_end(s, i);
    }
}

/// A comment `// @` followed by one or more characters that are neither
/// whitespace, `:` nor `(` gives a tag whose name starts with those
/// characters, whatever comes after them.
pub proof fn lemma_tag_name_kept(x: Seq<char>, rest: Seq<char>, n: nat)
    requires
        x.len() >= 1,
        forall|j: int|
            0 <= j < x.len() ==> !is_white_space(#[trigger] x[j]) && x[j] != ':' && x[j] != '(',
    ensures
        parse_line_spec(seq!['/', '/', ' ', '@'] + x + rest, n) matches Some(t) && t.tag.len()
            >= x.len() && t.tag.subrange(0, x.len() as int) == x,
{
    let line = seq!['/', '/', ' ', '@'] + x + rest;
    let xl = x.len() as int;
    assert(forall|j: int| 0 <= j < xl ==> line[4 + j] == x[j]);
    assert(trim_start(line) == line);
    lemma_trim_end_prefix(line);
    let t = trim(line);
    assert(!is_white_space(line[3 + xl]));
    assert(is_comment(t));
    let u = t.subrange(2, t.len() as int);
    let v = u.drop_first();
    assert(is_white_space(u[0]));
    assert(trim_start(v) == v);
    assert(trim_start(u) == v);
    lemma_trim_end_prefix(v);
    assert(forall|j: int| 0 <= j < xl ==> v[1 + j] == x[j]);
    assert(!is_white_space(v[xl]));
    let c = comment_text(line);
    assert(c == trim_end(v));
    assert(c[0] == '@');
    let body = c.subrange(1, c.len() as int);
    assert(forall|j: int| 0 <= j < xl ==> body[j] == x[j]);
    assert(!is_white_space(body[0]));
    lemma_run_end_past(body, 1, xl);
    lemma_run_end(body, 1);
    let e = tag_name_end(body)->0;
    let m = body.subrange(0, e);
    lemma_group_bounds(m);
    assert(forall|j: int| 0 <= j < xl ==> m[j] == x[j]);
    match group_of(m) {
        Some((k, l)) => {
            assert(m.subrange(0, k).subrange(0, xl) =~= x);
        },
        None => {
            assert(m.subrange(0, xl) =~= x);
        },
    }
}

} // verus!
