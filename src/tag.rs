//! The `Tag` record and the parse of one line into it.
use crate::pattern::{
    find_group, find_tag_name, first_open, group_of, last_close, run_end, string_of,
    tag_name_end, GROUP_PATTERN, TAG_NAME_PATTERN,
};
use crate::text::{chars_of, is_white_space, trim, trim_bounds};
use vstd::prelude::*;

verus! {

/// One tag found in a comment line.
#[derive(Debug)]
pub struct Tag {
    /// Zero-based line number.
    pub line: usize,
    /// The tag's name, without the parenthesised group.
    pub tag: String,
    /// The text inside the parenthesised group, if there is one.
    pub name: Option<String>,
    /// The trimmed text after the `:`, if there is one.
    pub message: Option<String>,
}

/// A `Tag` as mathematical values.
pub struct TagModel {
    pub line: nat,
    pub tag: Seq<char>,
    pub name: Option<Seq<char>>,
    pub message: Option<Seq<char>>,
}

pub open spec fn opt_chars(o: Option<String>) -> Option<Seq<char>> {
    match o {
        Some(s) => Some(s@),
        None => None,
    }
}

impl View for Tag {
    type V = TagModel;

    open spec fn view(&self) -> TagModel {
        TagModel {
            line: self.line as nat,
            tag: self.tag@,
            name: opt_chars(self.name),
            message: opt_chars(self.message),
        }
    }
}

pub open spec fn opt_tag(o: Option<Tag>) -> Option<TagModel> {
    match o {
        Some(t) => Some(t@),
        None => None,
    }
}

/// Whether a trimmed line is a comment: it starts with `//`.
pub open spec fn is_comment(t: Seq<char>) -> bool {
    t.len() >= 2 && t[0] == '/' && t[1] == '/'
}

/// The text of a comment line: what follows its `//`, trimmed.
pub open spec fn comment_text(line: Seq<char>) -> Seq<char> {
    let t = trim(line);
    trim(t.subrange(2, t.len() as int))
}

/// The tag body of a line: what follows the `@` of a comment whose text
/// starts with `@`; `None` for any other line.
pub open spec fn tag_body(line: Seq<char>) -> Option<Seq<char>> {
    let c = comment_text(line);
    if is_comment(trim(line)) && c.len() >= 1 && c[0] == '@' {
        Some(c.subrange(1, c.len() as int))
    } else {
        None
    }
}

/// The tag that a tag body gives on line `line`, if its tag name matches.
pub open spec fn parse_body(body: Seq<char>, line: nat) -> Option<TagModel> {
    match tag_name_end(body) {
        None => None,
        Some(e) => {
            let m = body.subrange(0, e);
            Some(
                TagModel {
                    line,
                    tag: match group_of(m) {
                        Some((k, _)) => m.subrange(0, k),
                        None => m,
                    },
                    name: match group_of(m) {
                        Some((k, l)) => Some(m.subrange(k + 1, l)),
                        None => None,
                    },
                    message: if e < body.len() && body[e] == ':' {
                        Some(trim(body.subrange(e + 1, body.len() as int)))
                    } else {
                        None
                    },
                },
            )
        },
    }
}

/// The tag that `line` gives as line number `n`, if any.
pub open spec fn parse_line_spec(line: Seq<char>, n: nat) -> Option<TagModel> {
    match tag_body(line) {
        Some(b) => parse_body(b, n),
        None => None,
    }
}

pub(crate) proof fn lemma_run_end(s: Seq<char>, i: int)
    requires
        0 <= i <= s.len(),
    ensures
        i <= run_end(s, i) <= s.len(),
        forall|j: int| i <= j < run_end(s, i) ==> s[j] != '\n' && s[j] != ':',
    decreases s.len() - i,
{
    if i < s.len() && s[i] != ':' && s[i] != '\n' {
        lemma_run_end(s, i + 1);
    }
}

proof fn lemma_last_close(s: Seq<char>)
    ensures
        -1 <= last_close(s) < s.len(),
    decreases s.len(),
{
    if s.len() > 0 && s.last() != ')' {
        lemma_last_close(s.drop_last());
    }
}

proof fn lemma_first_open(s: Seq<char>, l: int, i: int)
    ensures
        first_open(s, l, i) == -1 || (i <= first_open(s, l, i) < s.len() && first_open(s, l, i)
            + 2 <= l && s[first_open(s, l, i)] == '('),
    decreases s.len() - i,
{
    if !(i < 0 || i >= s.len() || i + 2 > l) && s[i] != '(' {
        lemma_first_open(s, l, i + 1);
    }
}

/// Where a parenthesised group lies within the text it was found in.
pub(crate) proof fn lemma_group_bounds(s: Seq<char>)
    ensures
        group_of(s) matches Some((k, l)) ==> 0 <= k && k + 2 <= l < s.len() && s[k] == '(',
{
    lemma_last_close(s);
    lemma_first_open(s, last_close(s), 0);
}

/// The characters `s[lo..hi]`.
fn copy_range(s: &Vec<char>, lo: usize, hi: usize) -> (r: Vec<char>)
    requires
        lo <= hi <= s.len(),
    ensures
        r@ == s@.subrange(lo as int, hi as int),
{
    let mut r: Vec<char> = Vec::new();
    let mut i = lo;
    while i < hi
        invariant
            lo <= i <= hi <= s.len(),
            r@ == s@.subrange(lo as int, i as int),
        decreases hi - i,
    {
        r.push(s[i]);
        i = i + 1;
        assert(r@ =~= s@.subrange(lo as int, i as int));
    }
    r
}

/// The tag that a tag body gives on line `line_no`.
pub fn parse_tag_body(body: &Vec<char>, line_no: usize) -> (r: Option<Tag>)
    ensures
        opt_tag(r) == parse_body(body@, line_no as nat),
{
    let hay = string_of(body);
    let found = find_tag_name(TAG_NAME_PATTERN, hay.as_str());
    let m = match found {
        None => {
            return None;
        },
        Some(m) => m,
    };
    let mc = chars_of(m.as_str());
    let e = mc.len();
    proof {
        lemma_run_end(body@, 1);
        assert(!m@.contains('\n')) by {
            assert(forall|j: int| 0 <= j < e ==> m@[j] == body@[j]);
            assert(!is_white_space(body@[0]));
        }
        lemma_group_bounds(m@);
    }
    let (tag, name) = match find_group(GROUP_PATTERN, m.as_str()) {
        None => (m, None),
        Some((before, group)) => {
            let k = chars_of(before.as_str()).len();
            let g = chars_of(group.as_str()).len();
            let inner = copy_range(&mc, k + 1, k + g - 1);
            (before, Some(string_of(&inner)))
        },
    };
    let message = if e < body.len() && body[e] == ':' {
        let (x, y) = trim_bounds(body, e + 1, body.len());
        Some(string_of(&copy_range(body, x, y)))
    } else {
        None
    };
    Some(Tag { line: line_no, tag, name, message })
}

/// The tag that the line `s[lo..hi]` gives as line number `line_no`.
fn parse_range(s: &Vec<char>, lo: usize, hi: usize, line_no: usize) -> (r: Option<Tag>)
    requires
        lo <= hi <= s.len(),
    ensures
        opt_tag(r) == parse_line_spec(s@.subrange(lo as int, hi as int), line_no as nat),
{
    let (a, b) = trim_bounds(s, lo, hi);
    if b - a < 2 || s[a] != '/' || s[a + 1] != '/' {
        return None;
    }
    let ghost t = s@.subrange(a as int, b as int);
    assert(t.subrange(2, t.len() as int) =~= s@.subrange(a + 2, b as int));
    let (c0, c1) = trim_bounds(s, a + 2, b);
    if c0 == c1 || s[c0] != '@' {
        return None;
    }
    let ghost c = s@.subrange(c0 as int, c1 as int);
    assert(c.subrange(1, c.len() as int) =~= s@.subrange(c0 + 1, c1 as int));
    let body = copy_range(s, c0 + 1, c1);
    parse_tag_body(&body, line_no)
}

/// The tag that `line` gives as line number `line_no`, if it is a comment
/// line whose text starts with `@` and a tag name.
pub fn parse_line(line: &str, line_no: usize) -> (r: Option<Tag>)
    ensures
        opt_tag(r) == parse_line_spec(line@, line_no as nat),
{
    let cs = chars_of(line);
    assert(cs@.subrange(0, cs.len() as int) =~= cs@);
    parse_range(&cs, 0, cs.len(), line_no)
}

/// The pieces of `s` between newlines: one more than it has newlines.
pub open spec fn pieces(s: Seq<char>) -> Seq<Seq<char>>
    decreases s.len(),
{
    if s.len() == 0 {
        seq![Seq::empty()]
    } else {
        let p = pieces(s.drop_last());
        if s.last() == '\n' {
            p.push(Seq::empty())
        } else {
            p.update(p.len() - 1, p.last().push(s.last()))
        }
    }
}

/// The lines of `s`: its pieces between newlines, but for an empty last one.
/// A `\r` before a newline stays on its line, as whitespace that trimming
/// takes off.
pub open spec fn lines_of(s: Seq<char>) -> Seq<Seq<char>> {
    let p = pieces(s);
    if p.last().len() == 0 {
        p.drop_last()
    } else {
        p
    }
}

/// The tags of a sequence of lines, numbered from 0, in line order.
pub open spec fn tags_of_lines(ls: Seq<Seq<char>>) -> Seq<TagModel>
    decreases ls.len(),
{
    if ls.len() == 0 {
        Seq::empty()
    } else {
        let prev = tags_of_lines(ls.drop_last());
        match parse_line_spec(ls.last(), (ls.len() - 1) as nat) {
            Some(t) => prev.push(t),
            None => prev,
        }
    }
}

/// The tags of a text, in line order.
pub open spec fn extract(text: Seq<char>) -> Seq<TagModel> {
    tags_of_lines(lines_of(text))
}

pub open spec fn tags_view(v: Seq<Tag>) -> Seq<TagModel> {
    v.map_values(|t: Tag| t@)
}

/// Appends the tag of line `ls.len()`, `s[lo..hi]`, if it has one.
fn push_line_tag(
    s: &Vec<char>,
    lo: usize,
    hi: usize,
    line_no: usize,
    out: &mut Vec<Tag>,
    Ghost(ls): Ghost<Seq<Seq<char>>>,
)
    requires
        lo <= hi <= s.len(),
        ls.len() == line_no,
        tags_view(old(out)@) == tags_of_lines(ls),
    ensures
        tags_view(final(out)@) == tags_of_lines(ls.push(s@.subrange(lo as int, hi as int))),
{
    let ghost next = ls.push(s@.subrange(lo as int, hi as int));
    assert(next.drop_last() =~= ls);
    match parse_range(s, lo, hi, line_no) {
        Some(t) => {
            out.push(t);
            assert(tags_view(out@) =~= tags_of_lines(next));
        },
        None => {},
    }
}

/// One more character of `s` either opens a new piece or extends the last.
proof fn lemma_pieces_step(s: Seq<char>, i: int)
    requires
        0 <= i < s.len(),
    ensures
        pieces(s.subrange(0, i + 1)) == if s[i] == '\n' {
            pieces(s.subrange(0, i)).push(Seq::empty())
        } else {
            pieces(s.subrange(0, i)).update(
                pieces(s.subrange(0, i)).len() - 1,
                pieces(s.subrange(0, i)).last().push(s[i]),
            )
        },
{
    assert(s.subrange(0, i + 1).drop_last() =~= s.subrange(0, i));
}

/// Every tag of `text`, in line order.
#[verifier::rlimit(30)]
pub fn extract_tags(text: &str) -> (r: Vec<Tag>)
    ensures
        tags_view(r@) == extract(text@),
{
    let s = chars_of(text);
    let mut out: Vec<Tag> = Vec::new();
    let ghost mut done: Seq<Seq<char>> = Seq::empty();
    let mut start: usize = 0;
    let mut line_no: usize = 0;
    let mut i: usize = 0;
    assert(s@.subrange(0, 0) =~= Seq::<char>::empty());
    assert(tags_view(out@) =~= tags_of_lines(done));
    while i < s.len()
        invariant
            start <= i <= s.len(),
            done.len() == line_no,
            line_no <= start,
            pieces(s@.subrange(0, i as int)) == done.push(s@.subrange(start as int, i as int)),
            tags_view(out@) == tags_of_lines(done),
        decreases s.len() - i,
    {
        proof {
            lemma_pieces_step(s@, i as int);
        }
        if s[i] == '\n' {
            push_line_tag(&s, start, i, line_no, &mut out, Ghost(done));
            proof {
                done = done.push(s@.subrange(start as int, i as int));
                assert(s@.subrange(i + 1, i + 1) =~= Seq::<char>::empty());
            }
            start = i + 1;
            line_no = line_no + 1;
        } else {
            assert(s@.subrange(start as int, i as int).push(s[i as int]) =~= s@.subrange(
                start as int,
                i + 1,
            ));
            assert(done.push(s@.subrange(start as int, i as int)).update(
                done.len() as int,
                s@.subrange(start as int, i + 1),
            ) =~= done.push(s@.subrange(start as int, i + 1)));
        }
        i = i + 1;
    }
    assert(s@.subrange(0, s.len() as int) =~= s@);
    if start < s.len() {
        push_line_tag(&s, start, s.len(), line_no, &mut out, Ghost(done));
    } else {
        assert(done.push(s@.subrange(start as int, i as int)).drop_last() =~= done);
    }
    out
}

} // verus!
