//! The report line of a tag: `<line+1>: <tag>[(<name>)][\t<message>]`.
use crate::pattern::string_of;
use crate::tag::{Tag, TagModel};
use vstd::prelude::*;

verus! {

/// The decimal digit `d`, for `d < 10`.
pub open spec fn digit(d: nat) -> char {
    ((d + 48) as u8) as char
}

/// The decimal numeral of `n`, without leading zeros.
pub open spec fn decimal(n: nat) -> Seq<char>
    decreases n,
{
    if n < 10 {
        seq![digit(n)]
    } else {
        decimal(n / 10).push(digit(n % 10))
    }
}

/// The report line of a tag: its one-based line number, `: `, the tag, the
/// name in parentheses if there is one, and a tab and the message if there
/// is one.
pub open spec fn report_line(t: TagModel) -> Seq<char> {
    decimal(t.line + 1) + seq![':', ' '] + t.tag + match t.name {
        Some(n) => seq!['('] + n + seq![')'],
        None => Seq::empty(),
    } + match t.message {
        Some(m) => seq!['\t'] + m,
        None => Seq::empty(),
    }
}

fn push_decimal(n: u128, out: &mut Vec<char>)
    ensures
        final(out)@ == old(out)@ + decimal(n as nat),
    decreases n,
{
    if n >= 10 {
        push_decimal(n / 10, out);
    }
    let d = (n % 10) as u8;
    out.push((d + 48) as char);
    proof {
        if n >= 10 {
            assert(old(out)@ + decimal(n as nat) =~= old(out)@ + decimal((n / 10) as nat) + seq![digit((n % 10) as nat)]);
        }
    }
}

fn push_str(s: &str, out: &mut Vec<char>)
    ensures
        final(out)@ == old(out)@ + s@,
{
    let ghost start = out@;
    for c in it: s.chars()
        invariant
            out@ == start + it.seq().take(it.index() as int),
    {
        out.push(c);
    }
}

/// The report line of `t`.
pub fn format_tag(t: &Tag) -> (r: String)
    ensures
        r@ == report_line(t@),
{
    let mut out: Vec<char> = Vec::new();
    push_decimal(t.line as u128 + 1, &mut out);
    out.push(':');
    out.push(' ');
    push_str(t.tag.as_str(), &mut out);
    match &t.name {
        Some(n) => {
            out.push('(');
            push_str(n.as_str(), &mut out);
            out.push(')');
        },
        None => {},
    }
    match &t.message {
        Some(m) => {
            out.push('\t');
            push_str(m.as_str(), &mut out);
        },
        None => {},
    }
    let r = string_of(&out);
    assert(r@ =~= report_line(t@));
    r
}

} // verus!
