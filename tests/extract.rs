use comtag::{extract_tags, format_tag, parse_line, Tag};

fn check(t: &Tag, line: usize, tag: &str, name: Option<&str>, message: Option<&str>) {
    assert_eq!(t.line, line);
    assert_eq!(t.tag, tag);
    assert_eq!(t.name.as_deref(), name);
    assert_eq!(t.message.as_deref(), message);
}

#[test]
fn name_and_message_are_split_off() {
    let t = parse_line("// @TAG(abc): msg", 0).unwrap();
    check(&t, 0, "TAG", Some("abc"), Some("msg"));
}

#[test]
fn bare_todo() {
    let t = parse_line("// @TODO", 4).unwrap();
    check(&t, 4, "TODO", None, None);
}

#[test]
fn space_after_at_gives_no_tag() {
    assert!(parse_line("// @ not tag : stuff", 0).is_none());
    assert!(parse_line("    // @ not tag : stuff", 0).is_none());
}

#[test]
fn bare_speed() {
    let t = parse_line("    // @SPEED", 7).unwrap();
    check(&t, 7, "SPEED", None, None);
}

#[test]
fn name_with_space() {
    let t = parse_line("    // @XXX(Ketan Reynolds): bad", 2).unwrap();
    check(&t, 2, "XXX", Some("Ketan Reynolds"), Some("bad"));
}

#[test]
fn non_comment_lines_give_no_tag() {
    assert!(parse_line("let x = 1; // @TODO: later", 0).is_none());
    assert!(parse_line("# @TODO: later", 0).is_none());
    assert!(parse_line("/* @TODO */", 0).is_none());
    assert!(parse_line("/ / @TODO", 0).is_none());
    assert!(parse_line("", 0).is_none());
}

#[test]
fn comments_without_at_give_no_tag() {
    assert!(parse_line("// TODO: later", 0).is_none());
    assert!(parse_line("// see @TODO", 0).is_none());
    assert!(parse_line("//", 0).is_none());
    assert!(parse_line("//   ", 0).is_none());
}

#[test]
fn tag_starts_with_first_run() {
    let t = parse_line("// @FIXME: Fix this, very broken", 0).unwrap();
    check(&t, 0, "FIXME", None, Some("Fix this, very broken"));
    let t = parse_line("\t//   @NOTE later on", 1).unwrap();
    check(&t, 1, "NOTE later on", None, None);
    let t = parse_line("//@HACK", 0).unwrap();
    check(&t, 0, "HACK", None, None);
}

#[test]
fn message_is_trimmed_at_both_ends_only() {
    let t = parse_line("// @TODO:   a  b   ", 0).unwrap();
    check(&t, 0, "TODO", None, Some("a  b"));
}

#[test]
fn empty_message() {
    let t = parse_line("// @TODO:", 0).unwrap();
    check(&t, 0, "TODO", None, Some(""));
}

#[test]
fn only_first_colon_ends_the_tag() {
    let t = parse_line("// @TODO: a: b", 0).unwrap();
    check(&t, 0, "TODO", None, Some("a: b"));
}

#[test]
fn group_alone_gives_empty_tag() {
    let t = parse_line("// @(foo): bar", 0).unwrap();
    check(&t, 0, "", Some("foo"), Some("bar"));
}

#[test]
fn group_is_greedy() {
    let t = parse_line("// @A(x)(y): z", 0).unwrap();
    check(&t, 0, "A", Some("x)(y"), Some("z"));
    let t = parse_line("// @A(x (y)) tail", 0).unwrap();
    check(&t, 0, "A", Some("x (y)"), None);
}

#[test]
fn empty_parentheses_are_no_group() {
    let t = parse_line("// @A(): z", 0).unwrap();
    check(&t, 0, "A()", None, Some("z"));
}

#[test]
fn one_character_tag() {
    let t = parse_line("// @X", 0).unwrap();
    check(&t, 0, "X", None, None);
    let t = parse_line("// @X: y", 5).unwrap();
    check(&t, 5, "X", None, Some("y"));
    let t = parse_line("// @X(n): y", 0).unwrap();
    check(&t, 0, "X", Some("n"), Some("y"));
    assert!(parse_line("// @", 0).is_none());
    assert!(parse_line("// @   ", 0).is_none());
}

#[test]
fn tags_come_in_line_order() {
    let text = "fn main() {\n    // @TODO: one\n    let x = 1;\n    // @FIXME(me)\n// @SPEED: fast\n}\n";
    let tags = extract_tags(text);
    assert_eq!(tags.len(), 3);
    check(&tags[0], 1, "TODO", None, Some("one"));
    check(&tags[1], 3, "FIXME", Some("me"), None);
    check(&tags[2], 4, "SPEED", None, Some("fast"));
    for w in tags.windows(2) {
        assert!(w[0].line < w[1].line);
    }
}

#[test]
fn extraction_twice_gives_the_same_tags() {
    let text = "// @AB\ncode\n// @CD(e): f\n// @ no\n";
    let a = extract_tags(text);
    let b = extract_tags(text);
    assert_eq!(a.len(), b.len());
    for (x, y) in a.iter().zip(b.iter()) {
        check(y, x.line, &x.tag, x.name.as_deref(), x.message.as_deref());
    }
    assert_eq!(a.len(), 2);
}

#[test]
fn carriage_returns_are_trimmed() {
    let tags = extract_tags("// @AB: x\r\n// @CD\r\n\r\n// @EF(g)\r");
    assert_eq!(tags.len(), 3);
    check(&tags[0], 0, "AB", None, Some("x"));
    check(&tags[1], 1, "CD", None, None);
    check(&tags[2], 3, "EF", Some("g"), None);
}

#[test]
fn empty_text_has_no_tags() {
    assert!(extract_tags("").is_empty());
    assert!(extract_tags("\n\n").is_empty());
}

#[test]
fn last_line_without_newline_counts() {
    let tags = extract_tags("a\n\n// @TODO");
    assert_eq!(tags.len(), 1);
    check(&tags[0], 2, "TODO", None, None);
}

#[test]
fn non_ascii_text() {
    let tags = extract_tags("// é\n// @ÄÖ(ü): ß\u{3000}\n");
    assert_eq!(tags.len(), 1);
    check(&tags[0], 1, "ÄÖ", Some("ü"), Some("ß"));
}

#[test]
fn report_line_plain() {
    let t = Tag { line: 0, tag: "TODO".to_string(), name: None, message: None };
    assert_eq!(format_tag(&t), "1: TODO");
}

#[test]
fn report_line_with_name_and_message() {
    let t = Tag {
        line: 12,
        tag: "XXX".to_string(),
        name: Some("Ketan Reynolds".to_string()),
        message: Some("bad".to_string()),
    };
    assert_eq!(format_tag(&t), "13: XXX(Ketan Reynolds)\tbad");
}

#[test]
fn report_line_number_carries() {
    let t = Tag { line: 9, tag: "A".to_string(), name: None, message: Some(String::new()) };
    assert_eq!(format_tag(&t), "10: A\t");
    let t = Tag { line: 998, tag: "B".to_string(), name: Some("c".to_string()), message: None };
    assert_eq!(format_tag(&t), "999: B(c)");
}

#[test]
fn report_line_of_extracted_tag() {
    let tags = extract_tags("x\n// @XXX(Ketan Reynolds): bad");
    assert_eq!(format_tag(&tags[0]), "2: XXX(Ketan Reynolds)\tbad");
}
