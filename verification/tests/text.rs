use zkay_ast::text::indent;

#[test]
fn indent_prefixes_non_blank_lines() {
    assert_eq!(indent(String::from("a\nb"), "    "), "    a\n    b");
    assert_eq!(indent(String::from("x = 1;"), "\t"), "\tx = 1;");
}

#[test]
fn indent_empties_blank_lines_and_keeps_newlines() {
    assert_eq!(indent(String::from("a\n  \t\nb"), "  "), "  a\n\n  b");
    assert_eq!(indent(String::from("a\n"), "  "), "  a\n");
    assert_eq!(indent(String::from("\n\n"), "  "), "\n\n");
    assert_eq!(indent(String::from(""), "  "), "");
    assert_eq!(indent(String::from("   "), "  "), "");
}

#[test]
fn indent_keeps_inner_whitespace() {
    assert_eq!(indent(String::from(" a b "), ">"), "> a b ");
}

#[test]
fn indent_keeps_the_number_of_lines() {
    let s = String::from("one\n\ntwo\n  three\n");
    let r = indent(s.clone(), "    ");
    assert_eq!(r.split('\n').count(), s.split('\n').count());
    assert_eq!(r, "    one\n\n    two\n      three\n");
}

#[test]
fn unicode_white_space_lines_are_blank() {
    assert_eq!(indent(String::from("a\n\u{3000}\u{a0}\u{2028}\nb"), "  "), "  a\n\n  b");
    assert_eq!(indent(String::from("\u{200b}"), "  "), "  \u{200b}");
}
