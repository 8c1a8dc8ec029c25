use agentmap::analyze::scan::{find_brace_end, find_indent_end, find_ruby_end, get_visibility_at_line};
use agentmap::text::ascii::{lower_range_is, upper_range_is};
use agentmap::text::bytes::{
    check_span, range_contains, range_is, range_starts_with, str_eq, str_le, text_between,
};
use agentmap::text::decimal::decimal_string;
use agentmap::text::lines::{line_number_at_offset, split_lines};
use agentmap::text::trim::{drop_byte, skip_byte, trim_range};
use agentmap::types::Visibility;

#[test]
fn brace_in_string_literal_is_ignored() {
    let src = "fn f() { let s = \"}\"; }";
    let end = find_brace_end(src, 6).unwrap();
    assert_eq!(end, src.len() - 1);
    assert_eq!(line_number_at_offset(src, end), 1);
}

#[test]
fn brace_scan_counts_nesting_and_literals() {
    let src = "a {\n  b { '}' }\n  \"\\\"}\"\n}\nc }";
    assert_eq!(find_brace_end(src, 0), Some(24));
    assert_eq!(line_number_at_offset(src, 24), 4);
    assert_eq!(find_brace_end(src, 2), Some(24));
    assert_eq!(find_brace_end(src, 3), Some(14));
    assert_eq!(find_brace_end("{ \"open", 0), None);
    assert_eq!(find_brace_end("no braces", 0), None);
    assert_eq!(find_brace_end("}", 0), None);
    assert_eq!(find_brace_end("{}", 5), None);
    assert_eq!(find_brace_end("} {}", 0), None);
    assert_eq!(find_brace_end("} {{}", 0), Some(4));
}

#[test]
fn line_numbers_count_line_feeds() {
    let src = "a\nb\r\n\nc";
    assert_eq!(line_number_at_offset(src, 0), 1);
    assert_eq!(line_number_at_offset(src, 1), 1);
    assert_eq!(line_number_at_offset(src, 2), 2);
    assert_eq!(line_number_at_offset(src, 5), 3);
    assert_eq!(line_number_at_offset(src, 6), 4);
    assert_eq!(line_number_at_offset(src, 7), 4);
    assert_eq!(line_number_at_offset(src, 700), 4);
    assert_eq!(line_number_at_offset("", 0), 1);
}

#[test]
fn lines_are_split_at_line_feeds() {
    assert_eq!(split_lines(b"a\nb\r\n\nc"), vec![(0, 1), (2, 3), (5, 5), (6, 7)]);
    assert_eq!(split_lines(b"a\n"), vec![(0, 1)]);
    assert_eq!(split_lines(b"a\r"), vec![(0, 2)]);
    assert_eq!(split_lines(b"\n"), vec![(0, 0)]);
    assert_eq!(split_lines(b"\r\n"), vec![(0, 0)]);
    assert_eq!(split_lines(b""), Vec::<(usize, usize)>::new());
}

#[test]
fn trimming_knows_unicode_white_space() {
    let s = " \t\u{a0}\u{2003}x y\u{3000}\u{85}\n";
    let b = s.as_bytes();
    let (lo, hi) = trim_range(b, 0, b.len());
    assert_eq!(&s[lo..hi], "x y");
    assert_eq!(trim_range(b"   ", 0, 3), (3, 3));
    assert_eq!(trim_range(b"abc", 1, 2), (1, 2));
    assert_eq!(trim_range(b"", 0, 0), (0, 0));
    let t = "\u{200b}x";
    assert_eq!(trim_range(t.as_bytes(), 0, t.len()), (0, t.len()));
}

#[test]
fn bytes_are_stripped_from_the_ends() {
    assert_eq!(drop_byte(b"f() {{", b'{', 0, 6), 4);
    assert_eq!(drop_byte(b"{{", b'{', 0, 2), 0);
    assert_eq!(skip_byte(b"::a:", b':', 0, 4), 2);
    assert_eq!(skip_byte(b"a", b':', 0, 1), 0);
}

#[test]
fn indentation_ends_a_block() {
    let src = "def f():\n    a\n\n  # note\n    b\nc\n    d\n";
    let lines = split_lines(src.as_bytes());
    assert_eq!(find_indent_end(src.as_bytes(), &lines, 1, 0), 5);
    assert_eq!(find_indent_end(src.as_bytes(), &lines, 1, 4), 1);
    assert_eq!(find_indent_end(src.as_bytes(), &lines, 6, 0), 7);
    assert_eq!(find_indent_end(src.as_bytes(), &lines, 7, 0), 7);
    assert_eq!(find_indent_end(src.as_bytes(), &lines, 50, 0), 50);
}

#[test]
fn end_closes_a_ruby_block() {
    let src = "class A\n  def f\n    if x\n    end\n  end # done\nend\ndef open\n";
    let lines = split_lines(src.as_bytes());
    assert_eq!(find_ruby_end(src.as_bytes(), &lines, 1), 6);
    assert_eq!(find_ruby_end(src.as_bytes(), &lines, 2), 5);
    assert_eq!(find_ruby_end(src.as_bytes(), &lines, 3), 4);
    assert_eq!(find_ruby_end(src.as_bytes(), &lines, 7), 7);
    assert_eq!(find_ruby_end(src.as_bytes(), &lines, 4), 4);
}

#[test]
fn ruby_visibility_is_the_nearest_keyword_above() {
    let src = "class A\n  def a\n  end\n  private\n  def b\n  end\n  protected :x\n  def c\n  end\n  public\n  def d\n  end\nend\nclass B\n  def e\n  end\nend\n";
    let lines = split_lines(src.as_bytes());
    let at = |line| get_visibility_at_line(src.as_bytes(), &lines, line);
    assert_eq!(at(2), Visibility::Public);
    assert_eq!(at(5), Visibility::Private);
    assert_eq!(at(8), Visibility::Internal);
    assert_eq!(at(11), Visibility::Public);
    assert_eq!(at(15), Visibility::Public);
    assert_eq!(at(0), Visibility::Public);
    assert_eq!(at(900), Visibility::Public);
}

#[test]
fn ranges_of_bytes_are_compared_and_searched() {
    let b = b"hello world";
    assert!(range_is(b, 0, 5, b"hello"));
    assert!(!range_is(b, 0, 5, b"hell"));
    assert!(range_starts_with(b, 6, 11, b"wor"));
    assert!(!range_starts_with(b, 6, 8, b"wor"));
    assert!(range_starts_with(b, 3, 3, b""));
    assert!(range_contains(b, 0, 11, b"o w"));
    assert!(!range_contains(b, 0, 6, b"o w"));
    assert!(range_contains(b, 2, 2, b""));
    assert!(lower_range_is(b"ReadMe", 0, 6, b"readme"));
    assert!(!lower_range_is(b"ReadMe", 0, 6, b"ReadMe"));
    assert!(upper_range_is(b"todo", 0, 4, b"TODO"));
    assert!(!upper_range_is(b"tod\xc3\xb6", 0, 5, b"TODO"));
}

#[test]
fn strings_are_compared_and_cut() {
    assert!(str_eq("a", "a"));
    assert!(!str_eq("a", "ab"));
    assert!(str_le("", "a"));
    assert!(str_le("a", "a"));
    assert!(str_le("a", "ab"));
    assert!(str_le("ab", "b"));
    assert!(!str_le("b", "ab"));
    assert!(!str_le("ab", "a"));
    let s = "aé€b";
    assert!(check_span(s, 1, 3));
    assert!(!check_span(s, 2, 3));
    assert!(!check_span(s, 3, 1));
    assert!(!check_span(s, 0, 99));
    assert_eq!(text_between(s, 1, 6), "é€");
    assert_eq!(text_between(s, 2, 6), "");
    assert_eq!(text_between(s, 0, 0), "");
}

#[test]
fn numbers_are_written_in_decimal() {
    assert_eq!(decimal_string(0), "0");
    assert_eq!(decimal_string(7), "7");
    assert_eq!(decimal_string(10), "10");
    assert_eq!(decimal_string(1500), "1500");
    assert_eq!(decimal_string(usize::MAX), usize::MAX.to_string());
}
