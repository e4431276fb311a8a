use hello_grep::text::split_lines;
use hello_grep::text::trim_end_str;
use hello_grep::text::trim_start_str;
use hello_grep::text::trim_str;
use hello_grep::text::usize_to_string;

#[test]
fn split_lines_basic() {
    assert_eq!(split_lines("a\nb\nc"), vec!["a", "b", "c"]);
}

#[test]
fn split_lines_handles_crlf() {
    assert_eq!(split_lines("a\r\nb\r\nc"), vec!["a", "b", "c"]);
}

#[test]
fn split_lines_keeps_lone_carriage_return() {
    assert_eq!(split_lines("a\rb\nc"), vec!["a\rb", "c"]);
}

#[test]
fn split_lines_no_trailing_empty_line() {
    assert_eq!(split_lines("a\nb\n"), vec!["a", "b"]);
}

#[test]
fn split_lines_empty_content() {
    assert_eq!(split_lines(""), Vec::<String>::new());
}

#[test]
fn split_lines_empty_lines_between() {
    assert_eq!(split_lines("a\n\nb"), vec!["a", "", "b"]);
}

#[test]
fn trim_removes_both_ends() {
    assert_eq!(trim_str("  \t hello \n "), "hello");
    assert_eq!(trim_str("hello"), "hello");
    assert_eq!(trim_str("   "), "");
}

#[test]
fn trim_start_and_end_are_one_sided() {
    assert_eq!(trim_start_str("  ab "), "ab ");
    assert_eq!(trim_end_str("  ab "), "  ab");
}

#[test]
fn trim_handles_unicode_whitespace() {
    assert_eq!(trim_str("\u{a0}\u{2003}x\u{3000}"), "x");
}

#[test]
fn usize_to_string_renders_decimal() {
    assert_eq!(usize_to_string(0), "0");
    assert_eq!(usize_to_string(7), "7");
    assert_eq!(usize_to_string(42), "42");
    assert_eq!(usize_to_string(1000), "1000");
    assert_eq!(usize_to_string(90210), "90210");
}
