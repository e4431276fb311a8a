use hello_grep::cli::CommandLineArgs;
use hello_grep::line::Line;
use hello_grep::search::get_all_matches;
use hello_grep::search::get_regex;
use hello_grep::utils::colorize;
use hello_grep::utils::PaintColor;

fn config(pattern: &str) -> CommandLineArgs {
    CommandLineArgs {
        pattern: String::from(pattern),
        path: Vec::new(),
        case_insensitive: false,
        show_line_number: false,
        display_color: false,
        invert_match: false,
        count: false,
        stats: false,
        line_regexp: false,
        max: 1000,
        no_filename: false,
        files_without_match: false,
        files_with_matches: false,
    }
}

#[test]
fn scenario_case_insensitive_enumeration() {
    // Pattern "rust", case-insensitively, over three lines: indices 0 and 2
    // match, index 1 does not.
    let matcher = get_regex("rust", true).unwrap();
    let content = "Rust:\nsafe, fast, productive.\nTrust me.";
    let result = get_all_matches(&matcher, content, false, false);
    assert_eq!(result.len(), 2);
    assert_eq!(result[0].number, 0);
    assert_eq!(result[0].content, "Rust:");
    assert_eq!(result[1].number, 2);
    assert_eq!(result[1].content, "Trust me.");
}

#[test]
fn scenario_line_regexp_whole_line_only() {
    let content = "Rust:\nsafe, fast, productive.\nTrust me.";

    // The whole line as the pattern matches exactly index 1 under
    // line_regexp...
    let whole = get_regex("safe, fast, productive.", false).unwrap();
    let exact = get_all_matches(&whole, content, false, true);
    assert_eq!(exact.len(), 1);
    assert_eq!(exact[0].number, 1);

    // ...and as a plain substring it matches index 1 as well...
    let loose = get_all_matches(&whole, content, false, false);
    assert_eq!(loose.len(), 1);
    assert_eq!(loose[0].number, 1);

    // ...but a partial pattern matches nothing under line_regexp.
    let partial = get_regex("safe", false).unwrap();
    let none = get_all_matches(&partial, content, false, true);
    assert_eq!(none.len(), 0);
}

#[test]
fn line_regexp_ignores_surrounding_whitespace() {
    // Trimming happens before the whole-line test: surrounding whitespace
    // does not break a whole-line match.
    let matcher = get_regex("safe", false).unwrap();
    let padded = "   safe \t ";
    let result = get_all_matches(&matcher, padded, false, true);
    assert_eq!(result.len(), 1);
}

#[test]
fn fmt_line_indents_and_strips_trailing_whitespace() {
    let cfg = config("war");
    let matcher = get_regex("war", false).unwrap();
    let line = Line::new(7, String::from("warbler   "));
    assert_eq!(line.fmt_line(&matcher, &cfg), "\twarbler");
}

#[test]
fn fmt_line_prefixes_stored_index() {
    let mut cfg = config("war");
    cfg.show_line_number = true;
    let matcher = get_regex("war", false).unwrap();
    let line = Line::new(12, String::from("warbler"));
    assert_eq!(line.fmt_line(&matcher, &cfg), "12: \twarbler");
}

#[test]
fn fmt_line_highlights_matches_in_red() {
    let mut cfg = config("bc");
    cfg.display_color = true;
    let matcher = get_regex("bc", false).unwrap();
    let line = Line::new(0, String::from("abcd bc"));
    assert_eq!(
        line.fmt_line(&matcher, &cfg),
        "\ta\u{1b}[31mbc\u{1b}[0md \u{1b}[31mbc\u{1b}[0m"
    );
}

#[test]
fn fmt_line_paints_line_number_green() {
    let mut cfg = config("zz");
    cfg.display_color = true;
    cfg.show_line_number = true;
    let matcher = get_regex("zz", false).unwrap();
    let line = Line::new(3, String::from("fizz"));
    assert_eq!(
        line.fmt_line(&matcher, &cfg),
        "\u{1b}[32m3\u{1b}[0m: \tfi\u{1b}[31mzz\u{1b}[0m"
    );
}

#[test]
fn colorize_wraps_in_ansi_codes() {
    assert_eq!(colorize(PaintColor::Red, "x", true), "\u{1b}[31mx\u{1b}[0m");
    assert_eq!(colorize(PaintColor::Green, "x", true), "\u{1b}[32mx\u{1b}[0m");
    assert_eq!(colorize(PaintColor::Cyan, "x", true), "\u{1b}[36mx\u{1b}[0m");
}

#[test]
fn colorize_passes_through_without_color() {
    assert_eq!(colorize(PaintColor::Red, "plain", false), "plain");
}

#[test]
fn run_colors_path_header_cyan() {
    let mut cfg = config("a");
    cfg.display_color = true;
    let files = vec![
        hello_grep::FileInput { path: String::from("f1.txt"), content: String::from("abc") },
        hello_grep::FileInput { path: String::from("f2.txt"), content: String::from("xyz") },
    ];
    let out = hello_grep::run(&cfg, &files).unwrap();
    assert_eq!(out.lines[0], "\n\u{1b}[36mf1.txt\u{1b}[0m");
}
