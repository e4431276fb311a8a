use hello_grep::cli::CommandLineArgs;
use hello_grep::FileInput;
use hello_grep::RunError;
use hello_grep::run;

fn config(pattern: &str) -> CommandLineArgs {
    CommandLineArgs {
        pattern: String::from(pattern),
        path: Vec::new(),
        case_insensitive: false,
        show_line_number: false,
        display_color: false,
        invert_match: false,
        count: false,
        stats: false,
        line_regexp: false,
        max: 1000,
        no_filename: false,
        files_without_match: false,
        files_with_matches: false,
    }
}

fn file(path: &str, content: &str) -> FileInput {
    FileInput { path: String::from(path), content: String::from(content) }
}

#[test]
fn run_should_not_panic() -> Result<(), String> {
    let mut cfg = config("run");
    cfg.case_insensitive = true;
    cfg.show_line_number = true;
    let files = vec![file("lib.rs", "pub fn run() {}\nfn other() {}\n")];
    run(&cfg, &files).unwrap();
    Ok(())
}

#[test]
fn run_no_files_is_an_error() {
    let cfg = config("anything");
    let files: Vec<FileInput> = Vec::new();
    assert!(matches!(run(&cfg, &files), Err(RunError::NoFiles)));
}

#[test]
fn run_invalid_pattern_is_an_error() {
    let cfg = config("[");
    let files = vec![file("a.txt", "abc")];
    assert!(matches!(run(&cfg, &files), Err(RunError::InvalidPattern)));
}

#[test]
fn run_single_file_suppresses_header() {
    let cfg = config("a");
    let files = vec![file("a.txt", "abc")];
    let out = run(&cfg, &files).unwrap();
    assert_eq!(out.lines, vec![String::from("\tabc")]);
    assert_eq!(out.file_count, 1);
    assert_eq!(out.match_count, 1);
    assert_eq!(out.printed_count, 1);
}

#[test]
fn run_two_files_show_headers() {
    let cfg = config("a");
    let files = vec![file("f1.txt", "abc\nxyz"), file("f2.txt", "war")];
    let out = run(&cfg, &files).unwrap();
    assert_eq!(
        out.lines,
        vec![
            String::from("\nf1.txt"),
            String::from("\tabc"),
            String::from("\nf2.txt"),
            String::from("\twar"),
        ]
    );
    assert_eq!(out.file_count, 2);
    assert_eq!(out.match_count, 2);
    assert_eq!(out.printed_count, 2);
}

#[test]
fn run_no_filename_suppresses_headers() {
    let mut cfg = config("a");
    cfg.no_filename = true;
    let files = vec![file("f1.txt", "abc"), file("f2.txt", "war")];
    let out = run(&cfg, &files).unwrap();
    assert_eq!(out.lines, vec![String::from("\tabc"), String::from("\twar")]);
}

#[test]
fn run_line_numbers_show_stored_index() {
    // Line numbers display the stored 0-based index: a match on the third
    // line is shown as 2.
    let mut cfg = config("war");
    cfg.show_line_number = true;
    let files = vec![file("a.txt", "abc\nxyz\nwar")];
    let out = run(&cfg, &files).unwrap();
    assert_eq!(out.lines, vec![String::from("2: \twar")]);
}

#[test]
fn run_count_mode_prints_per_file_counts() {
    let mut cfg = config("a");
    cfg.count = true;
    let files = vec![file("f1.txt", "abc\nalso\nnope"), file("f2.txt", "nothing here")];
    let out = run(&cfg, &files).unwrap();
    assert_eq!(out.lines, vec![String::from("f1.txt: \t2")]);
    assert_eq!(out.file_count, 1);
    assert_eq!(out.match_count, 2);
    assert_eq!(out.printed_count, 1);
}

#[test]
fn run_no_result_notice() {
    let cfg = config("absent");
    let files = vec![file("a.txt", "abc")];
    let out = run(&cfg, &files).unwrap();
    assert_eq!(out.lines, vec![String::from("There is no result")]);
    assert_eq!(out.printed_count, 0);
}

#[test]
fn run_stats_reports_totals() {
    let mut cfg = config("a");
    cfg.stats = true;
    let files = vec![file("f1.txt", "abc\nand")];
    let out = run(&cfg, &files).unwrap();
    assert_eq!(
        out.lines,
        vec![
            String::from("\tabc"),
            String::from("\tand"),
            String::from("\n2 match(es) found in 1 file(s)."),
        ]
    );
}

#[test]
fn run_max_count_truncates_globally() {
    // Two files with two matches each under a budget of one: only the first
    // matched line of the first file is printed, no further headers or
    // lines appear, and the summary reports all four matches with three
    // hidden.
    let mut cfg = config("a");
    cfg.max = 1;
    cfg.stats = true;
    let files = vec![file("f1.txt", "a\na\nb"), file("f2.txt", "a\na")];
    let out = run(&cfg, &files).unwrap();
    assert_eq!(
        out.lines,
        vec![
            String::from("\nf1.txt"),
            String::from("\ta"),
            String::from("\n4 match(es) found (including 3 hidden) in 2 file(s)."),
        ]
    );
    assert_eq!(out.match_count, 4);
    assert_eq!(out.printed_count, 1);
}

#[test]
fn run_max_count_zero_prints_nothing() {
    let mut cfg = config("a");
    cfg.max = 0;
    let files = vec![file("a.txt", "abc"), file("b.txt", "aaa")];
    let out = run(&cfg, &files).unwrap();
    assert_eq!(out.lines, vec![String::from("There is no result")]);
    assert_eq!(out.printed_count, 0);
    assert_eq!(out.match_count, 2);
}

#[test]
fn run_files_with_matches_prints_paths_only() {
    let mut cfg = config("a");
    cfg.files_with_matches = true;
    let files = vec![file("f1.txt", "abc\nxyz"), file("f2.txt", "nope"), file("f3.txt", "a")];
    let out = run(&cfg, &files).unwrap();
    assert_eq!(out.lines, vec![String::from("f1.txt"), String::from("f3.txt")]);
    assert_eq!(out.printed_count, 2);
    assert_eq!(out.match_count, 0);
}

#[test]
fn run_files_without_match_prints_clean_paths() {
    // A file entirely free of the pattern qualifies in files-without-match
    // mode and its path alone is printed; the same file enumerated yields
    // zero matched lines.
    let mut cfg = config("rust");
    cfg.files_without_match = true;
    let files = vec![file("clean.txt", "nothing\nhere"), file("hit.txt", "rust inside")];
    let out = run(&cfg, &files).unwrap();
    assert_eq!(out.lines, vec![String::from("clean.txt")]);

    let matcher = hello_grep::search::get_regex("rust", false).unwrap();
    let all = hello_grep::search::get_all_matches(&matcher, "nothing\nhere", false, false);
    assert_eq!(all.len(), 0);
}

#[test]
fn run_invert_composes_with_scan() {
    let mut cfg = config("a");
    cfg.invert_match = true;
    let files = vec![file("a.txt", "abc\nxyz\nwar")];
    let out = run(&cfg, &files).unwrap();
    assert_eq!(out.lines, vec![String::from("\txyz")]);
}
