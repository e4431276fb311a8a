use hello_grep::line::Line;
use hello_grep::search::get_all_matches;
use hello_grep::search::get_regex;
use hello_grep::search::has_match;
use hello_grep::search::is_matches;
use hello_grep::search::Matcher;

fn get_test_content() -> &'static str {
    "\
Rust:
safe, fast, productive.
Pick three.
Trust me.
Duct tape."
}

fn compiled(pattern: &str, case_insensitive: bool) -> Matcher {
    get_regex(pattern, case_insensitive).expect("valid pattern")
}

#[test]
fn test_is_matches() {
    let content = "safe, fast, productive.";
    let regex = compiled("safe", false);
    let result = is_matches(&regex, content, false, false);
    assert_eq!(result, true);
}

#[test]
fn test_is_matches_inverted_1() {
    let content = "safe, fast, productive.";
    let regex = compiled("safe", false);
    let result = is_matches(&regex, content, true, false);
    assert_eq!(result, false);
}

#[test]
fn test_is_matches_inverted_2() {
    let content = "safe, fast, productive.";
    let regex = compiled("rabbit", false);
    let result = is_matches(&regex, content, true, false);
    assert_eq!(result, true);
}

#[test]
fn test_is_matches_line_regexp_1() {
    let content = "safe, fast, productive.";
    let regex = compiled("safe", false);
    let result = is_matches(&regex, content, false, true);
    assert_eq!(result, false);
}

#[test]
fn test_is_matches_line_regexp_2() {
    let content = "safe, fast, productive.";
    let regex = compiled("safe, fast, productive.", false);
    let result = is_matches(&regex, content, false, true);
    assert_eq!(result, true);
}

#[test]
fn test_search_match_without_match() {
    let regex = compiled("bike", true);
    let content = get_test_content();
    let result = has_match(&regex, content, false, false);
    assert_eq!(result, false);
}

#[test]
fn test_search_match_with_match() {
    let regex = compiled("safe", true);
    let content = get_test_content();
    let result = has_match(&regex, content, false, false);
    assert_eq!(result, true);
}

#[test]
fn invert_flips_every_line_decision() {
    // Without whole-line matching, the inverted test is the exact negation
    // of the plain one, line by line.
    let regex = compiled("rUsT", true);
    for line in get_test_content().lines() {
        assert_eq!(
            is_matches(&regex, line, true, false),
            !is_matches(&regex, line, false, false)
        );
    }
}

#[test]
fn search_all_case_sensitive() {
    let regex = compiled("duck", false);
    let content = get_test_content();
    let expected = vec![Line::new(2, String::from("safe, fast, productive."))];
    let result = get_all_matches(&regex, content, false, false);

    for i in 0..result.len() {
        assert_eq!(expected[i].content, result[i].content)
    }
}

#[test]
fn search_all_case_insensitive() {
    let regex = compiled("rUsT", true);
    let content = get_test_content();
    let expected = vec![
        Line::new(1, String::from("Rust:")),
        Line::new(4, String::from("Trust me.")),
    ];
    let result = get_all_matches(&regex, content, false, false);

    for i in 0..result.len() {
        assert_eq!(expected[i].content, result[i].content)
    }
}

#[test]
fn search_all_inverted() {
    let regex = compiled("rUsT", true);
    let content = get_test_content();
    let expected = vec![
        Line::new(2, String::from("safe, fast, productive.")),
        Line::new(3, String::from("Pick three.")),
        Line::new(5, String::from("Duct tape.")),
    ];
    let result = get_all_matches(&regex, content, true, false);

    for i in 0..expected.len() {
        assert_eq!(expected[i].content, result[i].content)
    }
}
