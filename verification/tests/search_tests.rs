use minigrep::contains_str;
use minigrep::run_results;
use minigrep::search;
use minigrep::search_case_insensetive;
use minigrep::split_into_lines;
use minigrep::trim_str;
use minigrep::Config;

#[test]
fn one_result() {
    let query = "safe";
    let contents = "Rust:\nsafe, fast, productive.\nPick three.";
    assert_eq!(vec!["safe, fast, productive."], search(query, contents));
}

#[test]
fn case_insensitive() {
    let query = "rUsT";
    let contents = "Rust:\nsafe, fast, productive.\nPick three.\nTrust me.";
    assert_eq!(
        vec!["Rust:", "Trust me."],
        search_case_insensetive(query, contents)
    );
}

#[test]
fn empty_query_returns_every_line() {
    let contents = "a\nb\nc";
    assert_eq!(vec!["a", "b", "c"], search("", contents));
}

#[test]
fn empty_query_case_insensitive_returns_every_line_trimmed() {
    let contents = " a \nb";
    assert_eq!(vec!["a", "b"], search_case_insensetive("", contents));
}

#[test]
fn case_sensitive_search_respects_case() {
    let results = search("RUST", "rust is nice");
    assert!(results.is_empty());
}

#[test]
fn mixed_case_query_matches_lowercase_text() {
    assert_eq!(vec!["trust me"], search_case_insensetive("RUST", "trust me"));
}

#[test]
fn uppercase_text_matches_lowercase_query() {
    assert_eq!(vec!["TRUST ME"], search_case_insensetive("rust", "TRUST ME"));
}

#[test]
fn case_insensitive_trims_surrounding_whitespace() {
    assert_eq!(
        vec!["Rust rocks"],
        search_case_insensetive("rust", "\tRust rocks  \n")
    );
}

#[test]
fn case_sensitive_keeps_lines_verbatim() {
    assert_eq!(vec!["  safe  "], search("safe", "  safe  \nother"));
}

#[test]
fn crlf_line_breaks_are_dropped() {
    assert_eq!(vec!["one", "two"], search("", "one\r\ntwo\r\n"));
}

#[test]
fn lone_carriage_return_is_kept() {
    assert_eq!(vec!["one\r"], search("", "one\r"));
}

#[test]
fn trailing_newline_adds_no_line() {
    assert_eq!(vec!["a"], search("", "a\n"));
    assert_eq!(vec!["a"], search("", "a"));
}

#[test]
fn empty_contents_give_no_lines() {
    assert!(search("x", "").is_empty());
    assert!(search("", "").is_empty());
    assert!(search_case_insensetive("", "").is_empty());
}

#[test]
fn order_and_duplicates_follow_the_source() {
    assert_eq!(vec!["aa", "ca", "aa"], search("a", "aa\nb\nca\naa"));
}

#[test]
fn run_results_selects_the_mode() {
    let contents = "Rust:\nsafe, fast, productive.\nPick three.\nTrust me.";
    let sensitive = Config {
        query: String::from("rUsT"),
        file_path: String::from("unused"),
        ignore_case: false,
    };
    assert!(run_results(&sensitive, contents).is_empty());
    let insensitive = Config {
        query: String::from("rUsT"),
        file_path: String::from("unused"),
        ignore_case: true,
    };
    assert_eq!(vec!["Rust:", "Trust me."], run_results(&insensitive, contents));
}

#[test]
fn contains_str_finds_inner_substrings() {
    assert!(contains_str("hello", "ell"));
    assert!(contains_str("hello", ""));
    assert!(contains_str("hello", "hello"));
    assert!(!contains_str("hello", "z"));
    assert!(!contains_str("he", "hello"));
}

#[test]
fn trim_str_removes_surrounding_whitespace_only() {
    assert_eq!("a b", trim_str("  a b\t\n"));
    assert_eq!("", trim_str(" \t "));
    assert_eq!("x", trim_str("x"));
}

#[test]
fn split_into_lines_splits_at_newlines() {
    assert_eq!(vec!["a", "b"], split_into_lines("a\nb"));
    assert_eq!(vec!["a", "", "b"], split_into_lines("a\n\nb"));
    assert!(split_into_lines("").is_empty());
}
