use minigrep::search::{line_matches, search, search_case_insensitive};
use minigrep::text::{split_lines, text_chars, occurs_in};

#[test]
fn lib_one_result() {
    let query = "duct";
    let contents = "\
Rust:
safe, fast, productive.
Pick three.";

    assert_eq!(vec!["safe, fast, productive."], search(query, contents));
}

#[test]
fn main_one_result() {
    let query = "duct";
    let contents = "\
Rust:
safe, fast, productive.
Pick three.";

    assert_eq!(vec!["safe, fast, productive."], search(query, contents));
}

#[test]
fn case_sensitive_search_keeps_indentation_and_skips_other_case() {
    let query = "duct";
    let contents = "\
  Rust:
  safe, fast, productive.
  Pick three.
  Duct tape.";
    assert_eq!(vec!["  safe, fast, productive."], search(query, contents));
}

#[test]
fn case_insensitive_finds_every_case() {
    let query = "rUsT";
    let contents = "\
Rust:
safe, fast, productive.
Pick three.
Trust me.";
    assert_eq!(vec!["Rust:", "Trust me."], search_case_insensitive(query, contents));
}

#[test]
fn query_differing_only_by_case() {
    let contents = "Pick three.\nDuct tape.\nsafe";
    assert_eq!(vec!["Duct tape."], search_case_insensitive("dUCT TAPE.", contents));
    assert!(search("dUCT TAPE.", contents).is_empty());
}

#[test]
fn lowercasing_reaches_the_line_too() {
    assert_eq!(vec!["ÉCOLE"], search_case_insensitive("école", "ÉCOLE\nother"));
    assert_eq!(vec!["duct"], search_case_insensitive("DUCT", "duct"));
}

#[test]
fn no_matching_line_gives_nothing() {
    let contents = "alpha\nbeta\ngamma";
    assert!(search("delta", contents).is_empty());
    assert!(search_case_insensitive("DELTA", contents).is_empty());
    assert!(search("x", "").is_empty());
}

#[test]
fn exactly_one_matching_line() {
    let contents = "one\ntwo\nthree\nfour";
    assert_eq!(vec!["three"], search("hre", contents));
}

#[test]
fn line_with_many_hits_is_reported_once() {
    assert_eq!(vec!["abab ab", "ab"], search("ab", "abab ab\nba\nab"));
}

#[test]
fn empty_query_matches_every_line() {
    assert_eq!(vec!["a", "", "b"], search("", "a\n\nb\n"));
}

#[test]
fn lines_follow_line_endings() {
    assert_eq!(vec!["a", "b", "", "c\r"], split_lines("a\r\nb\n\nc\r"));
    assert_eq!(vec!["a"], split_lines("a\n"));
    assert_eq!(vec!["", "x"], split_lines("\nx"));
    assert!(split_lines("").is_empty());
    assert_eq!(vec!["é ü", "ß"], split_lines("é ü\r\nß"));
}

#[test]
fn crlf_is_not_part_of_a_match() {
    assert_eq!(vec!["end"], search("end", "end\r\nx"));
    assert!(search("\r", "end\r\nx").is_empty());
}

#[test]
fn substring_test() {
    assert!(line_matches("safe, fast", "e, f"));
    assert!(line_matches("abc", ""));
    assert!(line_matches("abc", "abc"));
    assert!(!line_matches("abc", "abcd"));
    assert!(!line_matches("abc", "bd"));
    assert!(line_matches("aaab", "aab"));
    assert!(line_matches("naïve", "ïv"));
}

#[test]
fn chars_and_occurrence() {
    let hay = text_chars("héllo");
    assert_eq!(vec!['h', 'é', 'l', 'l', 'o'], hay);
    assert!(occurs_in(&hay, &text_chars("llo")));
    assert!(!occurs_in(&hay, &text_chars("hel")));
}
