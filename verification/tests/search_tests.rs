use minigrep::search;
use minigrep::search_case_insensitive;
use minigrep::search_with_config;
use minigrep::Config;

#[test]
fn case_sensitive() {
    let pattern = "duct";
    let contents = "\
Rust:
safe, fast, productive.
Pick three.";

    assert_eq!(vec!["safe, fast, productive."], search(pattern, contents))
}

#[test]
fn case_insensitive() {
    let pattern = "RuSt";
    let contents = "\
        Rust:
safe, fast, productive.
Pick three.
Trust me.";

    assert_eq!(vec!["Rust:", "Trust me."], search_case_insensitive(pattern, contents));
}

#[test]
fn exact_matches_are_sound_and_ordered() {
    let contents = "abc\nxyz\nbca";
    let result = search("a", contents);
    assert_eq!(result, vec!["abc", "bca"]);
    for line in &result {
        assert!(line.contains("a"));
    }
}

#[test]
fn case_insensitive_keeps_exact_matches() {
    let pattern = "Rust";
    let contents = "Rust is great.\nrust is low-level.\nTrust the compiler.\nC is different.";
    let exact = search(pattern, contents);
    let folded = search_case_insensitive(pattern, contents);
    assert_eq!(exact, vec!["Rust is great."]);
    assert_eq!(folded, vec!["Rust is great.", "rust is low-level.", "Trust the compiler."]);
    for line in &exact {
        assert!(folded.contains(line));
    }
}

#[test]
fn empty_pattern_returns_all_lines() {
    let contents = "first\nsecond\nthird";
    assert_eq!(vec!["first", "second", "third"], search("", contents));
}

#[test]
fn empty_content_has_no_matches() {
    let empty: Vec<&str> = Vec::new();
    assert_eq!(empty, search("anything", ""));
    assert_eq!(empty, search_case_insensitive("anything", ""));
}

#[test]
fn pattern_longer_than_line_never_matches() {
    let empty: Vec<&str> = Vec::new();
    assert_eq!(empty, search("abcdef", "abc\nde"));
}

#[test]
fn trailing_newline_adds_no_empty_line() {
    assert_eq!(vec!["one", "two"], search("", "one\ntwo\n"));
}

#[test]
fn carriage_returns_belong_to_the_line_ending() {
    assert_eq!(vec!["alpha", "beta"], search("", "alpha\r\nbeta\r\n"));
    assert_eq!(vec!["alpha"], search("alpha", "alpha\r\nbeta"));
}

#[test]
fn search_with_config_selects_the_exact_filter() {
    let config = Config {
        pattern: String::from("RuSt"),
        filename: String::from("unused"),
        case_sensitive: true,
    };
    let contents = "Rust:\nTrust me.";
    let empty: Vec<&str> = Vec::new();
    assert_eq!(empty, search_with_config(&config, contents));
}

#[test]
fn search_with_config_selects_the_folding_filter() {
    let config = Config {
        pattern: String::from("RuSt"),
        filename: String::from("unused"),
        case_sensitive: false,
    };
    let contents = "Rust:\nTrust me.";
    assert_eq!(vec!["Rust:", "Trust me."], search_with_config(&config, contents));
}

#[test]
fn folding_is_not_ascii_only() {
    assert_eq!(vec!["ÉMIGRÉ"], search_case_insensitive("émigré", "ÉMIGRÉ"));
}
