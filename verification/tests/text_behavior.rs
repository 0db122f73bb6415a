use tidyup::text::contains_str;
use tidyup::text::is_affirmative;
use tidyup::text::join_with;
use tidyup::text::parse_size;
use tidyup::text::split_at_tab;
use tidyup::text::split_lines;
use tidyup::text::split_whitespace_vec;
use tidyup::text::trim_str;
use tidyup::text::u64_to_string;

#[test]
fn lines_split_on_newline() {
    assert_eq!(split_lines("a\nb\nc"), vec!["a", "b", "c"]);
}

#[test]
fn lines_strip_carriage_returns() {
    assert_eq!(split_lines("a\r\nb\r\n"), vec!["a", "b"]);
}

#[test]
fn lines_of_empty_text() {
    assert_eq!(split_lines(""), Vec::<String>::new());
}

#[test]
fn lines_trailing_newline_opens_no_line() {
    assert_eq!(split_lines("a\n"), vec!["a"]);
    assert_eq!(split_lines("\n"), vec![""]);
    assert_eq!(split_lines("a\n\n"), vec!["a", ""]);
}

#[test]
fn trim_both_ends() {
    assert_eq!(trim_str("  x y\t\n"), "x y");
    assert_eq!(trim_str(""), "");
    assert_eq!(trim_str(" \t "), "");
    assert_eq!(trim_str("inner  space"), "inner  space");
}

#[test]
fn whitespace_tokens() {
    assert_eq!(split_whitespace_vec(" a  bb\tc "), vec!["a", "bb", "c"]);
    assert_eq!(split_whitespace_vec(""), Vec::<String>::new());
    assert_eq!(split_whitespace_vec("   "), Vec::<String>::new());
}

#[test]
fn substring_search() {
    assert!(contains_str("updates devel/foo 1.0", "devel/"));
    assert!(!contains_str("updates dev el/foo", "devel/"));
    assert!(contains_str("anything", ""));
    assert!(!contains_str("ab", "abc"));
}

#[test]
fn joining() {
    assert_eq!(join_with(&vec!["a".to_string(), "b".to_string()], "\n"), "a\nb");
    assert_eq!(join_with(&vec!["solo".to_string()], "\n"), "solo");
    assert_eq!(join_with(&Vec::new(), "\n"), "");
    assert_eq!(join_with(&vec!["a".to_string(), "b".to_string()], " "), "a b");
}

#[test]
fn decimal_rendering() {
    assert_eq!(u64_to_string(0), "0");
    assert_eq!(u64_to_string(7), "7");
    assert_eq!(u64_to_string(907), "907");
    assert_eq!(u64_to_string(18446744073709551615), "18446744073709551615");
}

#[test]
fn size_parsing() {
    assert_eq!(parse_size("42"), 42);
    assert_eq!(parse_size("0"), 0);
    assert_eq!(parse_size(""), 0);
    assert_eq!(parse_size("12a"), 0);
    assert_eq!(parse_size("-3"), 0);
    assert_eq!(parse_size("2147483647"), 2147483647);
    assert_eq!(parse_size("2147483648"), 0);
}

#[test]
fn tab_splitting() {
    assert_eq!(split_at_tab("12\tsome/path"), Some(("12".to_string(), "some/path".to_string())));
    assert_eq!(split_at_tab("12\ta\tb"), Some(("12".to_string(), "a\tb".to_string())));
    assert_eq!(split_at_tab("no tab here"), None);
}

#[test]
fn affirmative_answers() {
    assert!(is_affirmative("y"));
    assert!(is_affirmative(" y\n"));
    assert!(!is_affirmative("Y"));
    assert!(!is_affirmative("yes"));
    assert!(!is_affirmative("n"));
    assert!(!is_affirmative(""));
}
