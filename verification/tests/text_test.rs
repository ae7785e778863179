use agw::text::{
    chars_of, concat3, contains_char, decimal, join, same_text, string_of_range,
};

#[test]
fn decimal_writes_numbers_without_leading_zeros() {
    assert_eq!(decimal(0), "0");
    assert_eq!(decimal(7), "7");
    assert_eq!(decimal(10), "10");
    assert_eq!(decimal(4096), "4096");
    assert_eq!(decimal(86400), "86400");
    assert_eq!(decimal(u64::MAX), "18446744073709551615");
}

#[test]
fn join_puts_the_separator_between_neighbours() {
    let parts = |items: &[&str]| items.iter().map(|s| s.to_string()).collect::<Vec<String>>();
    assert_eq!(join(&parts(&[]), ","), "");
    assert_eq!(join(&parts(&["a"]), ","), "a");
    assert_eq!(join(&parts(&["a", "b", "c"]), ", "), "a, b, c");
    assert_eq!(join(&parts(&["", ""]), "-"), "-");
    assert_eq!(join(&parts(&["a", "b"]), ""), "ab");
}

#[test]
fn chars_and_strings_convert_both_ways() {
    let chars = chars_of("h\u{00e9}llo");
    assert_eq!(chars, vec!['h', '\u{00e9}', 'l', 'l', 'o']);
    assert_eq!(string_of_range(&chars, 0, 5), "h\u{00e9}llo");
    assert_eq!(string_of_range(&chars, 1, 3), "\u{00e9}l");
    assert_eq!(string_of_range(&chars, 2, 2), "");
    assert!(chars_of("").is_empty());
}

#[test]
fn searching_finds_characters() {
    let text = chars_of("abcabd");
    assert!(contains_char(&text, 'd'));
    assert!(contains_char(&text, 'a'));
    assert!(!contains_char(&text, 'e'));
    assert!(!contains_char(&chars_of(""), 'a'));
}

#[test]
fn same_text_compares_characters() {
    assert!(same_text("OK", "OK"));
    assert!(same_text("", ""));
    assert!(!same_text("OK", "ok"));
    assert!(!same_text("OK", "OK "));
    assert_eq!(concat3("job:", "j-1", ":stdout"), "job:j-1:stdout");
}
