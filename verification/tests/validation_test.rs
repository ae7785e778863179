use agw::error::ErrorKind;
use agw::validation::{
    check_for_dangerous_patterns, is_dangerous_unicode, is_forbidden_control, is_identifier_char,
    is_shell_metachar, validate_string_field, violation_error, Violation,
};

#[test]
fn every_shell_metacharacter_is_rejected() {
    for ch in ['&', '|', ';', '$', '`', '\n', '\r'] {
        for text in [
            format!("{ch}"),
            format!("{ch}tail"),
            format!("head{ch}"),
            format!("he{ch}ad"),
        ] {
            let e = check_for_dangerous_patterns(&text, "command").unwrap_err();
            assert_eq!(e.kind(), ErrorKind::Worker);
            assert_eq!(
                e.message(),
                format!("command contains dangerous character: '{ch}'")
            );
        }
        assert!(is_shell_metachar(ch));
    }
    assert!(!is_shell_metachar('a'));
    assert!(!is_shell_metachar(' '));
    assert!(!is_shell_metachar('\t'));
}

#[test]
fn metacharacters_are_reported_in_a_fixed_order() {
    assert_eq!(
        check_for_dangerous_patterns("a;b&c", "f").unwrap_err().message(),
        "f contains dangerous character: '&'"
    );
    assert_eq!(
        check_for_dangerous_patterns("\r`$", "f").unwrap_err().message(),
        "f contains dangerous character: '$'"
    );
    assert_eq!(
        check_for_dangerous_patterns("../x;", "f").unwrap_err().message(),
        "f contains dangerous character: ';'"
    );
}

#[test]
fn path_traversal_is_rejected_and_inner_dots_are_not() {
    for text in [
        "../etc/passwd",
        "..\\windows",
        "cat ../x",
        "a/..\\b",
        "x/../",
        "..",
        "...",
        "..hidden",
    ] {
        assert_eq!(
            check_for_dangerous_patterns(text, "args[0]")
                .unwrap_err()
                .message(),
            "args[0] contains path traversal sequence"
        );
    }
    for text in ["echo 1..10", "a..", "a..b", ". .", ".", "", "./x", "a.b/c", "x ..y"] {
        assert!(check_for_dangerous_patterns(text, "args[0]").is_ok());
    }
}

#[test]
fn string_field_reports_the_first_broken_rule() {
    let check = |value: &str, max: usize, id: bool| {
        validate_string_field(value, "field", max, id).map_err(|e| e.message().to_string())
    };
    assert_eq!(check("", 8, true), Err("field cannot be empty".to_string()));
    assert_eq!(check("", 8, false), Ok(()));
    assert_eq!(check("", 0, false), Ok(()));
    assert_eq!(
        check("123456789", 8, false),
        Err("field exceeds maximum length of 8".to_string())
    );
    assert_eq!(check("12345678", 8, false), Ok(()));
    assert_eq!(
        check("\0\u{0007}\u{202e}", 2, false),
        Err("field exceeds maximum length of 2".to_string())
    );
    assert_eq!(
        check("\u{0007}\0\u{202e}", 64, false),
        Err("field contains null byte".to_string())
    );
    assert_eq!(
        check("\u{202e}\u{0007}", 64, false),
        Err("field contains control character".to_string())
    );
    assert_eq!(
        check("a\u{202e}b", 64, true),
        Err("field contains dangerous Unicode character".to_string())
    );
    assert_eq!(
        check("a b", 64, true),
        Err("field can only contain alphanumeric characters, hyphens, and underscores".to_string())
    );
    assert_eq!(
        check("a\tb", 64, true),
        Err("field can only contain alphanumeric characters, hyphens, and underscores".to_string())
    );
    assert_eq!(check("a\tb\nc", 64, false), Ok(()));
    assert_eq!(check("a b; c", 64, false), Ok(()));
    assert_eq!(check("Az09_-", 64, true), Ok(()));
    assert_eq!(
        check("caf\u{00e9}", 64, true),
        Err("field can only contain alphanumeric characters, hyphens, and underscores".to_string())
    );
    assert_eq!(check("caf\u{00e9}", 64, false), Ok(()));
}

#[test]
fn string_field_length_counts_bytes() {
    // Four characters, five bytes.
    assert!(validate_string_field("caf\u{00e9}", "f", 5, false).is_ok());
    assert!(validate_string_field("caf\u{00e9}", "f", 4, false).is_err());
}

#[test]
fn dangerous_unicode_is_the_listed_set() {
    for c in [
        '\u{202a}', '\u{202b}', '\u{202c}', '\u{202d}', '\u{202e}', '\u{200b}', '\u{200c}',
        '\u{200d}', '\u{feff}',
    ] {
        assert!(is_dangerous_unicode(c));
        let text = format!("a{c}b");
        assert_eq!(
            validate_string_field(&text, "f", 64, false)
                .unwrap_err()
                .message(),
            "f contains dangerous Unicode character"
        );
    }
    for c in ['\u{2029}', '\u{202f}', '\u{200a}', '\u{200e}', '\u{fefe}', 'a', '\u{ffff}'] {
        assert!(!is_dangerous_unicode(c));
    }
}

#[test]
fn control_characters_are_the_ascii_ones_but_tab_and_line_feed() {
    for code in 0u32..0x20 {
        let c = char::from_u32(code).unwrap();
        assert_eq!(is_forbidden_control(c), c != '\t' && c != '\n');
    }
    assert!(is_forbidden_control('\u{7f}'));
    assert!(!is_forbidden_control(' '));
    assert!(!is_forbidden_control('~'));
    assert!(!is_forbidden_control('\u{80}'));
    assert!(!is_forbidden_control('\u{9f}'));
}

#[test]
fn identifier_characters_are_ascii() {
    for c in ['a', 'z', 'A', 'Z', '0', '9', '-', '_'] {
        assert!(is_identifier_char(c));
    }
    for c in ['.', ':', ' ', '/', '@', '\u{00e9}', '\u{0661}', '`', '{', '[', '\0'] {
        assert!(!is_identifier_char(c));
    }
}

#[test]
fn violation_errors_name_field_and_rule() {
    let e = violation_error("job_id", Violation::TooLong { max: 128 });
    assert_eq!(e.kind(), ErrorKind::Worker);
    assert_eq!(e.message(), "job_id exceeds maximum length of 128");
    assert_eq!(
        violation_error("x", Violation::TooLong { max: 0 }).message(),
        "x exceeds maximum length of 0"
    );
    assert_eq!(
        violation_error("x", Violation::DangerousCharacter { ch: '|' }).message(),
        "x contains dangerous character: '|'"
    );
    assert_eq!(
        violation_error("", Violation::PathTraversal).message(),
        " contains path traversal sequence"
    );
}
