//! Rules that every externally sourced string passes before it is used.
//!
//! Two primitives are offered. [`validate_string_field`] bounds the length of a
//! value and the characters it may hold. [`check_for_dangerous_patterns`]
//! rejects shell metacharacters and path traversal. Both report the broken
//! rule together with the name of the field, never the value itself.

use crate::error::{AgwError, AgwResult, ErrorKind};
use crate::text::{chars_of, decimal, decimal_text, utf8_len};
use vstd::prelude::*;

verus! {

/// An ASCII control character: below U+0020, or U+007F.
pub open spec fn ascii_control(c: char) -> bool {
    (c as u32) < 0x20 || c as u32 == 0x7f
}

/// A control character that a descriptive field may not hold: tab and line
/// feed are the two that it may.
pub open spec fn forbidden_control(c: char) -> bool {
    ascii_control(c) && c != '\t' && c != '\n'
}

/// A character that changes how surrounding text is displayed without being
/// visible itself: the bidirectional embeddings and overrides U+202A to
/// U+202E, the zero-width characters U+200B to U+200D, and U+FEFF.
pub open spec fn dangerous_unicode(c: char) -> bool {
    ||| 0x202a <= c as u32 <= 0x202e
    ||| 0x200b <= c as u32 <= 0x200d
    ||| c as u32 == 0xfeff
}

/// A character of an identifier: an ASCII letter or digit, `-` or `_`.
pub open spec fn identifier_char(c: char) -> bool {
    ||| 'a' <= c <= 'z'
    ||| 'A' <= c <= 'Z'
    ||| '0' <= c <= '9'
    ||| c == '-'
    ||| c == '_'
}

/// Whether `c` is a letter or a digit of any script, as the tables of the
/// standard library have it.
pub uninterp spec fn char_is_alphanumeric(c: char) -> bool;

/// `char::is_alphanumeric` tells whether a character is alphabetic or numeric
/// by the Unicode tables that the standard library was built with.
pub assume_specification[ char::is_alphanumeric ](c: char) -> (b: bool)
    ensures
        b == char_is_alphanumeric(c),
;

/// A character of a label: a letter or a digit of any script, `-` or `_`.
/// The ASCII letters and digits are named apart, so that nothing that is
/// said of them rests on the tables behind [`char_is_alphanumeric`].
pub open spec fn label_char(c: char) -> bool {
    identifier_char(c) || char_is_alphanumeric(c)
}

/// Executable form of [`label_char`].
pub fn is_label_char(c: char) -> (b: bool)
    ensures
        b == label_char(c),
{
    is_identifier_char(c) || c.is_alphanumeric()
}

/// A character with a meaning to a shell: one of `&`, `|`, `;`, `$`, a
/// backtick, line feed or carriage return.
pub open spec fn shell_metachar(c: char) -> bool {
    ||| c == '&'
    ||| c == '|'
    ||| c == ';'
    ||| c == '$'
    ||| c == '`'
    ||| c == '\n'
    ||| c == '\r'
}

/// Executable form of [`forbidden_control`].
pub fn is_forbidden_control(c: char) -> (b: bool)
    ensures
        b == forbidden_control(c),
{
    (c < ' ' || c == '\u{7f}') && c != '\t' && c != '\n'
}

/// Executable form of [`dangerous_unicode`].
pub fn is_dangerous_unicode(c: char) -> (b: bool)
    ensures
        b == dangerous_unicode(c),
{
    ('\u{202a}' <= c && c <= '\u{202e}') || ('\u{200b}' <= c && c <= '\u{200d}') || c == '\u{feff}'
}

/// Executable form of [`identifier_char`].
pub fn is_identifier_char(c: char) -> (b: bool)
    ensures
        b == identifier_char(c),
{
    ('a' <= c && c <= 'z') || ('A' <= c && c <= 'Z') || ('0' <= c && c <= '9') || c == '-' || c
        == '_'
}

/// Executable form of [`shell_metachar`].
pub fn is_shell_metachar(c: char) -> (b: bool)
    ensures
        b == shell_metachar(c),
{
    c == '&' || c == '|' || c == ';' || c == '$' || c == '`' || c == '\n' || c == '\r'
}

/// A rule that a value broke.
#[derive(Debug, Clone, Copy, PartialEq, Eq, Structural)]
pub enum Violation {
    /// The value is empty where a value is required.
    Empty,
    /// The value is longer than `max` bytes.
    TooLong { max: usize },
    /// The value holds U+0000.
    NullByte,
    /// The value holds a control character other than tab and line feed.
    ControlCharacter,
    /// The value holds a character of [`dangerous_unicode`].
    DangerousUnicode,
    /// The value holds a character that an identifier may not hold.
    NotIdentifier,
    /// The value holds the shell metacharacter `ch`.
    DangerousCharacter { ch: char },
    /// The value holds `../` or `..\`, or starts with `..`.
    PathTraversal,
}

/// What is reported when the field called `field` breaks the rule `v`.
pub open spec fn violation_message(field: Seq<char>, v: Violation) -> Seq<char> {
    match v {
        Violation::Empty => field + " cannot be empty"@,
        Violation::TooLong { max } => field + " exceeds maximum length of "@ + decimal_text(
            max as nat,
        ),
        Violation::NullByte => field + " contains null byte"@,
        Violation::ControlCharacter => field + " contains control character"@,
        Violation::DangerousUnicode => field + " contains dangerous Unicode character"@,
        Violation::NotIdentifier => field
            + " can only contain alphanumeric characters, hyphens, and underscores"@,
        Violation::DangerousCharacter { ch } => field + " contains dangerous character: '"@.push(
            ch,
        ).push('\''),
        Violation::PathTraversal => field + " contains path traversal sequence"@,
    }
}

/// The error that reports that the field called `field_name` breaks the rule `v`.
pub fn violation_error(field_name: &str, v: Violation) -> (e: AgwError)
    ensures
        e.has(ErrorKind::Worker, violation_message(field_name@, v)),
{
    let mut m = String::from_str(field_name);
    match v {
        Violation::Empty => {
            m.append(" cannot be empty");
        },
        Violation::TooLong { max } => {
            m.append(" exceeds maximum length of ");
            let digits = decimal(max as u64);
            m.append(digits.as_str());
        },
        Violation::NullByte => {
            m.append(" contains null byte");
        },
        Violation::ControlCharacter => {
            m.append(" contains control character");
        },
        Violation::DangerousUnicode => {
            m.append(" contains dangerous Unicode character");
        },
        Violation::NotIdentifier => {
            m.append(" can only contain alphanumeric characters, hyphens, and underscores");
        },
        Violation::DangerousCharacter { ch } => {
            m.append(" contains dangerous character: '");
            m.push(ch);
            m.push('\'');
        },
        Violation::PathTraversal => {
            m.append(" contains path traversal sequence");
        },
    }
    AgwError::Worker(m)
}

/// Whether some character of `value` is a forbidden control character.
pub open spec fn has_forbidden_control(value: Seq<char>) -> bool {
    exists|i: int| 0 <= i < value.len() && forbidden_control(#[trigger] value[i])
}

/// Whether some character of `value` is one of [`dangerous_unicode`].
pub open spec fn has_dangerous_unicode(value: Seq<char>) -> bool {
    exists|i: int| 0 <= i < value.len() && dangerous_unicode(#[trigger] value[i])
}

/// Whether some character of `value` is not an identifier character.
pub open spec fn has_non_identifier(value: Seq<char>) -> bool {
    exists|i: int| 0 <= i < value.len() && !identifier_char(#[trigger] value[i])
}

/// Whether `c` may stand in a field: in an identifier only identifier
/// characters, elsewhere anything but forbidden control characters and
/// dangerous Unicode.
pub open spec fn field_char_ok(c: char, alphanumeric_only: bool) -> bool {
    if alphanumeric_only {
        identifier_char(c)
    } else {
        !forbidden_control(c) && !dangerous_unicode(c)
    }
}

/// Whether `value` is acceptable as a field of at most `max_len` bytes. An
/// identifier (`alphanumeric_only`) must also be non-empty.
pub open spec fn field_ok(value: Seq<char>, max_len: usize, alphanumeric_only: bool) -> bool {
    &&& alphanumeric_only ==> value.len() > 0
    &&& utf8_len(value) <= max_len
    &&& forall|i: int| 0 <= i < value.len() ==> field_char_ok(#[trigger] value[i], alphanumeric_only)
}

/// The first rule that `value` breaks as a field, in the order in which the
/// rules are checked, if it breaks one.
pub open spec fn field_violation(value: Seq<char>, max_len: usize, alphanumeric_only: bool) -> Option<
    Violation,
> {
    if alphanumeric_only && value.len() == 0 {
        Some(Violation::Empty)
    } else if utf8_len(value) > max_len {
        Some(Violation::TooLong { max: max_len })
    } else if value.contains('\0') {
        Some(Violation::NullByte)
    } else if has_forbidden_control(value) {
        Some(Violation::ControlCharacter)
    } else if has_dangerous_unicode(value) {
        Some(Violation::DangerousUnicode)
    } else if alphanumeric_only && has_non_identifier(value) {
        Some(Violation::NotIdentifier)
    } else {
        None
    }
}

/// A value breaks no rule exactly when it is acceptable.
pub proof fn lemma_field_violation_none(value: Seq<char>, max_len: usize, alphanumeric_only: bool)
    ensures
        field_violation(value, max_len, alphanumeric_only) is None <==> field_ok(
            value,
            max_len,
            alphanumeric_only,
        ),
{
    if field_ok(value, max_len, alphanumeric_only) {
        if value.contains('\0') {
            let i = choose|i: int| 0 <= i < value.len() && value[i] == '\0';
            assert(!field_char_ok(value[i], alphanumeric_only));
        }
    }
    if field_violation(value, max_len, alphanumeric_only) is None {
        assert forall|i: int| 0 <= i < value.len() implies field_char_ok(
            #[trigger] value[i],
            alphanumeric_only,
        ) by {
            if !field_char_ok(value[i], alphanumeric_only) {
                if alphanumeric_only {
                    assert(has_non_identifier(value));
                } else {
                    assert(has_forbidden_control(value) || has_dangerous_unicode(value));
                }
            }
        }
    }
}

/// Checks the length and the characters of one field.
///
/// Lengths are measured in bytes of the UTF-8 encoding. With
/// `alphanumeric_only` the value is an identifier: it must be non-empty and
/// hold only ASCII letters, digits, `-` and `_`. Without it the value is
/// descriptive: it may be empty and may hold tab and line feed, but no other
/// control character and no dangerous Unicode.
///
/// The error names the field and the first broken rule.
pub fn validate_string_field(
    value: &str,
    field_name: &str,
    max_len: usize,
    alphanumeric_only: bool,
) -> (r: AgwResult<()>)
    ensures
        r is Ok <==> field_ok(value@, max_len, alphanumeric_only),
        match field_violation(value@, max_len, alphanumeric_only) {
            None => r is Ok,
            Some(v) => r matches Err(e) && e.has(
                ErrorKind::Worker,
                violation_message(field_name@, v),
            ),
        },
{
    proof {
        lemma_field_violation_none(value@, max_len, alphanumeric_only);
    }
    let chars = chars_of(value);
    if alphanumeric_only && chars.len() == 0 {
        return Err(violation_error(field_name, Violation::Empty));
    }
    if value.as_bytes().len() > max_len {
        return Err(violation_error(field_name, Violation::TooLong { max: max_len }));
    }
    let mut has_null = false;
    let mut has_control = false;
    let mut has_unicode = false;
    let mut has_other = false;
    let mut i: usize = 0;
    while i < chars.len()
        invariant
            i <= chars.len(),
            chars@ == value@,
            has_null == chars@.take(i as int).contains('\0'),
            has_control == has_forbidden_control(chars@.take(i as int)),
            has_unicode == has_dangerous_unicode(chars@.take(i as int)),
            has_other == has_non_identifier(chars@.take(i as int)),
        decreases chars.len() - i,
    {
        let c = chars[i];
        let ghost before = chars@.take(i as int);
        let ghost after = chars@.take(i + 1);
        assert(after =~= before.push(c));
        if c == '\0' {
            has_null = true;
        }
        if is_forbidden_control(c) {
            has_control = true;
        }
        if is_dangerous_unicode(c) {
            has_unicode = true;
        }
        if !is_identifier_char(c) {
            has_other = true;
        }
        proof {
            lemma_push_exists(before, c, after);
        }
        i += 1;
    }
    assert(chars@.take(chars.len() as int) =~= chars@);
    if has_null {
        return Err(violation_error(field_name, Violation::NullByte));
    }
    if has_control {
        return Err(violation_error(field_name, Violation::ControlCharacter));
    }
    if has_unicode {
        return Err(violation_error(field_name, Violation::DangerousUnicode));
    }
    if alphanumeric_only && has_other {
        return Err(violation_error(field_name, Violation::NotIdentifier));
    }
    Ok(())
}

/// How the scans of a sequence follow from those of the sequence without its
/// last character.
proof fn lemma_push_exists(before: Seq<char>, c: char, after: Seq<char>)
    requires
        after == before.push(c),
    ensures
        after.contains('\0') == (before.contains('\0') || c == '\0'),
        has_forbidden_control(after) == (has_forbidden_control(before) || forbidden_control(c)),
        has_dangerous_unicode(after) == (has_dangerous_unicode(before) || dangerous_unicode(c)),
        has_non_identifier(after) == (has_non_identifier(before) || !identifier_char(c)),
{
    let n = before.len() as int;
    assert(after[n] == c);
    assert forall|j: int| 0 <= j < n implies before[j] == after[j] by {}
    if before.contains('\0') {
        let j = choose|j: int| 0 <= j < before.len() && before[j] == '\0';
        assert(after[j] == '\0');
    }
    if after.contains('\0') {
        let j = choose|j: int| 0 <= j < after.len() && after[j] == '\0';
        if j < n {
            assert(before[j] == '\0');
        }
    }
    if has_forbidden_control(before) {
        let j = choose|j: int| 0 <= j < before.len() && forbidden_control(#[trigger] before[j]);
        assert(forbidden_control(after[j]));
    }
    if has_forbidden_control(after) {
        let j = choose|j: int| 0 <= j < after.len() && forbidden_control(#[trigger] after[j]);
        if j < n {
            assert(forbidden_control(before[j]));
        }
    }
    if has_dangerous_unicode(before) {
        let j = choose|j: int| 0 <= j < before.len() && dangerous_unicode(#[trigger] before[j]);
        assert(dangerous_unicode(after[j]));
    }
    if has_dangerous_unicode(after) {
        let j = choose|j: int| 0 <= j < after.len() && dangerous_unicode(#[trigger] after[j]);
        if j < n {
            assert(dangerous_unicode(before[j]));
        }
    }
    if has_non_identifier(before) {
        let j = choose|j: int| 0 <= j < before.len() && !identifier_char(#[trigger] before[j]);
        assert(!identifier_char(after[j]));
    }
    if has_non_identifier(after) {
        let j = choose|j: int| 0 <= j < after.len() && !identifier_char(#[trigger] after[j]);
        if j < n {
            assert(!identifier_char(before[j]));
        }
    }
}

/// Whether some character of `value` is a shell metacharacter.
pub open spec fn has_shell_metachar(value: Seq<char>) -> bool {
    exists|i: int| 0 <= i < value.len() && shell_metachar(#[trigger] value[i])
}

/// Whether `..` followed by `/` or `\` stands in `value` at position `at`.
pub open spec fn traversal_at(value: Seq<char>, at: int) -> bool {
    &&& 0 <= at
    &&& at + 2 < value.len()
    &&& value[at] == '.'
    &&& value[at + 1] == '.'
    &&& (value[at + 2] == '/' || value[at + 2] == '\\')
}

/// Whether `value` starts with `..`.
pub open spec fn starts_with_dot_dot(value: Seq<char>) -> bool {
    value.len() >= 2 && value[0] == '.' && value[1] == '.'
}

/// Whether `value` holds a path traversal: `../` or `..\` anywhere, or `..`
/// at its start. Two dots elsewhere, as in `1..10`, are none.
pub open spec fn has_path_traversal(value: Seq<char>) -> bool {
    starts_with_dot_dot(value) || exists|at: int| traversal_at(value, at)
}

/// Whether `value` is free of shell metacharacters and path traversal.
pub open spec fn pattern_free(value: Seq<char>) -> bool {
    !has_shell_metachar(value) && !has_path_traversal(value)
}

/// The shell metacharacter that is reported for `value`: the first of `&`,
/// `|`, `;`, `$`, backtick, line feed and carriage return, in this order, that
/// `value` holds.
pub open spec fn reported_metachar(value: Seq<char>) -> Option<char> {
    if value.contains('&') {
        Some('&')
    } else if value.contains('|') {
        Some('|')
    } else if value.contains(';') {
        Some(';')
    } else if value.contains('$') {
        Some('$')
    } else if value.contains('`') {
        Some('`')
    } else if value.contains('\n') {
        Some('\n')
    } else if value.contains('\r') {
        Some('\r')
    } else {
        None
    }
}

/// The dangerous pattern that is reported for `value`, if it holds one: a
/// shell metacharacter before a path traversal.
pub open spec fn pattern_violation(value: Seq<char>) -> Option<Violation> {
    match reported_metachar(value) {
        Some(ch) => Some(Violation::DangerousCharacter { ch }),
        None => if has_path_traversal(value) {
            Some(Violation::PathTraversal)
        } else {
            None
        },
    }
}

/// A metacharacter is reported exactly when the value holds one.
pub proof fn lemma_reported_metachar(value: Seq<char>)
    ensures
        reported_metachar(value) is Some <==> has_shell_metachar(value),
        reported_metachar(value) matches Some(ch) ==> shell_metachar(ch) && value.contains(ch),
        pattern_violation(value) is None <==> pattern_free(value),
{
    if has_shell_metachar(value) {
        let i = choose|i: int| 0 <= i < value.len() && shell_metachar(#[trigger] value[i]);
        assert(value.contains(value[i]));
    }
    if let Some(ch) = reported_metachar(value) {
        let i = choose|i: int| 0 <= i < value.len() && value[i] == ch;
        assert(shell_metachar(value[i]));
    }
}

/// Rejects shell metacharacters and path traversal.
///
/// A value is rejected when it holds one of `&`, `|`, `;`, `$`, a backtick,
/// line feed or carriage return, when it holds `../` or `..\`, and when it
/// starts with `..`. The error names the field and the pattern found.
pub fn check_for_dangerous_patterns(value: &str, field_name: &str) -> (r: AgwResult<()>)
    ensures
        r is Ok <==> pattern_free(value@),
        match pattern_violation(value@) {
            None => r is Ok,
            Some(v) => r matches Err(e) && e.has(
                ErrorKind::Worker,
                violation_message(field_name@, v),
            ),
        },
{
    proof {
        lemma_reported_metachar(value@);
    }
    let chars = chars_of(value);
    let n: usize = chars.len();
    let mut seen: [bool; 7] = [false, false, false, false, false, false, false];
    let mut traversal = n >= 2 && chars[0] == '.' && chars[1] == '.';
    let mut i: usize = 0;
    while i < n
        invariant
            i <= n,
            n == chars.len(),
            chars@ == value@,
            seen[0] == chars@.take(i as int).contains('&'),
            seen[1] == chars@.take(i as int).contains('|'),
            seen[2] == chars@.take(i as int).contains(';'),
            seen[3] == chars@.take(i as int).contains('$'),
            seen[4] == chars@.take(i as int).contains('`'),
            seen[5] == chars@.take(i as int).contains('\n'),
            seen[6] == chars@.take(i as int).contains('\r'),
            traversal == (starts_with_dot_dot(chars@) || exists|at: int|
                at < i && traversal_at(chars@, at)),
        decreases n - i,
    {
        let c = chars[i];
        let ghost before = chars@.take(i as int);
        let ghost after = chars@.take(i + 1);
        assert(after =~= before.push(c));
        proof {
            lemma_push_contains(before, c, after);
        }
        if c == '&' {
            seen[0] = true;
        } else if c == '|' {
            seen[1] = true;
        } else if c == ';' {
            seen[2] = true;
        } else if c == '$' {
            seen[3] = true;
        } else if c == '`' {
            seen[4] = true;
        } else if c == '\n' {
            seen[5] = true;
        } else if c == '\r' {
            seen[6] = true;
        }
        if c == '.' && n - i > 2 && chars[i + 1] == '.' && (chars[i + 2] == '/' || chars[i + 2]
            == '\\') {
            assert(traversal_at(chars@, i as int));
            traversal = true;
        }
        i += 1;
    }
    assert(chars@.take(n as int) =~= chars@);
    if seen[0] {
        return Err(violation_error(field_name, Violation::DangerousCharacter { ch: '&' }));
    }
    if seen[1] {
        return Err(violation_error(field_name, Violation::DangerousCharacter { ch: '|' }));
    }
    if seen[2] {
        return Err(violation_error(field_name, Violation::DangerousCharacter { ch: ';' }));
    }
    if seen[3] {
        return Err(violation_error(field_name, Violation::DangerousCharacter { ch: '$' }));
    }
    if seen[4] {
        return Err(violation_error(field_name, Violation::DangerousCharacter { ch: '`' }));
    }
    if seen[5] {
        return Err(violation_error(field_name, Violation::DangerousCharacter { ch: '\n' }));
    }
    if seen[6] {
        return Err(violation_error(field_name, Violation::DangerousCharacter { ch: '\r' }));
    }
    if traversal {
        return Err(violation_error(field_name, Violation::PathTraversal));
    }
    Ok(())
}

/// A sequence holds `x` once `c` is pushed exactly when it held `x` before or `c` is `x`.
proof fn lemma_push_contains(before: Seq<char>, c: char, after: Seq<char>)
    requires
        after == before.push(c),
    ensures
        forall|x: char| #[trigger] after.contains(x) == (before.contains(x) || c == x),
{
    let n = before.len() as int;
    assert(after[n] == c);
    assert forall|x: char| #[trigger] after.contains(x) == (before.contains(x) || c == x) by {
        if before.contains(x) {
            let j = choose|j: int| 0 <= j < before.len() && before[j] == x;
            assert(after[j] == x);
        }
        if after.contains(x) {
            let j = choose|j: int| 0 <= j < after.len() && after[j] == x;
            if j < n {
                assert(before[j] == x);
            }
        }
    }
}

/// Every string that holds a shell metacharacter is rejected.
pub proof fn lemma_metachar_rejected(value: Seq<char>, at: int)
    requires
        0 <= at < value.len(),
        shell_metachar(value[at]),
    ensures
        !pattern_free(value),
{
}

/// Every string that holds `../` or `..\` is rejected.
pub proof fn lemma_traversal_rejected(value: Seq<char>, at: int)
    requires
        0 <= at,
        at + 2 < value.len(),
        value[at] == '.',
        value[at + 1] == '.',
        value[at + 2] == '/' || value[at + 2] == '\\',
    ensures
        !pattern_free(value),
{
    assert(traversal_at(value, at));
}

/// Every string that starts with `..` is rejected.
pub proof fn lemma_leading_dots_rejected(value: Seq<char>)
    requires
        value.len() >= 2,
        value[0] == '.',
        value[1] == '.',
    ensures
        !pattern_free(value),
{
}

/// Two dots that no slash follows, away from the start, are accepted: a value
/// without metacharacters in which every `..` stands after the start and
/// before something other than `/` and `\` is free of dangerous patterns.
pub proof fn lemma_inner_dots_accepted(value: Seq<char>)
    requires
        !has_shell_metachar(value),
        !starts_with_dot_dot(value),
        forall|at: int|
            0 <= at && at + 2 < value.len() && value[at] == '.' && #[trigger] value[at + 1] == '.'
                ==> value[at + 2] != '/' && value[at + 2] != '\\',
    ensures
        pattern_free(value),
{
    assert forall|at: int| !traversal_at(value, at) by {
        if traversal_at(value, at) {
            assert(value[at + 1] == '.');
        }
    }
}

} // verus!
