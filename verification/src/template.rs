//! Placeholders of the form `{{input.NAME}}` and their replacement.
//!
//! NAME is a non-empty run of ASCII letters, digits and `_`. A placeholder is
//! replaced by the text of the input member called NAME: a string as it is, a
//! number in its usual text form, a boolean as `true` or `false`, `null` as
//! nothing. Text between placeholders stays as it is, and what was put in is
//! not looked at again.

use crate::error::{AgwError, AgwResult, ErrorKind};
use crate::json::{json_members, lookup, member_of, Member, MemberView};
use crate::text::{chars_of, join, joined, string_of_range, views_of};
use vstd::prelude::*;

verus! {

/// A character of a placeholder's name: an ASCII letter or digit, or `_`.
pub open spec fn name_char(c: char) -> bool {
    ||| 'a' <= c <= 'z'
    ||| 'A' <= c <= 'Z'
    ||| '0' <= c <= '9'
    ||| c == '_'
}

/// Executable form of [`name_char`].
pub fn is_name_char(c: char) -> (b: bool)
    ensures
        b == name_char(c),
{
    ('a' <= c && c <= 'z') || ('A' <= c && c <= 'Z') || ('0' <= c && c <= '9') || c == '_'
}

/// Number of characters of `{{input.`, which opens a placeholder.
pub const OPENING_LEN: usize = 8;

/// Whether `{{input.` stands in `text` at position `at`.
pub open spec fn opens_at(text: Seq<char>, at: int) -> bool {
    &&& 0 <= at
    &&& at + OPENING_LEN <= text.len()
    &&& text[at] == '{'
    &&& text[at + 1] == '{'
    &&& text[at + 2] == 'i'
    &&& text[at + 3] == 'n'
    &&& text[at + 4] == 'p'
    &&& text[at + 5] == 'u'
    &&& text[at + 6] == 't'
    &&& text[at + 7] == '.'
}

/// The first position from `from` on that holds no name character, or the
/// length of `text` if there is none.
pub open spec fn name_end(text: Seq<char>, from: int) -> int
    decreases text.len() - from,
{
    if 0 <= from < text.len() && name_char(text[from]) {
        name_end(text, from + 1)
    } else {
        from
    }
}

/// Where the name of the placeholder that starts at `at` stops, if a
/// placeholder starts there: `{{input.`, then a non-empty name, then `}}`.
pub open spec fn name_stop(text: Seq<char>, at: int) -> Option<int> {
    let stop = name_end(text, at + OPENING_LEN);
    if opens_at(text, at) && stop > at + OPENING_LEN && stop + 2 <= text.len() && text[stop] == '}'
        && text[stop + 1] == '}' {
        Some(stop)
    } else {
        None
    }
}

/// The placeholders of `text` from position `from` on, in order, each as the
/// position where it starts and the position where its name stops.
pub open spec fn spans(text: Seq<char>, from: int) -> Seq<(int, int)>
    decreases text.len() - from,
{
    if from < 0 || from >= text.len() {
        Seq::empty()
    } else {
        match name_stop(text, from) {
            Some(stop) => seq![(from, stop)] + spans(text, stop + 2),
            None => spans(text, from + 1),
        }
    }
}

/// The name of the placeholder `span` of `text`.
pub open spec fn span_name(text: Seq<char>, span: (int, int)) -> Seq<char> {
    text.subrange(span.0 + OPENING_LEN, span.1)
}

/// The names of the placeholders of `text`, in order, repeated as often as they occur.
pub open spec fn referenced_names(text: Seq<char>) -> Seq<Seq<char>> {
    spans(text, 0).map_values(|span: (int, int)| span_name(text, span))
}

/// Whether the placeholders `found` lie in `text` one after the other, from
/// position `from` on and before position `upto`.
pub open spec fn spans_in_order(text: Seq<char>, found: Seq<(int, int)>, from: int, upto: int) -> bool {
    &&& forall|j: int|
        #![trigger found[j]]
        0 <= j < found.len() ==> from <= found[j].0 && found[j].0 + OPENING_LEN < found[j].1
            && found[j].1 + 2 <= upto
    &&& forall|j: int|
        #![trigger found[j]]
        0 < j < found.len() ==> found[j - 1].1 + 2 <= found[j].0
    &&& upto <= text.len()
}

/// The placeholders of a text lie in it one after the other.
pub proof fn lemma_spans_in_order(text: Seq<char>, from: int)
    requires
        0 <= from,
    ensures
        spans_in_order(text, spans(text, from), from, text.len() as int),
    decreases text.len() - from,
{
    if from >= text.len() {
    } else {
        match name_stop(text, from) {
            Some(stop) => {
                lemma_spans_in_order(text, stop + 2);
                let rest = spans(text, stop + 2);
                let all = spans(text, from);
                assert forall|j: int| #![trigger all[j]] 0 <= j < all.len() implies from
                    <= all[j].0 && all[j].0 + OPENING_LEN < all[j].1 && all[j].1 + 2
                    <= text.len() by {
                    if j > 0 {
                        assert(all[j] == rest[j - 1]);
                    }
                }
                assert forall|j: int| #![trigger all[j]] 0 < j < all.len() implies all[j - 1].1
                    + 2 <= all[j].0 by {
                    if j > 1 {
                        assert(all[j - 1] == rest[j - 2]);
                    }
                }
            },
            None => {
                lemma_spans_in_order(text, from + 1);
            },
        }
    }
}

/// A placeholder found in a text.
#[derive(Debug, Clone, Copy, PartialEq, Eq, Structural)]
pub struct Span {
    /// Where the placeholder starts.
    pub start: usize,
    /// Where its name stops; the closing braces follow.
    pub stop: usize,
}

/// The placeholders as pairs of positions.
pub open spec fn span_pairs(found: Seq<Span>) -> Seq<(int, int)> {
    found.map_values(|span: Span| (span.start as int, span.stop as int))
}

/// Finds the placeholders of `text`, in order.
pub fn find_placeholders(text: &Vec<char>) -> (found: Vec<Span>)
    ensures
        span_pairs(found@) == spans(text@, 0),
        spans_in_order(text@, span_pairs(found@), 0, text.len() as int),
{
    let n: usize = text.len();
    let mut found: Vec<Span> = Vec::new();
    let mut at: usize = 0;
    while at < n
        invariant
            at <= n,
            n == text.len(),
            spans(text@, 0) == span_pairs(found@) + spans(text@, at as int),
        decreases n - at,
    {
        let mut next: usize = at + 1;
        if n - at > OPENING_LEN && text[at] == '{' && text[at + 1] == '{' && text[at + 2] == 'i'
            && text[at + 3] == 'n' && text[at + 4] == 'p' && text[at + 5] == 'u' && text[at + 6]
            == 't' && text[at + 7] == '.' {
            let mut stop: usize = at + OPENING_LEN;
            while stop < n && is_name_char(text[stop])
                invariant
                    at + OPENING_LEN <= stop <= n,
                    n == text.len(),
                    name_end(text@, at + OPENING_LEN) == name_end(text@, stop as int),
                decreases n - stop,
            {
                stop += 1;
            }
            if stop > at + OPENING_LEN && n - stop >= 2 && text[stop] == '}' && text[stop + 1]
                == '}' {
                found.push(Span { start: at, stop });
                next = stop + 2;
                proof {
                    assert(spans(text@, 0) =~= span_pairs(found@) + spans(text@, next as int));
                }
            } else {
                assert(name_stop(text@, at as int) is None);
            }
        } else {
            assert(name_stop(text@, at as int) is None);
        }
        at = next;
    }
    proof {
        lemma_spans_in_order(text@, 0);
    }
    found
}

/// The names of the placeholders of `text`, in order, repeated as often as they occur.
pub fn placeholder_names(text: &str) -> (names: Vec<String>)
    ensures
        views_of(names@) == referenced_names(text@),
{
    let chars = chars_of(text);
    let found = find_placeholders(&chars);
    let mut names: Vec<String> = Vec::new();
    let mut j: usize = 0;
    while j < found.len()
        invariant
            j <= found.len(),
            chars@ == text@,
            span_pairs(found@) == spans(text@, 0),
            spans_in_order(text@, span_pairs(found@), 0, chars.len() as int),
            views_of(names@) == referenced_names(text@).take(j as int),
        decreases found.len() - j,
    {
        let span = found[j];
        assert(span_pairs(found@)[j as int] == (span.start as int, span.stop as int));
        let name = string_of_range(&chars, span.start + OPENING_LEN, span.stop);
        names.push(name);
        proof {
            assert(referenced_names(text@).take(j + 1) =~= referenced_names(text@).take(
                j as int,
            ).push(referenced_names(text@)[j as int]));
        }
        j += 1;
    }
    names
}

/// What is written in place of a placeholder whose member is `member`.
pub open spec fn member_text(member: MemberView) -> Seq<char> {
    match member {
        MemberView::Text(s) => s,
        MemberView::Number(s) => s,
        MemberView::Bool(b) => if b {
            "true"@
        } else {
            "false"@
        },
        MemberView::Null => Seq::empty(),
        MemberView::Missing => Seq::empty(),
        MemberView::Unsupported => Seq::empty(),
    }
}

/// Whether `member` can be written into a text: a string, a number, a
/// boolean or `null`.
pub open spec fn substitutable(member: MemberView) -> bool {
    !(member is Missing) && !(member is Unsupported)
}

/// The views of the members in `members`.
pub open spec fn member_views(members: Seq<Member>) -> Seq<MemberView> {
    members.map_values(|m: Member| m@)
}

/// The member for the placeholder number `k`: `values[k]`, and a missing one
/// where `values` is too short.
pub open spec fn value_at(values: Seq<MemberView>, k: int) -> MemberView {
    if 0 <= k < values.len() {
        values[k]
    } else {
        MemberView::Missing
    }
}

/// Where the text after placeholder number `k - 1` starts: at 0 for `k == 0`.
pub open spec fn cursor_after(found: Seq<(int, int)>, k: int) -> int {
    if k <= 0 {
        0
    } else {
        found[k - 1].1 + 2
    }
}

/// `text` up to the end of its placeholder number `k - 1`, with each
/// placeholder replaced by the text of its member.
pub open spec fn expanded_upto(
    text: Seq<char>,
    found: Seq<(int, int)>,
    values: Seq<MemberView>,
    k: int,
) -> Seq<char>
    decreases k,
{
    if k <= 0 {
        Seq::empty()
    } else {
        expanded_upto(text, found, values, k - 1) + text.subrange(
            cursor_after(found, k - 1),
            found[k - 1].0,
        ) + member_text(value_at(values, k - 1))
    }
}

/// `text` with each placeholder replaced by the text of its member, the
/// member of the `k`-th placeholder being `values[k]`.
pub open spec fn expanded(text: Seq<char>, values: Seq<MemberView>) -> Seq<char> {
    let found = spans(text, 0);
    expanded_upto(text, found, values, found.len() as int) + text.subrange(
        cursor_after(found, found.len() as int),
        text.len() as int,
    )
}

/// The names among the first `k` of `names` whose member is missing.
pub open spec fn missing_upto(names: Seq<Seq<char>>, values: Seq<MemberView>, k: int) -> Seq<
    Seq<char>,
>
    decreases k,
{
    if k <= 0 {
        Seq::empty()
    } else if value_at(values, k - 1) is Missing {
        missing_upto(names, values, k - 1).push(names[k - 1])
    } else {
        missing_upto(names, values, k - 1)
    }
}

/// Whether placeholder number `k` is the first whose member is an array or an object.
pub open spec fn first_unsupported(count: int, values: Seq<MemberView>, k: int) -> bool {
    &&& 0 <= k < count
    &&& value_at(values, k) is Unsupported
    &&& forall|j: int| 0 <= j < k ==> !(#[trigger] value_at(values, j) is Unsupported)
}

/// What is reported for a member that is an array or an object.
pub open spec fn unsupported_message(name: Seq<char>) -> Seq<char> {
    "Input field '"@ + name + "' has unsupported type (must be string, number, or boolean)"@
}

/// What is reported for members that are missing.
pub open spec fn missing_message(names: Seq<Seq<char>>) -> Seq<char> {
    "Missing required input fields: "@ + joined(names, ", "@)
}

/// Whether `message` is what is reported when `text` cannot be expanded with
/// `values`: the first member that is an array or an object, and where there
/// is none, all the names whose member is missing.
pub open spec fn expansion_rejected_with(
    text: Seq<char>,
    values: Seq<MemberView>,
    message: Seq<char>,
) -> bool {
    let names = referenced_names(text);
    let count = names.len() as int;
    if exists|k: int| first_unsupported(count, values, k) {
        exists|k: int|
            #![trigger first_unsupported(count, values, k)]
            first_unsupported(count, values, k) && message == unsupported_message(names[k])
    } else {
        missing_upto(names, values, count).len() > 0 && message == missing_message(
            missing_upto(names, values, count),
        )
    }
}

/// Whether every placeholder of `text` has a member in `values` that can be
/// written into a text.
pub open spec fn expandable(text: Seq<char>, values: Seq<MemberView>) -> bool {
    forall|k: int|
        0 <= k < spans(text, 0).len() ==> substitutable(#[trigger] value_at(values, k))
}

/// No name is missing among the first `k` exactly when none of the first `k`
/// members is missing.
pub proof fn lemma_missing_upto_empty(names: Seq<Seq<char>>, values: Seq<MemberView>, k: int)
    ensures
        missing_upto(names, values, k).len() == 0 <==> forall|j: int|
            0 <= j < k ==> !(#[trigger] value_at(values, j) is Missing),
    decreases k,
{
    if k > 0 {
        lemma_missing_upto_empty(names, values, k - 1);
    }
}

/// The text of `member`.
fn text_of(member: &Member) -> (s: String)
    ensures
        s@ == member_text(member@),
{
    match member {
        Member::Text(s) => s.clone(),
        Member::Number(s) => s.clone(),
        Member::Bool(b) => if *b {
            String::from_str("true")
        } else {
            String::from_str("false")
        },
        Member::Null => String::new(),
        Member::Missing => String::new(),
        Member::Unsupported => String::new(),
    }
}

/// Replaces the placeholders of `text`, the `k`-th of them by `members[k]`.
///
/// Succeeds exactly when every placeholder has a member that is a string, a
/// number, a boolean or `null`. A placeholder without a member in `members`
/// counts as missing. The first member that is an array or an object is
/// reported under the placeholder's name; where there is none, the names of
/// all missing members are reported together.
pub fn expand(text: &str, members: &Vec<Member>) -> (r: AgwResult<String>)
    ensures
        r is Ok <==> expandable(text@, member_views(members@)),
        r matches Ok(out) ==> out@ == expanded(text@, member_views(members@)),
        r matches Err(e) ==> e.kind() == ErrorKind::Worker && expansion_rejected_with(
            text@,
            member_views(members@),
            e.detail(),
        ),
{
    let chars = chars_of(text);
    let found = find_placeholders(&chars);
    let ghost values = member_views(members@);
    let ghost pairs = spans(text@, 0);
    let ghost names = referenced_names(text@);
    let ghost count = pairs.len() as int;
    let mut out = String::new();
    let mut missing: Vec<String> = Vec::new();
    let mut cursor: usize = 0;
    let mut k: usize = 0;
    while k < found.len()
        invariant
            k <= found.len(),
            chars@ == text@,
            values == member_views(members@),
            pairs == spans(text@, 0),
            names == referenced_names(text@),
            count == pairs.len(),
            span_pairs(found@) == pairs,
            spans_in_order(text@, pairs, 0, chars.len() as int),
            cursor == cursor_after(pairs, k as int),
            cursor <= chars.len(),
            out@ == expanded_upto(text@, pairs, values, k as int),
            views_of(missing@) == missing_upto(names, values, k as int),
            forall|j: int| 0 <= j < k ==> !(#[trigger] value_at(values, j) is Unsupported),
        decreases found.len() - k,
    {
        let span = found[k];
        assert(k > 0 ==> pairs[k - 1].1 + 2 <= pairs[k as int].0);
        let name = string_of_range(&chars, span.start + OPENING_LEN, span.stop);
        let between = string_of_range(&chars, cursor, span.start);
        out.append(between.as_str());
        if k < members.len() {
            let member = &members[k];
            match member {
                Member::Unsupported => {
                    let mut m = String::from_str("Input field '");
                    m.append(name.as_str());
                    m.append("' has unsupported type (must be string, number, or boolean)");
                    proof {
                        assert(first_unsupported(count, values, k as int));
                        assert forall|i: int| first_unsupported(count, values, i) implies i
                            == k by {
                            if i < k {
                                assert(!(value_at(values, i) is Unsupported));
                            }
                            if i > k {
                                assert(!(value_at(values, k as int) is Unsupported));
                            }
                        }
                    }
                    return Err(AgwError::Worker(m));
                },
                Member::Missing => {
                    missing.push(name);
                },
                _ => {
                    let value = text_of(member);
                    out.append(value.as_str());
                },
            }
        } else {
            missing.push(name);
        }
        cursor = span.stop + 2;
        k += 1;
    }
    let rest = string_of_range(&chars, cursor, chars.len());
    out.append(rest.as_str());
    proof {
        lemma_missing_upto_empty(names, values, count);
    }
    if missing.len() > 0 {
        let mut m = String::from_str("Missing required input fields: ");
        let list = join(&missing, ", ");
        m.append(list.as_str());
        proof {
            let j = choose|j: int| 0 <= j < count && #[trigger] value_at(values, j) is Missing;
            assert(!substitutable(value_at(values, j)));
        }
        return Err(AgwError::Worker(m));
    }
    Ok(out)
}

/// The members that `members` holds under each of `names`, in the same order.
pub open spec fn resolved(names: Seq<Seq<char>>, members: Map<Seq<char>, MemberView>) -> Seq<
    MemberView,
> {
    names.map_values(|name: Seq<char>| member_of(members, name))
}

/// Looks up each of `names` in `input`.
pub fn resolve(names: &Vec<String>, input: &serde_json::Value) -> (members: Vec<Member>)
    ensures
        member_views(members@) == resolved(views_of(names@), json_members(*input)),
{
    let mut members: Vec<Member> = Vec::new();
    let mut k: usize = 0;
    while k < names.len()
        invariant
            k <= names.len(),
            member_views(members@) == resolved(views_of(names@), json_members(*input)).take(
                k as int,
            ),
        decreases names.len() - k,
    {
        let member = lookup(input, names[k].as_str());
        members.push(member);
        proof {
            let all = resolved(views_of(names@), json_members(*input));
            assert(all.take(k + 1) =~= all.take(k as int).push(all[k as int]));
        }
        k += 1;
    }
    members
}

/// The members of `input` for the placeholders of `text`, in order.
pub open spec fn input_values(text: Seq<char>, input: serde_json::Value) -> Seq<MemberView> {
    resolved(referenced_names(text), json_members(input))
}

/// Replaces every `{{input.NAME}}` in `text` by the member of `input` called NAME.
///
/// Succeeds exactly when `input` is an object that holds, for every
/// placeholder, a string, a number, a boolean or `null`. Otherwise the first
/// member that is an array or an object is reported, and where there is none,
/// the names of all missing members.
pub fn substitute_variables(text: &str, input: &serde_json::Value) -> (r: AgwResult<String>)
    ensures
        r is Ok <==> expandable(text@, input_values(text@, *input)),
        r matches Ok(out) ==> out@ == expanded(text@, input_values(text@, *input)),
        r matches Err(e) ==> e.kind() == ErrorKind::Worker && expansion_rejected_with(
            text@,
            input_values(text@, *input),
            e.detail(),
        ),
{
    let names = placeholder_names(text);
    let members = resolve(&names, input);
    expand(text, &members)
}

/// A character of either part occurs in the two parts put together.
proof fn lemma_concat_contains(left: Seq<char>, right: Seq<char>, c: char)
    requires
        left.contains(c) || right.contains(c),
    ensures
        (left + right).contains(c),
{
    if left.contains(c) {
        let i = choose|i: int| 0 <= i < left.len() && left[i] == c;
        assert((left + right)[i] == c);
    } else {
        let i = choose|i: int| 0 <= i < right.len() && right[i] == c;
        assert((left + right)[left.len() + i] == c);
    }
}

/// What was written for placeholder number `k` is still there once more
/// placeholders have been replaced.
proof fn lemma_expanded_upto_keeps(
    text: Seq<char>,
    found: Seq<(int, int)>,
    values: Seq<MemberView>,
    k: int,
    upto: int,
    c: char,
)
    requires
        0 <= k < upto,
        member_text(value_at(values, k)).contains(c),
    ensures
        expanded_upto(text, found, values, upto).contains(c),
    decreases upto,
{
    let before = expanded_upto(text, found, values, upto - 1);
    let between = text.subrange(cursor_after(found, upto - 1), found[upto - 1].0);
    let written = member_text(value_at(values, upto - 1));
    if upto - 1 == k {
        lemma_concat_contains(before + between, written, c);
    } else {
        lemma_expanded_upto_keeps(text, found, values, k, upto - 1, c);
        lemma_concat_contains(before, between, c);
        lemma_concat_contains(before + between, written, c);
    }
}

/// Every character of every member that is written into a text occurs in
/// the result: a replacement hides nothing of what it puts in.
pub proof fn lemma_expanded_holds_value(text: Seq<char>, values: Seq<MemberView>, k: int, c: char)
    requires
        0 <= k < spans(text, 0).len(),
        member_text(value_at(values, k)).contains(c),
    ensures
        expanded(text, values).contains(c),
{
    let found = spans(text, 0);
    let count = found.len() as int;
    lemma_expanded_upto_keeps(text, found, values, k, count, c);
    lemma_concat_contains(
        expanded_upto(text, found, values, count),
        text.subrange(cursor_after(found, count), text.len() as int),
        c,
    );
}

/// A text without an opening brace has no placeholder and expands to itself.
pub proof fn lemma_no_brace_no_placeholder(text: Seq<char>, values: Seq<MemberView>)
    requires
        !text.contains('{'),
    ensures
        spans(text, 0).len() == 0,
        expanded(text, values) == text,
{
    lemma_no_brace_no_span(text, 0);
}

/// A text without an opening brace has no placeholder from any position on.
proof fn lemma_no_brace_no_span(text: Seq<char>, from: int)
    requires
        !text.contains('{'),
        0 <= from,
    ensures
        spans(text, from).len() == 0,
    decreases text.len() - from,
{
    if from < text.len() {
        lemma_no_brace_no_span(text, from + 1);
    }
}

} // verus!
