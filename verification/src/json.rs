//! What the worker reads from a JSON value.
//!
//! A job's input is an arbitrary JSON value. The worker only ever asks it for
//! the member stored under a name, and only tells apart what can be written
//! into a command line from what cannot.

use vstd::prelude::*;

verus! {

/// A JSON value of `serde_json`, carried through without looking inside.
#[verifier::external_type_specification]
#[verifier::external_body]
pub struct ExJsonValue(serde_json::Value);

/// What a JSON value holds under one name.
#[derive(Debug, Clone, PartialEq, Eq)]
pub enum Member {
    /// The value is no object, or the object has no such member.
    Missing,
    /// A string.
    Text(String),
    /// A number, in the text form in which `serde_json` displays it.
    Number(String),
    /// `true` or `false`.
    Bool(bool),
    /// `null`.
    Null,
    /// An array or an object.
    Unsupported,
}

/// The mathematical counterpart of a [`Member`].
pub enum MemberView {
    Missing,
    Text(Seq<char>),
    Number(Seq<char>),
    Bool(bool),
    Null,
    Unsupported,
}

impl View for Member {
    type V = MemberView;

    open spec fn view(&self) -> MemberView {
        match self {
            Member::Missing => MemberView::Missing,
            Member::Text(s) => MemberView::Text(s@),
            Member::Number(s) => MemberView::Number(s@),
            Member::Bool(b) => MemberView::Bool(*b),
            Member::Null => MemberView::Null,
            Member::Unsupported => MemberView::Unsupported,
        }
    }
}

/// The members of a JSON object, by name. A value that is no object has none.
pub uninterp spec fn json_members(value: serde_json::Value) -> Map<Seq<char>, MemberView>;

/// `serde_json::Value::clone` copies a value with everything in it: the copy
/// has the members of the value it was made from.
pub assume_specification[ <serde_json::Value as Clone>::clone ](value: &serde_json::Value) -> (copy:
    serde_json::Value)
    ensures
        json_members(copy) == json_members(*value),
;

/// What `members` holds under `name`.
pub open spec fn member_of(members: Map<Seq<char>, MemberView>, name: Seq<char>) -> MemberView {
    if members.dom().contains(name) {
        members[name]
    } else {
        MemberView::Missing
    }
}

/// `serde_json::Value::get` with a string index returns the member stored
/// under that name when the value is an object that has one, and nothing
/// otherwise. The member is handed out as string, number (as
/// `serde_json::Number` displays it), boolean, null, or as unsupported when it
/// is an array or an object.
#[verifier::external_body]
pub(crate) fn lookup(input: &serde_json::Value, name: &str) -> (member: Member)
    ensures
        member@ == member_of(json_members(*input), name@),
{
    match input.get(name) {
        None => Member::Missing,
        Some(serde_json::Value::String(s)) => Member::Text(s.clone()),
        Some(serde_json::Value::Number(n)) => Member::Number(n.to_string()),
        Some(serde_json::Value::Bool(b)) => Member::Bool(*b),
        Some(serde_json::Value::Null) => Member::Null,
        Some(serde_json::Value::Array(_)) => Member::Unsupported,
        Some(serde_json::Value::Object(_)) => Member::Unsupported,
    }
}

} // verus!
