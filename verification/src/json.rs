//! JSON values of `serde_json`: what they hold, and how they are read and built.

use crate::text::{decimal, decimals_are_distinct, decimals_can_be_read_back};
use vstd::prelude::*;

verus! {

/// `serde_json::Value`.
#[verifier::external_type_specification]
#[verifier::external_body]
pub struct ExValue(serde_json::Value);

/// What a JSON value holds.
pub enum JsonView {
    Null,
    Bool(bool),
    /// An integer from zero up.
    PosInt(u64),
    /// An integer below zero.
    NegInt(i64),
    /// Any other number, by the bits of its double.
    Fraction(u64),
    Text(Seq<char>),
    Array(Seq<JsonView>),
    Object(Map<Seq<char>, JsonView>),
}

/// What a `serde_json::Value` holds: a tree of objects, arrays and plain values.
pub uninterp spec fn json(value: serde_json::Value) -> JsonView;

/// The compact text that `serde_json` writes for a JSON value.
pub uninterp spec fn json_text(value: JsonView) -> Seq<char>;

// ---- reading ----

/// The member `key` of an object.
pub open spec fn member(value: JsonView, key: Seq<char>) -> Option<JsonView> {
    match value {
        JsonView::Object(members) => if members.dom().contains(key) {
            Some(members[key])
        } else {
            None
        },
        _ => None,
    }
}

/// The text that is there, if what is there is text.
pub open spec fn text_in(value: Option<JsonView>) -> Option<Seq<char>> {
    match value {
        Some(JsonView::Text(text)) => Some(text),
        _ => None,
    }
}

/// The integer from zero up that is there, if what is there is one.
pub open spec fn int_in(value: Option<JsonView>) -> Option<u64> {
    match value {
        Some(JsonView::PosInt(n)) => Some(n),
        _ => None,
    }
}

/// `Value::get` with a text index finds a member of an object; there is none in any other value.
#[verifier::external_body]
fn get<'a>(value: &'a serde_json::Value, key: &str) -> (found: Option<&'a serde_json::Value>)
    ensures
        match found {
            Some(inner) => member(json(*value), key@) == Some(json(*inner)),
            None => member(json(*value), key@) is None,
        },
{
    value.get(key)
}

/// `Value::as_str` gives the text of a text value, and nothing for any other value.
pub assume_specification<'a>[ serde_json::Value::as_str ](value: &'a serde_json::Value) -> (text:
    Option<&'a str>)
    ensures
        match text {
            Some(s) => json(*value) == JsonView::Text(s@),
            None => !(json(*value) is Text),
        },
;

/// `Value::as_u64` gives an integer from zero up, and nothing for any other value.
pub assume_specification[ serde_json::Value::as_u64 ](value: &serde_json::Value) -> (number: Option<
    u64,
>)
    ensures
        match number {
            Some(n) => json(*value) == JsonView::PosInt(n),
            None => !(json(*value) is PosInt),
        },
;

/// One step of a pointer: a member of an object by its name, an item of an array by its decimal
/// index.
pub open spec fn step(value: JsonView, token: Seq<char>) -> Option<JsonView> {
    match value {
        JsonView::Array(items) => if exists|i: nat| i < items.len() && #[trigger] decimal(i) == token {
            Some(items[(choose|i: nat| i < items.len() && #[trigger] decimal(i) == token) as int])
        } else {
            None
        },
        _ => member(value, token),
    }
}

/// The value to which `tokens` lead from `value`, step by step.
pub open spec fn at(value: JsonView, tokens: Seq<Seq<char>>) -> Option<JsonView>
    decreases tokens.len(),
{
    if tokens.len() == 0 {
        Some(value)
    } else {
        match step(value, tokens.first()) {
            Some(inner) => at(inner, tokens.drop_first()),
            None => None,
        }
    }
}

/// The JSON Pointer that is made of `tokens`.
pub open spec fn pointer_path(tokens: Seq<Seq<char>>) -> Seq<char>
    decreases tokens.len(),
{
    if tokens.len() == 0 {
        Seq::empty()
    } else {
        seq!['/'] + tokens.first() + pointer_path(tokens.drop_first())
    }
}

/// None of `tokens` holds a character that a JSON Pointer escapes.
pub open spec fn plain(tokens: Seq<Seq<char>>) -> bool {
    forall|i: int, j: int|
        0 <= i < tokens.len() && 0 <= j < tokens[i].len() ==> (#[trigger] tokens[i][j]) != '/' && tokens[i][j]
            != '~'
}

/// `Value::pointer` follows a JSON Pointer. This says where a pointer without escapes leads; of
/// pointers with escapes it says nothing.
#[verifier::external_body]
fn pointer<'a>(value: &'a serde_json::Value, path: &str) -> (found: Option<&'a serde_json::Value>)
    ensures
        forall|tokens: Seq<Seq<char>>|
            plain(tokens) && path@ == #[trigger] pointer_path(tokens) ==> match found {
                Some(inner) => at(json(*value), tokens) == Some(json(*inner)),
                None => at(json(*value), tokens) is None,
            },
{
    value.pointer(path)
}

/// The text of the member `key`.
pub(crate) fn text_member(value: &serde_json::Value, key: &str) -> (text: Option<String>)
    ensures
        match text {
            Some(s) => text_in(member(json(*value), key@)) == Some(s@),
            None => text_in(member(json(*value), key@)) is None,
        },
{
    match get(value, key) {
        Some(inner) => match inner.as_str() {
            Some(s) => Some(s.to_owned()),
            None => None,
        },
        None => None,
    }
}

/// The integer from zero up in the member `key`.
pub(crate) fn int_member(value: &serde_json::Value, key: &str) -> (number: Option<u64>)
    ensures
        number == int_in(member(json(*value), key@)),
{
    match get(value, key) {
        Some(inner) => inner.as_u64(),
        None => None,
    }
}

/// The text to which the JSON Pointer `path` leads.
pub(crate) fn text_at(value: &serde_json::Value, path: &str) -> (text: Option<String>)
    ensures
        forall|tokens: Seq<Seq<char>>|
            plain(tokens) && path@ == #[trigger] pointer_path(tokens) ==> match text {
                Some(s) => text_in(at(json(*value), tokens)) == Some(s@),
                None => text_in(at(json(*value), tokens)) is None,
            },
{
    match pointer(value, path) {
        Some(inner) => match inner.as_str() {
            Some(s) => Some(s.to_owned()),
            None => None,
        },
        None => None,
    }
}

/// The integer from zero up to which the JSON Pointer `path` leads.
pub(crate) fn int_at(value: &serde_json::Value, path: &str) -> (number: Option<u64>)
    ensures
        forall|tokens: Seq<Seq<char>>|
            plain(tokens) && path@ == #[trigger] pointer_path(tokens) ==> number == int_in(
                at(json(*value), tokens),
            ),
{
    match pointer(value, path) {
        Some(inner) => inner.as_u64(),
        None => None,
    }
}

// ---- building ----

/// `Value::Object` around `Map::new` is an object without members.
#[verifier::external_body]
pub(crate) fn empty_object() -> (value: serde_json::Value)
    ensures
        json(value) == JsonView::Object(Map::empty()),
{
    serde_json::Value::Object(serde_json::Map::new())
}

/// Assigning to an object by a text index (`IndexMut` of `Value`) sets that member and leaves the
/// others. It panics on a value that is neither an object nor null.
#[verifier::external_body]
pub(crate) fn set_member(object: &mut serde_json::Value, key: &str, item: serde_json::Value)
    requires
        json(*old(object)) is Object,
    ensures
        json(*final(object)) == JsonView::Object(
            json(*old(object))->Object_0.insert(key@, json(item)),
        ),
{
    object[key] = item;
}

/// `Value::from` of text is that text.
#[verifier::external_body]
pub(crate) fn text_value(text: &str) -> (value: serde_json::Value)
    ensures
        json(value) == JsonView::Text(text@),
{
    serde_json::Value::from(text)
}

/// `Value::from` of an unsigned integer is that integer.
#[verifier::external_body]
pub(crate) fn int_value(number: u64) -> (value: serde_json::Value)
    ensures
        json(value) == JsonView::PosInt(number),
{
    serde_json::Value::from(number)
}

/// `Value::from` of a `bool` is that `bool`.
#[verifier::external_body]
pub(crate) fn bool_value(yes: bool) -> (value: serde_json::Value)
    ensures
        json(value) == JsonView::Bool(yes),
{
    serde_json::Value::from(yes)
}

/// `Value::from` of a list of values is the array of those values.
#[verifier::external_body]
pub(crate) fn array_value(items: Vec<serde_json::Value>) -> (value: serde_json::Value)
    ensures
        json(value) == JsonView::Array(items@.map_values(|item: serde_json::Value| json(item))),
{
    serde_json::Value::from(items)
}

/// `to_string` of a `Value` is its compact text, which depends on nothing but what the value holds.
#[verifier::external_body]
pub(crate) fn to_text(value: &serde_json::Value) -> (text: String)
    ensures
        text@ == json_text(json(*value)),
{
    value.to_string()
}

// ---- laws ----

/// A member of an object is what stands under its name, and nothing but an object has members.
pub proof fn members_stand_under_their_names(
    members: Map<Seq<char>, JsonView>,
    key: Seq<char>,
    other: JsonView,
)
    requires
        !(other is Object),
    ensures
        members.dom().contains(key) ==> member(JsonView::Object(members), key) == Some(members[key]),
        !members.dom().contains(key) ==> member(JsonView::Object(members), key) is None,
        member(other, key) is None,
{
}

/// Only a text is read as text, and only an integer from zero up as an integer; both as they are.
pub proof fn values_are_read_as_what_they_are(text: Seq<char>, n: u64, value: JsonView)
    ensures
        text_in(Some(JsonView::Text(text))) == Some(text),
        int_in(Some(JsonView::PosInt(n))) == Some(n),
        !(value is Text) ==> text_in(Some(value)) is None,
        !(value is PosInt) ==> int_in(Some(value)) is None,
        text_in(None) is None,
        int_in(None) is None,
{
}

/// The index of an item in decimal notation leads to that item of an array.
pub proof fn indices_lead_to_their_items(items: Seq<JsonView>, i: nat)
    ensures
        i < items.len() ==> step(JsonView::Array(items), decimal(i)) == Some(items[i as int]),
        i >= items.len() ==> step(JsonView::Array(items), decimal(i)) is None,
{
    assert forall|j: nat| j < items.len() && #[trigger] decimal(j) == decimal(i) implies j == i by {
        decimals_are_distinct(j, i);
    }
}

/// A name that does not begin with a digit leads nowhere in an array, and to the member of that name
/// elsewhere.
pub proof fn names_lead_to_members(value: JsonView, name: Seq<char>)
    requires
        name.len() > 0,
        !('0' <= name.first() <= '9'),
    ensures
        value is Array ==> step(value, name) is None,
        !(value is Array) ==> step(value, name) == member(value, name),
{
    assert forall|j: nat| #[trigger] decimal(j) != name by {
        decimals_can_be_read_back(j);
        assert('0' <= decimal(j)[0] <= '9');
    }
}

/// To follow a row of tokens is to follow the first of them, and then the others from there.
pub proof fn pointers_go_step_by_step(value: JsonView, token: Seq<char>, tokens: Seq<Seq<char>>)
    ensures
        at(value, Seq::empty()) == Some(value),
        at(value, seq![token] + tokens) == (match step(value, token) {
            Some(inner) => at(inner, tokens),
            None => None,
        }),
{
    assert((seq![token] + tokens).drop_first() =~= tokens);
}

} // verus!
