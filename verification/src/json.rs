//! The JSON values that the kernel sends and takes, as `serde_json` holds them.
use vstd::prelude::*;
use crate::decimal::decimal_text;
use serde_json::Value;

verus! {

/// `serde_json::Value`, a JSON tree; [`json_view`] says what one holds.
#[verifier::external_type_specification]
#[verifier::external_body]
pub struct ExValue(Value);

/// What a JSON value holds.
pub enum JsonView {
    Null,
    Bool(bool),
    /// A number, as it prints.
    Number(Seq<char>),
    Text(Seq<char>),
    Items(Seq<JsonView>),
    Members(Map<Seq<char>, JsonView>),
}

/// What `value` holds.
pub uninterp spec fn json_view(value: Value) -> JsonView;

/// What the compact JSON text of a value reads.
pub uninterp spec fn json_source(content: JsonView) -> Seq<char>;

/// The member `key` of an object; of anything else, none.
pub open spec fn member(content: JsonView, key: Seq<char>) -> Option<JsonView> {
    match content {
        JsonView::Members(members) => if members.contains_key(key) {
            Some(members[key])
        } else {
            None
        },
        _ => None,
    }
}

/// The text of a string; of anything else, none.
pub open spec fn text_in(content: JsonView) -> Option<Seq<char>> {
    match content {
        JsonView::Text(text) => Some(text),
        _ => None,
    }
}

/// The text of the member `key`, where it is a string.
pub open spec fn text_member(content: JsonView, key: Seq<char>) -> Option<Seq<char>> {
    match member(content, key) {
        Some(found) => text_in(found),
        None => None,
    }
}

/// The member `key`, or null.
pub open spec fn member_or_null(content: JsonView, key: Seq<char>) -> JsonView {
    match member(content, key) {
        Some(found) => found,
        None => JsonView::Null,
    }
}

/// No two pairs have one key.
pub open spec fn distinct_keys(pairs: Seq<(Seq<char>, JsonView)>) -> bool {
    forall|i: int, j: int|
        0 <= i < j < pairs.len() ==> #[trigger] pairs[i].0 != #[trigger] pairs[j].0
}

/// The members that pairs of a key and a value make, their keys being distinct.
pub open spec fn members_of(pairs: Seq<(Seq<char>, JsonView)>) -> Map<Seq<char>, JsonView>
    decreases pairs.len(),
{
    if pairs.len() == 0 {
        Map::empty()
    } else {
        members_of(pairs.drop_last()).insert(pairs.last().0, pairs.last().1)
    }
}

/// An object of these members.
pub open spec fn object_view(pairs: Seq<(Seq<char>, JsonView)>) -> JsonView {
    JsonView::Members(members_of(pairs))
}

/// What a list of values holds.
pub open spec fn views_of(values: Seq<Value>) -> Seq<JsonView> {
    values.map_values(|value: Value| json_view(value))
}

/// What a list of keys and values holds.
pub open spec fn pair_views_of(pairs: Seq<(String, Value)>) -> Seq<(Seq<char>, JsonView)> {
    pairs.map_values(|pair: (String, Value)| (pair.0@, json_view(pair.1)))
}

/// `Value::get` with a string: the member of that key of an object; of a value
/// that is no object, or of a key that it lacks, nothing.
#[verifier::external_body]
pub(crate) fn get<'a>(value: &'a Value, key: &str) -> (found: Option<&'a Value>)
    ensures
        match found {
            Some(inner) => member(json_view(*value), key@) == Some(json_view(*inner)),
            None => member(json_view(*value), key@) is None,
        },
{
    value.get(key)
}

/// Indexing a `Value` with a string: the member of that key, or null where
/// `Value::get` finds none.
#[verifier::external_body]
pub(crate) fn index<'a>(value: &'a Value, key: &str) -> (found: &'a Value)
    ensures
        json_view(*found) == member_or_null(json_view(*value), key@),
{
    &value[key]
}

/// `Value::as_str`: the text of a string; of anything else, nothing.
#[verifier::external_body]
pub(crate) fn as_str<'a>(value: &'a Value) -> (text: Option<&'a str>)
    ensures
        match text {
            Some(inner) => text_in(json_view(*value)) == Some(inner@),
            None => text_in(json_view(*value)) is None,
        },
{
    value.as_str()
}

/// `Value::as_bool`: the value of a boolean; of anything else, nothing.
#[verifier::external_body]
pub(crate) fn as_bool(value: &Value) -> (flag: Option<bool>)
    ensures
        match json_view(*value) {
            JsonView::Bool(b) => flag == Some(b),
            _ => flag is None,
        },
{
    value.as_bool()
}

/// `Value::as_array`: the items of an array, in order; of anything else,
/// nothing.
#[verifier::external_body]
pub(crate) fn as_array<'a>(value: &'a Value) -> (items: Option<&'a Vec<Value>>)
    ensures
        match items {
            Some(inner) => json_view(*value) == JsonView::Items(views_of(inner@)),
            None => !(json_view(*value) is Items),
        },
{
    value.as_array()
}

/// `Value::clone`: the copy holds the same.
#[verifier::external_body]
pub(crate) fn copied(value: &Value) -> (copy: Value)
    ensures
        json_view(copy) == json_view(*value),
{
    value.clone()
}

/// `Value::from` of a string slice: a JSON string of that text.
#[verifier::external_body]
pub(crate) fn string(text: &str) -> (value: Value)
    ensures
        json_view(value) == JsonView::Text(text@),
{
    Value::from(text)
}

/// `Value::from` of a `bool`: a JSON boolean.
#[verifier::external_body]
pub(crate) fn boolean(flag: bool) -> (value: Value)
    ensures
        json_view(value) == JsonView::Bool(flag),
{
    Value::from(flag)
}

/// `Value::from` of a `u64`: a JSON number, which prints as its decimal
/// numeral.
#[verifier::external_body]
pub(crate) fn number(n: u64) -> (value: Value)
    ensures
        json_view(value) == JsonView::Number(decimal_text(n as nat)),
{
    Value::from(n)
}

/// `Value::from` of a `Vec<Value>`: a JSON array of those items, in order.
#[verifier::external_body]
pub(crate) fn array(items: Vec<Value>) -> (value: Value)
    ensures
        json_view(value) == JsonView::Items(views_of(items@)),
{
    Value::from(items)
}

/// `Value::from_iter` over keys and values: a JSON object of those members. Which
/// of two values under one key would stay is left open, so the keys are distinct.
#[verifier::external_body]
pub(crate) fn object(members: Vec<(String, Value)>) -> (value: Value)
    requires
        distinct_keys(pair_views_of(members@)),
    ensures
        json_view(value) == object_view(pair_views_of(members@)),
{
    Value::from_iter(members)
}

/// `Value::to_string`: the compact JSON text, which what the value holds
/// decides (the members of an object are held sorted by key). What the text
/// reads is left unsaid here.
#[verifier::external_body]
pub(crate) fn source(value: &Value) -> (text: String)
    ensures
        text@ == json_source(json_view(*value)),
{
    value.to_string()
}

/// The text of the member `key`, where it is a string.
pub(crate) fn get_text<'a>(value: &'a Value, key: &str) -> (text: Option<&'a str>)
    ensures
        match text {
            Some(inner) => text_member(json_view(*value), key@) == Some(inner@),
            None => text_member(json_view(*value), key@) is None,
        },
{
    match get(value, key) {
        Some(found) => as_str(found),
        None => None,
    }
}

/// The member of a key is what an object holds under it, whatever else it holds; a
/// key that it lacks has none, and nothing but an object has members.
pub proof fn law_members(members: Map<Seq<char>, JsonView>, key: Seq<char>)
    ensures
        ({
            let content = JsonView::Members(members);
            &&& members.contains_key(key) ==> member(content, key) == Some(members[key])
                && member_or_null(content, key) == members[key]
            &&& members.contains_key(key) && members[key] is Text ==> text_member(content, key)
                == Some(members[key]->Text_0)
            &&& members.contains_key(key) && !(members[key] is Text) ==> text_member(
                content,
                key,
            ) is None
            &&& !members.contains_key(key) ==> member(content, key) is None && text_member(
                content,
                key,
            ) is None && member_or_null(content, key) == JsonView::Null
        }),
        forall|content: JsonView|
            !(content is Members) ==> #[trigger] member(content, key) is None && text_member(
                content,
                key,
            ) is None && member_or_null(content, key) == JsonView::Null,
{
}

/// An object made of pairs with distinct keys holds each of them, and no other key.
pub proof fn law_object_holds_its_pairs(pairs: Seq<(Seq<char>, JsonView)>)
    requires
        distinct_keys(pairs),
    ensures
        object_view(pairs) == JsonView::Members(members_of(pairs)),
        forall|i: int|
            0 <= i < pairs.len() ==> members_of(pairs).contains_key((#[trigger] pairs[i]).0)
                && members_of(pairs)[pairs[i].0] == pairs[i].1,
        forall|key: Seq<char>| #[trigger]
            members_of(pairs).contains_key(key) ==> exists|i: int|
                0 <= i < pairs.len() && (#[trigger] pairs[i]).0 == key,
    decreases pairs.len(),
{
    if pairs.len() > 0 {
        let front = pairs.drop_last();
        assert(distinct_keys(front)) by {
            assert forall|i: int, j: int| 0 <= i < j < front.len() implies #[trigger] front[i].0
                != #[trigger] front[j].0 by {
                assert(pairs[i].0 != pairs[j].0);
            }
        }
        law_object_holds_its_pairs(front);
        assert forall|i: int| 0 <= i < pairs.len() implies members_of(pairs).contains_key(
            (#[trigger] pairs[i]).0,
        ) && members_of(pairs)[pairs[i].0] == pairs[i].1 by {
            if i < front.len() {
                assert(front[i] == pairs[i]);
                assert(pairs[i].0 != pairs[pairs.len() - 1].0);
            }
        }
        assert forall|key: Seq<char>| #[trigger] members_of(pairs).contains_key(
            key,
        ) implies exists|i: int| 0 <= i < pairs.len() && (#[trigger] pairs[i]).0 == key by {
            if key == pairs.last().0 {
                assert(pairs[pairs.len() - 1].0 == key);
            } else {
                assert(members_of(front).contains_key(key));
                let i = choose|i: int| 0 <= i < front.len() && (#[trigger] front[i]).0 == key;
                assert(pairs[i].0 == key);
            }
        }
    }
}

} // verus!
