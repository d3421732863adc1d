//! Reading JSON out of a text with `serde_json`.
use crate::json::{
    entries_view, items_view, keys_in_order, lemma_json_view, ordered, Json, JsonNumber, JsonView,
};
use vstd::prelude::*;

verus! {

broadcast use vstd::string::group_string_axioms;

/// `serde_json::Value`, a JSON value of the `serde_json` crate.
#[verifier::external_type_specification]
#[verifier::external_body]
pub struct ExValue(serde_json::Value);

/// What a value of `serde_json` holds. Its texts carry no reading as a number.
pub uninterp spec fn contents(value: serde_json::Value) -> JsonView;

/// What `serde_json::from_str` reads in a text: nothing where the text is no JSON.
pub uninterp spec fn parsed_json(text: Seq<char>) -> Option<JsonView>;

/// The length of the longest text in one of the items.
pub open spec fn longest_in_items(items: Seq<JsonView>) -> nat
    decreases items,
{
    if items.len() == 0 {
        0
    } else {
        let first = longest_text(items[0]);
        let rest = longest_in_items(items.drop_first());
        if first > rest {
            first
        } else {
            rest
        }
    }
}

/// The length of the longest text in the value of one of the entries.
pub open spec fn longest_in_entries(entries: Seq<(Seq<char>, JsonView)>) -> nat
    decreases entries,
{
    if entries.len() == 0 {
        0
    } else {
        let first = longest_text(entries[0].1);
        let rest = longest_in_entries(entries.drop_first());
        if first > rest {
            first
        } else {
            rest
        }
    }
}

/// The length of the longest text in a value.
pub open spec fn longest_text(value: JsonView) -> nat
    decreases value,
{
    match value {
        JsonView::Text(s, _) => s.len(),
        JsonView::Array(items) => longest_in_items(items),
        JsonView::Object(entries) => longest_in_entries(entries),
        _ => 0,
    }
}

/// What stands at the top of a value of `serde_json`; a number by its three readings: as `u64`,
/// as `i64`, and as the bits of a double-precision number.
pub enum JsonNode {
    Null,
    Bool(bool),
    Number(Option<u64>, Option<i64>, Option<u64>),
    Text(String),
    Array(Vec<serde_json::Value>),
    Object(Vec<(String, serde_json::Value)>),
}

/// The number with the given readings.
pub open spec fn number_read(unsigned: Option<u64>, signed: Option<i64>, bits: Option<u64>) -> JsonView {
    match (unsigned, signed, bits) {
        (Some(n), _, _) => JsonView::Number(JsonNumber::PosInt(n)),
        (None, Some(n), _) => JsonView::Number(JsonNumber::NegInt(n)),
        (None, None, Some(b)) => JsonView::Number(JsonNumber::Float(b)),
        (None, None, None) => JsonView::Null,
    }
}

/// The value with the given top.
pub open spec fn node_view(node: JsonNode) -> JsonView {
    match node {
        JsonNode::Null => JsonView::Null,
        JsonNode::Bool(b) => JsonView::Bool(b),
        JsonNode::Number(unsigned, signed, bits) => number_read(unsigned, signed, bits),
        JsonNode::Text(s) => JsonView::Text(s@, None),
        JsonNode::Array(items) => JsonView::Array(
            Seq::new(items@.len(), |i: int| contents(items@[i])),
        ),
        JsonNode::Object(entries) => JsonView::Object(
            Seq::new(entries@.len(), |i: int| (entries@[i].0@, contents(entries@[i].1))),
        ),
    }
}

/// `serde_json::from_str` into a `serde_json::Value`.
///
/// What it reads depends on the text alone. Every text in what is read is shorter than the text
/// read from: inside the quotes a character or an escape gives at most one character.
#[verifier::external_body]
fn parse_value(text: &str) -> (r: Option<serde_json::Value>)
    ensures
        match r {
            Some(value) => parsed_json(text@) == Some(contents(value)) && longest_text(
                contents(value),
            ) < text@.len(),
            None => parsed_json(text@) is None,
        },
{
    serde_json::from_str(text).ok()
}

/// The variants of `serde_json::Value`, with the readings `as_u64`, `as_i64` and `as_f64` of a
/// number: the top of a value and the values below it make up what it holds.
///
/// An object is walked in the order of its keys: `serde_json::Map` is a `BTreeMap` with `String`
/// keys, unless the feature `preserve_order` is on, which no crate here turns on.
#[verifier::external_body]
fn open_value(value: serde_json::Value) -> (node: JsonNode)
    ensures
        contents(value) == node_view(node),
        node matches JsonNode::Object(entries) ==> keys_in_order(
            Seq::new(entries@.len(), |i: int| (entries@[i].0@, contents(entries@[i].1))),
        ),
{
    match value {
        serde_json::Value::Null => JsonNode::Null,
        serde_json::Value::Bool(b) => JsonNode::Bool(b),
        serde_json::Value::Number(n) => JsonNode::Number(
            n.as_u64(),
            n.as_i64(),
            n.as_f64().map(|x| x.to_bits()),
        ),
        serde_json::Value::String(s) => JsonNode::Text(s),
        serde_json::Value::Array(items) => JsonNode::Array(items),
        serde_json::Value::Object(map) => JsonNode::Object(map.into_iter().collect()),
    }
}

impl Json {
    /// The value that a value of `serde_json` holds.
    pub fn from_value(value: serde_json::Value) -> (json: Json)
        ensures
            json@ == contents(value),
            ordered(json@),
        decreases contents(value),
    {
        broadcast use lemma_json_view;

        let node = open_value(value);
        match node {
            JsonNode::Null => Json::Null,
            JsonNode::Bool(b) => Json::Bool(b),
            JsonNode::Number(Some(n), _, _) => Json::Number(JsonNumber::PosInt(n)),
            JsonNode::Number(None, Some(n), _) => Json::Number(JsonNumber::NegInt(n)),
            JsonNode::Number(None, None, Some(bits)) => Json::Number(JsonNumber::Float(bits)),
            JsonNode::Number(None, None, None) => Json::Null,
            JsonNode::Text(s) => Json::Text(s, None),
            JsonNode::Array(items) => {
                let ghost all = contents(value)->Array_0;
                let mut list: Vec<Json> = Vec::new();
                for item in it: items
                    invariant
                        it.seq() == items@,
                        all == Seq::new(items@.len(), |i: int| contents(items@[i])),
                        items_view(list@) == all.take(it.index()),
                        contents(value) == JsonView::Array(all),
                        forall|i: int| 0 <= i < it.index() ==> ordered(#[trigger] all[i]),
                {
                    assert(all[it.index()] == contents(item));
                    assert(decreases_to!(contents(value) => contents(value)->Array_0));
                    let ghost before = list@;
                    let json = Json::from_value(item);
                    list.push(json);
                    assert(items_view(list@) =~= items_view(before).push(json@));
                    assert(all.take(it.index() + 1) =~= all.take(it.index()).push(contents(item)));
                }
                assert(all.take(all.len() as int) =~= all);
                Json::Array(list)
            },
            JsonNode::Object(entries) => {
                let ghost all = contents(value)->Object_0;
                let mut list: Vec<(String, Json)> = Vec::new();
                for entry in it: entries
                    invariant
                        it.seq() == entries@,
                        all == Seq::new(
                            entries@.len(),
                            |i: int| (entries@[i].0@, contents(entries@[i].1)),
                        ),
                        entries_view(list@) == all.take(it.index()),
                        contents(value) == JsonView::Object(all),
                        keys_in_order(all),
                        forall|i: int| 0 <= i < it.index() ==> ordered((#[trigger] all[i]).1),
                {
                    let ghost k = it.index();
                    assert(all[k] == (entry.0@, contents(entry.1)));
                    assert(decreases_to!(contents(value) => contents(value)->Object_0));
                    assert(decreases_to!(all => all[k]));
                    assert(decreases_to!(all[k] => all[k].1));
                    let ghost before = list@;
                    let (key, item) = entry;
                    let json = Json::from_value(item);
                    let ghost pair = (key@, json@);
                    list.push((key, json));
                    assert(entries_view(list@) =~= entries_view(before).push(pair));
                    assert(all.take(k + 1) =~= all.take(k).push(pair));
                }
                assert(all.take(all.len() as int) =~= all);
                Json::Object(list)
            },
        }
    }

    /// The value that a text holds, where the text is JSON.
    pub fn parse(text: &str) -> (r: Option<Json>)
        ensures
            match r {
                Some(json) => parsed_json(text@) == Some(json@) && longest_text(json@)
                    < text@.len() && ordered(json@),
                None => parsed_json(text@) is None,
            },
    {
        match parse_value(text) {
            Some(value) => Some(Json::from_value(value)),
            None => None,
        }
    }
}

} // verus!
