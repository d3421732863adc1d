//! Building JSON values.
use crate::json::{entries_view, items_view, lemma_json_view, opt_json, Json, JsonNumber, JsonView};
use vstd::prelude::*;

verus! {

broadcast use vstd::string::group_string_axioms;

/// The JSON value of a text.
pub open spec fn text_json(text: Seq<char>) -> JsonView {
    JsonView::Text(text, None)
}

/// The JSON value of an integer.
pub open spec fn int_json(n: i64) -> JsonView {
    if n >= 0 {
        JsonView::Number(JsonNumber::PosInt(n as u64))
    } else {
        JsonView::Number(JsonNumber::NegInt(n))
    }
}

/// The JSON value of a natural number.
pub open spec fn nat_json(n: u64) -> JsonView {
    JsonView::Number(JsonNumber::PosInt(n))
}

/// The value that is there, or null.
pub open spec fn or_null(value: Option<JsonView>) -> JsonView {
    match value {
        Some(v) => v,
        None => JsonView::Null,
    }
}

/// The JSON value of a text.
pub fn text_value(text: String) -> (r: Json)
    ensures
        r@ == text_json(text@),
{
    Json::Text(text, None)
}

/// The JSON value of an integer.
pub fn int_value(n: i64) -> (r: Json)
    ensures
        r@ == int_json(n),
{
    if n >= 0 {
        Json::Number(JsonNumber::PosInt(n as u64))
    } else {
        Json::Number(JsonNumber::NegInt(n))
    }
}

/// The JSON value of a natural number.
pub fn nat_value(n: u64) -> (r: Json)
    ensures
        r@ == nat_json(n),
{
    Json::Number(JsonNumber::PosInt(n))
}

/// A copy of the value that is there, or null.
pub fn value_or_null(value: Option<&Json>) -> (r: Json)
    ensures
        r@ == or_null(opt_json(value)),
{
    match value {
        Some(v) => v.duplicate(),
        None => Json::Null,
    }
}

/// The JSON array of the given items.
pub fn array_value(items: Vec<Json>) -> (r: Json)
    ensures
        r@ == JsonView::Array(items_view(items@)),
{
    broadcast use lemma_json_view;

    Json::Array(items)
}

/// The entries of an object, in the making.
pub struct Entries {
    pub list: Vec<(String, Json)>,
}

impl View for Entries {
    type V = Seq<(Seq<char>, JsonView)>;

    open spec fn view(&self) -> Seq<(Seq<char>, JsonView)> {
        entries_view(self.list@)
    }
}

impl Entries {
    /// No entries yet.
    pub fn new() -> (r: Entries)
        ensures
            r@ == Seq::<(Seq<char>, JsonView)>::empty(),
    {
        let r = Entries { list: Vec::new() };
        assert(r@ =~= Seq::empty());
        r
    }

    /// The entries with one more at the end.
    pub fn with(self, key: &str, value: Json) -> (r: Entries)
        ensures
            r@ == self@.push((key@, value@)),
    {
        let mut list = self.list;
        list.push((key.to_string(), value));
        let r = Entries { list };
        assert(r@ =~= self@.push((key@, value@)));
        r
    }

    /// The object with these entries.
    pub fn object(self) -> (r: Json)
        ensures
            r@ == JsonView::Object(self@),
    {
        broadcast use lemma_json_view;

        Json::Object(self.list)
    }
}

} // verus!
