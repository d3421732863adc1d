//! Finding texts and numbers in JSON whose shape is known only roughly.
use crate::json::{
    entries_view, first_keyed_number, int_in, items_view, key_views, keyed_number, lemma_json_view,
    lemma_lookup_index, lookup_index, member, opt_json, opt_member, text_in, uint_in, Json,
    JsonView,
};
use crate::parse::{longest_in_entries, longest_in_items, longest_text, parsed_json};
use crate::text::{
    chars_of, is_empty_text, opt_view, same_text, text_of, trim, trim_end, trim_start, trimmed,
    CharClass,
};
use vstd::prelude::*;

verus! {

broadcast use vstd::string::group_string_axioms;

/// Whether a text is enclosed in the brackets of a JSON array or the braces of an object.
pub open spec fn is_bracketed(text: Seq<char>) -> bool {
    text.len() > 0 && ((text[0] == '[' && text.last() == ']') || (text[0] == '{' && text.last()
        == '}'))
}

/// The keys under which a name or an address is looked for first.
pub open spec fn source_keys() -> Seq<Seq<char>> {
    seq![
        "name"@,
        "src"@,
        "url"@,
        "src_str"@,
        "url_str"@,
        "source"@,
        "source_url"@,
        "uri"@,
        "urls"@,
    ]
}

/// No text in the value of an entry is longer than the longest in the entries.
pub proof fn lemma_longest_entry(entries: Seq<(Seq<char>, JsonView)>, i: int)
    requires
        0 <= i < entries.len(),
    ensures
        longest_text(entries[i].1) <= longest_in_entries(entries),
    decreases entries.len(),
{
    if i > 0 {
        lemma_longest_entry(entries.drop_first(), i - 1);
    }
}

/// No text in an item is longer than the longest in the items.
pub proof fn lemma_longest_item(items: Seq<JsonView>, i: int)
    requires
        0 <= i < items.len(),
    ensures
        longest_text(items[i]) <= longest_in_items(items),
    decreases items.len(),
{
    if i > 0 {
        lemma_longest_item(items.drop_first(), i - 1);
    }
}

/// The text found by `first_string` in the first item that gives one.
pub open spec fn first_string_in_items(items: Seq<JsonView>) -> Option<Seq<char>>
    decreases longest_in_items(items), items, 0nat,
{
    if items.len() == 0 {
        None
    } else {
        match first_string(items[0]) {
            Some(s) => Some(s),
            None => first_string_in_items(items.drop_first()),
        }
    }
}

/// The text found by `first_string` in the value of the first entry that gives one.
pub open spec fn first_string_in_entries(entries: Seq<(Seq<char>, JsonView)>) -> Option<Seq<char>>
    decreases longest_in_entries(entries), entries, 0nat,
{
    if entries.len() == 0 {
        None
    } else {
        match first_string(entries[0].1) {
            Some(s) => Some(s),
            None => first_string_in_entries(entries.drop_first()),
        }
    }
}

/// The text found by `first_string` under the first of the keys that gives one.
pub open spec fn first_string_keyed(
    entries: Seq<(Seq<char>, JsonView)>,
    keys: Seq<Seq<char>>,
) -> Option<Seq<char>>
    decreases longest_in_entries(entries), entries, 1 + keys.len(),
{
    if keys.len() == 0 {
        None
    } else {
        let here = match lookup_index(entries, keys[0]) {
            Some(i) => if 0 <= i < entries.len() {
                proof {
                    lemma_longest_entry(entries, i);
                }
                first_string(entries[i].1)
            } else {
                None
            },
            None => None,
        };
        match here {
            Some(s) => Some(s),
            None => first_string_keyed(entries, keys.drop_first()),
        }
    }
}

/// The first text with something to say in a value.
///
/// A text counts trimmed, and neither when empty nor as a single dot. One that is itself JSON in
/// brackets or braces is looked into, and stands for itself where nothing is found in it. An
/// array is searched in order, an object first under the `source_keys`, then in order.
pub open spec fn first_string(value: JsonView) -> Option<Seq<char>>
    decreases longest_text(value), value, 0nat,
{
    match value {
        JsonView::Text(s, _) => {
            let t = trim(s, CharClass::White);
            if t.len() == 0 || t == "."@ {
                None
            } else if is_bracketed(t) {
                let inner = match parsed_json(t) {
                    Some(p) => if longest_text(p) < s.len() {
                        first_string(p)
                    } else {
                        None
                    },
                    None => None,
                };
                match inner {
                    Some(found) => Some(found),
                    None => Some(t),
                }
            } else {
                Some(t)
            }
        },
        JsonView::Array(items) => first_string_in_items(items),
        JsonView::Object(entries) => match first_string_keyed(entries, source_keys()) {
            Some(s) => Some(s),
            None => first_string_in_entries(entries),
        },
        _ => None,
    }
}

proof fn lemma_longest_member(value: JsonView, key: Seq<char>)
    ensures
        member(value, key) matches Some(v) ==> longest_text(v) <= longest_text(value),
{
    if let JsonView::Object(entries) = value {
        lemma_lookup_index(entries, key);
        if let Some(i) = lookup_index(entries, key) {
            lemma_longest_entry(entries, i);
        }
    }
}

proof fn lemma_trim_shortens(s: Seq<char>, class: CharClass)
    ensures
        trim_start(s, class).len() <= s.len(),
        trim_end(s, class).len() <= s.len(),
    decreases s.len(),
{
    if s.len() > 0 {
        lemma_trim_shortens(s.drop_first(), class);
        lemma_trim_shortens(s.drop_last(), class);
    }
}

/// The first text with something to say under the first of the keys that gives one; none where
/// the value is no object.
pub fn first_keyed_string(value: &Json, keys: &[&str]) -> (r: Option<String>)
    ensures
        value@ is Object ==> opt_view(r) == first_string_keyed(
            value@->Object_0,
            key_views(keys@),
        ),
        !(value@ is Object) ==> r is None,
    decreases longest_text(value@), value, 0nat,
{
    let mut k: usize = 0;
    let ghost all = key_views(keys@);
    assert(all.skip(0) =~= all);
    while k < keys.len()
        invariant
            k <= keys@.len(),
            all == key_views(keys@),
            value@ is Object ==> first_string_keyed(value@->Object_0, all.skip(k as int))
                == first_string_keyed(value@->Object_0, all),
        decreases keys@.len() - k,
    {
        assert(all.skip(k as int)[0] == keys@[k as int]@);
        assert(all.skip(k as int).drop_first() =~= all.skip(k + 1));
        let found = value.get(keys[k]);
        proof {
            lemma_longest_member(value@, keys@[k as int]@);
            if let JsonView::Object(entries) = value@ {
                lemma_lookup_index(entries, keys@[k as int]@);
            }
        }
        if let Some(v) = found {
            if let Some(s) = json_value_first_string(v) {
                return Some(s);
            }
        }
        k += 1;
    }
    None
}

/// The first text with something to say in a value.
pub fn json_value_first_string(value: &Json) -> (r: Option<String>)
    ensures
        opt_view(r) == first_string(value@),
    decreases longest_text(value@), value, 1nat,
{
    broadcast use lemma_json_view;

    match value {
        Json::Text(s, _) => {
            let chars = chars_of(s.as_str());
            let inner = trimmed(chars.as_slice(), CharClass::White);
            let t = text_of(inner);
            if inner.len() == 0 || same_text(t.as_str(), ".") {
                return None;
            }
            let first = inner[0];
            let last = inner[inner.len() - 1];
            if (first == '[' && last == ']') || (first == '{' && last == '}') {
                proof {
                    lemma_trim_shortens(s@, CharClass::White);
                    lemma_trim_shortens(
                        trim_start(s@, CharClass::White),
                        CharClass::White,
                    );
                }
                if let Some(parsed) = Json::parse(t.as_str()) {
                    if let Some(found) = json_value_first_string(&parsed) {
                        return Some(found);
                    }
                }
            }
            Some(t)
        },
        Json::Array(items) => {
            let ghost all = items_view(items@);
            assert(all.skip(0) =~= all);
            let mut i: usize = 0;
            while i < items.len()
                invariant
                    i <= items@.len(),
                    all == items_view(items@),
                    value@ == JsonView::Array(all),
                    first_string_in_items(all.skip(i as int)) == first_string(value@),
                    decreases_to!(value => items),
                decreases items@.len() - i,
            {
                assert(decreases_to!(items => items@[i as int]));
                assert(all.skip(i as int)[0] == items@[i as int]@);
                assert(all.skip(i as int).drop_first() =~= all.skip(i + 1));
                proof {
                    lemma_longest_item(all, i as int);
                }
                if let Some(s) = json_value_first_string(&items[i]) {
                    return Some(s);
                }
                i += 1;
            }
            None
        },
        Json::Object(entries) => {
            let keys: [&str; 9] = [
                "name",
                "src",
                "url",
                "src_str",
                "url_str",
                "source",
                "source_url",
                "uri",
                "urls",
            ];
            assert(key_views(keys@) =~= source_keys());
            let found = first_keyed_string(value, &keys);
            if let Some(s) = found {
                return Some(s);
            }
            let ghost all = entries_view(entries@);
            assert(all.skip(0) =~= all);
            let mut i: usize = 0;
            while i < entries.len()
                invariant
                    i <= entries@.len(),
                    all == entries_view(entries@),
                    value@ == JsonView::Object(all),
                    first_string_in_entries(all.skip(i as int)) == first_string(value@),
                    decreases_to!(value => entries),
                decreases entries@.len() - i,
            {
                assert(decreases_to!(entries => entries@[i as int]));
                assert(decreases_to!(entries@[i as int] => entries@[i as int].1));
                assert(all.skip(i as int)[0] == (entries@[i as int].0@, entries@[i as int].1@));
                assert(all.skip(i as int).drop_first() =~= all.skip(i + 1));
                proof {
                    lemma_longest_entry(all, i as int);
                }
                if let Some(s) = json_value_first_string(&entries[i].1) {
                    return Some(s);
                }
                i += 1;
            }
            None
        },
        _ => None,
    }
}

/// The text found by `string_for_keys` in the first item that gives one.
pub open spec fn string_in_items(items: Seq<JsonView>, keys: Seq<Seq<char>>) -> Option<Seq<char>>
    decreases items,
{
    if items.len() == 0 {
        None
    } else {
        match string_for_keys(items[0], keys) {
            Some(s) => Some(s),
            None => string_in_items(items.drop_first(), keys),
        }
    }
}

/// The text found by `string_for_keys` in the value of the first entry that gives one.
pub open spec fn string_in_entries(
    entries: Seq<(Seq<char>, JsonView)>,
    keys: Seq<Seq<char>>,
) -> Option<Seq<char>>
    decreases entries,
{
    if entries.len() == 0 {
        None
    } else {
        match string_for_keys(entries[0].1, keys) {
            Some(s) => Some(s),
            None => string_in_entries(entries.drop_first(), keys),
        }
    }
}

/// The first text with something to say under one of the keys: in an object itself, else in what
/// it is made of.
pub open spec fn string_for_keys(value: JsonView, keys: Seq<Seq<char>>) -> Option<Seq<char>>
    decreases value,
{
    match value {
        JsonView::Array(items) => string_in_items(items, keys),
        JsonView::Object(entries) => match first_string_keyed(entries, keys) {
            Some(s) => Some(s),
            None => string_in_entries(entries, keys),
        },
        _ => None,
    }
}

/// The first text with something to say under one of the keys: in an object itself, else in what
/// it is made of.
pub fn json_value_string_for_keys(value: &Json, keys: &[&str]) -> (r: Option<String>)
    ensures
        opt_view(r) == string_for_keys(value@, key_views(keys@)),
    decreases value,
{
    broadcast use lemma_json_view;

    let ghost wanted = key_views(keys@);
    match value {
        Json::Object(entries) => {
            if let Some(s) = first_keyed_string(value, keys) {
                return Some(s);
            }
            let ghost all = entries_view(entries@);
            assert(all.skip(0) =~= all);
            let mut i: usize = 0;
            while i < entries.len()
                invariant
                    i <= entries@.len(),
                    all == entries_view(entries@),
                    wanted == key_views(keys@),
                    string_in_entries(all.skip(i as int), wanted) == string_for_keys(
                        value@,
                        wanted,
                    ),
                    decreases_to!(value => entries),
                decreases entries@.len() - i,
            {
                assert(decreases_to!(entries => entries@[i as int]));
                assert(decreases_to!(entries@[i as int] => entries@[i as int].1));
                assert(all.skip(i as int)[0] == (entries@[i as int].0@, entries@[i as int].1@));
                assert(all.skip(i as int).drop_first() =~= all.skip(i + 1));
                if let Some(s) = json_value_string_for_keys(&entries[i].1, keys) {
                    return Some(s);
                }
                i += 1;
            }
            None
        },
        Json::Array(items) => {
            let ghost all = items_view(items@);
            assert(all.skip(0) =~= all);
            let mut i: usize = 0;
            while i < items.len()
                invariant
                    i <= items@.len(),
                    all == items_view(items@),
                    wanted == key_views(keys@),
                    string_in_items(all.skip(i as int), wanted) == string_for_keys(value@, wanted),
                    decreases_to!(value => items),
                decreases items@.len() - i,
            {
                assert(decreases_to!(items => items@[i as int]));
                assert(all.skip(i as int)[0] == items@[i as int]@);
                assert(all.skip(i as int).drop_first() =~= all.skip(i + 1));
                if let Some(s) = json_value_string_for_keys(&items[i], keys) {
                    return Some(s);
                }
                i += 1;
            }
            None
        },
        _ => None,
    }
}

/// The keys under which a size is looked for.
pub open spec fn size_keys() -> Seq<Seq<char>> {
    seq!["size"@, "total"@, "total_size"@, "file_size"@, "length"@]
}

/// The size among the properties, or zero where they hold none.
pub open spec fn size_in(props: Option<JsonView>) -> i64 {
    match props {
        Some(p) => match keyed_number(p, size_keys()) {
            Some(n) => n,
            None => 0,
        },
        None => 0,
    }
}

/// The size among the properties, or zero where they hold none.
pub fn extract_size(props: Option<&Json>) -> (r: i64)
    ensures
        r == size_in(opt_json(props)),
{
    match props {
        Some(p) => {
            let keys: [&str; 5] = ["size", "total", "total_size", "file_size", "length"];
            assert(key_views(keys@) =~= size_keys());
            match first_keyed_number(p, &keys) {
                Some(n) => n,
                None => 0,
            }
        },
        None => 0,
    }
}

/// The text that is there, or an empty one.
pub open spec fn text_or_empty(text: Option<Seq<char>>) -> Seq<char> {
    match text {
        Some(s) => s,
        None => Seq::empty(),
    }
}

/// The value under `key`, where there is a value and it is an object that has the key.
pub fn member_of<'a>(value: Option<&'a Json>, key: &str) -> (r: Option<&'a Json>)
    ensures
        opt_json(r) == opt_member(opt_json(value), key@),
{
    match value {
        Some(v) => v.get(key),
        None => None,
    }
}

/// The text under `key`, where there is one.
pub fn text_under(value: &Json, key: &str) -> (r: Option<String>)
    ensures
        opt_view(r) == text_in(member(value@, key@)),
{
    match value.get(key) {
        Some(v) => match v.as_str() {
            Some(s) => Some(s.clone()),
            None => None,
        },
        None => None,
    }
}

/// The integer under `key`, where there is one of the range of `i64`.
pub fn int_under(value: &Json, key: &str) -> (r: Option<i64>)
    ensures
        r == int_in(member(value@, key@)),
{
    match value.get(key) {
        Some(v) => v.as_i64(),
        None => None,
    }
}

/// The text under `key`, or an empty one.
pub fn json_string(value: &Json, key: &str) -> (r: String)
    ensures
        r@ == text_or_empty(text_in(member(value@, key@))),
{
    match text_under(value, key) {
        Some(s) => s,
        None => {
            let r = String::new();
            assert(r@ =~= Seq::empty());
            r
        },
    }
}

/// The integer under `key`, where there is one that is not negative.
pub open spec fn natural_under(value: JsonView, key: Seq<char>) -> Option<u64> {
    match uint_in(member(value, key)) {
        Some(n) => Some(n),
        None => match int_in(member(value, key)) {
            Some(n) => if n >= 0 {
                Some(n as u64)
            } else {
                None
            },
            None => None,
        },
    }
}

/// The integer under `key`, where there is one that is not negative.
pub fn json_u64(value: &Json, key: &str) -> (r: Option<u64>)
    ensures
        r == natural_under(value@, key@),
{
    match value.get(key) {
        Some(v) => match v.as_u64() {
            Some(n) => Some(n),
            None => match v.as_i64() {
                Some(n) => if n >= 0 {
                    Some(n as u64)
                } else {
                    None
                },
                None => None,
            },
        },
        None => None,
    }
}

/// The token of the next page in the answer to a page of shares: not there, or not a text, or
/// empty where there is no next page.
pub open spec fn next_token_in(data: JsonView) -> Option<Seq<char>> {
    let pagination = member(data, "pagination"@);
    let token = match opt_member(pagination, "next_token"@) {
        Some(t) => Some(t),
        None => opt_member(pagination, "next_page_token"@),
    };
    match text_in(token) {
        Some(s) => if s.len() > 0 {
            Some(s)
        } else {
            None
        },
        None => None,
    }
}

/// The token of the next page in the answer to a page of shares.
pub fn share_next_page_token(data: &Json) -> (r: Option<String>)
    ensures
        opt_view(r) == next_token_in(data@),
{
    let pagination = data.get("pagination");
    let token = match member_of(pagination, "next_token") {
        Some(t) => Some(t),
        None => member_of(pagination, "next_page_token"),
    };
    match token {
        Some(t) => match t.as_str() {
            Some(s) => if is_empty_text(s.as_str()) {
                None
            } else {
                Some(s.clone())
            },
            None => None,
        },
        None => None,
    }
}

} // verus!
