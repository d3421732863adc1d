//! JSON values as the library reads them.
use crate::float::{truncate_bits, truncated};
use crate::text::{chars_of, same_chars, text_before};
use vstd::prelude::*;

verus! {

broadcast use vstd::string::group_string_axioms;

/// A JSON number: an integer, or a double-precision number by its bits.
#[derive(Clone, Copy)]
pub enum JsonNumber {
    PosInt(u64),
    NegInt(i64),
    Float(u64),
}

/// A JSON value.
///
/// A text carries, besides its characters, the number that it reads as, where that reading was
/// taken and gave one. The entries of an object stand in the order of their keys, and no key
/// stands twice: `ordered` says so of a value and of all that it is made of.
pub enum Json {
    Null,
    Bool(bool),
    Number(JsonNumber),
    Text(String, Option<i64>),
    Array(Vec<Json>),
    Object(Vec<(String, Json)>),
}

/// The mathematical form of a JSON value.
pub enum JsonView {
    Null,
    Bool(bool),
    Number(JsonNumber),
    Text(Seq<char>, Option<i64>),
    Array(Seq<JsonView>),
    Object(Seq<(Seq<char>, JsonView)>),
}

/// The mathematical form of `value`.
pub open spec fn json_view(value: Json) -> JsonView
    decreases value,
{
    match value {
        Json::Null => JsonView::Null,
        Json::Bool(b) => JsonView::Bool(b),
        Json::Number(n) => JsonView::Number(n),
        Json::Text(s, n) => JsonView::Text(s@, n),
        Json::Array(items) => JsonView::Array(
            Seq::new(
                items@.len(),
                |i: int|
                    if 0 <= i < items@.len() {
                        json_view(items@[i])
                    } else {
                        JsonView::Null
                    },
            ),
        ),
        Json::Object(entries) => JsonView::Object(
            Seq::new(
                entries@.len(),
                |i: int|
                    if 0 <= i < entries@.len() {
                        (entries@[i].0@, json_view(entries@[i].1))
                    } else {
                        (Seq::empty(), JsonView::Null)
                    },
            ),
        ),
    }
}

impl View for Json {
    type V = JsonView;

    open spec fn view(&self) -> JsonView {
        json_view(*self)
    }
}

/// The mathematical form of a list of JSON values.
pub open spec fn items_view(items: Seq<Json>) -> Seq<JsonView> {
    Seq::new(items.len(), |i: int| items[i]@)
}

/// The mathematical form of the entries of an object.
pub open spec fn entries_view(entries: Seq<(String, Json)>) -> Seq<(Seq<char>, JsonView)> {
    Seq::new(entries.len(), |i: int| (entries[i].0@, entries[i].1@))
}

/// The mathematical form of an optional reference to a JSON value.
pub open spec fn opt_json(value: Option<&Json>) -> Option<JsonView> {
    match value {
        Some(v) => Some(v@),
        None => None,
    }
}

/// An array is the array of its items, an object that of its entries.
pub broadcast proof fn lemma_json_view(value: Json)
    ensures
        #[trigger] value@ == match value {
            Json::Null => JsonView::Null,
            Json::Bool(b) => JsonView::Bool(b),
            Json::Number(n) => JsonView::Number(n),
            Json::Text(s, n) => JsonView::Text(s@, n),
            Json::Array(items) => JsonView::Array(items_view(items@)),
            Json::Object(entries) => JsonView::Object(entries_view(entries@)),
        },
{
    match value {
        Json::Array(items) => {
            assert(value@->Array_0 =~= items_view(items@));
        },
        Json::Object(entries) => {
            assert(value@->Object_0 =~= entries_view(entries@));
        },
        _ => {},
    }
}

/// Whether entries stand in the order of their keys, none of them twice.
pub open spec fn keys_in_order(entries: Seq<(Seq<char>, JsonView)>) -> bool {
    forall|i: int, j: int|
        0 <= i < j < entries.len() ==> text_before(
            (#[trigger] entries[i]).0,
            (#[trigger] entries[j]).0,
        )
}

/// Whether in a value and in all that it is made of the entries of every object stand in the
/// order of their keys.
pub open spec fn ordered(value: JsonView) -> bool
    decreases value,
{
    match value {
        JsonView::Array(items) => forall|i: int|
            0 <= i < items.len() ==> ordered(#[trigger] items[i]),
        JsonView::Object(entries) => keys_in_order(entries) && forall|i: int|
            0 <= i < entries.len() ==> ordered((#[trigger] entries[i]).1),
        _ => true,
    }
}

/// Whether there is no value or it is ordered.
pub open spec fn opt_ordered(value: Option<JsonView>) -> bool {
    match value {
        Some(v) => ordered(v),
        None => true,
    }
}

/// The position of the entry with the given key.
pub open spec fn lookup_index(entries: Seq<(Seq<char>, JsonView)>, key: Seq<char>) -> Option<int>
    decreases entries.len(),
{
    if entries.len() == 0 {
        None
    } else if entries[0].0 == key {
        Some(0int)
    } else {
        match lookup_index(entries.drop_first(), key) {
            Some(i) => Some(i + 1),
            None => None,
        }
    }
}

/// The value under `key` where `value` is an object that has the key.
pub open spec fn member(value: JsonView, key: Seq<char>) -> Option<JsonView> {
    match value {
        JsonView::Object(entries) => match lookup_index(entries, key) {
            Some(i) => Some(entries[i].1),
            None => None,
        },
        _ => None,
    }
}

/// The value under `key` where there is a value and it is an object that has the key.
pub open spec fn opt_member(value: Option<JsonView>, key: Seq<char>) -> Option<JsonView> {
    match value {
        Some(v) => member(v, key),
        None => None,
    }
}

/// The characters where there is a value and it is a text.
pub open spec fn text_in(value: Option<JsonView>) -> Option<Seq<char>> {
    match value {
        Some(JsonView::Text(s, _)) => Some(s),
        _ => None,
    }
}

/// The truth value where there is a value and it is one.
pub open spec fn bool_in(value: Option<JsonView>) -> Option<bool> {
    match value {
        Some(JsonView::Bool(b)) => Some(b),
        _ => None,
    }
}

/// The items where there is a value and it is an array.
pub open spec fn array_in(value: Option<JsonView>) -> Option<Seq<JsonView>> {
    match value {
        Some(JsonView::Array(items)) => Some(items),
        _ => None,
    }
}

/// The integer where there is a value and it is an integer of the range of `i64`.
pub open spec fn int_in(value: Option<JsonView>) -> Option<i64> {
    match value {
        Some(JsonView::Number(JsonNumber::PosInt(n))) => if n <= i64::MAX {
            Some(n as i64)
        } else {
            None
        },
        Some(JsonView::Number(JsonNumber::NegInt(n))) => Some(n),
        _ => None,
    }
}

/// The integer where there is a value and it is an integer of the range of `u64`.
pub open spec fn uint_in(value: Option<JsonView>) -> Option<u64> {
    match value {
        Some(JsonView::Number(JsonNumber::PosInt(n))) => Some(n),
        _ => None,
    }
}

/// A position found by `lookup_index` is that of the first entry with the key.
pub proof fn lemma_lookup_index(entries: Seq<(Seq<char>, JsonView)>, key: Seq<char>)
    ensures
        match lookup_index(entries, key) {
            Some(i) => 0 <= i < entries.len() && entries[i].0 == key && forall|j: int|
                0 <= j < i ==> (#[trigger] entries[j]).0 != key,
            None => forall|j: int| 0 <= j < entries.len() ==> (#[trigger] entries[j]).0 != key,
        },
    decreases entries.len(),
{
    if entries.len() > 0 && entries[0].0 != key {
        let rest = entries.drop_first();
        lemma_lookup_index(rest, key);
        assert forall|j: int| 0 < j < entries.len() implies #[trigger] entries[j] == rest[j
            - 1] by {}
    }
}

/// A 64-bit pattern read as a signed number.
pub open spec fn wrapped(n: u64) -> i64 {
    if n <= i64::MAX {
        n as i64
    } else {
        (n - 0x1_0000_0000_0000_0000) as i64
    }
}

/// The number that a value stands for: an integer as it is, a double-precision number cut off
/// toward zero, a text by the number that it reads as.
pub open spec fn number_of(value: JsonView) -> Option<i64> {
    match value {
        JsonView::Number(JsonNumber::PosInt(n)) => Some(wrapped(n)),
        JsonView::Number(JsonNumber::NegInt(n)) => Some(n),
        JsonView::Number(JsonNumber::Float(bits)) => Some(truncated(bits)),
        JsonView::Text(_, n) => n,
        _ => None,
    }
}

impl Json {
    /// The value under `key`, where this is an object that has the key.
    pub fn get(&self, key: &str) -> (r: Option<&Json>)
        ensures
            opt_json(r) == member(self@, key@),
            r matches Some(v) ==> decreases_to!(self => v),
    {
        broadcast use lemma_json_view;

        match self {
            Json::Object(entries) => {
                let wanted = chars_of(key);
                let ghost all = entries_view(entries@);
                proof {
                    lemma_lookup_index(all, key@);
                }
                let mut i: usize = 0;
                while i < entries.len()
                    invariant
                        i <= entries@.len(),
                        wanted@ == key@,
                        all == entries_view(entries@),
                        self@ == JsonView::Object(all),
                        decreases_to!(self => entries),
                        forall|j: int| 0 <= j < i ==> (#[trigger] all[j]).0 != key@,
                    decreases entries@.len() - i,
                {
                    assert(all[i as int] == (entries@[i as int].0@, entries@[i as int].1@));
                    if same_chars(chars_of(entries[i].0.as_str()).as_slice(), wanted.as_slice()) {
                        proof {
                            lemma_lookup_index(all, key@);
                            assert(decreases_to!(entries => entries@[i as int]));
                            assert(decreases_to!(entries@[i as int] => entries@[i as int].1));
                        }
                        return Some(&entries[i].1);
                    }
                    i += 1;
                }
                None
            },
            _ => None,
        }
    }

    /// The text, where this is one.
    pub fn as_str(&self) -> (r: Option<&String>)
        ensures
            match r {
                Some(s) => text_in(Some(self@)) == Some(s@),
                None => text_in(Some(self@)) is None,
            },
    {
        match self {
            Json::Text(s, _) => Some(s),
            _ => None,
        }
    }

    /// The truth value, where this is one.
    pub fn as_bool(&self) -> (r: Option<bool>)
        ensures
            r == bool_in(Some(self@)),
    {
        match self {
            Json::Bool(b) => Some(*b),
            _ => None,
        }
    }

    /// The items, where this is an array.
    pub fn as_array(&self) -> (r: Option<&Vec<Json>>)
        ensures
            match r {
                Some(items) => array_in(Some(self@)) == Some(items_view(items@)) && decreases_to!(
                self => items),
                None => array_in(Some(self@)) is None,
            },
    {
        broadcast use lemma_json_view;

        match self {
            Json::Array(items) => Some(items),
            _ => None,
        }
    }

    /// The integer, where this is one of the range of `i64`.
    pub fn as_i64(&self) -> (r: Option<i64>)
        ensures
            r == int_in(Some(self@)),
    {
        match self {
            Json::Number(JsonNumber::PosInt(n)) => if *n <= 0x7fff_ffff_ffff_ffff {
                Some(*n as i64)
            } else {
                None
            },
            Json::Number(JsonNumber::NegInt(n)) => Some(*n),
            _ => None,
        }
    }

    /// The integer, where this is one of the range of `u64`.
    pub fn as_u64(&self) -> (r: Option<u64>)
        ensures
            r == uint_in(Some(self@)),
    {
        match self {
            Json::Number(JsonNumber::PosInt(n)) => Some(*n),
            _ => None,
        }
    }

    /// A second copy of the value.
    pub fn duplicate(&self) -> (r: Json)
        ensures
            r@ == self@,
        decreases self,
    {
        broadcast use lemma_json_view;

        match self {
            Json::Null => Json::Null,
            Json::Bool(b) => Json::Bool(*b),
            Json::Number(n) => Json::Number(*n),
            Json::Text(s, n) => Json::Text(s.clone(), *n),
            Json::Array(items) => {
                let mut copy: Vec<Json> = Vec::new();
                let mut i: usize = 0;
                while i < items.len()
                    invariant
                        i <= items@.len(),
                        items_view(copy@) == items_view(items@).take(i as int),
                        decreases_to!(self => items),
                    decreases items@.len() - i,
                {
                    assert(decreases_to!(items => items@[i as int]));
                    let item = items[i].duplicate();
                    let ghost before = copy@;
                    copy.push(item);
                    assert(items_view(copy@) =~= items_view(before).push(item@));
                    assert(items_view(items@).take(i + 1) =~= items_view(items@).take(
                        i as int,
                    ).push(items@[i as int]@));
                    i += 1;
                }
                assert(items_view(items@).take(items@.len() as int) =~= items_view(items@));
                Json::Array(copy)
            },
            Json::Object(entries) => {
                let mut copy: Vec<(String, Json)> = Vec::new();
                let mut i: usize = 0;
                while i < entries.len()
                    invariant
                        i <= entries@.len(),
                        entries_view(copy@) == entries_view(entries@).take(i as int),
                        decreases_to!(self => entries),
                    decreases entries@.len() - i,
                {
                    assert(decreases_to!(entries => entries@[i as int]));
                    assert(decreases_to!(entries@[i as int] => entries@[i as int].1));
                    let item = entries[i].1.duplicate();
                    let ghost before = copy@;
                    copy.push((entries[i].0.clone(), item));
                    assert(entries_view(copy@) =~= entries_view(before).push(
                        (entries@[i as int].0@, item@),
                    ));
                    assert(entries_view(entries@).take(i + 1) =~= entries_view(entries@).take(
                        i as int,
                    ).push((entries@[i as int].0@, entries@[i as int].1@)));
                    i += 1;
                }
                assert(entries_view(entries@).take(entries@.len() as int) =~= entries_view(
                    entries@,
                ));
                Json::Object(copy)
            },
        }
    }
}

/// The number that a value stands for.
pub fn json_value_as_i64(value: &Json) -> (r: Option<i64>)
    ensures
        r == number_of(value@),
{
    match value {
        Json::Number(JsonNumber::PosInt(n)) => {
            let n: u64 = *n;
            if n <= 0x7fff_ffff_ffff_ffff {
                Some(n as i64)
            } else {
                Some(-((0xffff_ffff_ffff_ffff - n) as i64) - 1)
            }
        },
        Json::Number(JsonNumber::NegInt(n)) => Some(*n),
        Json::Number(JsonNumber::Float(bits)) => Some(truncate_bits(*bits)),
        Json::Text(_, n) => *n,
        _ => None,
    }
}

/// The views of a list of keys.
pub open spec fn key_views(keys: Seq<&str>) -> Seq<Seq<char>> {
    keys.map_values(|s: &str| s@)
}

/// The number of the first key, in the order of the keys, whose value stands for one.
pub open spec fn keyed_number(value: JsonView, keys: Seq<Seq<char>>) -> Option<i64>
    decreases keys.len(),
{
    if keys.len() == 0 {
        None
    } else {
        let here = match member(value, keys[0]) {
            Some(v) => number_of(v),
            None => None,
        };
        match here {
            Some(n) => Some(n),
            None => keyed_number(value, keys.drop_first()),
        }
    }
}

/// The number found by `number_for_keys` in the first item that gives one.
pub open spec fn number_in_items(items: Seq<JsonView>, keys: Seq<Seq<char>>) -> Option<i64>
    decreases items,
{
    if items.len() == 0 {
        None
    } else {
        match number_for_keys(items[0], keys) {
            Some(n) => Some(n),
            None => number_in_items(items.drop_first(), keys),
        }
    }
}

/// The number found by `number_for_keys` in the value of the first entry that gives one.
pub open spec fn number_in_entries(
    entries: Seq<(Seq<char>, JsonView)>,
    keys: Seq<Seq<char>>,
) -> Option<i64>
    decreases entries,
{
    if entries.len() == 0 {
        None
    } else {
        match number_for_keys(entries[0].1, keys) {
            Some(n) => Some(n),
            None => number_in_entries(entries.drop_first(), keys),
        }
    }
}

/// The number that a value stands for or, where it stands for none, the number under the first
/// of the keys that has one, else the first number found so in what the value is made of.
pub open spec fn number_for_keys(value: JsonView, keys: Seq<Seq<char>>) -> Option<i64>
    decreases value,
{
    match number_of(value) {
        Some(n) => Some(n),
        None => match value {
            JsonView::Array(items) => number_in_items(items, keys),
            JsonView::Object(entries) => match keyed_number(value, keys) {
                Some(n) => Some(n),
                None => number_in_entries(entries, keys),
            },
            _ => None,
        },
    }
}

/// The number of the first of the keys whose value stands for one.
pub fn first_keyed_number(value: &Json, keys: &[&str]) -> (r: Option<i64>)
    ensures
        r == keyed_number(value@, key_views(keys@)),
{
    let mut k: usize = 0;
    let ghost all = key_views(keys@);
    assert(all.skip(0) =~= all);
    while k < keys.len()
        invariant
            k <= keys@.len(),
            all == key_views(keys@),
            keyed_number(value@, all.skip(k as int)) == keyed_number(value@, all),
        decreases keys@.len() - k,
    {
        assert(all.skip(k as int)[0] == keys@[k as int]@);
        assert(all.skip(k as int).drop_first() =~= all.skip(k + 1));
        if let Some(v) = value.get(keys[k]) {
            if let Some(n) = json_value_as_i64(v) {
                return Some(n);
            }
        }
        k += 1;
    }
    None
}

/// The number that a value stands for or, where it stands for none, the number under the first
/// of the keys that has one, else the first number found so in what the value is made of.
pub fn json_number_for_keys(value: &Json, keys: &[&str]) -> (r: Option<i64>)
    ensures
        r == number_for_keys(value@, key_views(keys@)),
    decreases value,
{
    broadcast use lemma_json_view;

    if let Some(n) = json_value_as_i64(value) {
        return Some(n);
    }
    let ghost wanted = key_views(keys@);
    match value {
        Json::Object(entries) => {
            if let Some(n) = first_keyed_number(value, keys) {
                return Some(n);
            }
            let ghost all = entries_view(entries@);
            assert(all.skip(0) =~= all);
            let mut i: usize = 0;
            while i < entries.len()
                invariant
                    i <= entries@.len(),
                    all == entries_view(entries@),
                    wanted == key_views(keys@),
                    number_in_entries(all.skip(i as int), wanted) == number_for_keys(
                        value@,
                        wanted,
                    ),
                    decreases_to!(value => entries),
                decreases entries@.len() - i,
            {
                assert(decreases_to!(entries => entries@[i as int]));
                assert(decreases_to!(entries@[i as int] => entries@[i as int].1));
                assert(all.skip(i as int)[0] == (
                    entries@[i as int].0@,
                    entries@[i as int].1@,
                ));
                assert(all.skip(i as int).drop_first() =~= all.skip(i + 1));
                if let Some(n) = json_number_for_keys(&entries[i].1, keys) {
                    return Some(n);
                }
                i += 1;
            }
            None
        },
        Json::Array(items) => {
            let ghost all = items_view(items@);
            assert(all.skip(0) =~= all);
            let mut i: usize = 0;
            while i < items.len()
                invariant
                    i <= items@.len(),
                    all == items_view(items@),
                    wanted == key_views(keys@),
                    number_in_items(all.skip(i as int), wanted) == number_for_keys(value@, wanted),
                    decreases_to!(value => items),
                decreases items@.len() - i,
            {
                assert(decreases_to!(items => items@[i as int]));
                assert(all.skip(i as int)[0] == items@[i as int]@);
                assert(all.skip(i as int).drop_first() =~= all.skip(i + 1));
                if let Some(n) = json_number_for_keys(&items[i], keys) {
                    return Some(n);
                }
                i += 1;
            }
            None
        },
        _ => None,
    }
}

} // verus!
