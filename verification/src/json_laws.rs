//! What holds of reading, searching and building JSON as a whole.
use crate::float::{exponent_field, fraction_field, integer_part, truncated};
use crate::json::{
    array_in, bool_in, entries_view, int_in, items_view, key_views, keyed_number,
    lemma_lookup_index, lookup_index, member, number_for_keys, number_in_entries, number_in_items,
    number_of, opt_json, opt_member, text_in, uint_in, wrapped, Json, JsonNumber, JsonView,
};
use crate::lookup::{
    first_string, first_string_in_entries, first_string_in_items, first_string_keyed,
    is_bracketed, natural_under, next_token_in, size_in, source_keys, string_for_keys,
    string_in_entries, string_in_items, text_or_empty,
};
use crate::output::{int_json, nat_json, or_null, text_json};
use crate::parse::{longest_text, parsed_json};
use crate::text::CharClass;
use crate::text_laws::law_trim_leaves_the_inside;
use vstd::arithmetic::power2::pow2;
use vstd::prelude::*;

verus! {

broadcast use vstd::string::group_string_axioms;

/// The mathematical form of a list has every value, entry or key of the list in its place.
pub proof fn law_values_are_viewed_one_by_one(
    items: Seq<Json>,
    entries: Seq<(String, Json)>,
    keys: Seq<&str>,
    value: Option<&Json>,
)
    ensures
        items_view(items).len() == items.len(),
        forall|i: int| 0 <= i < items.len() ==> items_view(items)[i] == (#[trigger] items[i])@,
        entries_view(entries).len() == entries.len(),
        forall|i: int|
            0 <= i < entries.len()
                ==> entries_view(entries)[i] == ((#[trigger] entries[i]).0@, entries[i].1@),
        key_views(keys).len() == keys.len(),
        forall|i: int| 0 <= i < keys.len() ==> key_views(keys)[i] == (#[trigger] keys[i])@,
        value is None ==> opt_json(value) is None,
        value matches Some(v) ==> opt_json(value) == Some(v@),
{
}

/// An object has under a key the value of the first entry with that key, and nothing where no
/// entry has it; what is no object has nothing under any key.
pub proof fn law_member_is_the_first_with_the_key(
    entries: Seq<(Seq<char>, JsonView)>,
    key: Seq<char>,
    i: int,
    other: JsonView,
)
    ensures
        0 <= i < entries.len() && entries[i].0 == key && (forall|j: int|
            0 <= j < i ==> (#[trigger] entries[j]).0 != key) ==> member(
            JsonView::Object(entries),
            key,
        ) == Some(entries[i].1),
        (forall|j: int| 0 <= j < entries.len() ==> (#[trigger] entries[j]).0 != key) ==> member(
            JsonView::Object(entries),
            key,
        ) is None,
        !(other is Object) ==> member(other, key) is None,
        opt_member(Some(other), key) == member(other, key),
        opt_member(None, key) is None,
{
    lemma_lookup_index(entries, key);
    if 0 <= i < entries.len() && entries[i].0 == key && (forall|j: int|
        0 <= j < i ==> (#[trigger] entries[j]).0 != key) {
        let k = lookup_index(entries, key)->0;
        if k < i {
            assert(entries[k].0 != key);
        }
        assert(k == i);
    }
}

/// A text is read where a text is, a truth value where one is, the items where an array is; and
/// nothing where something else is or nothing at all.
pub proof fn law_values_are_read_as_what_they_are(value: JsonView)
    ensures
        value matches JsonView::Text(s, _) ==> text_in(Some(value)) == Some(s),
        !(value is Text) ==> text_in(Some(value)) is None,
        text_in(None) is None,
        value matches JsonView::Bool(b) ==> bool_in(Some(value)) == Some(b),
        !(value is Bool) ==> bool_in(Some(value)) is None,
        bool_in(None) is None,
        value matches JsonView::Array(items) ==> array_in(Some(value)) == Some(items),
        !(value is Array) ==> array_in(Some(value)) is None,
        array_in(None) is None,
        !(value is Number) ==> int_in(Some(value)) is None && uint_in(Some(value)) is None,
        int_in(None) is None,
        uint_in(None) is None,
{
}

/// What is written into JSON is read back out of it: an integer as that integer, a natural number
/// as that number where it is in range, a text as that text.
pub proof fn law_written_values_are_read_back(n: i64, m: u64, s: Seq<char>)
    ensures
        int_in(Some(int_json(n))) == Some(n),
        uint_in(Some(int_json(n))) == if n >= 0 {
            Some(n as u64)
        } else {
            None
        },
        number_of(int_json(n)) == Some(n),
        uint_in(Some(nat_json(m))) == Some(m),
        int_in(Some(nat_json(m))) == if m <= i64::MAX {
            Some(m as i64)
        } else {
            None
        },
        text_in(Some(text_json(s))) == Some(s),
        number_of(text_json(s)) is None,
{
}

/// A number of JSON stands for itself: an integer for that integer, a double-precision number for
/// its integer part; only integers are read as integers.
pub proof fn law_numbers_stand_for_themselves(
    n: u64,
    m: i64,
    bits: u64,
    reading: Option<i64>,
    s: Seq<char>,
)
    ensures
        nat_json(n) == JsonView::Number(JsonNumber::PosInt(n)),
        m >= 0 ==> int_json(m) == JsonView::Number(JsonNumber::PosInt(m as u64)),
        m < 0 ==> int_json(m) == JsonView::Number(JsonNumber::NegInt(m)),
        number_of(JsonView::Number(JsonNumber::PosInt(n))) matches Some(k) && (k == n || k
            + 0x1_0000_0000_0000_0000 == n),
        wrapped(n) == n || wrapped(n) + 0x1_0000_0000_0000_0000 == n,
        number_of(JsonView::Number(JsonNumber::NegInt(m))) == Some(m),
        int_in(Some(JsonView::Number(JsonNumber::NegInt(m)))) == Some(m),
        uint_in(Some(JsonView::Number(JsonNumber::NegInt(m)))) is None,
        number_of(JsonView::Number(JsonNumber::Float(bits))) == Some(truncated(bits)),
        int_in(Some(JsonView::Number(JsonNumber::Float(bits)))) is None,
        uint_in(Some(JsonView::Number(JsonNumber::Float(bits)))) is None,
        number_of(JsonView::Text(s, reading)) == reading,
{
}

/// Nothing else than a number or a text stands for a number.
pub proof fn law_only_numbers_and_texts_are_numbers(value: JsonView)
    ensures
        number_of(value) is Some ==> value is Number || value is Text,
        value is Number ==> number_of(value) is Some,
{
}

/// What is there is kept, and only what is missing is made up for: by null, by an empty text.
pub proof fn law_only_what_is_missing_is_made_up_for(value: JsonView, s: Seq<char>)
    ensures
        or_null(Some(value)) == value,
        or_null(None) == JsonView::Null,
        text_or_empty(Some(s)) == s,
        text_or_empty(None).len() == 0,
{
}

/// A double-precision number is cut off toward zero: what is left is the integer part of its
/// magnitude, with its sign, and what is beyond the range of `i64` is held to the range.
pub proof fn law_numbers_are_cut_off_toward_zero(bits: u64)
    requires
        bits < 0x8000_0000_0000_0000,
        exponent_field(bits) < 0x7ff,
    ensures
        ({
            let e = exponent_field(bits);
            let m = fraction_field(bits) + 0x10_0000_0000_0000;
            let n = truncated(bits) as int;
            &&& e < 1023 ==> n == 0
            &&& 1023 <= e <= 1075 ==> n * pow2((1075 - e) as nat) <= m < (n + 1) * pow2(
                (1075 - e) as nat,
            )
            &&& 1075 < e < 1086 ==> n == m * pow2((e - 1075) as nat)
            &&& e >= 1086 ==> n == i64::MAX
        }),
        exponent_field(bits) < 1086 ==> truncated((bits + 0x8000_0000_0000_0000) as u64) == -(
        truncated(bits) as int),
        exponent_field(bits) >= 1086 ==> truncated((bits + 0x8000_0000_0000_0000) as u64)
            == i64::MIN,
{
    let e = exponent_field(bits);
    let m = fraction_field(bits) + 0x10_0000_0000_0000;
    let negative = (bits + 0x8000_0000_0000_0000) as u64;
    assert(negative / 0x10_0000_0000_0000 == bits / 0x10_0000_0000_0000 + 0x800);
    assert(exponent_field(negative) == e);
    assert(fraction_field(negative) == fraction_field(bits));
    assert(integer_part(negative) == integer_part(bits));
    if 1023 <= e <= 1075 {
        let d = pow2((1075 - e) as nat);
        vstd::arithmetic::power2::lemma_pow2_pos((1075 - e) as nat);
        vstd::arithmetic::div_mod::lemma_fundamental_div_mod(m as int, d as int);
        vstd::arithmetic::div_mod::lemma_mod_bound(m as int, d as int);
        let q = m as int / d as int;
        assert(q <= m) by (nonlinear_arith)
            requires
                d > 0,
                q == m as int / d as int,
                m >= 0,
        ;
        assert(q >= 0) by (nonlinear_arith)
            requires
                d > 0,
                q == m as int / d as int,
                m >= 0,
        ;
        assert(q * d <= m < (q + 1) * d) by (nonlinear_arith)
            requires
                m == d * q + m as int % d as int,
                0 <= m as int % d as int,
                (m as int % d as int) < d,
        ;
    } else if 1075 < e < 1086 {
        let k = (e - 1075) as nat;
        vstd::arithmetic::power2::lemma2_to64();
        if k < 10 {
            vstd::arithmetic::power2::lemma_pow2_strictly_increases(k, 10);
        }
        assert(m * pow2(k) < 0x20_0000_0000_0000 * 1024) by (nonlinear_arith)
            requires
                m < 0x20_0000_0000_0000,
                pow2(k) <= 1024,
                pow2(k) > 0,
        ;
    }
}

/// What is no number, by its bits, counts as zero.
pub proof fn law_no_number_is_zero(bits: u64)
    requires
        exponent_field(bits) == 0x7ff,
        fraction_field(bits) != 0,
    ensures
        truncated(bits) == 0,
{
}

/// The number under a key.
pub open spec fn number_at(value: JsonView, key: Seq<char>) -> Option<i64> {
    match member(value, key) {
        Some(v) => number_of(v),
        None => None,
    }
}

/// The number under some keys is that of the first of them that has one.
pub proof fn law_first_key_with_a_number_counts(value: JsonView, keys: Seq<Seq<char>>, k: int)
    ensures
        0 <= k < keys.len() && number_at(value, keys[k]) is Some && (forall|j: int|
            0 <= j < k ==> number_at(value, #[trigger] keys[j]) is None) ==> keyed_number(
            value,
            keys,
        ) == number_at(value, keys[k]),
        (forall|j: int| 0 <= j < keys.len() ==> number_at(value, #[trigger] keys[j]) is None)
            ==> keyed_number(value, keys) is None,
    decreases keys.len(),
{
    if keys.len() > 0 {
        let rest = keys.drop_first();
        law_first_key_with_a_number_counts(value, rest, k - 1);
        if number_at(value, keys[0]) is None {
            if 0 <= k < keys.len() && number_at(value, keys[k]) is Some && (forall|j: int|
                0 <= j < k ==> number_at(value, #[trigger] keys[j]) is None) {
                assert(rest[k - 1] == keys[k]);
                assert forall|j: int| 0 <= j < k - 1 implies number_at(
                    value,
                    #[trigger] rest[j],
                ) is None by {
                    assert(rest[j] == keys[j + 1]);
                }
            }
            if forall|j: int| 0 <= j < keys.len() ==> number_at(value, #[trigger] keys[j]) is None {
                assert forall|j: int| 0 <= j < rest.len() implies number_at(
                    value,
                    #[trigger] rest[j],
                ) is None by {
                    assert(rest[j] == keys[j + 1]);
                }
            }
        } else if k != 0 {
            assert(0 < k < keys.len() ==> number_at(value, keys[0]) is Some);
        }
    }
}

proof fn lemma_first_item_with_a_number(items: Seq<JsonView>, keys: Seq<Seq<char>>, k: int)
    requires
        0 <= k < items.len(),
        number_for_keys(items[k], keys) is Some,
        forall|j: int| 0 <= j < k ==> number_for_keys(#[trigger] items[j], keys) is None,
    ensures
        number_in_items(items, keys) == number_for_keys(items[k], keys),
    decreases k,
{
    if k > 0 {
        let rest = items.drop_first();
        assert(number_for_keys(items[0], keys) is None);
        assert forall|j: int| 0 <= j < k - 1 implies number_for_keys(
            #[trigger] rest[j],
            keys,
        ) is None by {
            assert(rest[j] == items[j + 1]);
        }
        lemma_first_item_with_a_number(rest, keys, k - 1);
    }
}

proof fn lemma_first_entry_with_a_number(
    entries: Seq<(Seq<char>, JsonView)>,
    keys: Seq<Seq<char>>,
    k: int,
)
    requires
        0 <= k < entries.len(),
        number_for_keys(entries[k].1, keys) is Some,
        forall|j: int| 0 <= j < k ==> number_for_keys((#[trigger] entries[j]).1, keys) is None,
    ensures
        number_in_entries(entries, keys) == number_for_keys(entries[k].1, keys),
    decreases k,
{
    if k > 0 {
        let rest = entries.drop_first();
        assert(number_for_keys(entries[0].1, keys) is None);
        assert forall|j: int| 0 <= j < k - 1 implies number_for_keys(
            (#[trigger] rest[j]).1,
            keys,
        ) is None by {
            assert(rest[j] == entries[j + 1]);
        }
        lemma_first_entry_with_a_number(rest, keys, k - 1);
    }
}

/// A number that is looked for is the value itself where that stands for one; in an object the one
/// under the first of the keys, before any that stands deeper; else that of the first item or
/// entry in which one is found.
pub proof fn law_nearest_number_counts(
    value: JsonView,
    items: Seq<JsonView>,
    entries: Seq<(Seq<char>, JsonView)>,
    keys: Seq<Seq<char>>,
    k: int,
)
    ensures
        number_of(value) is Some ==> number_for_keys(value, keys) == number_of(value),
        keyed_number(JsonView::Object(entries), keys) is Some ==> number_for_keys(
            JsonView::Object(entries),
            keys,
        ) == keyed_number(JsonView::Object(entries), keys),
        keyed_number(JsonView::Object(entries), keys) is None && 0 <= k < entries.len()
            && number_for_keys(entries[k].1, keys) is Some && (forall|j: int|
            0 <= j < k ==> number_for_keys((#[trigger] entries[j]).1, keys) is None)
            ==> number_for_keys(JsonView::Object(entries), keys) == number_for_keys(
            entries[k].1,
            keys,
        ),
        0 <= k < items.len() && number_for_keys(items[k], keys) is Some && (forall|j: int|
            0 <= j < k ==> number_for_keys(#[trigger] items[j], keys) is None) ==> number_for_keys(
            JsonView::Array(items),
            keys,
        ) == number_for_keys(items[k], keys),
{
    if 0 <= k < entries.len() && number_for_keys(entries[k].1, keys) is Some && (forall|j: int|
        0 <= j < k ==> number_for_keys((#[trigger] entries[j]).1, keys) is None) {
        lemma_first_entry_with_a_number(entries, keys, k);
        if let JsonView::Object(all) = JsonView::Object(entries) {
            assert(number_in_entries(all, keys) == number_for_keys(entries[k].1, keys));
        }
    }
    if 0 <= k < items.len() && number_for_keys(items[k], keys) is Some && (forall|j: int|
        0 <= j < k ==> number_for_keys(#[trigger] items[j], keys) is None) {
        lemma_first_item_with_a_number(items, keys, k);
        if let JsonView::Array(all) = JsonView::Array(items) {
            assert(number_in_items(all, keys) == number_for_keys(items[k], keys));
        }
    }
}

/// A size is looked for under `size`, `total`, `total_size`, `file_size` and `length`, in this
/// order; where none of them has a number there is none, and it counts as zero.
pub proof fn law_size_is_looked_for_in_this_order(props: JsonView, k: int)
    ensures
        ({
            let keys = seq!["size"@, "total"@, "total_size"@, "file_size"@, "length"@];
            &&& 0 <= k < 5 && number_at(props, keys[k]) is Some && (forall|j: int|
                0 <= j < k ==> number_at(props, #[trigger] keys[j]) is None)
                    ==> size_in(Some(props))
                == number_at(props, keys[k])->0
            &&& (forall|j: int| 0 <= j < 5 ==> number_at(props, #[trigger] keys[j]) is None)
                ==> size_in(Some(props)) == 0
        }),
        size_in(None) == 0,
{
    let keys = seq!["size"@, "total"@, "total_size"@, "file_size"@, "length"@];
    law_first_key_with_a_number_counts(props, keys, k);
}

/// The text found under a key of an object.
pub open spec fn string_at(
    entries: Seq<(Seq<char>, JsonView)>,
    key: Seq<char>,
) -> Option<Seq<char>> {
    match member(JsonView::Object(entries), key) {
        Some(v) => first_string(v),
        None => None,
    }
}

/// The text under some keys is that of the first of them that has one.
pub proof fn law_first_key_with_a_text_counts(
    entries: Seq<(Seq<char>, JsonView)>,
    keys: Seq<Seq<char>>,
    k: int,
)
    ensures
        0 <= k < keys.len() && string_at(entries, keys[k]) is Some && (forall|j: int|
            0 <= j < k ==> string_at(entries, #[trigger] keys[j]) is None) ==> first_string_keyed(
            entries,
            keys,
        ) == string_at(entries, keys[k]),
        (forall|j: int| 0 <= j < keys.len() ==> string_at(entries, #[trigger] keys[j]) is None)
            ==> first_string_keyed(entries, keys) is None,
    decreases keys.len(),
{
    if keys.len() > 0 {
        let rest = keys.drop_first();
        lemma_lookup_index(entries, keys[0]);
        law_first_key_with_a_text_counts(entries, rest, k - 1);
        if string_at(entries, keys[0]) is None {
            if 0 <= k < keys.len() && string_at(entries, keys[k]) is Some && (forall|j: int|
                0 <= j < k ==> string_at(entries, #[trigger] keys[j]) is None) {
                assert(rest[k - 1] == keys[k]);
                assert forall|j: int| 0 <= j < k - 1 implies string_at(
                    entries,
                    #[trigger] rest[j],
                ) is None by {
                    assert(rest[j] == keys[j + 1]);
                }
            }
            if forall|j: int| 0 <= j < keys.len()
                ==> string_at(entries, #[trigger] keys[j]) is None {
                assert forall|j: int| 0 <= j < rest.len() implies string_at(
                    entries,
                    #[trigger] rest[j],
                ) is None by {
                    assert(rest[j] == keys[j + 1]);
                }
            }
        } else if k != 0 {
            assert(0 < k < keys.len() ==> string_at(entries, keys[0]) is Some);
        }
    }
}

/// A text says itself without the white space around it; where nothing or a dot is left it says
/// nothing.
pub proof fn law_text_says_itself(
    before: Seq<char>,
    inside: Seq<char>,
    after: Seq<char>,
    reading: Option<i64>,
)
    requires
        forall|i: int| 0 <= i < before.len() ==> CharClass::White.has(#[trigger] before[i]),
        forall|i: int| 0 <= i < after.len() ==> CharClass::White.has(#[trigger] after[i]),
        inside.len() > 0 ==> !CharClass::White.has(inside[0]) && !CharClass::White.has(
            inside.last(),
        ),
    ensures
        first_string(JsonView::Text(before + inside + after, reading)) is None <==> inside.len()
            == 0 || inside == "."@,
        inside.len() > 0 && inside != "."@ && !is_bracketed(inside) ==> first_string(
            JsonView::Text(before + inside + after, reading),
        ) == Some(inside),
{
    law_trim_leaves_the_inside(before, inside, after, CharClass::White);
}

/// A text that is itself JSON in brackets or braces says what that JSON says, and itself where
/// that says nothing.
pub proof fn law_json_in_a_text_is_looked_into(s: Seq<char>, reading: Option<i64>, inner: JsonView)
    requires
        s.len() > 1,
        (s[0] == '[' && s.last() == ']') || (s[0] == '{' && s.last() == '}'),
        parsed_json(s) == Some(inner),
        longest_text(inner) < s.len(),
    ensures
        first_string(JsonView::Text(s, reading)) == match first_string(inner) {
            Some(found) => Some(found),
            None => Some(s),
        },
{
    reveal_strlit(".");
    assert(Seq::<char>::empty() + s + Seq::<char>::empty() =~= s);
    law_trim_leaves_the_inside(Seq::empty(), s, Seq::empty(), CharClass::White);
}

proof fn lemma_first_item_with_a_text(items: Seq<JsonView>, k: int)
    requires
        0 <= k < items.len(),
        first_string(items[k]) is Some,
        forall|j: int| 0 <= j < k ==> first_string(#[trigger] items[j]) is None,
    ensures
        first_string_in_items(items) == first_string(items[k]),
    decreases k,
{
    if k > 0 {
        let rest = items.drop_first();
        assert(first_string(items[0]) is None);
        assert forall|j: int| 0 <= j < k - 1 implies first_string(#[trigger] rest[j]) is None by {
            assert(rest[j] == items[j + 1]);
        }
        lemma_first_item_with_a_text(rest, k - 1);
    }
}

proof fn lemma_first_entry_with_a_text(entries: Seq<(Seq<char>, JsonView)>, k: int)
    requires
        0 <= k < entries.len(),
        first_string(entries[k].1) is Some,
        forall|j: int| 0 <= j < k ==> first_string((#[trigger] entries[j]).1) is None,
    ensures
        first_string_in_entries(entries) == first_string(entries[k].1),
    decreases k,
{
    if k > 0 {
        let rest = entries.drop_first();
        assert(first_string(entries[0].1) is None);
        assert forall|j: int| 0 <= j < k - 1 implies first_string(
            (#[trigger] rest[j]).1,
        ) is None by {
            assert(rest[j] == entries[j + 1]);
        }
        lemma_first_entry_with_a_text(rest, k - 1);
    }
}

/// In an array the first item that says something counts. In an object a text is looked for under
/// these keys, in this order, and only then in the first entry that says something.
pub proof fn law_text_is_looked_for_in_this_order(
    items: Seq<JsonView>,
    entries: Seq<(Seq<char>, JsonView)>,
    k: int,
)
    ensures
        0 <= k < items.len() && first_string(items[k]) is Some && (forall|j: int|
            0 <= j < k ==> first_string(#[trigger] items[j]) is None) ==> first_string(
            JsonView::Array(items),
        ) == first_string(items[k]),
        ({
            let keys = seq![
                "name"@,
                "src"@,
                "url"@,
                "src_str"@,
                "url_str"@,
                "source"@,
                "source_url"@,
                "uri"@,
                "urls"@,
            ];
            &&& 0 <= k < 9 && string_at(entries, keys[k]) is Some && (forall|j: int|
                0 <= j < k ==> string_at(entries, #[trigger] keys[j]) is None) ==> first_string(
                JsonView::Object(entries),
            ) == string_at(entries, keys[k])
            &&& (forall|j: int| 0 <= j < 9 ==> string_at(entries, #[trigger] keys[j]) is None) && 0
                <= k < entries.len() && first_string(entries[k].1) is Some && (forall|j: int|
                0 <= j < k ==> first_string((#[trigger] entries[j]).1) is None) ==> first_string(
                JsonView::Object(entries),
            ) == first_string(entries[k].1)
        }),
{
    if 0 <= k < items.len() && first_string(items[k]) is Some && (forall|j: int|
        0 <= j < k ==> first_string(#[trigger] items[j]) is None) {
        lemma_first_item_with_a_text(items, k);
        if let JsonView::Array(all) = JsonView::Array(items) {
            assert(first_string_in_items(all) == first_string(items[k]));
        }
    }
    let keys = seq![
        "name"@,
        "src"@,
        "url"@,
        "src_str"@,
        "url_str"@,
        "source"@,
        "source_url"@,
        "uri"@,
        "urls"@,
    ];
    assert(keys =~= source_keys());
    law_first_key_with_a_text_counts(entries, keys, k);
    if 0 <= k < entries.len() && first_string(entries[k].1) is Some && (forall|j: int|
        0 <= j < k ==> first_string((#[trigger] entries[j]).1) is None) {
        lemma_first_entry_with_a_text(entries, k);
    }
    if let JsonView::Object(all) = JsonView::Object(entries) {
        assert(first_string(JsonView::Object(entries)) == match first_string_keyed(all, keys) {
            Some(s) => Some(s),
            None => first_string_in_entries(all),
        });
    }
}

proof fn lemma_first_item_with_a_keyed_text(items: Seq<JsonView>, keys: Seq<Seq<char>>, k: int)
    requires
        0 <= k < items.len(),
        string_for_keys(items[k], keys) is Some,
        forall|j: int| 0 <= j < k ==> string_for_keys(#[trigger] items[j], keys) is None,
    ensures
        string_in_items(items, keys) == string_for_keys(items[k], keys),
    decreases k,
{
    if k > 0 {
        let rest = items.drop_first();
        assert(string_for_keys(items[0], keys) is None);
        assert forall|j: int| 0 <= j < k - 1 implies string_for_keys(
            #[trigger] rest[j],
            keys,
        ) is None by {
            assert(rest[j] == items[j + 1]);
        }
        lemma_first_item_with_a_keyed_text(rest, keys, k - 1);
    }
}

proof fn lemma_first_entry_with_a_keyed_text(
    entries: Seq<(Seq<char>, JsonView)>,
    keys: Seq<Seq<char>>,
    k: int,
)
    requires
        0 <= k < entries.len(),
        string_for_keys(entries[k].1, keys) is Some,
        forall|j: int| 0 <= j < k ==> string_for_keys((#[trigger] entries[j]).1, keys) is None,
    ensures
        string_in_entries(entries, keys) == string_for_keys(entries[k].1, keys),
    decreases k,
{
    if k > 0 {
        let rest = entries.drop_first();
        assert(string_for_keys(entries[0].1, keys) is None);
        assert forall|j: int| 0 <= j < k - 1 implies string_for_keys(
            (#[trigger] rest[j]).1,
            keys,
        ) is None by {
            assert(rest[j] == entries[j + 1]);
        }
        lemma_first_entry_with_a_keyed_text(rest, keys, k - 1);
    }
}

/// A text that is looked for under some keys is, in an object, the one under the first of the keys
/// that has one, before any that stands deeper; else that of the first item or entry in which one
/// is found. A value that is made of no others has nothing under any key.
pub proof fn law_nearest_text_counts(
    items: Seq<JsonView>,
    entries: Seq<(Seq<char>, JsonView)>,
    keys: Seq<Seq<char>>,
    k: int,
    plain: JsonView,
)
    ensures
        first_string_keyed(entries, keys) is Some ==> string_for_keys(
            JsonView::Object(entries),
            keys,
        ) == first_string_keyed(entries, keys),
        first_string_keyed(entries, keys) is None && 0 <= k < entries.len() && string_for_keys(
            entries[k].1,
            keys,
        ) is Some && (forall|j: int|
            0 <= j < k ==> string_for_keys((#[trigger] entries[j]).1, keys) is None)
            ==> string_for_keys(JsonView::Object(entries), keys) == string_for_keys(
            entries[k].1,
            keys,
        ),
        0 <= k < items.len() && string_for_keys(items[k], keys) is Some && (forall|j: int|
            0 <= j < k ==> string_for_keys(#[trigger] items[j], keys) is None) ==> string_for_keys(
            JsonView::Array(items),
            keys,
        ) == string_for_keys(items[k], keys),
        !(plain is Array) && !(plain is Object) ==> string_for_keys(plain, keys) is None,
{
    if 0 <= k < entries.len() && string_for_keys(entries[k].1, keys) is Some && (forall|j: int|
        0 <= j < k ==> string_for_keys((#[trigger] entries[j]).1, keys) is None) {
        lemma_first_entry_with_a_keyed_text(entries, keys, k);
        if let JsonView::Object(all) = JsonView::Object(entries) {
            assert(string_in_entries(all, keys) == string_for_keys(entries[k].1, keys));
        }
    }
    if 0 <= k < items.len() && string_for_keys(items[k], keys) is Some && (forall|j: int|
        0 <= j < k ==> string_for_keys(#[trigger] items[j], keys) is None) {
        lemma_first_item_with_a_keyed_text(items, keys, k);
        if let JsonView::Array(all) = JsonView::Array(items) {
            assert(string_in_items(all, keys) == string_for_keys(items[k], keys));
        }
    }
}

/// A natural number is read where an integer stands that is not negative, whichever way it is
/// written, and nowhere else.
pub proof fn law_natural_numbers(value: JsonView, key: Seq<char>, n: u64, m: i64)
    ensures
        member(value, key) == Some(nat_json(n)) ==> natural_under(value, key) == Some(n),
        member(value, key) == Some(int_json(m)) ==> natural_under(value, key) == if m >= 0 {
            Some(m as u64)
        } else {
            None
        },
        member(value, key) is None ==> natural_under(value, key) is None,
        natural_under(value, key) matches Some(k) ==> int_in(member(value, key)) == Some(k as i64)
            || uint_in(member(value, key)) == Some(k),
{
}

/// The next page of shares is named by the text under `next_token` in `pagination`, or where that
/// key is missing under `next_page_token`; an empty text names none.
pub proof fn law_next_page_is_named(data: JsonView, pagination: JsonView)
    requires
        member(data, "pagination"@) == Some(pagination),
    ensures
        member(pagination, "next_token"@) matches Some(JsonView::Text(s, _)) ==> next_token_in(data)
            == if s.len() > 0 {
            Some(s)
        } else {
            None
        },
        member(pagination, "next_token"@) is None ==> (member(
            pagination,
            "next_page_token"@,
        ) matches Some(JsonView::Text(s, _)) ==> next_token_in(data) == if s.len() > 0 {
            Some(s)
        } else {
            None
        }),
        member(pagination, "next_token"@) is None && member(pagination, "next_page_token"@) is None
            ==> next_token_in(data) is None,
{
}

/// Without `pagination` there is no next page.
pub proof fn law_no_pagination_no_next_page(data: JsonView)
    requires
        member(data, "pagination"@) is None,
    ensures
        next_token_in(data) is None,
{
}

} // verus!
