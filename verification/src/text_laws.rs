//! What holds of texts, numbers in decimal, file names and queries as a whole.
use crate::names::{after_last, before_first, file_name, has_thumbnail, unicode_lower};
use crate::query::{encoded, hex_value, percent_decoded};
use crate::text::{
    ascii_lower, ascii_lower_text, contains_text, decimal, digits, has_prefix, has_suffix,
    index_of_char, last_index_of_char, lemma_index_of_char, lemma_last_index_of_char, occurs_at,
    opt_view, strip_all, text_before, trim, trim_end, trim_start, views, CharClass,
};
use vstd::prelude::*;
use vstd::utf8::is_ascii_chars;

verus! {

broadcast use vstd::string::group_string_axioms;

/// The mathematical form of a list of texts has every text of the list in its place, and that of a
/// text that may be there is there exactly where the text is.
pub proof fn law_texts_are_viewed_one_by_one(list: Seq<String>, text: Option<String>)
    ensures
        views(list).len() == list.len(),
        forall|i: int| 0 <= i < list.len() ==> views(list)[i] == (#[trigger] list[i])@,
        text is None ==> opt_view(text) is None,
        text matches Some(s) ==> opt_view(text) == Some(s@),
{
}

/// A part stands in a text exactly where the text is something, the part, and something else.
pub proof fn law_occurrence(before: Seq<char>, part: Seq<char>, after: Seq<char>)
    ensures
        occurs_at(before + part + after, part, before.len() as int),
        contains_text(before + part + after, part),
        has_prefix(part + after, part),
        has_suffix(before + part, part),
{
    let s = before + part + after;
    assert(s.subrange(before.len() as int, (before.len() + part.len()) as int) =~= part);
    assert((part + after).subrange(0, part.len() as int) =~= part);
    assert((before + part).subrange(
        before.len() as int,
        (before.len() + part.len()) as int,
    ) =~= part);
    assert((before + part).len() - part.len() == before.len());
}

/// A text in which a part stands is what comes before the part, the part, and what comes after it.
pub proof fn law_occurrence_splits(s: Seq<char>, part: Seq<char>, i: int)
    ensures
        occurs_at(s, part, i) ==> 0 <= i <= s.len() - part.len() && s == s.take(i) + part + s.skip(
            i + part.len(),
        ),
        contains_text(s, part) <==> exists|k: int| occurs_at(s, part, k),
        has_prefix(s, part) ==> s == part + s.skip(part.len() as int),
        has_suffix(s, part) ==> s == s.take(s.len() - part.len()) + part,
{
    if occurs_at(s, part, i) {
        assert(s =~= s.take(i) + s.subrange(i, i + part.len()) + s.skip(i + part.len()));
    }
    if has_prefix(s, part) {
        assert(s =~= s.subrange(0, part.len() as int) + s.skip(part.len() as int));
    }
    if has_suffix(s, part) {
        let k = s.len() - part.len();
        assert(s =~= s.take(k) + s.subrange(k, k + part.len()));
    }
}

/// Taking off a prefix as often as it stands leaves none of it and takes off nothing else.
pub proof fn law_prefixes_are_stripped(s: Seq<char>, prefix: Seq<char>)
    requires
        prefix.len() > 0,
    ensures
        !has_prefix(strip_all(s, prefix), prefix),
        has_suffix(s, strip_all(s, prefix)),
        strip_all(prefix + s, prefix) == strip_all(s, prefix),
        !has_prefix(s, prefix) ==> strip_all(s, prefix) == s,
    decreases s.len(),
{
    let rest = strip_all(s, prefix);
    if has_prefix(s, prefix) {
        let tail = s.skip(prefix.len() as int);
        law_prefixes_are_stripped(tail, prefix);
        let k = tail.len() - rest.len();
        assert(s.subrange(s.len() - rest.len(), s.len() as int) =~= tail.subrange(
            k,
            tail.len() as int,
        ));
    } else {
        assert(s.subrange(0, s.len() as int) =~= s);
    }
    law_occurrence(Seq::empty(), prefix, s);
    assert((prefix + s).skip(prefix.len() as int) =~= s);
}

/// White space is what Unicode says it is: these characters and no others. Any other class holds
/// its one character.
pub proof fn law_white_space(c: char, d: char)
    ensures
        CharClass::White.has(c) <==> seq![
            0x9u32,
            0xau32,
            0xbu32,
            0xcu32,
            0xdu32,
            0x20u32,
            0x85u32,
            0xa0u32,
            0x1680u32,
            0x2000u32,
            0x2001u32,
            0x2002u32,
            0x2003u32,
            0x2004u32,
            0x2005u32,
            0x2006u32,
            0x2007u32,
            0x2008u32,
            0x2009u32,
            0x200au32,
            0x2028u32,
            0x2029u32,
            0x202fu32,
            0x205fu32,
            0x3000u32,
        ].contains(c as u32),
        CharClass::Only(d).has(c) <==> c == d,
{
    let all = seq![
        0x9u32,
        0xau32,
        0xbu32,
        0xcu32,
        0xdu32,
        0x20u32,
        0x85u32,
        0xa0u32,
        0x1680u32,
        0x2000u32,
        0x2001u32,
        0x2002u32,
        0x2003u32,
        0x2004u32,
        0x2005u32,
        0x2006u32,
        0x2007u32,
        0x2008u32,
        0x2009u32,
        0x200au32,
        0x2028u32,
        0x2029u32,
        0x202fu32,
        0x205fu32,
        0x3000u32,
    ];
    let u = c as u32;
    if CharClass::White.has(c) {
        let k: int = if u <= 0xd {
            u - 9
        } else if u == 0x20 {
            5
        } else if u == 0x85 {
            6
        } else if u == 0xa0 {
            7
        } else if u == 0x1680 {
            8
        } else if u <= 0x200a {
            u - 0x2000 + 9
        } else if u == 0x2028 {
            20
        } else if u == 0x2029 {
            21
        } else if u == 0x202f {
            22
        } else if u == 0x205f {
            23
        } else {
            24
        };
        assert(all[k] == u);
    }
}

/// Trimming the end takes off characters of the class only, and all of them that stand there.
pub proof fn law_end_is_trimmed(s: Seq<char>, class: CharClass)
    ensures
        ({
            let k = trim_end(s, class).len() as int;
            &&& k <= s.len()
            &&& trim_end(s, class) == s.take(k)
            &&& forall|i: int| k <= i < s.len() ==> class.has(#[trigger] s[i])
            &&& k > 0 ==> !class.has(s[k - 1])
        }),
    decreases s.len(),
{
    if s.len() > 0 && class.has(s.last()) {
        let front = s.drop_last();
        law_end_is_trimmed(front, class);
        let k = trim_end(front, class).len() as int;
        assert(front.take(k) =~= s.take(k));
        assert forall|i: int| k <= i < s.len() implies class.has(#[trigger] s[i]) by {
            if i < front.len() {
                assert(front[i] == s[i]);
            }
        }
    } else {
        assert(s.take(s.len() as int) =~= s);
    }
}

/// Trimming the start takes off characters of the class only, and all of them that stand there.
pub proof fn law_start_is_trimmed(s: Seq<char>, class: CharClass)
    ensures
        ({
            let k = s.len() - trim_start(s, class).len();
            &&& 0 <= k
            &&& trim_start(s, class) == s.skip(k)
            &&& forall|i: int| 0 <= i < k ==> class.has(#[trigger] s[i])
            &&& k < s.len() ==> !class.has(s[k])
        }),
    decreases s.len(),
{
    if s.len() > 0 && class.has(s[0]) {
        let rest = s.drop_first();
        law_start_is_trimmed(rest, class);
        let k = rest.len() - trim_start(rest, class).len();
        assert(rest.skip(k) =~= s.skip(k + 1));
        assert forall|i: int| 0 <= i < k + 1 implies class.has(#[trigger] s[i]) by {
            if i > 0 {
                assert(rest[i - 1] == s[i]);
            }
        }
    } else {
        assert(s.skip(0) =~= s);
    }
}

/// A text between characters of the class is what trimming leaves.
pub proof fn law_trim_leaves_the_inside(
    before: Seq<char>,
    inside: Seq<char>,
    after: Seq<char>,
    class: CharClass,
)
    requires
        forall|i: int| 0 <= i < before.len() ==> class.has(#[trigger] before[i]),
        forall|i: int| 0 <= i < after.len() ==> class.has(#[trigger] after[i]),
        inside.len() > 0 ==> !class.has(inside[0]) && !class.has(inside.last()),
    ensures
        trim(before + inside + after, class) == inside,
{
    let s = before + inside + after;
    law_start_is_trimmed(s, class);
    let start = trim_start(s, class);
    let k = s.len() - start.len();
    assert forall|i: int| before.len() + inside.len() <= i < s.len() implies class.has(
        #[trigger] s[i],
    ) by {
        assert(s[i] == after[i - before.len() - inside.len()]);
    }
    assert forall|i: int| 0 <= i < before.len() implies class.has(#[trigger] s[i]) by {
        assert(s[i] == before[i]);
    }
    law_end_is_trimmed(start, class);
    let m = trim_end(start, class).len() as int;
    if inside.len() > 0 {
        assert(s[before.len() as int] == inside[0]);
        assert(k == before.len());
        assert(start =~= inside + after);
        assert forall|i: int| inside.len() <= i < start.len() implies class.has(
            #[trigger] start[i],
        ) by {
            assert(start[i] == s[k + i]);
        }
        assert(start[inside.len() - 1] == inside.last());
        assert(m == inside.len());
        assert(start.take(m) =~= inside);
    } else {
        assert(k == s.len());
        assert(start =~= Seq::empty());
        assert(trim_end(start, class) =~= inside);
    }
}

/// In ASCII lower case a capital letter is the letter 32 places on, every other character stays,
/// and each stays in its place.
pub proof fn law_ascii_lower_case(s: Seq<char>, c: char)
    ensures
        0x41 <= c as u32 <= 0x5a ==> ascii_lower(c) as u32 == c as u32 + 32,
        !(0x41 <= c as u32 <= 0x5a) ==> ascii_lower(c) == c,
        ascii_lower_text(s).len() == s.len(),
        forall|i: int| 0 <= i < s.len() ==> #[trigger] ascii_lower_text(s)[i] == ascii_lower(s[i]),
{
}

/// Texts are in the order of the first character in which they differ, and the beginning of a
/// text comes before the text.
pub proof fn law_text_order(a: Seq<char>, b: Seq<char>, k: int)
    requires
        0 <= k <= a.len(),
        0 <= k <= b.len(),
        forall|i: int| 0 <= i < k ==> a[i] == b[i],
    ensures
        k == a.len() ==> (text_before(a, b) <==> k < b.len()),
        k < a.len() && k == b.len() ==> !text_before(a, b),
        k < a.len() && k < b.len() && a[k] != b[k] ==> (text_before(a, b) <==> a[k] < b[k]),
    decreases k,
{
    if k > 0 {
        let rest_a = a.drop_first();
        let rest_b = b.drop_first();
        assert forall|i: int| 0 <= i < k - 1 implies rest_a[i] == rest_b[i] by {
            assert(a[i + 1] == b[i + 1]);
        }
        law_text_order(rest_a, rest_b, k - 1);
    }
}

/// The number that decimal digits stand for.
pub open spec fn number_read_in(s: Seq<char>) -> int
    decreases s.len(),
{
    if s.len() == 0 {
        0
    } else {
        10 * number_read_in(s.drop_last()) + (s.last() as u32 - 0x30)
    }
}

/// The digits of a number are digits, stand for the number, and begin with a zero only for zero.
pub proof fn law_digits_stand_for_the_number(n: nat)
    ensures
        number_read_in(digits(n)) == n,
        digits(n).len() > 0,
        forall|i: int| 0 <= i < digits(n).len() ==> 0x30 <= #[trigger] digits(n)[i] as u32 <= 0x39,
        n > 0 ==> digits(n)[0] as u32 != 0x30,
        n == 0 ==> digits(n).len() == 1,
    decreases n,
{
    let s = digits(n);
    if n >= 10 {
        law_digits_stand_for_the_number(n / 10);
        assert(s.drop_last() =~= digits(n / 10));
        assert forall|i: int| 0 <= i < s.len() implies 0x30 <= #[trigger] s[i] as u32 <= 0x39 by {
            if i < s.len() - 1 {
                assert(s[i] == digits(n / 10)[i]);
            }
        }
        assert(s[0] == digits(n / 10)[0]);
    } else {
        assert(s.drop_last() =~= Seq::empty());
        assert(number_read_in(s.drop_last()) == 0);
    }
}

/// Two numbers with the same digits are the same number.
pub proof fn law_digits_tell_numbers_apart(a: nat, b: nat)
    requires
        digits(a) == digits(b),
    ensures
        a == b,
{
    law_digits_stand_for_the_number(a);
    law_digits_stand_for_the_number(b);
}

/// An integer is written as its digits, with a minus sign before them where it is negative; and
/// two integers that are written alike are the same.
pub proof fn law_decimal_notation(a: int, b: int)
    ensures
        a >= 0 ==> number_read_in(decimal(a)) == a && decimal(a)[0] != '-',
        a < 0 ==> decimal(a)[0] == '-' && number_read_in(decimal(a).skip(1)) == -a,
        decimal(a) == decimal(b) ==> a == b,
{
    law_digits_stand_for_the_number(
        (if a < 0 {
            -a
        } else {
            a
        }) as nat,
    );
    law_digits_stand_for_the_number(
        (if b < 0 {
            -b
        } else {
            b
        }) as nat,
    );
    if a < 0 {
        assert(decimal(a).skip(1) =~= digits((-a) as nat));
    }
    if b < 0 {
        assert(decimal(b).skip(1) =~= digits((-b) as nat));
    }
}

/// What stands before the first of a character is all of a text without it, and else what comes
/// before the first one.
pub proof fn law_before_first(before: Seq<char>, c: char, after: Seq<char>)
    requires
        !before.contains(c),
    ensures
        before_first(before, c) == before,
        before_first(before.push(c) + after, c) == before,
{
    let s = before.push(c) + after;
    lemma_index_of_char(before, c);
    if let Some(k) = index_of_char(before, c) {
        assert(before.contains(before[k]));
    }
    lemma_index_of_char(s, c);
    assert(s[before.len() as int] == c);
    let k = index_of_char(s, c)->0;
    if k < before.len() {
        assert(before[k] == c);
        assert(before.contains(before[k]));
    }
    assert(s.take(k) =~= before);
}

/// What stands after the last of a character is all of a text without it, and else what comes
/// after the last one.
pub proof fn law_after_last(before: Seq<char>, c: char, after: Seq<char>)
    requires
        !after.contains(c),
    ensures
        after_last(after, c) == after,
        after_last(before.push(c) + after, c) == after,
{
    let s = before.push(c) + after;
    lemma_last_index_of_char(after, c);
    if let Some(k) = last_index_of_char(after, c) {
        assert(after.contains(after[k]));
    }
    lemma_last_index_of_char(s, c);
    assert(s[before.len() as int] == c);
    let k = last_index_of_char(s, c)->0;
    if k > before.len() {
        assert(s[k] == after[k - before.len() - 1]);
        assert(after.contains(after[k - before.len() - 1]));
    }
    assert(s.skip(k + 1) =~= after);
}

/// A file has a thumbnail exactly where its extension, in any case of letters, is one of these
/// kinds of images and videos; what comes before the extension does not matter.
pub proof fn law_images_and_videos_have_thumbnails(stem: Seq<char>, ext: Seq<char>)
    requires
        !ext.contains('.'),
    ensures
        has_thumbnail(stem.push('.') + ext) <==> seq![
            "jpg"@,
            "jpeg"@,
            "png"@,
            "gif"@,
            "webp"@,
            "bmp"@,
            "heic"@,
            "heif"@,
            "tiff"@,
            "tif"@,
            "avif"@,
            "mp4"@,
            "mkv"@,
            "mov"@,
            "wmv"@,
            "flv"@,
            "avi"@,
            "rmvb"@,
            "mpg"@,
            "mpeg"@,
            "m4v"@,
            "webm"@,
            "3gp"@,
        ].contains(
            if is_ascii_chars(ext) {
                ascii_lower_text(ext)
            } else {
                unicode_lower(ext)
            },
        ),
        has_thumbnail(ext) == has_thumbnail(stem.push('.') + ext),
{
    law_after_last(stem, '.', ext);
    let all = seq![
        "jpg"@,
        "jpeg"@,
        "png"@,
        "gif"@,
        "webp"@,
        "bmp"@,
        "heic"@,
        "heif"@,
        "tiff"@,
        "tif"@,
        "avif"@,
        "mp4"@,
        "mkv"@,
        "mov"@,
        "wmv"@,
        "flv"@,
        "avi"@,
        "rmvb"@,
        "mpg"@,
        "mpeg"@,
        "m4v"@,
        "webm"@,
        "3gp"@,
    ];
    assert forall|i: int| 0 <= i < all.len() implies all.contains(#[trigger] all[i]) by {}
    assert(all[0] == "jpg"@ && all[1] == "jpeg"@ && all[2] == "png"@ && all[3] == "gif"@);
    assert(all[4] == "webp"@ && all[5] == "bmp"@ && all[6] == "heic"@ && all[7] == "heif"@);
    assert(all[8] == "tiff"@ && all[9] == "tif"@ && all[10] == "avif"@ && all[11] == "mp4"@);
    assert(all[12] == "mkv"@ && all[13] == "mov"@ && all[14] == "wmv"@ && all[15] == "flv"@);
    assert(all[16] == "avi"@ && all[17] == "rmvb"@ && all[18] == "mpg"@ && all[19] == "mpeg"@);
    assert(all[20] == "m4v"@ && all[21] == "webm"@ && all[22] == "3gp"@);
}

/// Whether a text is a file name on its own: with something in it, neither white space nor quotes
/// at its ends, and without what sets off a query or a directory.
pub open spec fn is_bare_name(name: Seq<char>) -> bool {
    &&& name.len() > 0
    &&& name != "."@
    &&& !name.contains('/')
    &&& !name.contains('?')
    &&& !CharClass::White.has(name[0])
    &&& !CharClass::White.has(name.last())
    &&& name[0] != '"'
    &&& name.last() != '"'
}

proof fn lemma_name_at_the_end(front: Seq<char>, name: Seq<char>)
    requires
        is_bare_name(name),
        !front.contains('?'),
        front.len() > 0 ==> front.last() == '/',
        front.len() > 0 ==> !CharClass::White.has(front[0]),
    ensures
        file_name(front + name) == name,
        before_first(front + name, '?') == front + name,
        trim(front + name, CharClass::White) == front + name,
{
    let s = front + name;
    assert(!s.contains('?')) by {
        assert forall|i: int| 0 <= i < s.len() implies s[i] != '?' by {
            if i < front.len() {
                assert(front.contains(front[i]));
            } else {
                assert(name.contains(name[i - front.len()]));
            }
        }
    }
    law_before_first(s, '?', Seq::empty());
    assert(Seq::<char>::empty() + s + Seq::<char>::empty() =~= s);
    law_trim_leaves_the_inside(Seq::empty(), s, Seq::empty(), CharClass::White);
    if front.len() > 0 {
        law_after_last(front.drop_last(), '/', name);
        assert(front.drop_last().push('/') =~= front);
    } else {
        law_after_last(Seq::empty(), '/', name);
        assert(s =~= name);
    }
    assert(after_last(s, '/') == name);
    assert(Seq::<char>::empty() + name + Seq::<char>::empty() =~= name);
    law_trim_leaves_the_inside(Seq::empty(), name, Seq::empty(), CharClass::White);
    law_trim_leaves_the_inside(Seq::empty(), name, Seq::empty(), CharClass::Only('"'));
}

/// The file name that an address carries is what follows its last slash, without the query; and a
/// plain file name is its own.
pub proof fn law_file_name_of_an_address(dir: Seq<char>, name: Seq<char>, query: Seq<char>)
    requires
        is_bare_name(name),
        !dir.contains('?'),
        dir.len() > 0 ==> !CharClass::White.has(dir[0]),
    ensures
        file_name(name) == name,
        file_name(dir.push('/') + name) == name,
        file_name((dir.push('/') + name).push('?') + query) == name,
{
    assert(Seq::<char>::empty() + name =~= name);
    lemma_name_at_the_end(Seq::empty(), name);
    let front = dir.push('/');
    assert(!front.contains('?')) by {
        assert forall|i: int| 0 <= i < front.len() implies front[i] != '?' by {
            if i < dir.len() {
                assert(dir.contains(dir[i]));
            }
        }
    }
    lemma_name_at_the_end(front, name);
    let s = front + name;
    assert(!s.contains('?')) by {
        assert forall|i: int| 0 <= i < s.len() implies s[i] != '?' by {
            if i < front.len() {
                assert(front.contains(front[i]));
            } else {
                assert(name.contains(name[i - front.len()]));
            }
        }
    }
    law_before_first(s, '?', query);
}

/// Quotes around a file name are no part of it.
pub proof fn law_file_name_loses_its_quotes(name: Seq<char>)
    requires
        is_bare_name(name),
    ensures
        file_name(seq!['"'] + name + seq!['"']) == name,
{
    let quote = seq!['"'];
    let s = quote + name + quote;
    assert forall|i: int| 0 <= i < s.len() implies s[i] != '?' && s[i] != '/' by {
        if 0 < i < s.len() - 1 {
            assert(s[i] == name[i - 1]);
            assert(name.contains(name[i - 1]));
        }
    }
    assert(!s.contains('?') && !s.contains('/'));
    law_before_first(s, '?', Seq::empty());
    law_after_last(Seq::empty(), '/', s);
    assert(s[0] == '"' && s.last() == '"');
    assert(Seq::<char>::empty() + s + Seq::<char>::empty() =~= s);
    law_trim_leaves_the_inside(Seq::empty(), s, Seq::empty(), CharClass::White);
    law_trim_leaves_the_inside(quote, name, quote, CharClass::Only('"'));
    reveal_strlit(".");
    assert(s.len() > 1);
}

/// An address that ends in a slash carries no file name of its own, and stands for itself.
pub proof fn law_file_name_of_a_directory(dir: Seq<char>)
    requires
        dir.len() > 0,
        !dir.contains('?'),
        !CharClass::White.has(dir[0]),
        dir[0] != '"',
    ensures
        file_name(dir.push('/')) == dir.push('/'),
{
    let s = dir.push('/');
    assert(!s.contains('?')) by {
        assert forall|i: int| 0 <= i < s.len() implies s[i] != '?' by {
            if i < dir.len() {
                assert(dir.contains(dir[i]));
            }
        }
    }
    law_before_first(s, '?', Seq::empty());
    law_after_last(dir, '/', Seq::empty());
    assert(dir.push('/') + Seq::<char>::empty() =~= s);
    assert(Seq::<char>::empty() + s + Seq::<char>::empty() =~= s);
    law_trim_leaves_the_inside(Seq::empty(), s, Seq::empty(), CharClass::White);
    law_trim_leaves_the_inside(Seq::empty(), s, Seq::empty(), CharClass::Only('"'));
}

/// Whether a character stands in a query as it is.
pub open spec fn stays_in_query(c: int) -> bool {
    ||| 'A' as int <= c <= 'Z' as int
    ||| 'a' as int <= c <= 'z' as int
    ||| '0' as int <= c <= '9' as int
    ||| c == '-' as int
    ||| c == '_' as int
    ||| c == '.' as int
    ||| c == '~' as int
}

/// In a query letters, digits and `-_.~` stand for themselves; every other byte is a percent sign
/// and the two upper-case hexadecimal digits of the byte. Bytes are written one after the other.
pub proof fn law_bytes_in_a_query(first: u8, rest: Seq<u8>)
    ensures
        ({
            let all = encoded(seq![first] + rest);
            if stays_in_query(first as int) {
                all == seq![first as char] + encoded(rest)
            } else {
                &&& all.len() == 3 + encoded(rest).len()
                &&& all[0] == '%'
                &&& forall|i: int|
                    1 <= i <= 2 ==> '0' <= #[trigger] all[i] <= '9' || 'A' <= all[i] <= 'F'
                &&& 16 * hex_value(all[1] as u8)->0 + hex_value(all[2] as u8)->0 == first
                &&& all.skip(3) == encoded(rest)
            }
        }),
        encoded(Seq::empty()).len() == 0,
{
    let bytes = seq![first] + rest;
    assert(bytes.drop_first() =~= rest);
    let all = encoded(bytes);
    if !stays_in_query(first as int) {
        assert(all.skip(3) =~= encoded(rest));
    }
}

/// A hexadecimal digit has its value in either case of letters, and nothing else is one.
pub proof fn law_hexadecimal_digits(b: u8)
    ensures
        '0' as u8 <= b <= '9' as u8 ==> hex_value(b) == Some((b - '0' as u8) as u8),
        'A' as u8 <= b <= 'F' as u8 ==> hex_value(b) == Some((b - 'A' as u8 + 10) as u8),
        'a' as u8 <= b <= 'f' as u8 ==> hex_value(b) == hex_value((b - 32) as u8),
        hex_value(b) is Some ==> '0' as u8 <= b <= '9' as u8 || 'A' as u8 <= b <= 'F' as u8
            || 'a' as u8 <= b <= 'f' as u8,
{
}

/// A percent sign and two hexadecimal digits stand for one byte; a byte that begins no escape
/// stands for itself.
pub proof fn law_escapes_are_decoded(high: u8, low: u8, first: u8, rest: Seq<u8>)
    ensures
        hex_value(high) is Some && hex_value(low) is Some ==> percent_decoded(
            seq!['%' as u8, high, low] + rest,
        ) == seq![(16 * hex_value(high)->0 + hex_value(low)->0) as u8] + percent_decoded(rest),
        hex_value(low) is Some ==> percent_decoded(seq!['%' as u8, '+' as u8, low] + rest)
            == seq![hex_value(low)->0] + percent_decoded(rest),
        first != '%' as u8 ==> percent_decoded(seq![first] + rest) == seq![first]
            + percent_decoded(rest),
        hex_value(low) is None ==> percent_decoded(seq!['%' as u8, high, low] + rest)
            == seq!['%' as u8] + percent_decoded(seq![high, low] + rest),
        hex_value(high) is None && high != '+' as u8 ==> percent_decoded(
            seq!['%' as u8, high, low] + rest,
        ) == seq!['%' as u8] + percent_decoded(seq![high, low] + rest),
        percent_decoded(seq!['%' as u8, high]) == seq!['%' as u8] + percent_decoded(seq![high]),
        percent_decoded(seq!['%' as u8]) == seq!['%' as u8],
        percent_decoded(Seq::empty()) == Seq::<u8>::empty(),
{
    let escape = seq!['%' as u8, high, low] + rest;
    assert(escape.skip(3) =~= rest);
    assert(escape.skip(1) =~= seq![high, low] + rest);
    let signed = seq!['%' as u8, '+' as u8, low] + rest;
    assert(signed.skip(3) =~= rest);
    let plain = seq![first] + rest;
    assert(plain.skip(1) =~= rest);
    let short = seq!['%' as u8, high];
    assert(short.skip(1) =~= seq![high]);
    let one = seq!['%' as u8];
    assert(one.skip(1) =~= Seq::empty());
    assert(percent_decoded(Seq::<u8>::empty()) =~= Seq::empty());
    assert(percent_decoded(one) =~= one);
}

} // verus!
