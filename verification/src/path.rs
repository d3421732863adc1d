//! Paths on the drive and the URIs that stand for them.
use crate::query::{percent_decode, percent_decoded, query_component};
use crate::text::{
    begins_with, chars_of, ends_with, find, find_char, has_prefix, has_suffix, index_from,
    index_of_char, is_at, joined, joined3, last_index_of_char, lemma_index_from,
    lemma_index_of_char, lemma_last_index_of_char, rfind_char, same_text, strip_all,
    stripped_length, text_of,
};
use vstd::prelude::*;
use vstd::slice::slice_subrange;
use vstd::utf8::{decode_utf8, encode_utf8, valid_utf8};

verus! {

broadcast use vstd::string::group_string_axioms;

/// What `String::from_utf8_lossy` makes of bytes that are not UTF-8.
pub uninterp spec fn repaired_utf8(bytes: Seq<u8>) -> Seq<char>;

/// `String::from_utf8_lossy` of std: the text that the bytes encode where they are UTF-8, else a
/// text with replacement characters that depends on the bytes alone.
#[verifier::external_body]
fn decode_lossy(bytes: &[u8]) -> (s: String)
    ensures
        s@ == if valid_utf8(bytes@) {
            decode_utf8(bytes@)
        } else {
            repaired_utf8(bytes@)
        },
{
    String::from_utf8_lossy(bytes).into_owned()
}

/// The text that bytes stand for.
pub open spec fn text_of_bytes(bytes: Seq<u8>) -> Seq<char> {
    if valid_utf8(bytes) {
        decode_utf8(bytes)
    } else {
        repaired_utf8(bytes)
    }
}

/// The URI of a path: one that is a URI already stays, another gets the prefix of the drive in
/// place of its leading slash.
pub open spec fn uri_of_path(path: Seq<char>) -> Seq<char> {
    if has_prefix(path, "cloudreve://"@) {
        path
    } else if has_prefix(path, "/"@) {
        "cloudreve://my/"@ + path.skip(1)
    } else {
        "cloudreve://my/"@ + path
    }
}

/// `cloudreve_api::api::v4::uri::path_to_uri`: the URI of a path, as `uri_of_path` says.
pub assume_specification[ cloudreve_api::api::v4::uri::path_to_uri ](path: &str) -> (uri: String)
    ensures
        uri@ == uri_of_path(path@),
;

/// The parts of a text between the occurrences of a character.
pub open spec fn split(s: Seq<char>, c: char) -> Seq<Seq<char>>
    decreases s.len(),
{
    match index_of_char(s, c) {
        Some(i) => if 0 <= i < s.len() {
            seq![s.take(i)] + split(s.skip(i + 1), c)
        } else {
            seq![s]
        },
        None => seq![s],
    }
}

/// The segments that hold something, each as it stands in a query, with slashes between them.
pub open spec fn scope_of(segments: Seq<Seq<char>>) -> Seq<char>
    decreases segments.len(),
{
    if segments.len() == 0 {
        Seq::empty()
    } else {
        let front = scope_of(segments.drop_last());
        let last = segments.last();
        if last.len() == 0 {
            front
        } else if front.len() == 0 {
            query_component(last)
        } else {
            front + "/"@ + query_component(last)
        }
    }
}

/// The URI that asks for a search below a path.
pub open spec fn uri_of_search(path: Seq<char>, keyword: Seq<char>, case_folding: bool) -> Seq<
    char,
> {
    "cloudreve://my/"@ + scope_of(split(path, '/')) + "?name="@ + query_component(keyword)
        + "&case_folding="@ + if case_folding {
        "true"@
    } else {
        "false"@
    }
}

/// `cloudreve_api::api::v4::uri::search_uri`: the URI of a search, as `uri_of_search` says.
pub assume_specification[ cloudreve_api::api::v4::uri::search_uri ](
    path: &str,
    keyword: &str,
    case_folding: bool,
) -> (uri: String)
    ensures
        uri@ == uri_of_search(path@, keyword@, case_folding),
;

/// What stands before the first slash.
pub open spec fn authority(rest: Seq<char>) -> Seq<char> {
    match index_of_char(rest, '/') {
        Some(i) => rest.take(i),
        None => rest,
    }
}

/// What follows the drive in a URI, still encoded. The drive is `my`, alone or behind a user and
/// `@`, and ends at the first slash. Where something else stands between `@my` and that slash,
/// the path begins right behind the first `@my`.
pub open spec fn path_part(uri: Seq<char>) -> Seq<char> {
    let rest = strip_all(uri, "cloudreve://"@);
    let drive = authority(rest);
    if has_suffix(drive, "@my"@) {
        rest.skip(drive.len() as int)
    } else if has_prefix(rest, "my"@) {
        rest.skip(2)
    } else {
        match index_from(drive, "@my"@, 0) {
            Some(i) => rest.skip(i + 3),
            None => rest,
        }
    }
}

/// The path with one of two leading slashes dropped, and the root for an empty one.
pub open spec fn rooted(path: Seq<char>) -> Seq<char> {
    if has_prefix(path, "//"@) {
        path.skip(1)
    } else if path.len() == 0 {
        "/"@
    } else {
        path
    }
}

/// The path that a URI stands for.
pub open spec fn unix_path(uri: Seq<char>) -> Seq<char> {
    rooted(text_of_bytes(percent_decoded(encode_utf8(path_part(uri)))))
}

/// What follows the drive in a URI, still encoded.
pub fn encoded_path(uri: &str) -> (r: String)
    ensures
        r@ == path_part(uri@),
{
    proof {
        reveal_strlit("my");
        reveal_strlit("@my");
    }
    let chars = chars_of(uri);
    let skip: usize = stripped_length(chars.as_slice(), chars_of("cloudreve://").as_slice());
    let n: usize = chars.len();
    let rest = slice_subrange(chars.as_slice(), skip, n);
    assert(rest@ =~= chars@.skip(skip as int));
    let ghost whole = rest@;
    let m: usize = rest.len();
    proof {
        lemma_index_of_char(whole, '/');
    }
    let end: usize = match find_char(rest, '/') {
        Some(i) => i,
        None => m,
    };
    assert(whole.subrange(0, end as int) =~= authority(whole));
    if ends_with(slice_subrange(rest, 0, end), chars_of("@my").as_slice()) {
        assert(whole.subrange(end as int, m as int) =~= whole.skip(end as int));
        text_of(slice_subrange(rest, end, m))
    } else if is_at(rest, chars_of("my").as_slice(), 0) {
        assert(whole.subrange(2, m as int) =~= whole.skip(2));
        text_of(slice_subrange(rest, 2, m))
    } else {
        let drive = slice_subrange(rest, 0, end);
        proof {
            lemma_index_from(drive@, "@my"@, 0);
        }
        match find(drive, chars_of("@my").as_slice()) {
            Some(i) => {
                assert(whole.subrange(i + 3, m as int) =~= whole.skip(i + 3));
                text_of(slice_subrange(rest, i + 3, m))
            },
            None => text_of(rest),
        }
    }
}

/// The path with one of two leading slashes dropped, and the root for an empty one.
pub fn collapse_root(decoded: String) -> (r: String)
    ensures
        r@ == rooted(decoded@),
{
    proof {
        reveal_strlit("//");
    }
    let chars = chars_of(decoded.as_str());
    if is_at(chars.as_slice(), chars_of("//").as_slice(), 0) {
        let n: usize = chars.len();
        assert(chars@.subrange(1, n as int) =~= chars@.skip(1));
        text_of(slice_subrange(chars.as_slice(), 1, n))
    } else if chars.len() == 0 {
        "/".to_string()
    } else {
        decoded
    }
}

/// The path that a URI stands for: `cloudreve://my/...` and `cloudreve://{user}@my/...` are
/// both read, with the escapes decoded.
pub fn v4_uri_to_unix(uri: &str) -> (r: String)
    ensures
        r@ == unix_path(uri@),
{
    let encoded = encoded_path(uri);
    let bytes = percent_decode(encoded.as_str().as_bytes());
    collapse_root(decode_lossy(bytes.as_slice()))
}

/// The path that a property holds, given as a path or as a URI.
pub open spec fn property_path(value: Seq<char>) -> Seq<char> {
    if has_prefix(value, "cloudreve://"@) {
        unix_path(value)
    } else {
        value
    }
}

/// The path that a property holds, given as a path or as a URI.
pub fn decode_v4_prop_path(val: &str) -> (r: String)
    ensures
        r@ == property_path(val@),
{
    if begins_with(val, "cloudreve://") {
        v4_uri_to_unix(val)
    } else {
        val.to_string()
    }
}

/// The directory that holds a path.
pub open spec fn parent_of(path: Seq<char>) -> Seq<char> {
    match last_index_of_char(path, '/') {
        Some(i) => if i == 0 {
            "/"@
        } else {
            path.take(i)
        },
        None => "/"@,
    }
}

/// The directory that holds a path, such as `/` for `/videos`.
pub fn unix_parent(full_path: &str) -> (r: String)
    ensures
        r@ == parent_of(full_path@),
{
    let chars = chars_of(full_path);
    match rfind_char(chars.as_slice(), '/') {
        Some(i) => {
            proof {
                lemma_last_index_of_char(chars@, '/');
            }
            if i == 0 {
                "/".to_string()
            } else {
                assert(chars@.subrange(0, i as int) =~= chars@.take(i as int));
                text_of(slice_subrange(chars.as_slice(), 0, i))
            }
        },
        None => "/".to_string(),
    }
}

/// The directory that holds a remote path.
pub fn remote_parent(full_path: &str) -> (r: String)
    ensures
        r@ == parent_of(full_path@),
{
    unix_parent(full_path)
}

/// The path of `name` in the directory `parent`.
pub open spec fn child_of(parent: Seq<char>, name: Seq<char>) -> Seq<char> {
    if parent == "/"@ {
        "/"@ + name
    } else {
        parent + "/"@ + name
    }
}

/// The path of `name` in the directory `parent`.
pub fn child_path(parent: &str, name: &str) -> (r: String)
    ensures
        r@ == child_of(parent@, name@),
{
    if same_text(parent, "/") {
        joined("/", name)
    } else {
        joined3(parent, "/", name)
    }
}

} // verus!
