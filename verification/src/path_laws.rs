//! What holds of paths and URIs as a whole.
use crate::path::{
    authority, child_of, parent_of, path_part, property_path, repaired_utf8, rooted, split,
    text_of_bytes, unix_path, uri_of_path,
};
use crate::query::{law_query_component_decodes, percent_decoded, query_component};
use crate::text::{
    contains_text, has_prefix, has_suffix, index_from, index_of_char, last_index_of_char,
    lemma_index_from, lemma_index_of_char, lemma_last_index_of_char, occurs_at, strip_all,
};
use vstd::prelude::*;
use vstd::utf8::{encode_utf8, valid_utf8};

verus! {

broadcast use vstd::string::group_string_axioms;

/// Whether a text can follow the drive in a URI: nothing, or a slash and what is below it.
pub open spec fn follows_drive(path: Seq<char>) -> bool {
    path.len() == 0 || path[0] == '/'
}

/// The drive before a path goes as far as the path's slash.
proof fn lemma_authority(drive: Seq<char>, path: Seq<char>)
    requires
        !drive.contains('/'),
        follows_drive(path),
    ensures
        authority(drive + path) == drive,
{
    let rest = drive + path;
    lemma_index_of_char(rest, '/');
    assert forall|i: int| 0 <= i < drive.len() implies rest[i] != '/' by {
        assert(drive.contains(drive[i]));
    }
    if path.len() > 0 {
        assert(rest[drive.len() as int] == '/');
    }
    assert(authority(rest) =~= drive);
}

/// What follows the drive in the URI of a path is the path.
proof fn lemma_path_part_of_drive(path: Seq<char>)
    requires
        follows_drive(path),
    ensures
        path_part("cloudreve://my"@ + path) == path,
{
    reveal_strlit("cloudreve://my");
    reveal_strlit("cloudreve://");
    reveal_strlit("my");
    reveal_strlit("@my");
    let uri = "cloudreve://my"@ + path;
    let rest = "my"@ + path;
    assert(uri.subrange(0, 12) =~= "cloudreve://"@);
    assert(uri.skip(12) =~= rest);
    assert(rest[0] == 'm');
    assert(!has_prefix(rest, "cloudreve://"@)) by {
        if has_prefix(rest, "cloudreve://"@) {
            assert(rest.subrange(0, 12)[0] == 'c');
        }
    }
    assert(strip_all(rest, "cloudreve://"@) == rest);
    assert(strip_all(uri, "cloudreve://"@) == rest);
    lemma_authority("my"@, path);
    assert(rest.subrange(0, 2) =~= "my"@);
    assert(rest.skip(2) =~= path);
}

/// What follows the drive in the URI of a path on the drive of a user is the path.
proof fn lemma_path_part_of_user(user: Seq<char>, path: Seq<char>)
    requires
        !user.contains('/'),
        follows_drive(path),
    ensures
        path_part("cloudreve://"@ + user + "@my"@ + path) == path,
{
    reveal_strlit("cloudreve://");
    reveal_strlit("@my");
    let uri = "cloudreve://"@ + user + "@my"@ + path;
    let drive = user + "@my"@;
    let rest = drive + path;
    assert(uri.subrange(0, 12) =~= "cloudreve://"@);
    assert(uri.skip(12) =~= rest);
    assert(!has_prefix(rest, "cloudreve://"@)) by {
        if has_prefix(rest, "cloudreve://"@) {
            let front = rest.subrange(0, 12);
            assert(front =~= "cloudreve://"@);
            assert forall|i: int| 0 <= i < 12 implies rest[i] == front[i] by {}
            if user.len() > 10 {
                assert(user[10] == rest[10]);
                assert(user.contains('/'));
            } else {
                assert(rest[user.len() as int] == '@');
            }
        }
    }
    assert(strip_all(rest, "cloudreve://"@) == rest);
    assert(strip_all(uri, "cloudreve://"@) == rest);
    assert(!drive.contains('/')) by {
        assert forall|i: int| 0 <= i < drive.len() implies drive[i] != '/' by {
            if i < user.len() {
                assert(user.contains(user[i]));
            }
        }
    }
    lemma_authority(drive, path);
    assert(drive.subrange(user.len() as int, drive.len() as int) =~= "@my"@);
    assert(has_suffix(drive, "@my"@));
    assert(rest.skip(drive.len() as int) =~= path);
}

/// A path on the drive comes back from its URI, unless it holds an escape or begins with two
/// slashes.
pub proof fn law_path_survives_uri(path: Seq<char>)
    requires
        has_prefix(path, "/"@),
        !has_prefix(path, "//"@),
        percent_decoded(encode_utf8(path)) == encode_utf8(path),
    ensures
        unix_path(uri_of_path(path)) == path,
{
    reveal_strlit("cloudreve://my");
    reveal_strlit("cloudreve://my/");
    reveal_strlit("cloudreve://");
    reveal_strlit("/");
    assert(path.subrange(0, 1)[0] == '/');
    assert(!has_prefix(path, "cloudreve://"@)) by {
        if has_prefix(path, "cloudreve://"@) {
            assert(path.subrange(0, 12)[0] == 'c');
        }
    }
    assert(uri_of_path(path) =~= "cloudreve://my"@ + path);
    lemma_path_part_of_drive(path);
    vstd::utf8::encode_utf8_valid_utf8(path);
    vstd::utf8::encode_utf8_decode_utf8(path);
}

/// A path without a percent sign holds no escape.
pub proof fn law_no_percent_no_escape(bytes: Seq<u8>)
    requires
        !bytes.contains(0x25u8),
    ensures
        percent_decoded(bytes) == bytes,
    decreases bytes.len(),
{
    if bytes.len() > 0 {
        assert(bytes.contains(bytes[0]));
        let rest = bytes.skip(1);
        assert forall|i: int| 0 <= i < rest.len() implies rest[i] != 0x25u8 by {
            assert(rest[i] == bytes[i + 1]);
            assert(bytes.contains(bytes[i + 1]));
        }
        law_no_percent_no_escape(rest);
        assert(seq![bytes[0]] + rest =~= bytes);
    } else {
        assert(bytes =~= Seq::<u8>::empty());
    }
}

/// A URI that names the user of the drive stands for the same path as one that does not, whatever
/// the user and the path hold besides.
pub proof fn law_user_of_drive_is_dropped(user: Seq<char>, path: Seq<char>)
    requires
        !user.contains('/'),
        follows_drive(path),
    ensures
        unix_path("cloudreve://"@ + user + "@my"@ + path) == unix_path("cloudreve://my"@ + path),
{
    lemma_path_part_of_user(user, path);
    lemma_path_part_of_drive(path);
}

/// The path that a URI stands for is never empty.
pub proof fn law_unix_path_is_not_empty(uri: Seq<char>)
    ensures
        unix_path(uri).len() > 0,
{
    reveal_strlit("/");
    reveal_strlit("//");
}

/// The directory that holds a child of a directory is that directory, where the child's name has
/// no slash.
pub proof fn law_parent_of_child(parent: Seq<char>, name: Seq<char>)
    requires
        parent.len() > 0,
        !name.contains('/'),
    ensures
        parent_of(child_of(parent, name)) == parent,
{
    reveal_strlit("/");
    let path = child_of(parent, name);
    let at: int = if parent == "/"@ {
        0
    } else {
        parent.len() as int
    };
    assert(path[at] == '/');
    lemma_last_index_of_char(path, '/');
    let last = last_index_of_char(path, '/')->0;
    if last > at {
        assert(path[last] == name[last - at - 1]);
        assert(name.contains(name[last - at - 1]));
    }
    assert(last == at);
    assert(path.take(at) =~= parent || parent == "/"@);
}

proof fn lemma_encode_first(c: char, rest: Seq<char>)
    requires
        c as u32 <= 0x7f,
    ensures
        encode_utf8(seq![c] + rest) == seq![c as u8] + encode_utf8(rest),
{
    let one = seq![c];
    let all = one + rest;
    assert(all.drop_first() =~= rest);
    assert(vstd::utf8::is_ascii_chars(one));
    vstd::utf8::is_ascii_chars_encode_utf8(one);
    assert(one.drop_first() =~= Seq::empty());
    assert(encode_utf8(one) =~= vstd::utf8::encode_scalar(c as u32));
    assert(encode_utf8(one) =~= seq![c as u8]);
}

/// What stands behind a slash, decoded, where what stands there decodes to another slash and a
/// path: the path with one slash.
proof fn lemma_slash_and_encoded(part: Seq<char>, path: Seq<char>)
    requires
        percent_decoded(encode_utf8(part)) == encode_utf8("/"@ + path),
    ensures
        rooted(text_of_bytes(percent_decoded(encode_utf8("/"@ + part)))) == "/"@ + path,
{
    reveal_strlit("/");
    reveal_strlit("//");
    lemma_encode_first('/', part);
    assert("/"@ + part =~= seq!['/'] + part);
    let bytes = encode_utf8("/"@ + part);
    assert(bytes[0] == 0x2fu8);
    assert(bytes.skip(1) =~= encode_utf8(part));
    let decoded = seq!['/'] + ("/"@ + path);
    lemma_encode_first('/', "/"@ + path);
    assert(percent_decoded(bytes) =~= encode_utf8(decoded));
    vstd::utf8::encode_utf8_valid_utf8(decoded);
    vstd::utf8::encode_utf8_decode_utf8(decoded);
    assert(decoded.subrange(0, 2) =~= "//"@);
    assert(decoded.skip(1) =~= "/"@ + path);
}

/// A path that stands encoded as a whole behind the drive, its slashes too, comes back as it was,
/// whatever it holds; and the same behind a user of the drive.
pub proof fn law_encoded_path_comes_back(user: Seq<char>, path: Seq<char>)
    requires
        !user.contains('/'),
    ensures
        unix_path("cloudreve://my/"@ + query_component("/"@ + path)) == "/"@ + path,
        unix_path("cloudreve://"@ + user + "@my/"@ + query_component("/"@ + path)) == "/"@ + path,
{
    reveal_strlit("/");
    reveal_strlit("@my");
    reveal_strlit("@my/");
    reveal_strlit("cloudreve://my");
    reveal_strlit("cloudreve://my/");
    let part = query_component("/"@ + path);
    let behind = "/"@ + part;
    law_query_component_decodes("/"@ + path);
    lemma_slash_and_encoded(part, path);
    lemma_path_part_of_drive(behind);
    lemma_path_part_of_user(user, behind);
    assert("cloudreve://my/"@ + part =~= "cloudreve://my"@ + behind);
    assert("cloudreve://"@ + user + "@my/"@ + part =~= "cloudreve://"@ + user + "@my"@ + behind);
}

/// A URI whose path begins with an encoded slash, and has no further escapes, stands for the path
/// with that one slash: with `/%2Fpackages` behind the drive it is `/packages`.
pub proof fn law_encoded_root_is_one_slash(path: Seq<char>)
    requires
        percent_decoded(encode_utf8(path)) == encode_utf8(path),
    ensures
        unix_path("cloudreve://my"@ + ("/%2F"@ + path)) == "/"@ + path,
{
    reveal_strlit("/%2F");
    reveal_strlit("/");
    let tail = seq!['F'] + path;
    let two = seq!['2'] + tail;
    let escape = seq!['%'] + two;
    lemma_encode_first('F', path);
    lemma_encode_first('2', tail);
    lemma_encode_first('%', two);
    lemma_encode_first('/', path);
    let bytes = encode_utf8(escape);
    let encoded = encode_utf8(path);
    assert(bytes =~= seq![0x25u8, 0x32u8, 0x46u8] + encoded);
    assert(bytes.skip(3) =~= encoded);
    assert("/"@ + path =~= seq!['/'] + path);
    assert(percent_decoded(bytes) =~= encode_utf8("/"@ + path));
    lemma_slash_and_encoded(escape, path);
    assert("/%2F"@ + path =~= "/"@ + escape);
    lemma_path_part_of_drive("/%2F"@ + path);
}

/// A path that names no drive stands for itself, unless it holds an escape or begins with two
/// slashes.
pub proof fn law_path_without_a_drive_stays(path: Seq<char>)
    requires
        path.len() > 0,
        !has_prefix(path, "cloudreve://"@),
        !has_prefix(path, "my"@),
        !contains_text(authority(path), "@my"@),
        !has_prefix(path, "//"@),
        percent_decoded(encode_utf8(path)) == encode_utf8(path),
    ensures
        unix_path(path) == path,
{
    let drive = authority(path);
    assert(strip_all(path, "cloudreve://"@) == path);
    if has_suffix(drive, "@my"@) {
        assert(occurs_at(drive, "@my"@, drive.len() - "@my"@.len()));
    }
    lemma_index_from(drive, "@my"@, 0);
    if let Some(k) = index_from(drive, "@my"@, 0) {
        assert(occurs_at(drive, "@my"@, k));
    }
    assert(path_part(path) == path);
    vstd::utf8::encode_utf8_valid_utf8(path);
    vstd::utf8::encode_utf8_decode_utf8(path);
}

/// Where the drive goes on behind `@my`, the path begins right behind the first `@my`.
pub proof fn law_path_begins_behind_the_drive(user: Seq<char>, more: Seq<char>, path: Seq<char>)
    requires
        !(user + "@my"@ + more).contains('/'),
        follows_drive(path),
        !has_prefix(user + "@my"@ + more + path, "cloudreve://"@),
        !has_prefix(user + "@my"@ + more + path, "my"@),
        !has_suffix(user + "@my"@ + more, "@my"@),
        forall|j: int|
            0 <= j < user.len() ==> !#[trigger] occurs_at(user + "@my"@ + more, "@my"@, j),
    ensures
        path_part("cloudreve://"@ + (user + "@my"@ + more + path)) == more + path,
{
    reveal_strlit("cloudreve://");
    reveal_strlit("@my");
    let drive = user + "@my"@ + more;
    let rest = drive + path;
    let uri = "cloudreve://"@ + rest;
    assert(uri.subrange(0, 12) =~= "cloudreve://"@);
    assert(uri.skip(12) =~= rest);
    assert(strip_all(rest, "cloudreve://"@) == rest);
    assert(strip_all(uri, "cloudreve://"@) == rest);
    lemma_authority(drive, path);
    assert(drive.subrange(user.len() as int, user.len() as int + 3) =~= "@my"@);
    assert(occurs_at(drive, "@my"@, user.len() as int));
    lemma_index_from(drive, "@my"@, 0);
    assert(index_from(drive, "@my"@, 0) == Some(user.len() as int));
    assert(rest.skip(user.len() as int + 3) =~= more + path);
}

/// Of two slashes at the beginning one is dropped, nothing is the root, and every other path stays.
pub proof fn law_root_has_one_slash(path: Seq<char>)
    ensures
        rooted("//"@ + path) == "/"@ + path,
        rooted(Seq::empty()) == "/"@,
        path.len() > 0 && !has_prefix(path, "//"@) ==> rooted(path) == path,
{
    reveal_strlit("/");
    reveal_strlit("//");
    assert(("//"@ + path).subrange(0, 2) =~= "//"@);
    assert(("//"@ + path).skip(1) =~= "/"@ + path);
}

/// A property that holds a path is that path; one that holds the URI of a path on the drive is the
/// path too, unless it holds an escape or begins with two slashes.
pub proof fn law_property_holds_a_path(path: Seq<char>)
    ensures
        !has_prefix(path, "cloudreve://"@) ==> property_path(path) == path,
        has_prefix(path, "/"@) && !has_prefix(path, "//"@) && percent_decoded(encode_utf8(path))
            == encode_utf8(path) ==> property_path(uri_of_path(path)) == path,
{
    reveal_strlit("cloudreve://");
    reveal_strlit("cloudreve://my/");
    if has_prefix(path, "/"@) && !has_prefix(path, "//"@) && percent_decoded(encode_utf8(path))
        == encode_utf8(path) {
        law_path_survives_uri(path);
        let uri = uri_of_path(path);
        if !has_prefix(path, "cloudreve://"@) {
            assert(uri.subrange(0, 12) =~= "cloudreve://"@);
        }
        assert(has_prefix(uri, "cloudreve://"@));
    }
}

/// What has no slash lies in the root.
pub proof fn law_parent_of_a_name_is_the_root(name: Seq<char>)
    requires
        !name.contains('/'),
    ensures
        parent_of(name) == "/"@,
{
    lemma_last_index_of_char(name, '/');
    if let Some(k) = last_index_of_char(name, '/') {
        assert(name.contains(name[k]));
    }
}

/// A child's path begins with the path of its directory and ends in a slash and its name.
pub proof fn law_child_lies_in_its_directory(parent: Seq<char>, name: Seq<char>)
    ensures
        has_prefix(child_of(parent, name), parent),
        has_suffix(child_of(parent, name), "/"@ + name),
        child_of(parent, name).len() <= parent.len() + 1 + name.len(),
        !has_suffix(parent, "/"@) ==> child_of(parent, name) == parent + "/"@ + name,
{
    reveal_strlit("/");
    let path = child_of(parent, name);
    assert(path.subrange(0, parent.len() as int) =~= parent);
    let end = "/"@ + name;
    assert(path.subrange(path.len() - end.len(), path.len() as int) =~= end);
    if parent == "/"@ {
        assert(parent.subrange(0, 1) =~= "/"@);
    }
}

/// A text without the character has one part, and one with it has what stands before the first,
/// followed by the parts of what comes after.
pub proof fn law_parts_of_a_text(first: Seq<char>, c: char, rest: Seq<char>)
    requires
        !first.contains(c),
    ensures
        split(first, c) == seq![first],
        split(first.push(c) + rest, c) == seq![first] + split(rest, c),
{
    let s = first.push(c) + rest;
    lemma_index_of_char(first, c);
    if let Some(k) = index_of_char(first, c) {
        assert(first.contains(first[k]));
    }
    lemma_index_of_char(s, c);
    assert(s[first.len() as int] == c);
    let k = index_of_char(s, c)->0;
    if k < first.len() {
        assert(first.contains(first[k]));
    }
    assert(s.take(k) =~= first);
    assert(s.skip(k + 1) =~= rest);
}

/// The path that a URI of the drive stands for is what follows the drive with its escapes decoded,
/// where that is text.
pub proof fn law_path_is_decoded(path: Seq<char>, text: Seq<char>)
    requires
        follows_drive(path),
        percent_decoded(encode_utf8(path)) == encode_utf8(text),
    ensures
        unix_path("cloudreve://my"@ + path) == rooted(text),
{
    lemma_path_part_of_drive(path);
    vstd::utf8::encode_utf8_valid_utf8(text);
    vstd::utf8::encode_utf8_decode_utf8(text);
}

/// Where the escapes of a path decode to what is no text, it is repaired.
pub proof fn law_path_is_repaired(path: Seq<char>)
    requires
        follows_drive(path),
        !valid_utf8(percent_decoded(encode_utf8(path))),
    ensures
        unix_path("cloudreve://my"@ + path) == rooted(
            repaired_utf8(percent_decoded(encode_utf8(path))),
        ),
{
    lemma_path_part_of_drive(path);
}

} // verus!
