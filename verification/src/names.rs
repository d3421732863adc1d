//! File names: which of them have thumbnails, and what name an address carries.
use crate::text::{
    ascii_lower_text, chars_of, find_char, index_of_char, last_index_of_char,
    lemma_index_of_char, lemma_last_index_of_char, rfind_char, same_text, text_of, trim, trimmed,
    CharClass,
};
use vstd::prelude::*;
use vstd::slice::slice_subrange;
use vstd::utf8::is_ascii_chars;

verus! {

broadcast use vstd::string::group_string_axioms;

/// What `str::to_lowercase` makes of a text with characters outside ASCII.
pub uninterp spec fn unicode_lower(text: Seq<char>) -> Seq<char>;

/// The lower-case form of a text.
pub open spec fn lower(text: Seq<char>) -> Seq<char> {
    if is_ascii_chars(text) {
        ascii_lower_text(text)
    } else {
        unicode_lower(text)
    }
}

/// `str::to_lowercase` of std: for an ASCII text its ASCII lower-case form, else a text that
/// depends on the given one alone.
#[verifier::external_body]
fn lowercase(text: &str) -> (s: String)
    ensures
        s@ == if is_ascii_chars(text@) {
            ascii_lower_text(text@)
        } else {
            unicode_lower(text@)
        },
{
    text.to_lowercase()
}

/// What stands before the first occurrence of a character, or the whole text without one.
pub open spec fn before_first(s: Seq<char>, c: char) -> Seq<char> {
    match index_of_char(s, c) {
        Some(i) => s.take(i),
        None => s,
    }
}

/// What stands after the last occurrence of a character, or the whole text without one.
pub open spec fn after_last(s: Seq<char>, c: char) -> Seq<char> {
    match last_index_of_char(s, c) {
        Some(i) => s.skip(i + 1),
        None => s,
    }
}

/// What stands before the first occurrence of a character.
pub fn head_before(s: &[char], c: char) -> (r: &[char])
    ensures
        r@ == before_first(s@, c),
{
    match find_char(s, c) {
        Some(i) => {
            proof {
                lemma_index_of_char(s@, c);
            }
            assert(s@.subrange(0, i as int) =~= s@.take(i as int));
            slice_subrange(s, 0, i)
        },
        None => s,
    }
}

/// What stands after the last occurrence of a character.
pub fn tail_after(s: &[char], c: char) -> (r: &[char])
    ensures
        r@ == after_last(s@, c),
{
    match rfind_char(s, c) {
        Some(i) => {
            proof {
                lemma_last_index_of_char(s@, c);
            }
            let n: usize = s.len();
            assert(s@.subrange(i + 1, n as int) =~= s@.skip(i + 1));
            slice_subrange(s, i + 1, n)
        },
        None => s,
    }
}

/// The extensions, in lower case, of the images and videos that can have a thumbnail.
pub open spec fn is_media(ext: Seq<char>) -> bool {
    ||| ext == "jpg"@
    ||| ext == "jpeg"@
    ||| ext == "png"@
    ||| ext == "gif"@
    ||| ext == "webp"@
    ||| ext == "bmp"@
    ||| ext == "heic"@
    ||| ext == "heif"@
    ||| ext == "tiff"@
    ||| ext == "tif"@
    ||| ext == "avif"@
    ||| ext == "mp4"@
    ||| ext == "mkv"@
    ||| ext == "mov"@
    ||| ext == "wmv"@
    ||| ext == "flv"@
    ||| ext == "avi"@
    ||| ext == "rmvb"@
    ||| ext == "mpg"@
    ||| ext == "mpeg"@
    ||| ext == "m4v"@
    ||| ext == "webm"@
    ||| ext == "3gp"@
}

/// Whether a file name is that of an image or a video that can have a thumbnail.
pub open spec fn has_thumbnail(name: Seq<char>) -> bool {
    is_media(lower(after_last(name, '.')))
}

/// Whether a lower-case extension is that of an image or a video that can have a thumbnail.
pub fn is_media_extension(ext: &str) -> (r: bool)
    ensures
        r == is_media(ext@),
{
    same_text(ext, "jpg") || same_text(ext, "jpeg") || same_text(ext, "png") || same_text(
        ext,
        "gif",
    ) || same_text(ext, "webp") || same_text(ext, "bmp") || same_text(ext, "heic") || same_text(
        ext,
        "heif",
    ) || same_text(ext, "tiff") || same_text(ext, "tif") || same_text(ext, "avif") || same_text(
        ext,
        "mp4",
    ) || same_text(ext, "mkv") || same_text(ext, "mov") || same_text(ext, "wmv") || same_text(
        ext,
        "flv",
    ) || same_text(ext, "avi") || same_text(ext, "rmvb") || same_text(ext, "mpg") || same_text(
        ext,
        "mpeg",
    ) || same_text(ext, "m4v") || same_text(ext, "webm") || same_text(ext, "3gp")
}

/// Whether a file name is that of an image or a video that can have a thumbnail.
pub fn supports_thumbnail(name: &str) -> (r: bool)
    ensures
        r == has_thumbnail(name@),
{
    let chars = chars_of(name);
    let ext = text_of(tail_after(chars.as_slice(), '.'));
    is_media_extension(lowercase(ext.as_str()).as_str())
}

/// The file name that an address or a plain text carries: without the query, the last segment
/// unless it is empty or a dot, without white space and then quotes around it.
pub open spec fn file_name(s: Seq<char>) -> Seq<char> {
    let address = trim(before_first(s, '?'), CharClass::White);
    let segment = after_last(address, '/');
    let name = if segment.len() > 0 && segment != "."@ {
        segment
    } else {
        address
    };
    trim(trim(name, CharClass::White), CharClass::Only('"'))
}

/// The file name that an address or a plain text carries.
pub fn filename_from_url_or_str(s: &str) -> (r: String)
    ensures
        r@ == file_name(s@),
{
    let chars = chars_of(s);
    let address = trimmed(head_before(chars.as_slice(), '?'), CharClass::White);
    let segment = tail_after(address, '/');
    let whole = segment.len() == 0 || same_text(text_of(segment).as_str(), ".");
    let name = if whole {
        address
    } else {
        segment
    };
    text_of(trimmed(trimmed(name, CharClass::White), CharClass::Only('"')))
}

} // verus!
