//! Thumbnails and avatars.
use crate::names::{before_first, head_before};
use crate::path::uri_of_path;
use crate::session::{address, server_address};
use crate::text::{
    begins_with, chars_of, decimal, decimal_text, has_prefix, is_empty_text, joined, joined3,
    text_of, trim, trimmed, CharClass,
};
use base64::Engine;
use vstd::prelude::*;

verus! {

broadcast use vstd::string::group_string_axioms;

/// The character of the standard alphabet for a value below 64.
pub open spec fn sextet(n: int) -> char {
    if n < 26 {
        (('A' as u8 + n) as u8) as char
    } else if n < 52 {
        (('a' as u8 + n - 26) as u8) as char
    } else if n < 62 {
        (('0' as u8 + n - 52) as u8) as char
    } else if n == 62 {
        '+'
    } else {
        '/'
    }
}

/// The base64 form of bytes in the standard alphabet, padded.
pub open spec fn base64_text(bytes: Seq<u8>) -> Seq<char>
    decreases bytes.len(),
{
    if bytes.len() == 0 {
        Seq::empty()
    } else {
        let a = bytes[0] as int;
        let b = if bytes.len() > 1 {
            bytes[1] as int
        } else {
            0
        };
        let c = if bytes.len() > 2 {
            bytes[2] as int
        } else {
            0
        };
        let third = if bytes.len() > 1 {
            sextet(b % 16 * 4 + c / 64)
        } else {
            '='
        };
        let fourth = if bytes.len() > 2 {
            sextet(c % 64)
        } else {
            '='
        };
        let group = seq![sextet(a / 4), sextet(a % 4 * 16 + b / 16), third, fourth];
        if bytes.len() > 3 {
            group + base64_text(bytes.skip(3))
        } else {
            group
        }
    }
}

/// `Engine::encode` of `base64::engine::general_purpose::STANDARD`: each three bytes as four
/// characters of the standard alphabet, the last ones padded to four.
#[verifier::external_body]
fn encode_base64(bytes: &[u8]) -> (text: String)
    ensures
        text@ == base64_text(bytes@),
{
    base64::engine::general_purpose::STANDARD.encode(bytes)
}

/// The type of an image from the header that names it: without its parameters, and JPEG where it
/// names no image.
pub open spec fn image_type(header: Option<Seq<char>>) -> Seq<char> {
    match header {
        Some(value) => {
            let mime = trim(before_first(value, ';'), CharClass::White);
            if has_prefix(mime, "image/"@) {
                mime
            } else {
                "image/jpeg"@
            }
        },
        None => "image/jpeg"@,
    }
}

/// The type of an image from the header that names it.
pub fn image_mime(header: Option<&str>) -> (r: String)
    ensures
        r@ == image_type(
            match header {
                Some(value) => Some(value@),
                None => None,
            },
        ),
{
    if let Some(value) = header {
        let chars = chars_of(value);
        let mime = text_of(trimmed(head_before(chars.as_slice(), ';'), CharClass::White));
        if begins_with(mime.as_str(), "image/") {
            return mime;
        }
    }
    "image/jpeg".to_string()
}

/// The thumbnail as a `data:` address that carries the image, from the answer to the request for
/// the image; or the reason why there is none.
pub fn get_thumb(
    success: bool,
    status: &str,
    content_type: Option<&str>,
    bytes: &[u8],
) -> (r: Result<String, String>)
    ensures
        if success {
            r matches Ok(url) && url@ == "data:"@ + image_type(
                match content_type {
                    Some(value) => Some(value@),
                    None => None,
                },
            ) + ";base64,"@ + base64_text(bytes@)
        } else {
            r matches Err(reason) && reason@ == "thumb request failed: "@ + status@
        },
{
    if !success {
        return Err(joined("thumb request failed: ", status));
    }
    let mut url = joined("data:", image_mime(content_type).as_str());
    url.append(";base64,");
    url.append(encode_base64(bytes).as_str());
    Ok(url)
}

/// The address that the image of a thumbnail is fetched from on version 3.
pub fn v3_thumb_url(base_url: &str, id: &str) -> (r: String)
    ensures
        r@ == address(base_url@, "/api/v3/file/thumb/"@ + id@),
{
    let rest = joined("/api/v3/file/thumb/", id);
    server_address(base_url, rest.as_str())
}

/// The endpoint for the signed address of the thumbnail of the file at a path.
pub fn v4_thumb_endpoint(id: &str) -> (r: String)
    ensures
        r@ == "/file/thumb?uri="@ + uri_of_path(id@) + "&width=200&height=200"@,
{
    let uri = cloudreve_api::api::v4::uri::path_to_uri(id);
    joined3("/file/thumb?uri=", uri.as_str(), "&width=200&height=200")
}

/// Why there is no thumbnail: the server's message, where it has one, with its code.
pub open spec fn missing_thumb(code: i32, msg: Seq<char>) -> Seq<char> {
    (if msg.len() == 0 {
        "thumbnail unavailable"@
    } else {
        msg
    }) + " (code "@ + decimal(code as int) + ")"@
}

/// The signed address that the image of a thumbnail is fetched from, in an answer of version 4; or
/// the reason why there is none.
pub fn v4_thumb_address(code: i32, msg: String, url: Option<String>) -> (r: Result<String, String>)
    ensures
        match url {
            Some(u) => r matches Ok(s) && s@ == u@,
            None => r matches Err(reason) && reason@ == missing_thumb(code, msg@),
        },
{
    match url {
        Some(u) => Ok(u),
        None => {
            let mut reason = if is_empty_text(msg.as_str()) {
                "thumbnail unavailable".to_string()
            } else {
                msg
            };
            reason.append(" (code ");
            reason.append(decimal_text(code as i64).as_str());
            reason.append(")");
            Err(reason)
        },
    }
}

/// The address of an avatar.
pub open spec fn avatar_address(base_url: Seq<char>, is_v3: bool, user_id: Seq<char>) -> Seq<char> {
    address(
        base_url,
        if is_v3 {
            "/api/v3/user/avatar/"@ + user_id + "/l"@
        } else {
            "/api/v4/user/avatar/"@ + user_id + "?nocache=true"@
        },
    )
}

/// The address of an avatar.
pub fn avatar_url(base_url: &str, is_v3: bool, user_id: &str) -> (r: String)
    ensures
        r@ == avatar_address(base_url@, is_v3, user_id@),
{
    let rest = if is_v3 {
        joined3("/api/v3/user/avatar/", user_id, "/l")
    } else {
        joined3("/api/v4/user/avatar/", user_id, "?nocache=true")
    };
    server_address(base_url, rest.as_str())
}

/// Whether an avatar came, or the reason why not.
pub fn fetch_user_avatar(success: bool, status: &str) -> (r: Result<(), String>)
    ensures
        r is Ok <==> success,
        r matches Err(reason) ==> reason@ == "avatar request failed: "@ + status@,
{
    if success {
        Ok(())
    } else {
        Err(joined("avatar request failed: ", status))
    }
}

/// A `data:` address takes four characters for every three bytes, the last ones rounded up.
pub proof fn law_base64_length(bytes: Seq<u8>)
    ensures
        base64_text(bytes).len() == (bytes.len() + 2) / 3 * 4,
    decreases bytes.len(),
{
    if bytes.len() > 3 {
        law_base64_length(bytes.skip(3));
    }
}

/// A thumbnail is always given as an image.
pub proof fn law_thumbnail_is_an_image(header: Option<Seq<char>>)
    ensures
        has_prefix(image_type(header), "image/"@),
{
    reveal_strlit("image/");
    reveal_strlit("image/jpeg");
    assert("image/jpeg"@.subrange(0, 6) =~= "image/"@);
}

/// A missing thumbnail always has a reason that says something.
pub proof fn law_missing_thumbnail_has_a_reason(code: i32, msg: Seq<char>)
    ensures
        missing_thumb(code, msg).len() > msg.len(),
        msg.len() == 0 ==> has_prefix(missing_thumb(code, msg), "thumbnail unavailable"@),
{
    reveal_strlit("thumbnail unavailable");
    reveal_strlit(")");
    if msg.len() == 0 {
        let text = "thumbnail unavailable"@;
        assert(missing_thumb(code, msg).subrange(0, text.len() as int) =~= text);
    }
}

} // verus!
