//! Errors of the API and when they mean that the login has expired.
use crate::json::{opt_json, Json, JsonView};
use crate::text::{
    ascii_lower_text, ascii_lowered, chars_of, contains_text, decimal, find, lemma_index_from,
    occurs_at, views,
};
use vstd::prelude::*;

verus! {

broadcast use vstd::string::group_string_axioms;

/// The error of one item of a batch.
pub struct ItemError {
    pub code: i32,
    pub msg: String,
}

/// What kind of error the API reported, with what is read of it.
pub enum ErrorKind {
    Api { code: i32, message: String },
    ApiWithData { code: i32, message: String, data: Json },
    /// A batch of which some items failed.
    Aggregate { code: i32, message: String, items: Vec<ItemError> },
    /// The login is missing or has expired.
    Unauthorized(String),
    /// The login needs a second factor.
    TwoFactorRequired,
    Other,
}

/// An error of the API, with the text that it is reported by.
pub struct ApiError {
    pub kind: ErrorKind,
    pub text: String,
}

/// The text of an API error with a code.
pub open spec fn api_text(code: int, message: Seq<char>) -> Seq<char> {
    "API error: "@ + message + " (code: "@ + decimal(code) + ")"@
}

/// `cloudreve_api::Error::Api` as `Display` shows it.
#[verifier::external_body]
fn display_api(code: i32, message: String) -> (text: String)
    ensures
        text@ == api_text(code as int, message@),
{
    cloudreve_api::Error::Api { code, message }.to_string()
}

/// `cloudreve_api::Error::Unauthorized` as `Display` shows it.
#[verifier::external_body]
fn display_unauthorized(message: String) -> (text: String)
    ensures
        text@ == "Unauthorized: "@ + message@,
{
    cloudreve_api::Error::Unauthorized(message).to_string()
}

/// `cloudreve_api::Error::InvalidResponse` as `Display` shows it.
#[verifier::external_body]
fn display_invalid_response(message: String) -> (text: String)
    ensures
        text@ == "Invalid response: "@ + message@,
{
    cloudreve_api::Error::InvalidResponse(message).to_string()
}

/// `cloudreve_api::Error::UnsupportedFeature` as `Display` shows it.
#[verifier::external_body]
fn display_unsupported_feature(feature: String, version: String) -> (text: String)
    ensures
        text@ == "Feature '"@ + feature@ + "' not supported in API "@ + version@,
{
    cloudreve_api::Error::UnsupportedFeature(feature, version).to_string()
}

impl ApiError {
    /// Whether the text is the one of the kind.
    pub open spec fn wf(self) -> bool {
        match self.kind {
            ErrorKind::Api { code, message } => self.text@ == api_text(code as int, message@),
            ErrorKind::ApiWithData { code, message, data: _ } => self.text@ == api_text(
                code as int,
                message@,
            ),
            ErrorKind::Unauthorized(message) => self.text@ == "Unauthorized: "@ + message@,
            _ => true,
        }
    }

    /// The business code, where the API gave one.
    pub open spec fn spec_code(self) -> Option<i32> {
        match self.kind {
            ErrorKind::Api { code, message: _ } => Some(code),
            ErrorKind::ApiWithData { code, message: _, data: _ } => Some(code),
            ErrorKind::Aggregate { code, message: _, items: _ } => Some(code),
            _ => None,
        }
    }

    /// The message of the server, where the API gave one.
    pub open spec fn spec_message(self) -> Option<Seq<char>> {
        match self.kind {
            ErrorKind::Api { code: _, message } => Some(message@),
            ErrorKind::ApiWithData { code: _, message, data: _ } => Some(message@),
            ErrorKind::Aggregate { code: _, message, items: _ } => Some(message@),
            _ => None,
        }
    }

    /// The payload, where the error kept one.
    pub open spec fn spec_data(self) -> Option<JsonView> {
        match self.kind {
            ErrorKind::ApiWithData { code: _, message: _, data } => Some(data@),
            _ => None,
        }
    }

    /// The business code, where the API gave one.
    pub fn code(&self) -> (r: Option<i32>)
        ensures
            r == self.spec_code(),
    {
        match &self.kind {
            ErrorKind::Api { code, message: _ } => Some(*code),
            ErrorKind::ApiWithData { code, message: _, data: _ } => Some(*code),
            ErrorKind::Aggregate { code, message: _, items: _ } => Some(*code),
            _ => None,
        }
    }

    /// The message of the server, where the API gave one.
    pub fn message(&self) -> (r: Option<&String>)
        ensures
            match r {
                Some(m) => self.spec_message() == Some(m@),
                None => self.spec_message() is None,
            },
    {
        match &self.kind {
            ErrorKind::Api { code: _, message } => Some(message),
            ErrorKind::ApiWithData { code: _, message, data: _ } => Some(message),
            ErrorKind::Aggregate { code: _, message, items: _ } => Some(message),
            _ => None,
        }
    }

    /// The payload, where the error kept one.
    pub fn data(&self) -> (r: Option<&Json>)
        ensures
            opt_json(r) == self.spec_data(),
    {
        match &self.kind {
            ErrorKind::ApiWithData { code: _, message: _, data } => Some(data),
            _ => None,
        }
    }

    /// Whether the error says that the login has expired.
    pub fn is_unauthorized(&self) -> (r: bool)
        ensures
            r == self.kind is Unauthorized,
    {
        match &self.kind {
            ErrorKind::Unauthorized(_) => true,
            _ => false,
        }
    }

    /// An API error with a code.
    pub fn api(code: i32, message: String) -> (e: ApiError)
        ensures
            e.wf(),
            e.kind matches ErrorKind::Api { code: c, message: m } && c == code && m@ == message@,
    {
        let text = display_api(code, message.clone());
        ApiError { kind: ErrorKind::Api { code, message }, text }
    }

    /// The error of an expired login.
    pub fn unauthorized(message: String) -> (e: ApiError)
        ensures
            e.wf(),
            e.kind matches ErrorKind::Unauthorized(m) && m@ == message@,
    {
        let text = display_unauthorized(message.clone());
        ApiError { kind: ErrorKind::Unauthorized(message), text }
    }

    /// The error of a response that cannot be used.
    pub fn invalid_response(message: String) -> (e: ApiError)
        ensures
            e.wf(),
            e.kind is Other,
            e.text@ == "Invalid response: "@ + message@,
    {
        ApiError { kind: ErrorKind::Other, text: display_invalid_response(message) }
    }

    /// The error of a feature that the version of the API lacks.
    pub fn unsupported_feature(feature: String, version: String) -> (e: ApiError)
        ensures
            e.wf(),
            e.kind is Other,
            e.text@ == "Feature '"@ + feature@ + "' not supported in API "@ + version@,
    {
        ApiError { kind: ErrorKind::Other, text: display_unsupported_feature(feature, version) }
    }
}

/// Whether a code and a message mean that the login has expired: code 401, or the words
/// "login required" in any case of letters.
pub open spec fn auth_expired(code: i32, msg: Seq<char>) -> bool {
    code == 401 || contains_text(ascii_lower_text(msg), "login required"@)
}

/// Whether a code and a message mean that the login has expired.
pub fn v4_auth_expired(code: i32, msg: &str) -> (r: bool)
    ensures
        r == auth_expired(code, msg@),
{
    if code == 401 {
        return true;
    }
    let lowered = ascii_lowered(chars_of(msg).as_slice());
    let wanted = chars_of("login required");
    proof {
        lemma_index_from(lowered@, wanted@, 0);
    }
    match find(lowered.as_slice(), wanted.as_slice()) {
        Some(i) => {
            assert(occurs_at(lowered@, wanted@, i as int));
            true
        },
        None => false,
    }
}

/// Whether one of the items says that the login has expired.
pub open spec fn some_item_expired(items: Seq<ItemError>) -> bool {
    exists|i: int| 0 <= i < items.len() && auth_expired((#[trigger] items[i]).code, items[i].msg@)
}

/// Whether an error means that the login has expired without being of that kind.
pub open spec fn hides_expiry(err: ApiError) -> bool {
    match err.kind {
        ErrorKind::Api { code, message } => auth_expired(code, message@),
        ErrorKind::ApiWithData { code, message, data: _ } => auth_expired(code, message@),
        ErrorKind::Aggregate { code, message, items } => auth_expired(code, message@)
            || some_item_expired(items@),
        _ => false,
    }
}

fn any_item_expired(items: &Vec<ItemError>) -> (r: bool)
    ensures
        r == some_item_expired(items@),
{
    let mut i: usize = 0;
    while i < items.len()
        invariant
            i <= items@.len(),
            forall|j: int|
                0 <= j < i ==> !auth_expired((#[trigger] items@[j]).code, items@[j].msg@),
        decreases items@.len() - i,
    {
        if v4_auth_expired(items[i].code, items[i].msg.as_str()) {
            assert(auth_expired(items@[i as int].code, items@[i as int].msg@));
            return true;
        }
        i += 1;
    }
    false
}

/// Whether `r` is `err` normalized: an error that means that the login has expired becomes one
/// of that kind with the same message, another stays as it is.
pub open spec fn is_normalized(err: ApiError, r: ApiError) -> bool {
    if hides_expiry(err) {
        r.wf() && (r.kind matches ErrorKind::Unauthorized(m) && Some(m@) == err.spec_message())
    } else {
        r == err
    }
}

/// The error as it is, or, where it means that the login has expired, as an error of that kind
/// with the same message.
pub fn normalize_v4_auth_error(err: ApiError) -> (r: ApiError)
    ensures
        is_normalized(err, r),
{
    let expired = match &err.kind {
        ErrorKind::Api { code, message } => v4_auth_expired(*code, message.as_str()),
        ErrorKind::ApiWithData { code, message, data: _ } => v4_auth_expired(
            *code,
            message.as_str(),
        ),
        ErrorKind::Aggregate { code, message, items } => v4_auth_expired(*code, message.as_str())
            || any_item_expired(items),
        _ => false,
    };
    if expired {
        let message = match err.message() {
            Some(m) => m.clone(),
            None => "Login required".to_string(),
        };
        ApiError::unauthorized(message)
    } else {
        err
    }
}

/// An error that has been normalized no longer hides that the login has expired.
pub proof fn law_normalized_error_hides_nothing(err: ApiError, normalized: ApiError)
    requires
        is_normalized(err, normalized),
    ensures
        !hides_expiry(normalized),
        hides_expiry(err) || err.kind is Unauthorized <==> normalized.kind is Unauthorized,
{
}

/// The text of the error followed by those of what caused it.
pub open spec fn described(texts: Seq<Seq<char>>) -> Seq<char>
    decreases texts.len(),
{
    if texts.len() == 0 {
        Seq::empty()
    } else if texts.len() == 1 {
        texts[0]
    } else {
        described(texts.drop_last()) + ": "@ + texts.last()
    }
}

/// The text of an error followed by those of what caused it, from the outermost in, in one line.
pub fn describe_error(texts: &Vec<String>) -> (r: String)
    ensures
        r@ == described(views(texts@)),
{
    let mut r = String::new();
    let ghost all = views(texts@);
    let mut i: usize = 0;
    while i < texts.len()
        invariant
            i <= texts@.len(),
            all == views(texts@),
            r@ == described(all.take(i as int)),
        decreases texts@.len() - i,
    {
        if i > 0 {
            r.append(": ");
        }
        r.append(texts[i].as_str());
        assert(all.take(i + 1).drop_last() =~= all.take(i as int));
        assert(all.take(i + 1).last() == texts@[i as int]@);
        assert(r@ =~= described(all.take(i + 1)));
        i += 1;
    }
    assert(all.take(all.len() as int) =~= all);
    r
}

} // verus!
