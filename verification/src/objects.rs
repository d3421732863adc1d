//! What is done to objects: deleting, moving, renaming, creating, and what is asked of them.
use crate::errors::{
    auth_expired, hides_expiry, normalize_v4_auth_error, v4_auth_expired, ApiError, ErrorKind,
};
use crate::json::{opt_member, Json, JsonView};
use crate::lookup::{member_of, text_or_empty};
use crate::output::{
    int_json, int_value, nat_json, nat_value, or_null, text_json, text_value, value_or_null,
    Entries,
};
use crate::path::uri_of_path;
use crate::query::{encode_query_component, query_component};
use crate::text::{joined, same_text, views};
use vstd::prelude::*;

verus! {

broadcast use vstd::string::group_string_axioms;

/// An answer of the server as it is: code, message and data.
pub open spec fn answer_json(code: i32, msg: Seq<char>, data: JsonView) -> JsonView {
    JsonView::Object(
        seq![("code"@, int_json(code as i64)), ("data"@, data), ("msg"@, text_json(msg))],
    )
}

fn answer_value(code: i32, msg: String, data: Json) -> (r: Json)
    ensures
        r@ == answer_json(code, msg@, data@),
{
    let entries = Entries::new().with("code", int_value(code as i64)).with("data", data).with(
        "msg",
        text_value(msg),
    );
    assert(entries@ =~= answer_json(code, msg@, data@)->Object_0);
    entries.object()
}

/// What comes of deleting an object that may be locked: the answer of the server, with what it
/// says of the locks in the way; an error only where the login has expired, so that the request
/// is repeated.
pub fn delete_object_lock_aware(result: Result<(), ApiError>) -> (r: Result<Json, ApiError>)
    ensures
        match result {
            Ok(_) => r matches Ok(json) && json@ == answer_json(0, ""@, JsonView::Null),
            Err(error) => if hides_expiry(error) || error.kind is Unauthorized {
                r matches Err(e) && e.kind is Unauthorized && (error.kind is Unauthorized ==> e
                    == error) && (hides_expiry(error) ==> e.wf() && (
                e.kind matches ErrorKind::Unauthorized(m) && Some(m@) == error.spec_message()))
            } else {
                r matches Ok(json) && json@ == answer_json(
                    match error.spec_code() {
                        Some(code) => code,
                        None => -1i32,
                    },
                    text_or_empty(error.spec_message()),
                    or_null(error.spec_data()),
                )
            },
        },
{
    match result {
        Ok(()) => Ok(answer_value(0, "".to_string(), Json::Null)),
        Err(error) => {
            let error = normalize_v4_auth_error(error);
            if error.is_unauthorized() {
                return Err(error);
            }
            let code: i32 = match error.code() {
                Some(code) => code,
                None => -1,
            };
            let msg = match error.message() {
                Some(m) => m.clone(),
                None => {
                    let none = String::new();
                    assert(none@ =~= Seq::empty());
                    none
                },
            };
            Ok(answer_value(code, msg, value_or_null(error.data())))
        },
    }
}

/// The endpoint for the metadata of the file at a path.
pub fn file_metadata_endpoint(path: &str) -> (r: String)
    ensures
        r@ == "/api/v4/file/info?uri="@ + query_component(uri_of_path(path@)),
{
    let uri = cloudreve_api::api::v4::uri::path_to_uri(path);
    joined("/api/v4/file/info?uri=", encode_query_component(uri.as_str()).as_str())
}

/// Whether an answer stands: not where it says that the login has expired.
pub fn v4_call_json(code: i32, msg: &str) -> (r: Result<(), ApiError>)
    ensures
        r is Err <==> auth_expired(code, msg@),
        r matches Err(e) ==> e.wf() && (e.kind matches ErrorKind::Unauthorized(m) && m@ == msg@),
{
    if v4_auth_expired(code, msg) {
        Err(ApiError::unauthorized(msg.to_string()))
    } else {
        Ok(())
    }
}

/// The metadata in the data of an answer: an empty object where there is none, which null says
/// too.
pub open spec fn metadata_in(data: Option<JsonView>) -> JsonView {
    match opt_member(data, "metadata"@) {
        None | Some(JsonView::Null) => JsonView::Object(Seq::empty()),
        Some(m) => m,
    }
}

/// The metadata in an answer: an empty object where there is none, an error where the answer is
/// one.
pub fn get_file_metadata(code: i32, msg: String, data: &Option<Json>) -> (r: Result<Json, ApiError>)
    ensures
        if auth_expired(code, msg@) {
            r matches Err(e) && e.wf() && (e.kind matches ErrorKind::Unauthorized(m) && m@ == msg@)
        } else if code != 0 {
            r matches Err(e) && e.wf() && (e.kind matches ErrorKind::Api { code: c, message }
                && c == code && message@ == msg@)
        } else {
            r matches Ok(json) && json@ == metadata_in(
                match *data {
                    Some(d) => Some(d@),
                    None => None,
                },
            )
        },
{
    if let Err(e) = v4_call_json(code, msg.as_str()) {
        return Err(e);
    }
    if code != 0 {
        return Err(ApiError::api(code, msg));
    }
    match member_of(data.as_ref(), "metadata") {
        None | Some(Json::Null) => Ok(Entries::new().object()),
        Some(m) => Ok(m.duplicate()),
    }
}

/// A request of version 4 to move or copy objects into a directory.
pub struct MovePlan {
    pub uris: Vec<String>,
    pub dst: String,
    pub copy: Option<bool>,
}

/// The URIs of the paths.
pub open spec fn uris_of(paths: Seq<Seq<char>>) -> Seq<Seq<char>> {
    paths.map_values(|p: Seq<char>| uri_of_path(p))
}

/// The URIs of the paths.
pub fn path_uris(paths: &Vec<String>) -> (r: Vec<String>)
    ensures
        views(r@) == uris_of(views(paths@)),
{
    let ghost all = uris_of(views(paths@));
    let mut r: Vec<String> = Vec::new();
    let mut i: usize = 0;
    while i < paths.len()
        invariant
            i <= paths@.len(),
            all == uris_of(views(paths@)),
            views(r@) == all.take(i as int),
        decreases paths@.len() - i,
    {
        let ghost before = r@;
        let uri = cloudreve_api::api::v4::uri::path_to_uri(paths[i].as_str());
        r.push(uri);
        assert(views(r@) =~= views(before).push(uri@));
        assert(all.take(i + 1) =~= all.take(i as int).push(uri@));
        i += 1;
    }
    assert(all.take(all.len() as int) =~= all);
    r
}

/// The request to move or copy objects into a directory; none where there are none.
pub fn v4_do_move_or_copy(paths: &Vec<String>, dst: &str, is_copy: bool) -> (r: Option<MovePlan>)
    ensures
        match r {
            Some(plan) => paths@.len() > 0 && views(plan.uris@) == uris_of(views(paths@))
                && plan.dst@ == uri_of_path(dst@) && plan.copy == if is_copy {
                Some(true)
            } else {
                None
            },
            None => paths@.len() == 0,
        },
{
    if paths.len() == 0 {
        return None;
    }
    Some(
        MovePlan {
            uris: path_uris(paths),
            dst: cloudreve_api::api::v4::uri::path_to_uri(dst),
            copy: if is_copy {
                Some(true)
            } else {
                None
            },
        },
    )
}

/// What a request of version 3 is about: files and directories by their ids.
pub struct SourceItems {
    pub items: Vec<String>,
    pub dirs: Vec<String>,
}

/// What a renaming of version 3 is about: the one file or the one directory.
pub fn rename_object(id: String, is_dir: bool) -> (r: SourceItems)
    ensures
        views(r.items@) == if is_dir {
            Seq::<Seq<char>>::empty()
        } else {
            seq![id@]
        },
        views(r.dirs@) == if is_dir {
            seq![id@]
        } else {
            Seq::<Seq<char>>::empty()
        },
{
    let ghost name = id@;
    let none: Vec<String> = Vec::new();
    let mut one: Vec<String> = Vec::new();
    one.push(id);
    assert(views(none@) =~= Seq::empty());
    assert(views(one@) =~= seq![name]);
    if is_dir {
        SourceItems { items: none, dirs: one }
    } else {
        SourceItems { items: one, dirs: none }
    }
}

/// A request of version 4 to create an object.
pub struct CreatePlan {
    pub path: String,
    pub is_folder: bool,
    /// Whether an object of that name is an error.
    pub err_on_conflict: Option<bool>,
}

/// The request of version 4 to create an object: an object of that name is an error.
pub fn v4_create_object(path: String, object_type: &str) -> (r: CreatePlan)
    ensures
        r.path@ == path@,
        r.is_folder == (object_type@ == "folder"@),
        r.err_on_conflict == Some(true),
{
    CreatePlan {
        path,
        is_folder: same_text(object_type, "folder"),
        err_on_conflict: Some(true),
    }
}

/// The address in the answer to a request for a download: the first one.
pub fn v4_get_download_url(urls: Vec<String>) -> (r: Result<String, String>)
    ensures
        if urls@.len() > 0 {
            r matches Ok(url) && url@ == urls@[0]@
        } else {
            r matches Err(reason) && reason@ == "no download URL in response"@
        },
{
    if urls.len() > 0 {
        Ok(urls[0].clone())
    } else {
        Err("no download URL in response".to_string())
    }
}

/// How much room a user has, as it is shown.
pub open spec fn storage(used: u64, total: u64, free: u64) -> JsonView {
    JsonView::Object(
        seq![("free"@, nat_json(free)), ("total"@, nat_json(total)), ("used"@, nat_json(used))],
    )
}

/// How much room a user has, as it is shown.
pub fn get_user_storage(used: u64, total: u64, free: u64) -> (r: Json)
    ensures
        r@ == storage(used, total, free),
{
    let entries = Entries::new().with("free", nat_value(free)).with("total", nat_value(total)).with(
        "used",
        nat_value(used),
    );
    assert(entries@ =~= storage(used, total, free)->Object_0);
    entries.object()
}

/// The settings of a user, as they are shown.
pub struct ApiUserSetting {
    pub uid: i64,
    /// The ids of the passkeys.
    pub authn: Vec<String>,
    pub homepage: bool,
    pub prefer_theme: String,
    pub themes: String,
    pub two_factor: bool,
}

/// The settings of a user of version 4, as they are shown: with what that version does not have
/// left empty.
pub fn get_user_setting(passkeys: Option<Vec<String>>, two_factor: bool) -> (r: ApiUserSetting)
    ensures
        r.uid == 0,
        views(r.authn@) == match passkeys {
            Some(ids) => views(ids@),
            None => Seq::empty(),
        },
        !r.homepage,
        r.prefer_theme@.len() == 0,
        r.themes@.len() == 0,
        r.two_factor == two_factor,
{
    let authn = match passkeys {
        Some(ids) => ids,
        None => {
            let none: Vec<String> = Vec::new();
            assert(views(none@) =~= Seq::empty());
            none
        },
    };
    ApiUserSetting {
        uid: 0,
        authn,
        homepage: false,
        prefer_theme: String::new(),
        themes: String::new(),
        two_factor,
    }
}

} // verus!
