//! What the operations of the library give, whatever they are called with.
use crate::batch::{
    all_paths, batch_outcome_all_failed, conflict_tokens, empty_outcome, first_failure,
    itemized_outcome, lock_tokens, to_batch_failures, whole_outcome, BatchFailure, BatchOutcome,
    ItemFailure,
};
use crate::errors::{
    api_text, auth_expired, describe_error, hides_expiry, normalize_v4_auth_error, ApiError,
    ErrorKind,
};
use crate::json::{
    array_in, bool_in, int_in, items_view, member, opt_member, ordered, text_in, uint_in, Json,
    JsonView,
};
use crate::listing::{
    detail_in_answer, get_object_detail, map_v4_file, object_detail_endpoint, ApiObjectDetail,
    ApiObjectInfo, RemoteDetail, RemoteFile,
};
use crate::listing_laws::{
    law_answer_is_handed_on, law_details_are_asked_for_by_uri, law_metadata_is_handed_on,
    law_room_is_shown,
};
use crate::logger::{init, log, Level, LogLine, LoggerSettings};
use crate::lookup::text_or_empty;
use crate::names::{filename_from_url_or_str, supports_thumbnail};
use crate::objects::{
    delete_object_lock_aware, file_metadata_endpoint, get_file_metadata, get_user_setting,
    get_user_storage, rename_object, v4_call_json, v4_create_object, v4_do_move_or_copy,
    v4_get_download_url, ApiUserSetting, CreatePlan, MovePlan, SourceItems,
};
use crate::path::{
    child_path, parent_of, remote_parent, unix_parent, unix_path, uri_of_path, v4_uri_to_unix,
};
use crate::path_laws::{
    follows_drive, law_encoded_path_comes_back, law_parent_of_child, law_user_of_drive_is_dropped,
};
use crate::query::{
    encode_query_component, law_query_component_decodes, percent_decode, query_component,
};
use crate::search::{map_v4_search_file, ApiSearchObjectInfo};
use crate::session::{
    cookie_header, extract_v4_tokens, failed_login, get_api_version_info, server_address,
    v4_client_of, Client, Failure, RefreshRequest, Session, Tokens,
};
use crate::session_laws::{law_address_of_the_server, law_prefix_is_there_once};
use crate::share::{
    create_share_link, enrich_share_source_uri, law_detail_goes_over_share,
    map_v3_share_to_unified, share_info_endpoint, shares_on, v3_share_endpoint, ShareLinkRequest,
    ShareList,
};
use crate::share_laws::{
    law_address_of_an_avatar, law_link_of_a_share, law_missing_thumbnail_is_explained,
    law_more_is_asked_of_a_share, law_share_expires, law_share_is_counted,
    law_share_is_shown_as_the_server_has_it,
};
use crate::task_laws::{
    law_download_under_way_is_shown, law_finished_download_is_shown, law_queue_has_every_task,
    law_target_of_a_download,
    law_task_of_the_queue_is_shown,
};
use crate::tasks::{
    downloading_list, downloading_task, fallback_delete_result, finished_list, finished_task,
    get_user_tasks, is_past_finished, normalized_download_target, queue_task,
    v4_aria2_downloading, v4_aria2_finished, v4_task_status_to_i32, workflow_endpoint, Task,
    TaskStatus,
};
use crate::text::{decimal, digits, has_prefix, has_suffix, opt_view, views};
use crate::text_laws::{
    is_bare_name, law_digits_tell_numbers_apart, law_file_name_of_an_address, law_occurrence,
};
use crate::thumb::{
    avatar_url, base64_text, fetch_user_avatar, get_thumb, image_type, v3_thumb_url,
    v4_thumb_address, v4_thumb_endpoint,
};
use crate::upload::{
    bearer_target, chunk_url, chunk_window, credential_target, delete_upload_session,
    get_upload_uri, has_session_to_delete, judge_chunk, judge_node_chunk, node_chunk_url,
    read_local_chunk, start_fill, upload_header, upload_time, v3_upload_request, v3_upload_session,
    v4_upload_session, ChunkAnswer, ChunkUploadTarget, FillEvent, FillStep, UploadHeader,
    V3UploadRequest,
};
use crate::upload_laws::{
    law_answer_to_a_chunk, law_chunk_for_a_node_is_numbered, law_chunk_goes_to_its_own_address,
    law_v3_session_has_the_terms_of_the_server, law_v4_session_hands_on_what_the_server_says,
    law_v4_session_has_the_terms_of_the_server,
};
use vstd::prelude::*;
use vstd::utf8::encode_utf8;

verus! {

broadcast use vstd::string::group_string_axioms;

/// The object that is shown for a file has the file's size, name and dates, and is a directory
/// exactly where the file is a folder.
pub proof fn law_shown_file(file: RemoteFile, shown: ApiObjectInfo)
    requires
        call_ensures(map_v4_file, (&file,), shown),
    ensures
        shown.size == file.size,
        shown.name@ == file.name@,
        shown.date@ == file.updated_at@,
        shown.create_date@ == file.created_at@,
        shown.id@ == unix_path(file.path@),
        shown.path@ == parent_of(shown.id@),
        shown.object_type@ == if file.is_folder {
            "dir"@
        } else {
            "file"@
        },
{
}

/// The result that is shown for a file has the file's size, name, path and metadata.
pub proof fn law_shown_result(file: RemoteFile, shown: ApiSearchObjectInfo)
    requires
        call_ensures(map_v4_search_file, (&file,), shown),
    ensures
        shown.size == file.size,
        shown.name@ == file.name@,
        shown.id@ == unix_path(file.path@),
        shown.path@ == parent_of(shown.id@),
        shown.create_date@ == file.created_at@,
        file.updated_at@.len() > 0 ==> shown.date@ == file.updated_at@,
        shown.object_type@ == if file.is_folder {
            "dir"@
        } else {
            "file"@
        },
        file.metadata matches Some(m) ==> (!(m@ is Null) ==> (shown.metadata matches Some(n)
            && n@ == m@)),
{
}

/// A file is the same in a search as in the listing of its directory.
pub proof fn law_search_and_listing_show_the_same(
    file: RemoteFile,
    listed: ApiObjectInfo,
    found: ApiSearchObjectInfo,
)
    requires
        call_ensures(map_v4_file, (&file,), listed),
        call_ensures(map_v4_search_file, (&file,), found),
    ensures
        listed.id@ == found.id@,
        listed.name@ == found.name@,
        listed.path@ == found.path@,
        listed.size == found.size,
        listed.object_type@ == found.object_type@,
{
}

/// The details of an object are those of the server: its times, its path, its size and the name of
/// its storage policy; of a folder the size and the counts are those of its summary.
pub proof fn law_shown_details(file: RemoteDetail, shown: ApiObjectDetail)
    requires
        call_ensures(get_object_detail, (file,), shown),
    ensures
        shown.created_at@ == file.created_at@,
        shown.updated_at@ == file.updated_at@,
        shown.query_date@ == file.updated_at@,
        shown.path@ == unix_path(file.path@),
        file.policy matches Some(name) ==> shown.policy@ == name@,
        file.policy is None ==> shown.policy@.len() == 0,
        file.folder_summary is None ==> shown.size == file.size && shown.child_file_num == 0
            && shown.child_folder_num == 0,
        file.folder_summary matches Some(summary) ==> shown.size == summary.size
            && shown.child_file_num == summary.files && shown.child_folder_num == summary.folders,
{
}

/// The details in an answer are those that it holds, and an answer without any is an error that
/// repeats it.
pub proof fn law_details_in_an_answer(
    data: Option<RemoteDetail>,
    answer: &str,
    r: Result<RemoteDetail, ApiError>,
)
    requires
        call_ensures(detail_in_answer, (data, answer), r),
    ensures
        data matches Some(detail) ==> r == Ok::<RemoteDetail, ApiError>(detail),
        data is None ==> (r matches Err(e) && has_suffix(e.text@, answer@)),
{
    let front = "Invalid response: "@ + "API returned no data for get_object_detail request: "@;
    law_occurrence(front, answer@, Seq::empty());
    assert("Invalid response: "@ + ("API returned no data for get_object_detail request: "@
        + answer@) =~= front + answer@);
}

/// The details of a folder are asked for like those of a file, with a summary besides.
pub proof fn law_question_for_details(path: &str, of_file: String, of_folder: String)
    requires
        call_ensures(object_detail_endpoint, (path, false), of_file),
        call_ensures(object_detail_endpoint, (path, true), of_folder),
    ensures
        of_folder@ == of_file@ + "&folder_summary=true"@,
        of_file@ == "/file/info?uri="@ + query_component(uri_of_path(path@)) + "&extended=true"@,
{
    law_details_are_asked_for_by_uri(path@);
}

/// Two chunks of one upload session go to the same address only where they are the same chunk.
pub proof fn law_chunks_have_addresses_of_their_own(
    base_url: &str,
    is_v3: bool,
    session_id: &str,
    index: u32,
    other: u32,
    one: String,
    two: String,
)
    requires
        call_ensures(chunk_url, (base_url, is_v3, session_id, index), one),
        call_ensures(chunk_url, (base_url, is_v3, session_id, other), two),
    ensures
        has_suffix(one@, session_id@ + "/"@ + digits(index as nat)),
        one@ == two@ <==> index == other,
{
    law_chunk_goes_to_its_own_address(base_url@, is_v3, session_id@, index, other);
}

/// Two chunks for one storage node go to the same address only where they are the same chunk.
pub proof fn law_chunks_for_a_node_have_addresses_of_their_own(
    upload_url: &str,
    index: u32,
    other: u32,
    one: String,
    two: String,
)
    requires
        call_ensures(node_chunk_url, (upload_url, index), one),
        call_ensures(node_chunk_url, (upload_url, other), two),
    ensures
        has_prefix(one@, upload_url@),
        has_suffix(one@, "chunk="@ + digits(index as nat)),
        one@ == two@ <==> index == other,
{
    law_chunk_for_a_node_is_numbered(upload_url@, index, other);
}

/// What is uploaded of a file lies within the file and within what was asked for; there is nothing
/// to upload exactly where nothing was asked for or the file ends before it.
pub proof fn law_window_of_a_file(file_len: u64, start: u64, length: u64, r: Result<u64, String>)
    requires
        call_ensures(chunk_window, (file_len, start, length), r),
    ensures
        r is Ok <==> length > 0 && start < file_len,
        r matches Ok(n) ==> n > 0 && n <= length && start + n <= file_len && (n == length || start
            + n == file_len),
        r matches Err(reason) ==> reason@ == "nothing to upload: file is "@ + digits(
            file_len as nat,
        ) + " bytes, offset "@ + digits(start as nat),
{
}

/// A chunk goes to a storage node with the node's credential and without one where there is none;
/// it goes to a server of version 4 with the access token as bearer.
pub proof fn law_credential_reaches_the_node(
    credential: String,
    token: Option<String>,
    to_node: ChunkUploadTarget,
    to_server: ChunkUploadTarget,
    node_header: UploadHeader,
    server_header: UploadHeader,
)
    requires
        call_ensures(credential_target, (credential,), to_node),
        call_ensures(bearer_target, (token,), to_server),
        call_ensures(upload_header, (&to_node,), node_header),
        call_ensures(upload_header, (&to_server,), server_header),
    ensures
        credential@.len() > 0 ==> (node_header matches UploadHeader::Authorization(h) && h@
            == credential@),
        credential@.len() == 0 ==> node_header is Nothing,
        token matches Some(t) ==> (server_header matches UploadHeader::Authorization(h) && h@
            == "Bearer "@ + t@),
        token is None ==> server_header is Nothing,
{
}

/// A chunk goes to a server of version 3 with the session cookie under its name.
pub proof fn law_cookie_reaches_the_server(cookie: String, header: UploadHeader, bare: UploadHeader)
    requires
        call_ensures(upload_header, (&ChunkUploadTarget::V3Cookie(Some(cookie)),), header),
        call_ensures(upload_header, (&ChunkUploadTarget::V3Cookie(None),), bare),
    ensures
        header matches UploadHeader::Cookie(h) && h@ == "cloudreve-session="@ + cookie@,
        bare is Nothing,
{
}

/// A chunk counts as taken exactly where the server says so: in version 3 by the code in its answer
/// where it gives one, else by the status. A refusal is told in the server's words.
pub proof fn law_chunk_is_judged_by_the_answer(
    target: ChunkUploadTarget,
    answer: ChunkAnswer,
    r: Result<(), String>,
)
    requires
        call_ensures(judge_chunk, (&target, answer), r),
    ensures
        target is AuthHeader ==> (r is Ok <==> answer.success),
        target is V3Cookie ==> (answer.parsed matches Some(said) ==> (r is Ok <==> said.code == 0)),
        target is V3Cookie && answer.parsed is None ==> (r is Ok <==> answer.success),
        target is AuthHeader && answer.body@.len() > 0 ==> (r matches Err(reason) ==> reason@
            == "upload chunk failed: "@ + (answer.status@ + " "@ + answer.body@)),
        target is AuthHeader && answer.body@.len() == 0 ==> (r matches Err(reason) ==> reason@
            == "upload chunk failed: "@ + (answer.status@ + " "@ + "Unknown upload error"@)),
        target is V3Cookie ==> (answer.parsed matches Some(said) ==> (r matches Err(reason)
            ==> reason@ == "upload chunk failed: "@ + api_text(said.code as int, said.msg@))),
{
    law_answer_to_a_chunk(target, answer);
}

/// A chunk that was sent at once counts as taken exactly where the status says so.
pub proof fn law_chunk_at_once_is_judged_by_the_status(
    success: bool,
    status: &str,
    body: Option<String>,
    r: Result<(), String>,
)
    requires
        call_ensures(judge_node_chunk, (success, status, body), r),
    ensures
        r is Ok <==> success,
        body matches Some(text) ==> (r matches Err(reason) ==> reason@ == "upload url failed: "@ + (
        status@ + " "@ + text@)),
        body is None ==> (r matches Err(reason) ==> reason@ == "upload url failed: "@ + (status@
            + " "@ + "Unknown upload URL error"@)),
{
}

/// The request of version 3 for an upload session is for the file that is uploaded: its directory,
/// name, size, type and storage policy, and its time where it has one.
pub proof fn law_v3_request_is_for_the_file(
    path: &str,
    name: String,
    policy_id: String,
    size: i64,
    last_modified: i64,
    mime_type: String,
    r: V3UploadRequest,
)
    requires
        call_ensures(
            v3_upload_request,
            (path, name, policy_id, size, last_modified, mime_type),
            r,
        ),
    ensures
        r.path@ == parent_of(path@),
        r.name@ == name@,
        r.policy_id@ == policy_id@,
        r.size == size,
        r.mime_type@ == mime_type@,
        last_modified > 0 ==> r.last_modified == last_modified,
        last_modified <= 0 ==> r.last_modified == 0,
{
}

/// An upload is marked with the time that is given, where it is one.
pub proof fn law_time_of_an_upload(given: Option<i64>, r: Option<u64>)
    requires
        call_ensures(upload_time, (given,), r),
    ensures
        given matches Some(t) ==> (t > 0 ==> r == Some(t as u64)),
        r matches Some(t) ==> given == Some(t as i64) && t > 0,
{
}

/// The upload session of version 4 that is shown holds what the server's session holds; the
/// credential for a storage node and the addresses to upload to stand as the server gives them.
pub proof fn law_opened_v4_session(session: Json, shown: Json)
    requires
        call_ensures(v4_upload_session, (&session,), shown),
    ensures
        member(session@, "credential"@) matches Some(value) ==> member(shown@, "credential"@)
            == Some(value),
        member(session@, "upload_urls"@) matches Some(value) ==> member(shown@, "uploadUrls"@)
            == Some(value),
        text_in(member(session@, "session_id"@)) matches Some(id) ==> text_in(
            member(shown@, "sessionId"@),
        ) == Some(id),
        member(session@, "completeURL"@) matches Some(value) ==> member(shown@, "completeUrl"@)
            == Some(value),
        uint_in(member(session@, "chunk_size"@)) matches Some(n) ==> uint_in(
            member(shown@, "chunkSize"@),
        ) == Some(n),
        uint_in(member(session@, "expires"@)) matches Some(n) ==> uint_in(
            member(shown@, "expires"@),
        ) == Some(n),
{
    law_v4_session_hands_on_what_the_server_says(session@);
    law_v4_session_has_the_terms_of_the_server(session@);
}

/// An upload session is opened exactly where the server gives one without an error code; it is the
/// server's session, and else the reason is the server's.
pub proof fn law_answer_to_a_session(
    code: i32,
    msg: String,
    data: Option<Json>,
    r: Result<Json, String>,
    shown: Json,
)
    requires
        call_ensures(get_upload_uri, (code, msg, data), r),
        data matches Some(session) ==> call_ensures(v4_upload_session, (&session,), shown),
    ensures
        r is Ok <==> code == 0 && data is Some,
        r matches Ok(json) ==> json@ == shown@,
        code != 0 ==> (r matches Err(reason) && reason@ == api_text(code as int, msg@)),
        code == 0 && data is None ==> (r matches Err(reason) && reason@ == msg@),
{
}

/// The upload session of version 3 that is shown has its id, its size of chunks and its expiry.
pub proof fn law_opened_v3_session(id: String, chunk_size: i64, expires: i64, shown: Json)
    requires
        call_ensures(v3_upload_session, (id, chunk_size, expires), shown),
    ensures
        text_in(member(shown@, "sessionId"@)) == Some(id@),
        int_in(member(shown@, "chunkSize"@)) == Some(chunk_size),
        int_in(member(shown@, "expires"@)) == Some(expires),
{
    law_v3_session_has_the_terms_of_the_server(id@, chunk_size, expires);
}

/// Deleting upload sessions succeeds where the server deletes them and where it no longer knows
/// them; every other error is handed on.
pub proof fn law_gone_sessions_are_deleted(
    result: Result<(), ApiError>,
    session_id: &str,
    r: Result<(), String>,
    asked: bool,
)
    requires
        call_ensures(delete_upload_session, (result,), r),
        call_ensures(has_session_to_delete, (session_id,), asked),
    ensures
        result is Ok ==> r is Ok,
        result matches Err(e) ==> (r is Ok <==> (e.kind matches ErrorKind::Api { code, message: _ }
            && code == 40011)),
        result matches Err(e) ==> (r matches Err(reason) ==> reason@ == e.text@),
        asked <==> session_id@.len() > 0,
{
}

/// Deleting an object that may be locked gives the server's code, message and data, and an error
/// only where the login has expired; a success is code 0.
pub proof fn law_locks_are_told(result: Result<(), ApiError>, r: Result<Json, ApiError>)
    requires
        call_ensures(delete_object_lock_aware, (result,), r),
    ensures
        result is Ok ==> (r matches Ok(json) && int_in(member(json@, "code"@)) == Some(0i64)),
        result matches Err(e) ==> (r is Err <==> hides_expiry(e) || e.kind is Unauthorized),
        r matches Err(e) ==> e.kind is Unauthorized,
        result matches Err(e) ==> (e.kind matches ErrorKind::ApiWithData { code, message, data }
            ==> (!hides_expiry(e) ==> (r matches Ok(json) && int_in(member(json@, "code"@)) == Some(
            code as i64,
        ) && text_in(member(json@, "msg"@)) == Some(message@) && member(json@, "data"@) == Some(
            data@,
        )))),
{
    law_answer_is_handed_on(0, ""@, JsonView::Null);
    if let Err(e) = result {
        if let ErrorKind::ApiWithData { code, message, data } = e.kind {
            law_answer_is_handed_on(code, message@, data@);
        }
    }
}

/// The metadata of a file is asked for by its URI, and is what the answer holds; an answer with an
/// error code is an error with that code and message, or one of an expired login.
pub proof fn law_metadata_of_a_file(
    path: &str,
    endpoint: String,
    code: i32,
    msg: String,
    data: Option<Json>,
    r: Result<Json, ApiError>,
)
    requires
        call_ensures(file_metadata_endpoint, (path,), endpoint),
        call_ensures(get_file_metadata, (code, msg, &data), r),
    ensures
        endpoint@ == "/api/v4/file/info?uri="@ + query_component(uri_of_path(path@)),
        r is Ok <==> code == 0 && !auth_expired(code, msg@),
        auth_expired(code, msg@) ==> (r matches Err(e) && (
        e.kind matches ErrorKind::Unauthorized(m) && m@ == msg@)),
        code != 0 && !auth_expired(code, msg@) ==> (r matches Err(e) && (
        e.kind matches ErrorKind::Api { code: c, message } && c == code && message@ == msg@)),
        data matches Some(d) ==> (member(d@, "metadata"@) matches Some(m) ==> (!(m is Null) ==> (
        r matches Ok(json) ==> json@ == m))),
{
    if let Some(d) = data {
        law_metadata_is_handed_on(d@);
    }
}

/// An answer stands unless it says that the login has expired; that is an error with its message.
pub proof fn law_expired_answer_does_not_stand(code: i32, msg: &str, r: Result<(), ApiError>)
    requires
        call_ensures(v4_call_json, (code, msg), r),
    ensures
        r is Err <==> auth_expired(code, msg@),
        r matches Err(e) ==> (e.kind matches ErrorKind::Unauthorized(m) && m@ == msg@),
{
}

/// Moving and copying are asked for with the URIs of all the paths, in their order, and that of the
/// directory they go to; they differ in that a copy says so. Nothing is asked for no paths.
pub proof fn law_plan_of_a_move(
    paths: Vec<String>,
    dst: &str,
    moved: Option<MovePlan>,
    copied: Option<MovePlan>,
)
    requires
        call_ensures(v4_do_move_or_copy, (&paths, dst, false), moved),
        call_ensures(v4_do_move_or_copy, (&paths, dst, true), copied),
    ensures
        moved is None <==> paths@.len() == 0,
        copied is None <==> paths@.len() == 0,
        moved matches Some(plan) ==> plan.dst@ == uri_of_path(dst@) && plan.copy is None
            && plan.uris@.len() == paths@.len() && forall|i: int|
            0 <= i < paths@.len() ==> (#[trigger] plan.uris@[i])@ == uri_of_path(paths@[i]@),
        copied matches Some(plan) ==> plan.dst@ == uri_of_path(dst@) && plan.copy == Some(true)
            && plan.uris@.len() == paths@.len() && forall|i: int|
            0 <= i < paths@.len() ==> (#[trigger] plan.uris@[i])@ == uri_of_path(paths@[i]@),
{
    if let Some(plan) = moved {
        assert(views(plan.uris@).len() == views(paths@).len());
        assert forall|i: int| 0 <= i < paths@.len() implies (#[trigger] plan.uris@[i])@
            == uri_of_path(paths@[i]@) by {
            assert(views(plan.uris@)[i] == uri_of_path(views(paths@)[i]));
        }
    }
    if let Some(plan) = copied {
        assert(views(plan.uris@).len() == views(paths@).len());
        assert forall|i: int| 0 <= i < paths@.len() implies (#[trigger] plan.uris@[i])@
            == uri_of_path(paths@[i]@) by {
            assert(views(plan.uris@)[i] == uri_of_path(views(paths@)[i]));
        }
    }
}

/// A directory is renamed as a directory and a file as a file, by its id alone.
pub proof fn law_one_object_is_renamed(id: String, file: SourceItems, dir: SourceItems)
    requires
        call_ensures(rename_object, (id, false), file),
        call_ensures(rename_object, (id, true), dir),
    ensures
        file.items@.len() == 1 && file.items@[0]@ == id@ && file.dirs@.len() == 0,
        dir.dirs@.len() == 1 && dir.dirs@[0]@ == id@ && dir.items@.len() == 0,
{
    assert(views(file.items@).len() == file.items@.len());
    assert(views(file.dirs@).len() == file.dirs@.len());
    assert(views(dir.items@).len() == dir.items@.len());
    assert(views(dir.dirs@).len() == dir.dirs@.len());
    assert(views(file.items@)[0] == file.items@[0]@);
    assert(views(dir.dirs@)[0] == dir.dirs@[0]@);
}

/// An object is created at its path, as a folder exactly where that is asked for, and never over
/// one that is there.
pub proof fn law_object_is_created(path: String, object_type: &str, r: CreatePlan)
    requires
        call_ensures(v4_create_object, (path, object_type), r),
    ensures
        r.path@ == path@,
        r.is_folder <==> object_type@ == "folder"@,
        r.err_on_conflict == Some(true),
{
}

/// A download is fetched from the first address that the server gives.
pub proof fn law_first_address_counts(urls: Vec<String>, r: Result<String, String>)
    requires
        call_ensures(v4_get_download_url, (urls,), r),
    ensures
        r is Ok <==> urls@.len() > 0,
        r matches Ok(url) ==> url@ == urls@[0]@,
        r matches Err(reason) ==> reason@ == "no download URL in response"@,
{
}

/// The room of a user is shown as the server counts it.
pub proof fn law_shown_room(used: u64, total: u64, free: u64, r: Json)
    requires
        call_ensures(get_user_storage, (used, total, free), r),
    ensures
        uint_in(member(r@, "used"@)) == Some(used),
        uint_in(member(r@, "total"@)) == Some(total),
        uint_in(member(r@, "free"@)) == Some(free),
{
    law_room_is_shown(used, total, free);
}

/// The settings of a user have all the passkeys, in their order, and say whether a second factor is
/// asked for.
pub proof fn law_shown_settings(passkeys: Option<Vec<String>>, two_factor: bool, r: ApiUserSetting)
    requires
        call_ensures(get_user_setting, (passkeys, two_factor), r),
    ensures
        r.two_factor == two_factor,
        passkeys matches Some(ids) ==> views(r.authn@) == views(ids@),
        passkeys is None ==> r.authn@.len() == 0,
{
    assert(views(r.authn@).len() == r.authn@.len());
}

/// Every object that a batch could not process is reported, in its place, with its path, message
/// and code.
pub proof fn law_every_failure_is_reported(failures: Vec<ItemFailure>, r: Vec<BatchFailure>)
    requires
        call_ensures(to_batch_failures, (&failures,), r),
    ensures
        r@.len() == failures@.len(),
        forall|i: int|
            0 <= i < failures@.len() ==> (#[trigger] r@[i]).path@ == failures@[i].path@
                && r@[i].message@ == failures@[i].message@ && (
            failures@[i].code matches Some(code) ==> r@[i].code == code) && (
            failures@[i].data matches Some(data) ==> views(r@[i].tokens@) == lock_tokens(
                Some(data@),
            )),
{
    let shown = crate::batch::failure_views(r@);
    assert(shown.len() == r@.len());
    assert forall|i: int| 0 <= i < failures@.len() implies (#[trigger] r@[i]).path@
        == failures@[i].path@ && r@[i].message@ == failures@[i].message@ && (
    failures@[i].code matches Some(code) ==> r@[i].code == code) && (
    failures@[i].data matches Some(data) ==> views(r@[i].tokens@) == lock_tokens(
        Some(data@),
    )) by {
        assert(shown[i] == r@[i]@);
        assert(shown[i] == crate::batch::reported(failures@[i]));
    }
}

/// The tokens in the way are found in what the server attached, whether that is a list or not.
pub proof fn law_tokens_are_found(data: Json, r: Vec<String>, none: Vec<String>)
    requires
        call_ensures(conflict_tokens, (Some(&data),), r),
        call_ensures(conflict_tokens, (None,), none),
    ensures
        views(r@) == lock_tokens(Some(data@)),
        none@.len() == 0,
{
    assert(views(none@).len() == none@.len());
}

/// A batch that is taken as a whole has succeeded for every path; one that is refused as a whole
/// has failed for every path, each reported in its place with the error's code and message.
pub proof fn law_whole_batch(all: Vec<String>, result: Result<(), ApiError>, r: BatchOutcome)
    requires
        call_ensures(whole_outcome, (&all, result), r),
        all@.len() <= u32::MAX,
    ensures
        result is Ok ==> r.succeeded == all@.len() && r.failed@.len() == 0,
        result matches Err(e)
            ==> r.succeeded == 0 && r.failed@.len() == all@.len() && forall|i: int|
            0 <= i < all@.len() ==> (#[trigger] r.failed@[i]).path@ == all@[i]@ && (
            e.spec_code() matches Some(code) ==> r.failed@[i].code == code) && (
            e.spec_message() matches Some(message) ==> r.failed@[i].message@ == message),
{
    if let Err(e) = result {
        let shown = crate::batch::failure_views(r.failed@);
        assert(shown.len() == r.failed@.len());
        assert(views(all@).len() == all@.len());
        assert forall|i: int| 0 <= i < all@.len() implies (#[trigger] r.failed@[i]).path@
            == all@[i]@ && (e.spec_code() matches Some(code) ==> r.failed@[i].code == code) && (
        e.spec_message() matches Some(message) ==> r.failed@[i].message@ == message) by {
            assert(shown[i] == r.failed@[i]@);
            assert(shown[i] == crate::batch::failed_whole(views(all@)[i], e));
        }
    }
}

/// A batch that is refused as a whole has succeeded for no path and names every one.
pub proof fn law_refused_batch(paths: Vec<String>, err: ApiError, r: BatchOutcome)
    requires
        call_ensures(batch_outcome_all_failed, (&paths, &err), r),
    ensures
        r.succeeded == 0,
        r.failed@.len() == paths@.len(),
        forall|i: int| 0 <= i < paths@.len() ==> (#[trigger] r.failed@[i]).path@ == paths@[i]@,
{
    let shown = crate::batch::failure_views(r.failed@);
    assert(shown.len() == r.failed@.len());
    assert(views(paths@).len() == paths@.len());
    assert forall|i: int| 0 <= i < paths@.len() implies (#[trigger] r.failed@[i]).path@
        == paths@[i]@ by {
        assert(shown[i] == r.failed@[i]@);
        assert(shown[i] == crate::batch::failed_whole(views(paths@)[i], err));
    }
}

/// A batch that is answered item by item has as many successes as the server counts, and a failure
/// for each that it reports; it is an error only where all of them say that the login has expired.
pub proof fn law_batch_item_by_item(
    succeeded: usize,
    failures: Vec<ItemFailure>,
    r: Result<BatchOutcome, ApiError>,
    i: int,
)
    requires
        call_ensures(itemized_outcome, (succeeded, &failures), r),
        succeeded <= u32::MAX,
    ensures
        r matches Ok(outcome) ==> outcome.succeeded == succeeded && outcome.failed@.len()
            == failures@.len() && (0 <= i < failures@.len() ==> outcome.failed@[i].path@
            == failures@[i].path@),
        failures@.len() == 0 ==> r is Ok,
        0 <= i < failures@.len() && !auth_expired(
            match failures@[i].code {
                Some(code) => code,
                None => 0,
            },
            failures@[i].message@,
        ) ==> r is Ok,
        r matches Err(e) ==> e.kind is Unauthorized,
{
    if let Ok(outcome) = r {
        let shown = crate::batch::failure_views(outcome.failed@);
        assert(shown.len() == outcome.failed@.len());
        if 0 <= i < failures@.len() {
            assert(shown[i] == outcome.failed@[i]@);
            assert(shown[i] == crate::batch::reported(failures@[i]));
        }
    }
}

/// A batch without failures succeeds, and one with failures is told by the first of them or by the
/// expired login.
pub proof fn law_batch_is_told_by_its_first_failure(
    failures: Vec<ItemFailure>,
    r: Result<(), ApiError>,
)
    requires
        call_ensures(first_failure, (&failures,), r),
    ensures
        r is Ok <==> failures@.len() == 0,
        r matches Err(e) ==> e.kind is Unauthorized || (
        e.kind matches ErrorKind::Api { code, message } && message@ == failures@[0].message@ && (
        failures@[0].code matches Some(c) ==> code == c)),
{
}

/// The files and the directories of a request make one list, the files first, with nothing left
/// out.
pub proof fn law_one_list_of_paths(items: Vec<String>, dirs: Vec<String>, r: Vec<String>)
    requires
        call_ensures(all_paths, (&items, &dirs), r),
    ensures
        r@.len() == items@.len() + dirs@.len(),
        forall|i: int| 0 <= i < items@.len() ==> (#[trigger] r@[i])@ == items@[i]@,
        forall|i: int| 0 <= i < dirs@.len() ==> r@[items@.len() + i]@ == (#[trigger] dirs@[i])@,
{
    assert(views(r@).len() == r@.len());
    assert(views(items@).len() == items@.len() && views(dirs@).len() == dirs@.len());
    assert forall|i: int| 0 <= i < items@.len() implies (#[trigger] r@[i])@ == items@[i]@ by {
        assert(views(r@)[i] == views(items@)[i]);
    }
    assert forall|i: int| 0 <= i < dirs@.len() implies r@[items@.len() + i]@ == (
    #[trigger] dirs@[i])@ by {
        assert(views(r@)[items@.len() + i] == views(dirs@)[i]);
    }
}

/// An error that hides an expired login comes out as one of an expired login with its message, and
/// every other error comes out as it went in.
pub proof fn law_errors_come_out_normalized(err: ApiError, r: ApiError)
    requires
        call_ensures(normalize_v4_auth_error, (err,), r),
    ensures
        hides_expiry(err) ==> (r.kind matches ErrorKind::Unauthorized(m) && err.spec_message()
            == Some(m@)),
        !hides_expiry(err) ==> r == err,
{
}

/// An error is described by its text first and by that of its last cause last.
pub proof fn law_description_of_an_error(texts: Vec<String>, r: String)
    requires
        call_ensures(describe_error, (&texts,), r),
        texts@.len() > 0,
    ensures
        texts@.len() == 1 ==> r@ == texts@[0]@,
        texts@.len() == 2 ==> r@ == texts@[0]@ + ": "@ + texts@[1]@,
        has_suffix(r@, texts@[texts@.len() - 1]@),
{
    let all = views(texts@);
    assert(all.len() == texts@.len());
    assert(all.last() == texts@[texts@.len() - 1]@);
    assert(all[0] == texts@[0]@);
    if texts@.len() == 1 {
        law_occurrence(Seq::empty(), all[0], Seq::empty());
        assert(Seq::<char>::empty() + all[0] =~= all[0]);
    } else {
        let front = crate::errors::described(all.drop_last());
        law_occurrence(front + ": "@, all.last(), Seq::empty());
        if texts@.len() == 2 {
            assert(all.drop_last() =~= seq![all[0]]);
        }
    }
}

/// The client that is given out is the one that is kept; without one the answer is an error.
pub proof fn law_client_is_given_out(session: Session, r: Result<Client, String>)
    requires
        call_ensures(Session::get_client, (&session,), r),
    ensures
        r is Ok <==> session@.client is Some,
        r matches Ok(client) ==> session@.client == Some(client@),
{
}

/// A silent refresh asks the client's server with the token that is kept.
pub proof fn law_refresh_is_asked_for(session: Session, r: Result<RefreshRequest, String>)
    requires
        call_ensures(Session::refresh_request, (&session,), r),
    ensures
        r is Ok <==> session@.refresh_token is Some && session@.client is Some,
        r matches Ok(request) ==> session@.refresh_token == Some(request.refresh_token@)
            && session@.client->0.base_url == request.base_url@,
{
}

/// What is kept of the refresh token and of the storage policy is what is given out.
pub proof fn law_kept_values_are_given_out(
    session: Session,
    token: Option<String>,
    policy: Option<String>,
)
    requires
        call_ensures(Session::get_v4_refresh, (&session,), token),
        call_ensures(Session::get_v4_policy_id, (&session,), policy),
    ensures
        opt_view(token) == session@.refresh_token,
        opt_view(policy) == session@.policy_id,
{
}

/// A login that fails is an error with its text, except that one that needs a second factor asks
/// for it.
pub proof fn law_second_factor_is_asked_for(
    error: ApiError,
    is_v3: bool,
    r: Result<Vec<String>, String>,
)
    requires
        call_ensures(failed_login, (error, is_v3), r),
    ensures
        r is Ok <==> error.kind is TwoFactorRequired,
        r matches Err(reason) ==> reason@ == error.text@,
        r matches Ok(v) ==> v@.len() == 5 && v@[0]@ == "2fa_required"@ && v@[3]@ == if is_v3 {
            "v3"@
        } else {
            "v4"@
        },
{
    if let Ok(v) = r {
        assert(views(v@).len() == v@.len());
        assert(views(v@)[0] == v@[0]@);
        assert(views(v@)[3] == v@[3]@);
    }
}

/// The tokens of a response are taken out of it as they are.
pub proof fn law_tokens_are_taken_out(response: Tokens, r: Tokens)
    requires
        call_ensures(extract_v4_tokens, (Some(response),), r),
    ensures
        r.access@ == response.access@,
        r.refresh@ == response.refresh@,
        r.refresh_expires@ == response.refresh_expires@,
{
    assert(r@ == response@);
}

/// The versions are the client's and then the server's, where that answered.
pub proof fn law_versions(api_version: String, ping: Option<String>, r: Vec<String>)
    requires
        call_ensures(get_api_version_info, (api_version, ping), r),
    ensures
        r@.len() == 2,
        r@[0]@ == api_version@,
        ping matches Some(version) ==> r@[1]@ == version@,
        ping is None ==> r@[1]@ == "unknown"@,
{
    assert(views(r@).len() == r@.len());
    assert(views(r@)[0] == r@[0]@);
    assert(views(r@)[1] == r@[1]@);
}

/// The header of a session cookie names it once, and is the same for the header itself.
pub proof fn law_header_of_a_cookie(cookie: String, header: String, again: String)
    requires
        call_ensures(cookie_header, (cookie,), header),
        call_ensures(cookie_header, (header,), again),
    ensures
        has_prefix(header@, "cloudreve-session="@),
        again@ == header@,
        !has_prefix(cookie@, "cloudreve-session="@) ==> header@ == "cloudreve-session="@ + cookie@,
        has_prefix(cookie@, "cloudreve-session="@) ==> header@ == cookie@,
{
    law_prefix_is_there_once(cookie@, "cloudreve-session="@);
}

/// What is on the server has the server's address before it.
pub proof fn law_addresses_on_the_server(base_url: &str, rest: &str, r: String)
    requires
        call_ensures(server_address, (base_url, rest), r),
        base_url@.len() > 0,
        base_url@.last() != '/',
    ensures
        r@ == base_url@ + rest@,
{
    law_address_of_the_server(base_url@, rest@);
}

/// A feature of version 4 is there on version 4 only, and is named where it is missing. A failure
/// has the text of its error, and is one of an expired login exactly where the error is.
pub proof fn law_features_and_failures(
    is_v4: bool,
    feature: &str,
    r: Result<(), ApiError>,
    error: ApiError,
    failure: Failure,
)
    requires
        call_ensures(v4_client_of, (is_v4, feature), r),
        call_ensures(Failure::of, (error,), failure),
    ensures
        r is Ok <==> is_v4,
        r matches Err(e) ==> e.text@ == "Feature '"@ + feature@ + "' not supported in API "@
            + "non-v4"@,
        failure.reason@ == error.text@,
        failure.unauthorized <==> error.kind is Unauthorized,
{
}

/// A share of version 3 is shown with its key, name, password, counts and link.
pub proof fn law_shown_share(item: Json, base_url: &str, r: Json)
    requires
        call_ensures(map_v3_share_to_unified, (&item, base_url), r),
    ensures
        text_in(member(r@, "id"@)) == Some(text_or_empty(text_in(member(item@, "key"@)))),
        text_in(member(r@, "password"@)) == Some(
            text_or_empty(text_in(member(item@, "password"@))),
        ),
        int_in(member(item@, "downloads"@)) matches Some(n) ==> int_in(member(r@, "downloaded"@))
            == Some(n),
        int_in(member(item@, "views"@)) matches Some(n) ==> int_in(member(r@, "visited"@)) == Some(
            n,
        ),
        bool_in(member(r@, "expired"@)) == Some(int_in(member(item@, "expire"@)) == Some(0i64)),
        text_in(member(item@, "password"@)) is None ==> text_in(member(r@, "url"@)) == Some(
            base_url@ + "/s/"@ + text_or_empty(text_in(member(item@, "key"@))),
        ),
{
    law_share_is_shown_as_the_server_has_it(item@, base_url@);
    law_share_is_counted(item@, base_url@);
    law_share_expires(item@, base_url@);
    law_link_of_a_share(
        item@,
        base_url@,
        text_or_empty(text_in(member(item@, "key"@))),
        text_or_empty(text_in(member(item@, "password"@))),
    );
    assert(text_in(member(item@, "password"@)) is None ==> text_or_empty(
        text_in(member(item@, "password"@)),
    ) =~= Seq::empty());
}

/// Two pages of the shares of version 3 are asked for differently.
pub proof fn law_pages_are_asked_for_by_number(page: u32, other: u32, one: String, two: String)
    requires
        call_ensures(v3_share_endpoint, (page,), one),
        call_ensures(v3_share_endpoint, (other,), two),
    ensures
        one@ == "/share?page="@ + digits(page as nat) + "&order_by=created_at&order=DESC"@,
        one@ == two@ <==> page == other,
{
    if one@ == two@ {
        let front = "/share?page="@;
        let end = "&order_by=created_at&order=DESC"@;
        let n = digits(page as nat).len();
        assert(one@.len() == front.len() + n + end.len());
        assert(two@.len() == front.len() + digits(other as nat).len() + end.len());
        assert(one@.subrange(front.len() as int, (front.len() + n) as int) =~= digits(page as nat));
        assert(two@.subrange(front.len() as int, (front.len() + n) as int) =~= digits(
            other as nat,
        ));
        law_digits_tell_numbers_apart(page as nat, other as nat);
    }
}

/// The shares on a page are those that the answer holds, and an answer without data is an error
/// with its message.
pub proof fn law_shares_of_an_answer(
    data: Option<Json>,
    msg: String,
    r: Result<Vec<Json>, ApiError>,
)
    requires
        call_ensures(ShareList::page_shares, (&data, msg), r),
    ensures
        r is Ok <==> data is Some,
        data matches Some(d) ==> (r matches Ok(shares) && items_view(shares@) == shares_on(d@)),
        r matches Err(e) ==> e.text@ == "Invalid response: "@ + msg@,
{
}

/// A share link is for the path that is named; it is private exactly where it has a password, and
/// expires after the days that are given, or never where they are not positive.
pub proof fn law_new_share_link(
    path: String,
    expire_days: i32,
    password: String,
    r: ShareLinkRequest,
)
    requires
        expire_days * 86400 <= u32::MAX,
        call_ensures(create_share_link, (path, expire_days, password), r),
    ensures
        r.uri@ == path@,
        r.is_private == Some(true) <==> password@.len() > 0,
        password@.len() > 0 ==> (r.password matches Some(p) && p@ == password@),
        password@.len() == 0 ==> r.password is None && r.is_private is None,
        expire_days > 0 ==> (r.expire matches Some(seconds) && seconds == 86400 * expire_days),
        expire_days <= 0 ==> r.expire is None,
        r.permission@ == "read"@,
{
    if password@.len() == 0 {
        assert(opt_view(r.password) is None);
    }
}

/// The list of the downloads under way is the server's tasks that wait, run or run to a halt; that
/// of the finished ones is the rest. Without data both are an error with the server's message.
pub proof fn law_lists_of_downloads(
    task: Task,
    tasks: Vec<Task>,
    msg: String,
    under_way: Result<Json, String>,
    finished: Result<Json, String>,
)
    requires
        tasks@ == seq![task],
        call_ensures(v4_aria2_downloading, (Some(tasks), msg), under_way),
        call_ensures(v4_aria2_finished, (Some(tasks), msg), finished),
    ensures
        under_way is Ok && finished is Ok,
        ({
            let active = array_in(Some(under_way->Ok_0@))->0;
            let ended = array_in(Some(finished->Ok_0@))->0;
            if task.status == TaskStatus::Queued || task.status == TaskStatus::Processing
                || task.status == TaskStatus::Suspending {
                active.len() == 1 && ended.len() == 0 && text_in(
                    opt_member(member(active[0], "info"@), "gid"@),
                ) == Some(task.id@)
            } else {
                active.len() == 0 && ended.len() == 1 && text_in(member(ended[0], "gid"@)) == Some(
                    task.id@,
                )
            }
        }),
{
    let none = Seq::<Task>::empty();
    crate::task_laws::law_downloads_under_way(none, task);
    crate::task_laws::law_finished_downloads(none, task);
    assert(none.push(task) =~= tasks@);
    assert(downloading_list(none) =~= Seq::empty());
    assert(finished_list(none) =~= Seq::empty());
    law_finished_download_is_shown(task);
    law_download_under_way_is_shown(task);
}

/// Without data the lists of downloads and the queue are an error with the server's message.
pub proof fn law_no_list_without_data(
    msg: String,
    under_way: Result<Json, String>,
    finished: Result<Json, String>,
    tasks: Result<Json, String>,
)
    requires
        call_ensures(v4_aria2_downloading, (None, msg), under_way),
        call_ensures(v4_aria2_finished, (None, msg), finished),
        call_ensures(get_user_tasks, (None, msg), tasks),
    ensures
        under_way matches Err(reason) && reason@ == msg@,
        finished matches Err(reason) && reason@ == msg@,
        tasks matches Err(reason) && reason@ == msg@,
{
}

/// A task is shown with the number of its state wherever it is shown: 0 or 1 where it is under way,
/// and another where it has ended.
pub proof fn law_shown_tasks(task: Task, under_way: Json, finished: Json, queued: Json, number: i32)
    requires
        call_ensures(downloading_task, (&task,), under_way),
        call_ensures(finished_task, (&task,), finished),
        call_ensures(queue_task, (&task,), queued),
        call_ensures(v4_task_status_to_i32, (&task.status,), number),
    ensures
        int_in(member(under_way@, "status"@)) == Some(number as i64),
        int_in(member(finished@, "status"@)) == Some(number as i64),
        int_in(member(queued@, "status"@)) == Some(number as i64),
        number == 0 || number == 1 <==> task.status == TaskStatus::Queued || task.status
            == TaskStatus::Processing || task.status == TaskStatus::Suspending,
        number == 4 <==> task.status == TaskStatus::Completed,
        text_in(member(finished@, "gid"@)) == Some(task.id@),
        text_in(member(queued@, "id"@)) == Some(task.id@),
        text_in(member(under_way@, "update"@)) == Some(task.updated_at@),
{
    law_download_under_way_is_shown(task);
    law_finished_download_is_shown(task);
    law_task_of_the_queue_is_shown(task);
}

/// A task that could not be cancelled is gone exactly where the server then deletes it; else the
/// first reason stands, followed by what the server said of the deletion.
pub proof fn law_fallback_of_a_deletion(
    gid: &str,
    endpoint: String,
    first_error: String,
    answer: Option<(i32, String)>,
    r: Result<(), String>,
)
    requires
        call_ensures(workflow_endpoint, (gid,), endpoint),
        call_ensures(fallback_delete_result, (first_error, answer), r),
    ensures
        endpoint@ == "/workflow/"@ + gid@,
        r is Ok <==> (answer matches Some((code, _)) && code == 0),
        answer is None ==> (r matches Err(reason) && reason@ == first_error@),
        r matches Err(reason) ==> has_prefix(reason@, first_error@),
{
    if let Some((code, msg)) = answer {
        let rest = "; fallback delete failed: API error "@ + msg@ + " ("@ + decimal(code as int)
            + ")"@;
        law_occurrence(Seq::empty(), first_error@, rest);
        if let Err(reason) = r {
            assert(reason@ =~= first_error@ + rest);
        }
    } else {
        law_occurrence(Seq::empty(), first_error@, Seq::empty());
        assert(first_error@ + Seq::<char>::empty() =~= first_error@);
    }
}

/// There is nothing after the first page of finished downloads; and a download goes below the drive
/// unless it is given a URI.
pub proof fn law_pages_and_targets_of_downloads(page: i32, past: bool, dst: String, target: String)
    requires
        call_ensures(is_past_finished, (page,), past),
        call_ensures(normalized_download_target, (dst,), target),
    ensures
        past <==> page > 1,
        has_prefix(dst@, "cloudreve://"@) ==> target@ == dst@,
        has_prefix(target@, "cloudreve://"@),
{
    law_target_of_a_download(dst@);
}

/// A thumbnail carries the bytes of the image exactly where the server gave it, and names its type;
/// else the reason is the status.
pub proof fn law_thumbnail_carries_the_image(
    success: bool,
    status: &str,
    content_type: Option<&str>,
    bytes: &[u8],
    r: Result<String, String>,
)
    requires
        call_ensures(get_thumb, (success, status, content_type, bytes), r),
    ensures
        r is Ok <==> success,
        r matches Ok(url) ==> has_suffix(url@, ";base64,"@ + base64_text(bytes@)) && has_prefix(
            url@,
            "data:"@,
        ),
        content_type is None ==> (r matches Ok(url) ==> url@ == "data:"@ + image_type(None)
            + ";base64,"@ + base64_text(bytes@)),
        r matches Err(reason) ==> reason@ == "thumb request failed: "@ + status@,
{
    if let Ok(url) = r {
        let kind = image_type(
            match content_type {
                Some(value) => Some(value@),
                None => None,
            },
        );
        let end = ";base64,"@ + base64_text(bytes@);
        let front = "data:"@ + kind;
        lemma_join_in_either_order(front, ";base64,"@, base64_text(bytes@));
        law_occurrence(front, end, Seq::empty());
        lemma_join_in_either_order("data:"@, kind, end);
        law_occurrence(Seq::empty(), "data:"@, kind + end);
    }
}

proof fn lemma_join_in_either_order(a: Seq<char>, b: Seq<char>, c: Seq<char>)
    ensures
        a + b + c == a + (b + c),
{
    assert(a + b + c =~= a + (b + c));
}

/// A thumbnail is asked for by the id of the file, on version 3, and by its URI on version 4; the
/// address that version 4 answers with is the one that it gives. An avatar came exactly where the
/// status says so.
pub proof fn law_questions_for_images(
    base_url: &str,
    id: &str,
    v3: String,
    v4: String,
    code: i32,
    msg: String,
    url: Option<String>,
    address: Result<String, String>,
    success: bool,
    status: &str,
    avatar: Result<(), String>,
)
    requires
        call_ensures(v3_thumb_url, (base_url, id), v3),
        call_ensures(v4_thumb_endpoint, (id,), v4),
        call_ensures(v4_thumb_address, (code, msg, url), address),
        call_ensures(fetch_user_avatar, (success, status), avatar),
    ensures
        has_suffix(v3@, "/api/v3/file/thumb/"@ + id@),
        v4@ == "/file/thumb?uri="@ + uri_of_path(id@) + "&width=200&height=200"@,
        address is Ok <==> url is Some,
        url matches Some(u) ==> (address matches Ok(s) && s@ == u@),
        msg@.len() > 0 ==> (address matches Err(reason) ==> reason@ == msg@ + " (code "@ + decimal(
            code as int,
        ) + ")"@),
        msg@.len() == 0 ==> (address matches Err(reason) ==> reason@
            == "thumbnail unavailable (code "@ + decimal(code as int) + ")"@),
        avatar is Ok <==> success,
        avatar matches Err(reason) ==> reason@ == "avatar request failed: "@ + status@,
{
    let rest = "/api/v3/file/thumb/"@ + id@;
    law_address_of_the_server(base_url@, rest);
    law_occurrence(crate::session::address(base_url@, Seq::empty()), rest, Seq::empty());
    law_missing_thumbnail_is_explained(code, msg@);
}

/// A record reaches the system log unless it holds a NUL, with its target and text and at its
/// level: an error above a warning, a warning above news, news above what only helps in finding
/// faults.
pub proof fn law_record_reaches_the_log(level: Level, target: &str, text: &str, r: Option<LogLine>)
    requires
        call_ensures(log, (level, target, text), r),
    ensures
        r is None <==> ("["@ + target@ + "] "@ + text@).contains('\0'),
        r matches Some(line) ==> line.message@ == "["@ + target@ + "] "@ + text@ && (line.level
            == 6 <==> level is Error) && (line.level == 5 <==> level is Warn) && (line.level == 4
            <==> level is Info) && (line.level == 3 <==> level is Debug || level is Trace),
{
}

/// What stands for a text in a query gives the text's bytes back when it is decoded.
pub proof fn law_query_comes_back(text: &str, encoded: String, bytes: &[u8], decoded: Vec<u8>)
    requires
        call_ensures(encode_query_component, (text,), encoded),
        bytes@ == encode_utf8(encoded@),
        call_ensures(percent_decode, (bytes,), decoded),
    ensures
        decoded@ == encode_utf8(text@),
{
    law_query_component_decodes(text@);
}

/// A path that stands encoded behind the drive comes back, with a user before the drive or without.
pub proof fn law_path_comes_back_from_its_uri(
    user: Seq<char>,
    path: Seq<char>,
    plain: &str,
    of_user: &str,
    one: String,
    two: String,
)
    requires
        !user.contains('/'),
        plain@ == "cloudreve://my/"@ + query_component("/"@ + path),
        of_user@ == "cloudreve://"@ + user + "@my/"@ + query_component("/"@ + path),
        call_ensures(v4_uri_to_unix, (plain,), one),
        call_ensures(v4_uri_to_unix, (of_user,), two),
    ensures
        one@ == "/"@ + path,
        two@ == "/"@ + path,
{
    law_encoded_path_comes_back(user, path);
}

/// The user before a drive does not matter to the path.
pub proof fn law_user_does_not_matter(
    user: Seq<char>,
    path: Seq<char>,
    plain: &str,
    of_user: &str,
    one: String,
    two: String,
)
    requires
        !user.contains('/'),
        follows_drive(path),
        plain@ == "cloudreve://my"@ + path,
        of_user@ == "cloudreve://"@ + user + "@my"@ + path,
        call_ensures(v4_uri_to_unix, (plain,), one),
        call_ensures(v4_uri_to_unix, (of_user,), two),
    ensures
        one@ == two@,
{
    law_user_of_drive_is_dropped(user, path);
}

/// The directory of a child is the directory that the child was put into.
pub proof fn law_child_is_in_its_directory(
    parent: &str,
    name: &str,
    path: String,
    given: &str,
    back: String,
)
    requires
        parent@.len() > 0,
        !name@.contains('/'),
        call_ensures(child_path, (parent, name), path),
        given@ == path@,
        call_ensures(unix_parent, (given,), back),
    ensures
        back@ == parent@,
{
    law_parent_of_child(parent@, name@);
}

/// The file name in an address is what follows its last slash, without the query.
pub proof fn law_names_in_addresses(
    dir: Seq<char>,
    name: Seq<char>,
    query: Seq<char>,
    address: &str,
    found: String,
)
    requires
        is_bare_name(name),
        !dir.contains('?'),
        dir.len() > 0 ==> !crate::text::CharClass::White.has(dir[0]),
        address@ == (dir.push('/') + name).push('?') + query,
        call_ensures(filename_from_url_or_str, (address,), found),
    ensures
        found@ == name,
{
    law_file_name_of_an_address(dir, name, query);
}

/// Whether a file has a thumbnail depends on its extension alone.
pub proof fn law_thumbnail_depends_on_the_extension(
    stem: Seq<char>,
    ext: &str,
    name: &str,
    of_name: bool,
    of_ext: bool,
)
    requires
        !ext@.contains('.'),
        name@ == stem.push('.') + ext@,
        call_ensures(supports_thumbnail, (name,), of_name),
        call_ensures(supports_thumbnail, (ext,), of_ext),
    ensures
        of_name == of_ext,
{
    crate::text_laws::law_images_and_videos_have_thumbnails(stem, ext@);
}

/// A share that is filled in has from the detail every key that the detail has, and its own value
/// under every other.
pub proof fn law_share_is_filled_in(share: Json, detail: Json, r: Json, plain: Json, key: Seq<char>)
    requires
        share@ is Object,
        detail@ is Object,
        ordered(share@),
        ordered(detail@),
        call_ensures(enrich_share_source_uri, (share, Some(&detail)), r),
        call_ensures(enrich_share_source_uri, (share, None), plain),
    ensures
        member(detail@, key) matches Some(value) ==> member(r@, key) == Some(value),
        member(detail@, key) is None ==> member(r@, key) == member(share@, key),
        plain@ == share@,
{
    law_detail_goes_over_share(share@, detail@, key);
}

/// More is asked of a share that has an id, by that id and its password, exactly where it does not
/// say where what it shares is.
pub proof fn law_question_for_a_share(
    share: Json,
    id: Seq<char>,
    password: Seq<char>,
    r: Option<String>,
)
    requires
        text_in(member(share@, "id"@)) == Some(id),
        text_in(member(share@, "password"@)) == Some(password),
        id.len() > 0,
        call_ensures(share_info_endpoint, (&share,), r),
    ensures
        r is None <==> (text_in(member(share@, "source_uri"@)) matches Some(uri) && uri.len() > 0),
        r matches Some(endpoint) ==> has_prefix(
            endpoint@,
            "/share/info/"@ + query_component(id),
        ),
        password.len() > 0 ==> (r matches Some(endpoint) ==> has_suffix(
            endpoint@,
            "&password="@ + query_component(password),
        )),
{
    law_more_is_asked_of_a_share(share@, id, password);
    let front = "/share/info/"@ + query_component(id);
    let middle = "?owner_extended=true&count_views=false"@;
    let end = if password.len() > 0 {
        "&password="@ + query_component(password)
    } else {
        Seq::empty()
    };
    lemma_join_in_either_order(front, middle, end);
    law_occurrence(Seq::empty(), front, middle + end);
    law_occurrence(front + middle, end, Seq::empty());
}

/// A part of a file is read from its beginning; a reading goes on behind what was read until the
/// part is full or the file ends, over interruptions, and only a failure gives it up.
pub proof fn law_part_is_read_on(
    capacity: usize,
    filled: usize,
    event: FillEvent,
    first: FillStep,
    next: FillStep,
)
    requires
        filled < capacity,
        event matches FillEvent::Read(n) ==> filled + n <= capacity,
        call_ensures(start_fill, (capacity,), first),
        call_ensures(read_local_chunk, (capacity, filled, event), next),
    ensures
        first == FillStep::Continue(0),
        event is Interrupted ==> next == FillStep::Continue(filled),
        event is Failed <==> next is Fail,
        event matches FillEvent::Read(n) ==> if n == 0 || filled + n == capacity {
            next == FillStep::Done((filled + n) as usize)
        } else {
            next == FillStep::Continue((filled + n) as usize)
        },
{
}

/// The queue has every task of the server and says how many they are.
pub proof fn law_shown_queue(tasks: Vec<Task>, msg: String, r: Result<Json, String>, i: int)
    requires
        tasks@.len() <= u64::MAX,
        call_ensures(get_user_tasks, (Some(tasks), msg), r),
    ensures
        r matches Ok(queue) && uint_in(member(queue@, "total"@)) == Some(tasks@.len() as u64) && (
        array_in(member(queue@, "tasks"@)) matches Some(shown) && shown.len() == tasks@.len() && (0
            <= i < tasks@.len() ==> text_in(member(shown[i], "id"@)) == Some(tasks@[i].id@))),
{
    law_queue_has_every_task(tasks@);
    if 0 <= i < tasks@.len() {
        law_task_of_the_queue_is_shown(tasks@[i]);
    }
}

/// The directory of a remote path is that of the path, an avatar is fetched from the server by the
/// user's id, and a batch in which nothing is asked for has no outcome.
pub proof fn law_directories_avatars_and_empty_batches(
    path: &str,
    remote: String,
    local: String,
    base_url: &str,
    user: &str,
    v3: String,
    v4: String,
    outcome: BatchOutcome,
)
    requires
        call_ensures(remote_parent, (path,), remote),
        call_ensures(unix_parent, (path,), local),
        base_url@.len() > 0,
        base_url@.last() != '/',
        call_ensures(avatar_url, (base_url, true, user), v3),
        call_ensures(avatar_url, (base_url, false, user), v4),
        call_ensures(empty_outcome, (), outcome),
    ensures
        remote@ == local@,
        v3@ == base_url@ + ("/api/v3/user/avatar/"@ + user@ + "/l"@),
        v4@ == base_url@ + ("/api/v4/user/avatar/"@ + user@ + "?nocache=true"@),
        outcome.succeeded == 0 && outcome.failed@.len() == 0,
{
    law_address_of_an_avatar(base_url@, user@);
}

/// The logger lets everything through but traces, as records of an application in this library's
/// domain.
pub proof fn law_settings_of_the_logger(settings: LoggerSettings)
    requires
        call_ensures(init, (), settings),
    ensures
        settings.max_level == Level::Debug,
        settings.log_type == 0,
        settings.domain == 1,
{
}

} // verus!
