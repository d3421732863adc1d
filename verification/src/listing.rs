//! What a directory holds and the details of an object.
use crate::errors::ApiError;
use crate::json::{wrapped, Json};
use crate::names::{has_thumbnail, supports_thumbnail};
use crate::path::{parent_of, unix_parent, unix_path, uri_of_path, v4_uri_to_unix};
use crate::query::{encode_query_component, query_component};
use crate::session::{with_policy, Session};
use crate::text::{joined, joined3};
use vstd::prelude::*;

verus! {

broadcast use vstd::string::group_string_axioms;

/// A file or folder as the server reports it.
pub struct RemoteFile {
    pub name: String,
    /// The URI of the file.
    pub path: String,
    pub is_folder: bool,
    pub size: i64,
    pub created_at: String,
    pub updated_at: String,
    pub metadata: Option<Json>,
}

/// The storage policy of a directory as the server reports it.
pub struct StoragePolicy {
    pub id: String,
    pub name: String,
    pub policy_type: String,
    pub max_size: u64,
}

/// An object of a directory, as it is shown.
pub struct ApiObjectInfo {
    /// The full path.
    pub id: String,
    pub name: String,
    /// The path of the directory that holds the object.
    pub path: String,
    pub thumb: bool,
    pub size: i64,
    pub object_type: String,
    pub date: String,
    pub create_date: String,
    pub source_enabled: bool,
}

/// The mathematical form of an object of a directory.
pub struct ObjectView {
    pub id: Seq<char>,
    pub name: Seq<char>,
    pub path: Seq<char>,
    pub thumb: bool,
    pub size: i64,
    pub object_type: Seq<char>,
    pub date: Seq<char>,
    pub create_date: Seq<char>,
    pub source_enabled: bool,
}

impl View for ApiObjectInfo {
    type V = ObjectView;

    open spec fn view(&self) -> ObjectView {
        ObjectView {
            id: self.id@,
            name: self.name@,
            path: self.path@,
            thumb: self.thumb,
            size: self.size,
            object_type: self.object_type@,
            date: self.date@,
            create_date: self.create_date@,
            source_enabled: self.source_enabled,
        }
    }
}

/// The mathematical form of a list of objects.
pub open spec fn object_views(list: Seq<ApiObjectInfo>) -> Seq<ObjectView> {
    list.map_values(|o: ApiObjectInfo| o@)
}

/// The storage policy of a directory, as it is shown.
pub struct ApiPolicy {
    pub id: String,
    pub name: String,
    pub policy_type: String,
    pub max_size: i64,
    pub file_type: Option<Json>,
}

/// A directory, as it is shown.
pub struct ApiDirectoryInfo {
    pub parent: String,
    pub objects: Vec<ApiObjectInfo>,
    pub policy: ApiPolicy,
}

/// The word for a folder or a file.
pub open spec fn type_word(is_folder: bool) -> Seq<char> {
    if is_folder {
        "dir"@
    } else {
        "file"@
    }
}

/// The word for a folder or a file.
pub fn object_type_of(is_folder: bool) -> (r: String)
    ensures
        r@ == type_word(is_folder),
{
    if is_folder {
        "dir".to_string()
    } else {
        "file".to_string()
    }
}

/// A file of a directory, as it is shown.
pub open spec fn object_of(file: RemoteFile) -> ObjectView {
    ObjectView {
        id: unix_path(file.path@),
        name: file.name@,
        path: parent_of(unix_path(file.path@)),
        thumb: !file.is_folder && has_thumbnail(file.name@),
        size: file.size,
        object_type: type_word(file.is_folder),
        date: file.updated_at@,
        create_date: file.created_at@,
        source_enabled: false,
    }
}

/// A file of a directory, as it is shown.
pub fn map_v4_file(file: &RemoteFile) -> (r: ApiObjectInfo)
    ensures
        r@ == object_of(*file),
{
    let path = v4_uri_to_unix(file.path.as_str());
    let parent = unix_parent(path.as_str());
    ApiObjectInfo {
        id: path,
        name: file.name.clone(),
        path: parent,
        thumb: !file.is_folder && supports_thumbnail(file.name.as_str()),
        size: file.size,
        object_type: object_type_of(file.is_folder),
        date: file.updated_at.clone(),
        create_date: file.created_at.clone(),
        source_enabled: false,
    }
}

/// Whether `shown` is the storage policy as it is shown: with empty texts and no limit where the
/// server reports none.
pub open spec fn shows_policy(policy: Option<StoragePolicy>, shown: ApiPolicy) -> bool {
    &&& shown.file_type is None
    &&& match policy {
        Some(p) => shown.id@ == p.id@ && shown.name@ == p.name@ && shown.policy_type@
            == p.policy_type@ && shown.max_size == wrapped(p.max_size),
        None => shown.id@.len() == 0 && shown.name@.len() == 0 && shown.policy_type@.len() == 0
            && shown.max_size == 0,
    }
}

fn shown_policy(policy: &Option<StoragePolicy>) -> (r: ApiPolicy)
    ensures
        shows_policy(*policy, r),
{
    match policy {
        Some(p) => {
            let n: u64 = p.max_size;
            let max_size: i64 = if n <= 0x7fff_ffff_ffff_ffff {
                n as i64
            } else {
                -((0xffff_ffff_ffff_ffff - n) as i64) - 1
            };
            ApiPolicy {
                id: p.id.clone(),
                name: p.name.clone(),
                policy_type: p.policy_type.clone(),
                max_size,
                file_type: None,
            }
        },
        None => ApiPolicy {
            id: String::new(),
            name: String::new(),
            policy_type: String::new(),
            max_size: 0,
            file_type: None,
        },
    }
}

/// The id of a storage policy, where there is one.
pub open spec fn policy_id_of(policy: Option<StoragePolicy>) -> Option<Seq<char>> {
    match policy {
        Some(p) => Some(p.id@),
        None => None,
    }
}

/// A directory, as it is shown, from the files, the URI of the directory and its storage policy,
/// which is kept for uploads.
pub fn get_directory(
    session: &mut Session,
    files: &Vec<RemoteFile>,
    parent: &str,
    policy: &Option<StoragePolicy>,
) -> (r: ApiDirectoryInfo)
    ensures
        r.parent@ == unix_path(parent@),
        object_views(r.objects@) == files@.map_values(|f: RemoteFile| object_of(f)),
        shows_policy(*policy, r.policy),
        final(session)@ == with_policy(old(session)@, policy_id_of(*policy)),
{
    let policy_id = match policy {
        Some(p) => Some(p.id.clone()),
        None => None,
    };
    session.remember_policy(&policy_id);
    let mut objects: Vec<ApiObjectInfo> = Vec::new();
    let ghost all = files@.map_values(|f: RemoteFile| object_of(f));
    let mut i: usize = 0;
    while i < files.len()
        invariant
            i <= files@.len(),
            all == files@.map_values(|f: RemoteFile| object_of(f)),
            object_views(objects@) == all.take(i as int),
        decreases files@.len() - i,
    {
        let ghost before = objects@;
        let object = map_v4_file(&files[i]);
        objects.push(object);
        assert(object_views(objects@) =~= object_views(before).push(object@));
        assert(all.take(i + 1) =~= all.take(i as int).push(object@));
        i += 1;
    }
    assert(all.take(all.len() as int) =~= all);
    ApiDirectoryInfo { parent: v4_uri_to_unix(parent), objects, policy: shown_policy(policy) }
}

/// What a folder holds, counted.
pub struct FolderSummary {
    pub size: i64,
    pub files: i64,
    pub folders: i64,
}

/// The details of an object as the server reports them.
pub struct RemoteDetail {
    pub created_at: String,
    pub updated_at: String,
    pub size: i64,
    /// The URI of the object.
    pub path: String,
    pub folder_summary: Option<FolderSummary>,
    /// The name of the storage policy.
    pub policy: Option<String>,
}

/// The details of an object, as they are shown.
pub struct ApiObjectDetail {
    pub created_at: String,
    pub updated_at: String,
    pub policy: String,
    pub size: i64,
    pub child_folder_num: i64,
    pub child_file_num: i64,
    pub path: String,
    pub query_date: String,
}

/// The endpoint for the details of the object at a path.
pub open spec fn detail_address(path: Seq<char>, is_folder: bool) -> Seq<char> {
    "/file/info?uri="@ + query_component(uri_of_path(path)) + if is_folder {
        "&extended=true&folder_summary=true"@
    } else {
        "&extended=true"@
    }
}

/// The endpoint for the details of the object at a path.
pub fn object_detail_endpoint(path: &str, is_folder: bool) -> (r: String)
    ensures
        r@ == detail_address(path@, is_folder),
{
    let uri = cloudreve_api::api::v4::uri::path_to_uri(path);
    let component = encode_query_component(uri.as_str());
    if is_folder {
        joined3("/file/info?uri=", component.as_str(), "&extended=true&folder_summary=true")
    } else {
        joined3("/file/info?uri=", component.as_str(), "&extended=true")
    }
}

/// The details in an answer, or the error of an answer without data. `answer` is the answer in
/// words.
pub fn detail_in_answer(data: Option<RemoteDetail>, answer: &str) -> (r: Result<
    RemoteDetail,
    ApiError,
>)
    ensures
        match data {
            Some(detail) => r == Ok::<RemoteDetail, ApiError>(detail),
            None => r matches Err(e) && e.wf() && e.kind is Other && e.text@
                == "Invalid response: "@ + ("API returned no data for get_object_detail request: "@
                + answer@),
        },
{
    match data {
        Some(detail) => Ok(detail),
        None => Err(
            ApiError::invalid_response(
                joined("API returned no data for get_object_detail request: ", answer),
            ),
        ),
    }
}

/// The details of an object, as they are shown: of a folder the size and the counts of its
/// summary.
pub fn get_object_detail(file: RemoteDetail) -> (r: ApiObjectDetail)
    ensures
        r.created_at@ == file.created_at@,
        r.updated_at@ == file.updated_at@,
        r.query_date@ == file.updated_at@,
        r.path@ == unix_path(file.path@),
        match file.policy {
            Some(name) => r.policy@ == name@,
            None => r.policy@.len() == 0,
        },
        match file.folder_summary {
            Some(summary) => r.size == summary.size && r.child_folder_num == summary.folders
                && r.child_file_num == summary.files,
            None => r.size == file.size && r.child_folder_num == 0 && r.child_file_num == 0,
        },
{
    let path = v4_uri_to_unix(file.path.as_str());
    let policy = match file.policy {
        Some(name) => name,
        None => String::new(),
    };
    let query_date = file.updated_at.clone();
    match file.folder_summary {
        Some(summary) => ApiObjectDetail {
            created_at: file.created_at,
            updated_at: file.updated_at,
            policy,
            size: summary.size,
            child_folder_num: summary.folders,
            child_file_num: summary.files,
            path,
            query_date,
        },
        None => ApiObjectDetail {
            created_at: file.created_at,
            updated_at: file.updated_at,
            policy,
            size: file.size,
            child_folder_num: 0,
            child_file_num: 0,
            path,
            query_date,
        },
    }
}

} // verus!
