//! What holds of listings, searches and what is asked of objects as a whole.
use crate::json::{int_in, member, text_in, uint_in, JsonView};
use crate::key_order::{lemma_answer_keys, lemma_storage_keys};
use crate::listing::{
    detail_address, object_of, object_views, policy_id_of, shows_policy, ApiObjectInfo, ApiPolicy,
    RemoteFile, StoragePolicy,
};
use crate::names::has_thumbnail;
use crate::objects::{answer_json, metadata_in, storage, uris_of};
use crate::order::{is_order, law_latest_stand_first};
use crate::path::{parent_of, unix_path, uri_of_path};
use crate::query::query_component;
use crate::search::{
    after_page, dates_of, goes_on, has_result, is_newest_first, picked, result_of, result_views,
    with_files, ApiSearchObjectInfo, SearchPage, SearchState, SearchView,
};
use crate::share::lemma_member_by_position;
use vstd::prelude::*;

verus! {

broadcast use vstd::string::group_string_axioms;

/// An object of a listing has the size, the name and the dates that the server reports for the
/// file, and the path that the server's URI stands for.
pub proof fn law_listing_shows_the_file(file: RemoteFile)
    ensures
        object_of(file).size == file.size,
        object_of(file).name == file.name@,
        object_of(file).date == file.updated_at@,
        object_of(file).create_date == file.created_at@,
        object_of(file).id == unix_path(file.path@),
        object_of(file).path == parent_of(object_of(file).id),
        !object_of(file).source_enabled,
{
}

/// A folder is shown as a directory and never with a thumbnail; a file is shown as a file, and with
/// a thumbnail exactly where its name is that of an image or a video.
pub proof fn law_listing_tells_folders_from_files(file: RemoteFile)
    ensures
        file.is_folder ==> object_of(file).object_type == "dir"@ && !object_of(file).thumb,
        !file.is_folder ==> object_of(file).object_type == "file"@ && (object_of(file).thumb
            <==> has_thumbnail(file.name@)),
{
}

/// A listing has one object for each file that the server reports, in the server's order, each
/// with the size and the name of the file at its place.
pub proof fn law_listing_keeps_the_order_of_the_server(
    files: Seq<RemoteFile>,
    objects: Seq<ApiObjectInfo>,
)
    requires
        object_views(objects) == files.map_values(|f: RemoteFile| object_of(f)),
    ensures
        objects.len() == files.len(),
        forall|i: int|
            0 <= i < files.len() ==> (#[trigger] objects[i]).size == files[i].size
                && objects[i].name@ == files[i].name@ && objects[i].date@ == files[i].updated_at@
                && objects[i].create_date@ == files[i].created_at@ && objects[i].id@ == unix_path(
                files[i].path@,
            ),
{
    let views = object_views(objects);
    assert(views.len() == objects.len());
    assert forall|i: int| 0 <= i < files.len() implies (#[trigger] objects[i]).size == files[i].size
        && objects[i].name@ == files[i].name@ && objects[i].date@ == files[i].updated_at@
        && objects[i].create_date@ == files[i].created_at@ && objects[i].id@ == unix_path(
        files[i].path@,
    ) by {
        assert(views[i] == objects[i]@);
        assert(views[i] == object_of(files[i]));
    }
}

/// The storage policy of a directory is shown as the server reports it, and empty where it reports
/// none; its id is what is kept.
pub proof fn law_policy_is_shown(policy: StoragePolicy, shown: ApiPolicy)
    ensures
        shows_policy(Some(policy), shown) ==> shown.id@ == policy.id@ && shown.name@
            == policy.name@ && shown.policy_type@ == policy.policy_type@ && (
        policy.max_size <= i64::MAX ==> shown.max_size == policy.max_size) && (policy.max_size
            > i64::MAX ==> shown.max_size + 0x1_0000_0000_0000_0000 == policy.max_size)
            && shown.file_type is None,
        shows_policy(None, shown) ==> shown.id@.len() == 0 && shown.name@.len() == 0
            && shown.policy_type@.len() == 0 && shown.max_size == 0,
        policy_id_of(Some(policy)) == Some(policy.id@),
        policy_id_of(None) is None,
{
}

/// The details of an object are asked for by its URI; those of a folder with a summary besides.
pub proof fn law_details_are_asked_for_by_uri(path: Seq<char>)
    ensures
        detail_address(path, false) == "/file/info?uri="@ + query_component(uri_of_path(path))
            + "&extended=true"@,
        detail_address(path, true) == detail_address(path, false) + "&folder_summary=true"@,
{
    reveal_strlit("&extended=true");
    reveal_strlit("&folder_summary=true");
    reveal_strlit("&extended=true&folder_summary=true");
    assert("&extended=true&folder_summary=true"@ =~= "&extended=true"@ + "&folder_summary=true"@);
    assert(detail_address(path, true) =~= detail_address(path, false) + "&folder_summary=true"@);
}

/// A result of a search has the size, the name and the path that the server reports for the file,
/// the same as in the listing of its directory; its date is when the file was changed last, or
/// where that is not known when it was made.
pub proof fn law_result_shows_the_file(file: RemoteFile)
    ensures
        result_of(file).size == file.size,
        result_of(file).size == object_of(file).size,
        result_of(file).name == file.name@,
        result_of(file).id == unix_path(file.path@),
        result_of(file).path == parent_of(result_of(file).id),
        result_of(file).create_date == file.created_at@,
        file.updated_at@.len() > 0 ==> result_of(file).date == file.updated_at@,
        file.updated_at@.len() == 0 ==> result_of(file).date == file.created_at@,
        result_of(file).source_enabled,
{
}

/// A result of a search is a directory or a file as the server says; it has the metadata that the
/// server gives unless that is null, and a thumbnail where its name allows one and the metadata
/// does not forbid it.
pub proof fn law_result_tells_folders_from_files(file: RemoteFile)
    ensures
        file.is_folder ==> result_of(file).object_type == "dir"@ && !result_of(file).thumb,
        !file.is_folder ==> result_of(file).object_type == "file"@,
        file.metadata is None ==> result_of(file).metadata is None,
        file.metadata matches Some(m) ==> result_of(file).metadata == if m@ is Null {
            None
        } else {
            Some(m@)
        },
        !file.is_folder ==> (result_of(file).thumb <==> has_thumbnail(file.name@) && !(
        result_of(file).metadata matches Some(m) && member(m, "thumb:disabled"@) is Some)),
{
}

/// The mathematical form of a list of results or objects has each of them in its place, with all
/// that it shows.
pub proof fn law_results_are_viewed_one_by_one(
    results: Seq<ApiSearchObjectInfo>,
    objects: Seq<ApiObjectInfo>,
    i: int,
)
    ensures
        result_views(results).len() == results.len(),
        0 <= i < results.len() ==> {
            let view = result_views(results)[i];
            let result = results[i];
            &&& view.id == result.id@
            &&& view.name == result.name@
            &&& view.path == result.path@
            &&& view.thumb == result.thumb
            &&& view.size == result.size
            &&& view.object_type == result.object_type@
            &&& view.date == result.date@
            &&& view.create_date == result.create_date@
            &&& view.source_enabled == result.source_enabled
            &&& view.metadata is Some <==> result.metadata is Some
            &&& result.metadata matches Some(m) ==> view.metadata == Some(m@)
        },
        object_views(objects).len() == objects.len(),
        0 <= i < objects.len() ==> {
            let view = object_views(objects)[i];
            let object = objects[i];
            &&& view.id == object.id@
            &&& view.name == object.name@
            &&& view.path == object.path@
            &&& view.thumb == object.thumb
            &&& view.size == object.size
            &&& view.object_type == object.object_type@
            &&& view.date == object.date@
            &&& view.create_date == object.create_date@
            &&& view.source_enabled == object.source_enabled
        },
{
}

proof fn lemma_nothing_new(found: Seq<SearchView>, files: Seq<RemoteFile>)
    ensures
        with_files(found, files).len() >= found.len(),
        with_files(found, files).len() == found.len() ==> with_files(found, files) == found
            && forall|i: int|
            0 <= i < files.len() ==> has_result(found, result_of(#[trigger] files[i]).id),
    decreases files.len(),
{
    if files.len() > 0 {
        let earlier = files.drop_last();
        lemma_nothing_new(found, earlier);
        if with_files(found, files).len() == found.len() {
            assert forall|i: int| 0 <= i < files.len() implies has_result(
                found,
                result_of(#[trigger] files[i]).id,
            ) by {
                if i < earlier.len() {
                    assert(files[i] == earlier[i]);
                }
            }
        }
    }
}

/// A search goes on for up to 100 pages, and ends before only where a page has fewer than 2000
/// files, names no next page, or holds nothing but files that were found before.
pub proof fn law_search_ends_only_for_a_reason(state: SearchState, page: SearchPage)
    requires
        page.files.len() <= u32::MAX,
    ensures
        goes_on(state, page) ==> state.page < 99 && page.files.len() >= 2000
            && page.next_token is Some && exists|i: int|
            0 <= i < page.files.len() && !has_result(
                state.found,
                result_of(#[trigger] page.files[i]).id,
            ),
        !goes_on(state, page) && state.page < 99 && page.files.len() >= 2000
            && page.next_token is Some ==> forall|i: int|
            0 <= i < page.files.len() ==> has_result(
                state.found,
                result_of(#[trigger] page.files[i]).id,
            ),
{
    lemma_nothing_new(state.found, page.files);
    if goes_on(state, page) {
        if forall|i: int|
            0 <= i < page.files.len() ==> has_result(
                state.found,
                result_of(#[trigger] page.files[i]).id,
            ) {
            lemma_all_known(state.found, page.files);
        }
    }
}

proof fn lemma_all_known(found: Seq<SearchView>, files: Seq<RemoteFile>)
    requires
        forall|i: int|
            0 <= i < files.len() ==> has_result(found, result_of(#[trigger] files[i]).id),
    ensures
        with_files(found, files) == found,
    decreases files.len(),
{
    if files.len() > 0 {
        let earlier = files.drop_last();
        assert forall|i: int| 0 <= i < earlier.len() implies has_result(
            found,
            result_of(#[trigger] earlier[i]).id,
        ) by {
            assert(earlier[i] == files[i]);
        }
        lemma_all_known(found, earlier);
        assert(files[files.len() - 1] == files.last());
    }
}

/// The page that a search asks for next is the following one, with the token that the page named.
pub proof fn law_search_asks_for_the_following_page(state: SearchState, page: SearchPage)
    ensures
        goes_on(state, page) ==> after_page(state, page).page == state.page + 1,
        after_page(state, page).token == page.next_token,
        after_page(state, page).address == state.address,
{
}

/// A file whose path was not found before becomes the last result, and one whose path was found
/// changes nothing.
pub proof fn law_file_is_found_once(
    found: Seq<SearchView>,
    files: Seq<RemoteFile>,
    file: RemoteFile,
)
    ensures
        has_result(with_files(found, files), unix_path(file.path@)) ==> with_files(
            found,
            files.push(file),
        ) == with_files(found, files),
        !has_result(with_files(found, files), unix_path(file.path@)) ==> with_files(
            found,
            files.push(file),
        ) == with_files(found, files).push(result_of(file)),
        with_files(found, Seq::empty()) == found,
{
    assert(files.push(file).drop_last() =~= files);
}

/// Of two results of one date the one that was found first stands first.
pub proof fn law_results_of_one_date_stand_as_found(
    found: Seq<SearchView>,
    sorted: Seq<SearchView>,
    a: int,
    b: int,
)
    requires
        is_newest_first(found, sorted),
        0 <= a < b < sorted.len(),
        sorted[a].date == sorted[b].date,
    ensures
        exists|p: int, q: int|
            0 <= p < q < found.len() && #[trigger] found[p] == sorted[a] && #[trigger] found[q]
                == sorted[b],
{
    let order = choose|order: Seq<usize>|
        #[trigger] is_order(dates_of(found), order, 0, found.len() as int) && sorted == picked(
            found,
            order,
        );
    law_latest_stand_first(dates_of(found), order, a, b);
    let p = order[a] as int;
    let q = order[b] as int;
    assert(found[p] == sorted[a] && found[q] == sorted[b]);
}

/// The URIs of some paths are those of the paths, in the same order.
pub proof fn law_every_path_has_its_uri(paths: Seq<Seq<char>>)
    ensures
        uris_of(paths).len() == paths.len(),
        forall|i: int| 0 <= i < paths.len()
            ==> #[trigger] uris_of(paths)[i] == uri_of_path(paths[i]),
{
}

/// The metadata of a file is what the answer has under `metadata`, and an empty object where there
/// is nothing or null.
pub proof fn law_metadata_is_handed_on(data: JsonView)
    ensures
        member(data, "metadata"@) matches Some(m) ==> (!(m is Null) ==> metadata_in(Some(data))
            == m),
        member(data, "metadata"@) is None || member(data, "metadata"@) == Some(JsonView::Null)
            ==> metadata_in(Some(data)) is Object && metadata_in(Some(data))->Object_0.len() == 0,
        metadata_in(None) is Object && metadata_in(None)->Object_0.len() == 0,
{
}

/// An answer of the server that is handed on has its code, its message and its data.
pub proof fn law_answer_is_handed_on(code: i32, msg: Seq<char>, data: JsonView)
    ensures
        int_in(member(answer_json(code, msg, data), "code"@)) == Some(code as i64),
        text_in(member(answer_json(code, msg, data), "msg"@)) == Some(msg),
        member(answer_json(code, msg, data), "data"@) == Some(data),
{
    lemma_answer_keys(code, msg, data);
    let entries = answer_json(code, msg, data)->Object_0;
    lemma_member_by_position(entries, 0);
    lemma_member_by_position(entries, 1);
    lemma_member_by_position(entries, 2);
}

/// The room of a user is shown as what is used, what there is in all, and what is free.
pub proof fn law_room_is_shown(used: u64, total: u64, free: u64)
    ensures
        uint_in(member(storage(used, total, free), "used"@)) == Some(used),
        uint_in(member(storage(used, total, free), "total"@)) == Some(total),
        uint_in(member(storage(used, total, free), "free"@)) == Some(free),
{
    lemma_storage_keys(used, total, free);
    let entries = storage(used, total, free)->Object_0;
    lemma_member_by_position(entries, 0);
    lemma_member_by_position(entries, 1);
    lemma_member_by_position(entries, 2);
}

} // verus!
