//! That the keys of what the library shows stand in order.
use crate::json::{
    array_in, bool_in, int_in, keys_in_order, lemma_lookup_index, lookup_index, member, opt_member,
    opt_ordered, ordered, text_in, JsonView,
};
use crate::objects::{answer_json, metadata_in, storage};
use crate::order::lemma_before_transitive;
use crate::share::unified_share;
use crate::tasks::{
    download_of, downloading_entry, downloading_list, file_entry, finished_download,
    finished_entry, finished_files, finished_list, listed_file, or_default, path_below, queue,
    queue_entry, DownloadView, Task,
};
use crate::text::{decimal, text_before};
use crate::upload::{v3_session, v4_session};
use vstd::prelude::*;

verus! {

broadcast use vstd::string::group_string_axioms;

/// The keys of entries of which each stands before the next are in order.
proof fn lemma_each_before_the_next(entries: Seq<(Seq<char>, JsonView)>)
    requires
        forall|i: int|
            0 <= i < entries.len() - 1 ==> text_before(
                (#[trigger] entries[i]).0,
                entries[i + 1].0,
            ),
    ensures
        keys_in_order(entries),
{
    assert forall|i: int, j: int| 0 <= i < j < entries.len() implies text_before(
        (#[trigger] entries[i]).0,
        (#[trigger] entries[j]).0,
    ) by {
        lemma_reaches(entries, i, j);
    }
}

proof fn lemma_reaches(entries: Seq<(Seq<char>, JsonView)>, i: int, j: int)
    requires
        forall|k: int|
            0 <= k < entries.len() - 1 ==> text_before(
                (#[trigger] entries[k]).0,
                entries[k + 1].0,
            ),
        0 <= i < j < entries.len(),
    ensures
        text_before(entries[i].0, entries[j].0),
    decreases j - i,
{
    assert(text_before(entries[j - 1].0, entries[j].0));
    if i < j - 1 {
        lemma_reaches(entries, i, j - 1);
        lemma_before_transitive(entries[i].0, entries[j - 1].0, entries[j].0);
    }
}

/// Two texts that begin alike are in the order of what follows.
proof fn lemma_before_by(a: Seq<char>, b: Seq<char>, k: int)
    requires
        0 <= k <= a.len(),
        k < b.len(),
        forall|i: int| 0 <= i < k ==> a[i] == b[i],
        k == a.len() || a[k] < b[k],
    ensures
        text_before(a, b),
    decreases k,
{
    if k > 0 {
        lemma_before_by(a.drop_first(), b.drop_first(), k - 1);
    }
}

/// Whether a value is made of no others.
spec fn is_plain(value: JsonView) -> bool {
    !(value is Array) && !(value is Object)
}

/// An object is ordered where its keys are in order and each value is plain or ordered.
proof fn lemma_object_is_ordered(entries: Seq<(Seq<char>, JsonView)>)
    requires
        keys_in_order(entries),
        forall|i: int|
            0 <= i < entries.len() ==> is_plain((#[trigger] entries[i]).1) || ordered(entries[i].1),
    ensures
        ordered(JsonView::Object(entries)),
{
    assert forall|i: int| 0 <= i < entries.len() implies ordered((#[trigger] entries[i]).1) by {}
}

/// An array without items is ordered.
proof fn lemma_no_items()
    ensures
        ordered(JsonView::Array(Seq::empty())),
{
}

/// What an ordered array holds is ordered.
proof fn lemma_item_is_ordered(items: Seq<JsonView>, i: int)
    requires
        ordered(JsonView::Array(items)),
        0 <= i < items.len(),
    ensures
        ordered(items[i]),
{
    if let JsonView::Array(all) = JsonView::Array(items) {
        assert(ordered(all[i]));
    }
}

/// What an ordered object holds under a key is ordered.
pub proof fn law_member_of_ordered_is_ordered(value: JsonView, key: Seq<char>)
    requires
        ordered(value),
    ensures
        opt_ordered(member(value, key)),
{
    if let JsonView::Object(entries) = value {
        lemma_lookup_index(entries, key);
        if let Some(i) = lookup_index(entries, key) {
            assert(ordered(entries[i].1));
        }
    }
}

/// The keys in the details of a download under way are in order.
pub proof fn lemma_downloading_info(task: Task)
    ensures
        keys_in_order(downloading_entry(task)->Object_0[2].1->Object_0),
{
    reveal_strlit("completedLength");
    reveal_strlit("downloadSpeed");
    reveal_strlit("errorMessage");
    reveal_strlit("files");
    reveal_strlit("gid");
    reveal_strlit("status");
    reveal_strlit("totalLength");
    lemma_before_by("completedLength"@, "downloadSpeed"@, 0);
    lemma_before_by("downloadSpeed"@, "errorMessage"@, 0);
    lemma_before_by("errorMessage"@, "files"@, 0);
    lemma_before_by("files"@, "gid"@, 0);
    lemma_before_by("gid"@, "status"@, 0);
    lemma_before_by("status"@, "totalLength"@, 0);
    lemma_each_before_the_next(downloading_entry(task)->Object_0[2].1->Object_0);
}

/// The keys of a download under way are in order.
pub proof fn lemma_downloading_keys(task: Task)
    ensures
        keys_in_order(downloading_entry(task)->Object_0),
{
    reveal_strlit("downloaded");
    reveal_strlit("dst");
    reveal_strlit("info");
    reveal_strlit("interval");
    reveal_strlit("name");
    reveal_strlit("node");
    reveal_strlit("speed");
    reveal_strlit("status");
    reveal_strlit("total");
    reveal_strlit("update");
    lemma_before_by("downloaded"@, "dst"@, 1);
    lemma_before_by("dst"@, "info"@, 0);
    lemma_before_by("info"@, "interval"@, 2);
    lemma_before_by("interval"@, "name"@, 0);
    lemma_before_by("name"@, "node"@, 1);
    lemma_before_by("node"@, "speed"@, 0);
    lemma_before_by("speed"@, "status"@, 1);
    lemma_before_by("status"@, "total"@, 0);
    lemma_before_by("total"@, "update"@, 0);
    lemma_each_before_the_next(downloading_entry(task)->Object_0);
}

/// The list of the downloads under way is ordered.
pub proof fn law_downloading_list_is_ordered(tasks: Seq<Task>)
    ensures
        ordered(JsonView::Array(downloading_list(tasks))),
    decreases tasks.len(),
{
    if tasks.len() > 0 {
        law_downloading_list_is_ordered(tasks.drop_last());
        let front = downloading_list(tasks.drop_last());
        assert(ordered(JsonView::Array(front)));
        assert forall|i: int| 0 <= i < front.len() implies ordered(#[trigger] front[i]) by {
            lemma_item_is_ordered(front, i);
        }
        let entry = downloading_entry(tasks.last());
        lemma_downloading_keys(tasks.last());
        lemma_downloading_info(tasks.last());
        lemma_no_items();
        lemma_object_is_ordered(entry->Object_0[2].1->Object_0);
        lemma_object_is_ordered(entry->Object_0);
    }
}

/// The keys of a file of a finished download are in order.
pub proof fn lemma_file_keys(
    index: Seq<char>,
    path: Seq<char>,
    length: i64,
    completed: bool,
    selected: bool,
)
    ensures
        keys_in_order(file_entry(index, path, length, completed, selected)->Object_0),
{
    reveal_strlit("completedLength");
    reveal_strlit("index");
    reveal_strlit("length");
    reveal_strlit("path");
    reveal_strlit("selected");
    reveal_strlit("uris");
    lemma_before_by("completedLength"@, "index"@, 0);
    lemma_before_by("index"@, "length"@, 0);
    lemma_before_by("length"@, "path"@, 0);
    lemma_before_by("path"@, "selected"@, 0);
    lemma_before_by("selected"@, "uris"@, 0);
    lemma_each_before_the_next(file_entry(index, path, length, completed, selected)->Object_0);
}

/// The keys of a finished download are in order.
pub proof fn lemma_finished_keys(task: Task)
    ensures
        keys_in_order(finished_entry(task)->Object_0),
{
    reveal_strlit("create");
    reveal_strlit("dst");
    reveal_strlit("files");
    reveal_strlit("gid");
    reveal_strlit("name");
    reveal_strlit("node");
    reveal_strlit("status");
    reveal_strlit("task_error");
    reveal_strlit("task_status");
    reveal_strlit("total");
    reveal_strlit("update");
    lemma_before_by("create"@, "dst"@, 0);
    lemma_before_by("dst"@, "files"@, 0);
    lemma_before_by("files"@, "gid"@, 0);
    lemma_before_by("gid"@, "name"@, 0);
    lemma_before_by("name"@, "node"@, 1);
    lemma_before_by("node"@, "status"@, 0);
    lemma_before_by("status"@, "task_error"@, 0);
    lemma_before_by("task_error"@, "task_status"@, 5);
    lemma_before_by("task_status"@, "total"@, 1);
    lemma_before_by("total"@, "update"@, 0);
    lemma_each_before_the_next(finished_entry(task)->Object_0);
}

proof fn lemma_finished_files(d: DownloadView, listed: Option<Seq<JsonView>>)
    ensures
        ordered(JsonView::Array(finished_files(d, listed))),
{
    let files = finished_files(d, listed);
    assert forall|i: int| 0 <= i < files.len() implies ordered(#[trigger] files[i]) by {
        lemma_no_items();
        match listed {
            Some(items) => {
                let file = items[i];
                assert(files[i] == listed_file(d, file));
                let name = match text_in(member(file, "name"@)) {
                    Some(s) => s,
                    None => d.name,
                };
                lemma_file_keys(
                    decimal(or_default(int_in(member(file, "index"@)), 0) as int),
                    path_below(d.dst, name),
                    or_default(int_in(member(file, "size"@)), d.total),
                    d.completed,
                    match bool_in(member(file, "selected"@)) {
                        Some(b) => b,
                        None => true,
                    },
                );
            },
            None => {
                lemma_file_keys("0"@, path_below(d.dst, d.name), d.total, d.completed, true);
            },
        }
        lemma_object_is_ordered(files[i]->Object_0);
    }
}

/// The list of the finished downloads is ordered.
pub proof fn law_finished_list_is_ordered(tasks: Seq<Task>)
    ensures
        ordered(JsonView::Array(finished_list(tasks))),
    decreases tasks.len(),
{
    if tasks.len() > 0 {
        law_finished_list_is_ordered(tasks.drop_last());
        let front = finished_list(tasks.drop_last());
        assert(ordered(JsonView::Array(front)));
        assert forall|i: int| 0 <= i < front.len() implies ordered(#[trigger] front[i]) by {
            lemma_item_is_ordered(front, i);
        }
        let entry = finished_entry(tasks.last());
        lemma_finished_keys(tasks.last());
        lemma_finished_files(
            finished_download(tasks.last()),
            array_in(opt_member(download_of(tasks.last()), "files"@)),
        );
        lemma_object_is_ordered(entry->Object_0);
    }
}

/// The keys of a task of the general queue are in order.
pub proof fn lemma_queue_entry_keys(task: Task)
    ensures
        keys_in_order(queue_entry(task)->Object_0),
{
    reveal_strlit("create_date");
    reveal_strlit("error");
    reveal_strlit("id");
    reveal_strlit("name");
    reveal_strlit("progress");
    reveal_strlit("status");
    reveal_strlit("type");
    lemma_before_by("create_date"@, "error"@, 0);
    lemma_before_by("error"@, "id"@, 0);
    lemma_before_by("id"@, "name"@, 0);
    lemma_before_by("name"@, "progress"@, 0);
    lemma_before_by("progress"@, "status"@, 0);
    lemma_before_by("status"@, "type"@, 0);
    lemma_each_before_the_next(queue_entry(task)->Object_0);
}

/// The keys of the general queue are in order.
pub proof fn lemma_queue_keys(tasks: Seq<Task>)
    ensures
        keys_in_order(queue(tasks)->Object_0),
{
    reveal_strlit("tasks");
    reveal_strlit("total");
    lemma_before_by("tasks"@, "total"@, 1);
    lemma_each_before_the_next(queue(tasks)->Object_0);
}

/// The general queue is ordered.
pub proof fn law_queue_is_ordered(tasks: Seq<Task>)
    ensures
        ordered(queue(tasks)),
{
    lemma_queue_keys(tasks);
    let shown = tasks.map_values(|t: Task| queue_entry(t));
    assert forall|i: int| 0 <= i < shown.len() implies ordered(#[trigger] shown[i]) by {
        lemma_queue_entry_keys(tasks[i]);
        assert(shown[i] == queue_entry(tasks[i]));
        lemma_object_is_ordered(shown[i]->Object_0);
    }
    assert(ordered(JsonView::Array(shown)));
    assert(queue(tasks)->Object_0[0].1 == JsonView::Array(shown));
    lemma_object_is_ordered(queue(tasks)->Object_0);
}

/// The keys of an upload session of version 3, as it is shown, are in order.
pub proof fn lemma_v3_session_keys(id: Seq<char>, chunk_size: i64, expires: i64)
    ensures
        keys_in_order(v3_session(id, chunk_size, expires)->Object_0),
{
    reveal_strlit("chunkSize");
    reveal_strlit("expires");
    reveal_strlit("sessionId");
    lemma_before_by("chunkSize"@, "expires"@, 0);
    lemma_before_by("expires"@, "sessionId"@, 0);
    lemma_each_before_the_next(v3_session(id, chunk_size, expires)->Object_0);
}

/// The keys of an upload session of version 4, as it is shown, are in order.
pub proof fn lemma_v4_session_keys(session: JsonView)
    ensures
        keys_in_order(v4_session(session)->Object_0),
{
    reveal_strlit("chunkSize");
    reveal_strlit("completeUrl");
    reveal_strlit("credential");
    reveal_strlit("expires");
    reveal_strlit("sessionId");
    reveal_strlit("storagePolicyRelay");
    reveal_strlit("storagePolicyType");
    reveal_strlit("uploadUrls");
    lemma_before_by("chunkSize"@, "completeUrl"@, 1);
    lemma_before_by("completeUrl"@, "credential"@, 1);
    lemma_before_by("credential"@, "expires"@, 0);
    lemma_before_by("expires"@, "sessionId"@, 0);
    lemma_before_by("sessionId"@, "storagePolicyRelay"@, 1);
    lemma_before_by("storagePolicyRelay"@, "storagePolicyType"@, 13);
    lemma_before_by("storagePolicyType"@, "uploadUrls"@, 0);
    lemma_each_before_the_next(v4_session(session)->Object_0);
}

/// An upload session is ordered: one of version 3 always, one of version 4 where the answer of the
/// server is.
pub proof fn law_upload_session_is_ordered(
    id: Seq<char>,
    chunk_size: i64,
    expires: i64,
    session: JsonView,
)
    requires
        ordered(session),
    ensures
        ordered(v3_session(id, chunk_size, expires)),
        ordered(v4_session(session)),
{
    lemma_v3_session_keys(id, chunk_size, expires);
    lemma_v4_session_keys(session);
    law_member_of_ordered_is_ordered(session, "completeURL"@);
    law_member_of_ordered_is_ordered(session, "complete_url"@);
    law_member_of_ordered_is_ordered(session, "credential"@);
    law_member_of_ordered_is_ordered(session, "upload_urls"@);
    lemma_object_is_ordered(v3_session(id, chunk_size, expires)->Object_0);
    lemma_object_is_ordered(v4_session(session)->Object_0);
}

/// The keys of a share of version 3 in the form of version 4 are in order.
pub proof fn lemma_share_keys(item: JsonView, base_url: Seq<char>)
    ensures
        keys_in_order(unified_share(item, base_url)->Object_0),
{
    reveal_strlit("created_at");
    reveal_strlit("downloaded");
    reveal_strlit("expired");
    reveal_strlit("expires");
    reveal_strlit("id");
    reveal_strlit("name");
    reveal_strlit("password");
    reveal_strlit("password_protected");
    reveal_strlit("source");
    reveal_strlit("source_type");
    reveal_strlit("source_uri");
    reveal_strlit("url");
    reveal_strlit("visited");
    lemma_before_by("created_at"@, "downloaded"@, 0);
    lemma_before_by("downloaded"@, "expired"@, 0);
    lemma_before_by("expired"@, "expires"@, 6);
    lemma_before_by("expires"@, "id"@, 0);
    lemma_before_by("id"@, "name"@, 0);
    lemma_before_by("name"@, "password"@, 0);
    lemma_before_by("password"@, "password_protected"@, 8);
    lemma_before_by("password_protected"@, "source"@, 0);
    lemma_before_by("source"@, "source_type"@, 6);
    lemma_before_by("source_type"@, "source_uri"@, 7);
    lemma_before_by("source_uri"@, "url"@, 0);
    lemma_before_by("url"@, "visited"@, 0);
    lemma_each_before_the_next(unified_share(item, base_url)->Object_0);
}

/// A share of version 3 in the form of version 4 is ordered.
pub proof fn law_unified_share_is_ordered(item: JsonView, base_url: Seq<char>)
    ensures
        ordered(unified_share(item, base_url)),
{
    lemma_share_keys(item, base_url);
    let entries = unified_share(item, base_url)->Object_0;
    lemma_object_is_ordered(entries[8].1->Object_0);
    lemma_object_is_ordered(entries);
}

/// The keys of an answer that is handed on are in order.
pub proof fn lemma_answer_keys(code: i32, msg: Seq<char>, data: JsonView)
    ensures
        keys_in_order(answer_json(code, msg, data)->Object_0),
{
    reveal_strlit("code");
    reveal_strlit("data");
    reveal_strlit("msg");
    lemma_before_by("code"@, "data"@, 0);
    lemma_before_by("data"@, "msg"@, 0);
    lemma_each_before_the_next(answer_json(code, msg, data)->Object_0);
}

/// The keys of the room of a user are in order.
pub proof fn lemma_storage_keys(used: u64, total: u64, free: u64)
    ensures
        keys_in_order(storage(used, total, free)->Object_0),
{
    reveal_strlit("free");
    reveal_strlit("total");
    reveal_strlit("used");
    lemma_before_by("free"@, "total"@, 0);
    lemma_before_by("total"@, "used"@, 0);
    lemma_each_before_the_next(storage(used, total, free)->Object_0);
}

/// An answer that is handed on, the metadata of a file and the room of a user are ordered, where
/// the data of the server is.
pub proof fn law_answers_are_ordered(
    code: i32,
    msg: Seq<char>,
    data: JsonView,
    used: u64,
    total: u64,
    free: u64,
)
    requires
        ordered(data),
    ensures
        ordered(answer_json(code, msg, data)),
        ordered(metadata_in(Some(data))),
        ordered(storage(used, total, free)),
{
    lemma_answer_keys(code, msg, data);
    lemma_storage_keys(used, total, free);
    law_member_of_ordered_is_ordered(data, "metadata"@);
    lemma_object_is_ordered(answer_json(code, msg, data)->Object_0);
    lemma_object_is_ordered(storage(used, total, free)->Object_0);
    lemma_object_is_ordered(Seq::empty());
}

} // verus!
