//! The tasks of the server: downloads under way, finished downloads, and the general queue.
use crate::json::{
    array_in, bool_in, int_in, items_view, json_number_for_keys, key_views, member,
    number_for_keys, opt_json, opt_member, text_in, Json, JsonView,
};
use crate::lookup::{
    extract_size, first_keyed_string, first_string_keyed, int_under, json_value_string_for_keys,
    member_of, size_in, string_for_keys, text_or_empty, text_under,
};
use crate::names::{file_name, filename_from_url_or_str};
use crate::output::{
    array_value, int_json, int_value, nat_json, nat_value, text_json, text_value, Entries,
};
use crate::path::{decode_v4_prop_path, property_path, uri_of_path};
use crate::text::{
    begins_with, decimal, decimal_text, has_prefix, is_empty_text, joined, joined3, opt_view,
    same_text, trim_end, trimmed_end_text, CharClass,
};
use vstd::prelude::*;

verus! {

broadcast use vstd::string::group_string_axioms;

/// The state of a task.
#[derive(Clone, Copy, PartialEq, Eq, Structural, Debug)]
pub enum TaskStatus {
    Queued,
    Processing,
    Suspending,
    Error,
    Canceled,
    Completed,
}

/// What a task does.
#[derive(Clone, Copy, PartialEq, Eq, Structural, Debug)]
pub enum TaskType {
    MediaMeta,
    EntityRecycleRoutine,
    ExplicitEntityRecycle,
    UploadSentinelCheck,
    CreateArchive,
    ExtractArchive,
    Relocate,
    RemoteDownload,
    Import,
}

/// A task as the server reports it.
pub struct Task {
    pub id: String,
    pub created_at: String,
    pub updated_at: String,
    pub status: TaskStatus,
    pub task_type: TaskType,
    /// The properties in the summary.
    pub props: Option<Json>,
    pub error: Option<String>,
    /// The name of the node that the task runs on.
    pub node: Option<String>,
}

/// The number that stands for a state.
pub open spec fn status_number(status: TaskStatus) -> i32 {
    match status {
        TaskStatus::Queued => 0i32,
        TaskStatus::Processing => 1i32,
        TaskStatus::Suspending => 1i32,
        TaskStatus::Error => -1i32,
        TaskStatus::Canceled => 2i32,
        TaskStatus::Completed => 4i32,
    }
}

/// The number that stands for a state.
pub fn v4_task_status_to_i32(status: &TaskStatus) -> (r: i32)
    ensures
        r == status_number(*status),
{
    match status {
        TaskStatus::Queued => 0,
        TaskStatus::Processing | TaskStatus::Suspending => 1,
        TaskStatus::Error => -1,
        TaskStatus::Canceled => 2,
        TaskStatus::Completed => 4,
    }
}

/// The number that stands for what a task does.
pub open spec fn type_number(task_type: TaskType) -> i32 {
    match task_type {
        TaskType::RemoteDownload => 2i32,
        TaskType::Relocate => 4i32,
        _ => 3i32,
    }
}

/// The number that stands for what a task does.
pub fn v4_task_type_to_i32(task_type: &TaskType) -> (r: i32)
    ensures
        r == type_number(*task_type),
{
    match task_type {
        TaskType::RemoteDownload => 2,
        TaskType::Relocate => 4,
        _ => 3,
    }
}

/// The keys under which the name of a task is looked for.
pub open spec fn name_keys() -> Seq<Seq<char>> {
    seq![
        "name"@,
        "file_name"@,
        "filename"@,
        "src"@,
        "src_str"@,
        "url"@,
        "url_str"@,
        "urls"@,
        "source"@,
        "source_url"@,
        "uri"@,
    ]
}

/// What names a task: a text from the download, else from the properties, else its id.
pub open spec fn raw_task_name(
    props: Option<JsonView>,
    dl: Option<JsonView>,
    task_id: Seq<char>,
) -> Seq<char> {
    let in_download = match dl {
        Some(d) => string_for_keys(d, name_keys()),
        None => None,
    };
    let in_props = match props {
        Some(p) => string_for_keys(p, name_keys()),
        None => None,
    };
    match (in_download, in_props) {
        (Some(s), _) => s,
        (None, Some(s)) => s,
        (None, None) => task_id,
    }
}

/// The name of a task: the file name in what names it, or its id where that is empty or a dot.
pub open spec fn task_name(
    props: Option<JsonView>,
    dl: Option<JsonView>,
    task_id: Seq<char>,
) -> Seq<char> {
    let name = file_name(raw_task_name(props, dl, task_id));
    if name.len() == 0 || name == "."@ {
        task_id
    } else {
        name
    }
}

/// The name of a task.
pub fn task_name_from_props(props: Option<&Json>, dl: Option<&Json>, task_id: &str) -> (r: String)
    ensures
        r@ == task_name(opt_json(props), opt_json(dl), task_id@),
{
    let keys: [&str; 11] = [
        "name",
        "file_name",
        "filename",
        "src",
        "src_str",
        "url",
        "url_str",
        "urls",
        "source",
        "source_url",
        "uri",
    ];
    assert(key_views(keys@) =~= name_keys());
    let mut raw: Option<String> = match dl {
        Some(d) => json_value_string_for_keys(d, &keys),
        None => None,
    };
    if raw.is_none() {
        raw = match props {
            Some(p) => json_value_string_for_keys(p, &keys),
            None => None,
        };
    }
    let raw_name = match raw {
        Some(s) => s,
        None => task_id.to_string(),
    };
    let name = filename_from_url_or_str(raw_name.as_str());
    if is_empty_text(name.as_str()) || same_text(name.as_str(), ".") {
        task_id.to_string()
    } else {
        name
    }
}

/// The keys under which the error of a task is looked for.
pub open spec fn error_keys() -> Seq<Seq<char>> {
    seq!["error"@, "error_message"@, "message"@, "msg"@, "task_error"@]
}

/// The error of a task: the first text under one of the keys, else the fallback, else nothing.
pub open spec fn task_error(props: Option<JsonView>, fallback: Option<Seq<char>>) -> Seq<char> {
    let found = match props {
        Some(JsonView::Object(entries)) => first_string_keyed(entries, error_keys()),
        _ => None,
    };
    match found {
        Some(s) => s,
        None => text_or_empty(fallback),
    }
}

/// The error of a task.
pub fn task_error_from_props(props: Option<&Json>, fallback: Option<&String>) -> (r: String)
    ensures
        r@ == task_error(
            opt_json(props),
            match fallback {
                Some(s) => Some(s@),
                None => None,
            },
        ),
{
    let keys: [&str; 5] = ["error", "error_message", "message", "msg", "task_error"];
    assert(key_views(keys@) =~= error_keys());
    let found = match props {
        Some(p) => first_keyed_string(p, &keys),
        None => None,
    };
    match found {
        Some(s) => s,
        None => match fallback {
            Some(s) => s.clone(),
            None => {
                let r = String::new();
                assert(r@ =~= Seq::empty());
                r
            },
        },
    }
}

/// The number under one of the keys in the download, else in the properties.
pub open spec fn number_in(
    dl: Option<JsonView>,
    props: Option<JsonView>,
    keys: Seq<Seq<char>>,
) -> Option<i64> {
    let in_download = match dl {
        Some(d) => number_for_keys(d, keys),
        None => None,
    };
    match in_download {
        Some(n) => Some(n),
        None => match props {
            Some(p) => number_for_keys(p, keys),
            None => None,
        },
    }
}

fn find_number(dl: Option<&Json>, props: Option<&Json>, keys: &[&str]) -> (r: Option<i64>)
    ensures
        r == number_in(opt_json(dl), opt_json(props), key_views(keys@)),
{
    if let Some(d) = dl {
        if let Some(n) = json_number_for_keys(d, keys) {
            return Some(n);
        }
    }
    match props {
        Some(p) => json_number_for_keys(p, keys),
        None => None,
    }
}

/// The keys under which the percentage of a download is looked for.
pub open spec fn progress_keys() -> Seq<Seq<char>> {
    seq!["progress"@, "percent"@, "percentage"@]
}

/// The keys under which the size of a download is looked for.
pub open spec fn total_keys() -> Seq<Seq<char>> {
    seq!["total"@, "total_length"@, "totalLength"@, "length"@, "size"@]
}

/// The keys under which it is looked for how much of a download has come.
pub open spec fn downloaded_keys() -> Seq<Seq<char>> {
    seq!["downloaded"@, "completed"@, "completed_length"@, "completedLength"@, "current"@]
}

/// The keys under which the speed of a download is looked for.
pub open spec fn speed_keys() -> Seq<Seq<char>> {
    seq!["download_speed"@, "downloadSpeed"@, "speed"@]
}

/// The number that is there, or the default.
pub open spec fn or_default(n: Option<i64>, default: i64) -> i64 {
    match n {
        Some(v) => v,
        None => default,
    }
}

/// How far a download has come, in the unit of `total`.
pub struct Progress {
    pub total: i64,
    pub downloaded: i64,
}

/// How far a download has come. Where only a percentage is known, what is downloaded is that part
/// of the total, and the total is a hundred where it is not known either.
pub open spec fn progress_from(total: i64, downloaded: i64, percent: i64) -> Progress {
    if downloaded <= 0 && percent > 0 {
        let capped = if percent < 100 {
            percent
        } else {
            100i64
        };
        if total > 0 {
            Progress { total, downloaded: (total * capped / 100) as i64 }
        } else {
            Progress { total: 100i64, downloaded: capped }
        }
    } else {
        Progress { total, downloaded }
    }
}

/// How far a download has come.
pub fn settle_progress(total: i64, downloaded: i64, percent: i64) -> (r: Progress)
    ensures
        r == progress_from(total, downloaded, percent),
{
    if downloaded <= 0 && percent > 0 {
        let capped: i64 = if percent < 100 {
            percent
        } else {
            100
        };
        if total > 0 {
            assert(0 <= total * capped <= total * 100) by (nonlinear_arith)
                requires
                    total > 0,
                    0 < capped <= 100,
            ;
            let part: i128 = (total as i128) * (capped as i128) / 100;
            Progress { total, downloaded: part as i64 }
        } else {
            Progress { total: 100, downloaded: capped }
        }
    } else {
        Progress { total, downloaded }
    }
}

/// The properties of a task.
pub open spec fn props_of(task: Task) -> Option<JsonView> {
    match task.props {
        Some(p) => Some(p@),
        None => None,
    }
}

/// The download of a task.
pub open spec fn download_of(task: Task) -> Option<JsonView> {
    opt_member(props_of(task), "download"@)
}

/// Where a task puts its files: a path or a URI under one of three keys, else nothing.
pub open spec fn destination(props: Option<JsonView>) -> Seq<char> {
    let found = match (
        text_in(opt_member(props, "dst"@)),
        text_in(opt_member(props, "dst_str"@)),
        text_in(opt_member(props, "path"@)),
    ) {
        (Some(s), _, _) => Some(s),
        (None, Some(s), _) => Some(s),
        (None, None, s) => s,
    };
    match found {
        Some(s) => property_path(s),
        None => Seq::empty(),
    }
}

/// Where a task puts its files.
pub fn task_destination(props: Option<&Json>) -> (r: String)
    ensures
        r@ == destination(opt_json(props)),
{
    if let Some(p) = props {
        if let Some(s) = text_under(p, "dst") {
            return decode_v4_prop_path(s.as_str());
        }
        if let Some(s) = text_under(p, "dst_str") {
            return decode_v4_prop_path(s.as_str());
        }
        if let Some(s) = text_under(p, "path") {
            return decode_v4_prop_path(s.as_str());
        }
    }
    let r = String::new();
    assert(r@ =~= Seq::empty());
    r
}

/// A copy of the text that is there, or an empty one.
fn copy_or_empty(text: &Option<String>) -> (r: String)
    ensures
        r@ == text_or_empty(opt_view(*text)),
{
    match text {
        Some(s) => s.clone(),
        None => {
            let r = String::new();
            assert(r@ =~= Seq::empty());
            r
        },
    }
}

/// How far the download of a task has come.
pub open spec fn task_progress(task: Task) -> Progress {
    let props = props_of(task);
    let dl = download_of(task);
    progress_from(
        or_default(number_in(dl, props, total_keys()), size_in(props)),
        or_default(number_in(dl, props, downloaded_keys()), 0),
        or_default(number_in(dl, props, progress_keys()), 0),
    )
}

/// A task as it is shown in the list of downloads under way.
pub open spec fn downloading_entry(task: Task) -> JsonView {
    let props = props_of(task);
    let dl = download_of(task);
    let progress = task_progress(task);
    let speed = or_default(number_in(dl, props, speed_keys()), 0);
    JsonView::Object(
        seq![
            ("downloaded"@, int_json(progress.downloaded)),
            ("dst"@, text_json(destination(props))),
            (
                "info"@,
                JsonView::Object(
                    seq![
                        ("completedLength"@, text_json(decimal(progress.downloaded as int))),
                        ("downloadSpeed"@, text_json(decimal(speed as int))),
                        ("errorMessage"@, text_json(task_error(props, opt_view(task.error)))),
                        ("files"@, JsonView::Array(Seq::empty())),
                        ("gid"@, text_json(task.id@)),
                        ("status"@, text_json("active"@)),
                        ("totalLength"@, text_json(decimal(progress.total as int))),
                    ],
                ),
            ),
            ("interval"@, int_json(5)),
            ("name"@, text_json(task_name(props, dl, task.id@))),
            ("node"@, text_json(text_or_empty(opt_view(task.node)))),
            ("speed"@, int_json(speed)),
            ("status"@, int_json(status_number(task.status) as i64)),
            ("total"@, int_json(progress.total)),
            ("update"@, text_json(task.updated_at@)),
        ],
    )
}

/// A task as it is shown in the list of downloads under way.
pub fn downloading_task(task: &Task) -> (r: Json)
    ensures
        r@ == downloading_entry(*task),
{
    let props = task.props.as_ref();
    let dl = member_of(props, "download");
    let name = task_name_from_props(props, dl, task.id.as_str());
    let error = task_error_from_props(props, task.error.as_ref());
    let keys: [&str; 3] = ["progress", "percent", "percentage"];
    assert(key_views(keys@) =~= progress_keys());
    let percent: i64 = match find_number(dl, props, &keys) {
        Some(n) => n,
        None => 0,
    };
    let keys: [&str; 5] = ["total", "total_length", "totalLength", "length", "size"];
    assert(key_views(keys@) =~= total_keys());
    let total: i64 = match find_number(dl, props, &keys) {
        Some(n) => n,
        None => extract_size(props),
    };
    let keys: [&str; 5] = [
        "downloaded",
        "completed",
        "completed_length",
        "completedLength",
        "current",
    ];
    assert(key_views(keys@) =~= downloaded_keys());
    let downloaded: i64 = match find_number(dl, props, &keys) {
        Some(n) => n,
        None => 0,
    };
    let progress = settle_progress(total, downloaded, percent);
    let keys: [&str; 3] = ["download_speed", "downloadSpeed", "speed"];
    assert(key_views(keys@) =~= speed_keys());
    let speed: i64 = match find_number(dl, props, &keys) {
        Some(n) => n,
        None => 0,
    };
    let none: Vec<Json> = Vec::new();
    assert(items_view(none@) =~= Seq::empty());
    let info = Entries::new().with(
        "completedLength",
        text_value(decimal_text(progress.downloaded)),
    ).with("downloadSpeed", text_value(decimal_text(speed))).with(
        "errorMessage",
        text_value(error),
    ).with("files", array_value(none)).with("gid", text_value(task.id.clone())).with(
        "status",
        text_value("active".to_string()),
    ).with("totalLength", text_value(decimal_text(progress.total)));
    assert(JsonView::Object(info@) =~= downloading_entry(*task)->Object_0[2].1) by {
        assert(info@ =~= downloading_entry(*task)->Object_0[2].1->Object_0);
    }
    let entries = Entries::new().with("downloaded", int_value(progress.downloaded)).with(
        "dst",
        text_value(task_destination(props)),
    ).with("info", info.object()).with("interval", int_value(5)).with(
        "name",
        text_value(name),
    ).with("node", text_value(copy_or_empty(&task.node))).with("speed", int_value(speed)).with(
        "status",
        int_value(v4_task_status_to_i32(&task.status) as i64),
    ).with("total", int_value(progress.total)).with(
        "update",
        text_value(task.updated_at.clone()),
    );
    assert(entries@ =~= downloading_entry(*task)->Object_0);
    entries.object()
}

/// Whether a download is under way.
pub open spec fn is_active(task: Task) -> bool {
    task.status is Queued || task.status is Processing || task.status is Suspending
}

/// Whether a download has come to an end.
pub open spec fn is_ended(task: Task) -> bool {
    task.status is Completed || task.status is Error || task.status is Canceled
}

/// The downloads under way, as they are shown.
pub open spec fn downloading_list(tasks: Seq<Task>) -> Seq<JsonView>
    decreases tasks.len(),
{
    if tasks.len() == 0 {
        Seq::empty()
    } else {
        let front = downloading_list(tasks.drop_last());
        if is_active(tasks.last()) {
            front.push(downloading_entry(tasks.last()))
        } else {
            front
        }
    }
}

/// The list of the downloads under way, from what the server answered; an error with the
/// server's message where it sent no data.
pub fn v4_aria2_downloading(data: Option<Vec<Task>>, msg: String) -> (r: Result<Json, String>)
    ensures
        match data {
            Some(tasks) => r matches Ok(json) && json@ == JsonView::Array(
                downloading_list(tasks@),
            ),
            None => r matches Err(reason) && reason@ == msg@,
        },
{
    let tasks = match data {
        Some(tasks) => tasks,
        None => {
            return Err(msg);
        },
    };
    let mut list: Vec<Json> = Vec::new();
    let mut i: usize = 0;
    while i < tasks.len()
        invariant
            i <= tasks@.len(),
            items_view(list@) == downloading_list(tasks@.take(i as int)),
        decreases tasks@.len() - i,
    {
        assert(tasks@.take(i + 1).drop_last() =~= tasks@.take(i as int));
        assert(tasks@.take(i + 1).last() == tasks@[i as int]);
        let active = match tasks[i].status {
            TaskStatus::Queued | TaskStatus::Processing | TaskStatus::Suspending => true,
            _ => false,
        };
        if active {
            let ghost before = list@;
            let entry = downloading_task(&tasks[i]);
            list.push(entry);
            assert(items_view(list@) =~= items_view(before).push(entry@));
        }
        i += 1;
    }
    assert(tasks@.take(tasks@.len() as int) =~= tasks@);
    Ok(array_value(list))
}

/// The path of a file below a directory; the file's name alone where the directory is not known.
pub open spec fn path_below(dst: Seq<char>, name: Seq<char>) -> Seq<char> {
    if dst.len() == 0 {
        name
    } else {
        trim_end(dst, CharClass::Only('/')) + "/"@ + name
    }
}

fn join_below(dst: &str, name: &str) -> (r: String)
    ensures
        r@ == path_below(dst@, name@),
{
    if is_empty_text(dst) {
        name.to_string()
    } else {
        let base = trimmed_end_text(dst, CharClass::Only('/'));
        joined3(base.as_str(), "/", name)
    }
}

/// A file of a finished download, as it is shown.
pub open spec fn file_entry(
    index: Seq<char>,
    path: Seq<char>,
    length: i64,
    completed: bool,
    selected: bool,
) -> JsonView {
    JsonView::Object(
        seq![
            (
                "completedLength"@,
                text_json(
                    decimal(
                        if completed {
                            length as int
                        } else {
                            0int
                        },
                    ),
                ),
            ),
            ("index"@, text_json(index)),
            ("length"@, text_json(decimal(length as int))),
            ("path"@, text_json(path)),
            ("selected"@, JsonView::Bool(selected)),
            ("uris"@, JsonView::Array(Seq::empty())),
        ],
    )
}

fn file_value(index: String, path: String, length: i64, completed: bool, selected: bool) -> (r:
    Json)
    ensures
        r@ == file_entry(index@, path@, length, completed, selected),
{
    let done: i64 = if completed {
        length
    } else {
        0
    };
    let none: Vec<Json> = Vec::new();
    assert(items_view(none@) =~= Seq::empty());
    let entries = Entries::new().with("completedLength", text_value(decimal_text(done))).with(
        "index",
        text_value(index),
    ).with("length", text_value(decimal_text(length))).with("path", text_value(path)).with(
        "selected",
        Json::Bool(selected),
    ).with("uris", array_value(none));
    assert(entries@ =~= file_entry(index@, path@, length, completed, selected)->Object_0);
    entries.object()
}

/// What the files of a finished download have from the download itself.
pub struct Download {
    pub name: String,
    pub total: i64,
    pub dst: String,
    pub completed: bool,
}

/// The mathematical form of a download.
pub struct DownloadView {
    pub name: Seq<char>,
    pub total: i64,
    pub dst: Seq<char>,
    pub completed: bool,
}

impl View for Download {
    type V = DownloadView;

    open spec fn view(&self) -> DownloadView {
        DownloadView {
            name: self.name@,
            total: self.total,
            dst: self.dst@,
            completed: self.completed,
        }
    }
}

/// A file that the server lists for a finished download; what it does not say of a file is taken
/// from the download.
pub open spec fn listed_file(d: DownloadView, file: JsonView) -> JsonView {
    let name = match text_in(member(file, "name"@)) {
        Some(s) => s,
        None => d.name,
    };
    file_entry(
        decimal(or_default(int_in(member(file, "index"@)), 0) as int),
        path_below(d.dst, name),
        or_default(int_in(member(file, "size"@)), d.total),
        d.completed,
        match bool_in(member(file, "selected"@)) {
            Some(b) => b,
            None => true,
        },
    )
}

fn listed_file_value(d: &Download, file: &Json) -> (r: Json)
    ensures
        r@ == listed_file(d@, file@),
{
    let name = match text_under(file, "name") {
        Some(s) => s,
        None => d.name.clone(),
    };
    let index: i64 = match int_under(file, "index") {
        Some(n) => n,
        None => 0,
    };
    let size: i64 = match int_under(file, "size") {
        Some(n) => n,
        None => d.total,
    };
    let selected = match file.get("selected") {
        Some(v) => match v.as_bool() {
            Some(b) => b,
            None => true,
        },
        None => true,
    };
    file_value(
        decimal_text(index),
        join_below(d.dst.as_str(), name.as_str()),
        size,
        d.completed,
        selected,
    )
}

/// The files of a finished download: those that the server lists, else one for the whole.
pub open spec fn finished_files(d: DownloadView, listed: Option<Seq<JsonView>>) -> Seq<JsonView> {
    match listed {
        Some(files) => files.map_values(|f: JsonView| listed_file(d, f)),
        None => seq![
            file_entry("0"@, path_below(d.dst, d.name), d.total, d.completed, true),
        ],
    }
}

fn finished_file_list(d: &Download, listed: Option<&Vec<Json>>) -> (r: Vec<Json>)
    ensures
        items_view(r@) == finished_files(
            d@,
            match listed {
                Some(files) => Some(items_view(files@)),
                None => None,
            },
        ),
{
    let mut r: Vec<Json> = Vec::new();
    match listed {
        Some(files) => {
            let ghost all = items_view(files@).map_values(|f: JsonView| listed_file(d@, f));
            let mut i: usize = 0;
            while i < files.len()
                invariant
                    i <= files@.len(),
                    all == items_view(files@).map_values(|f: JsonView| listed_file(d@, f)),
                    items_view(r@) == all.take(i as int),
                decreases files@.len() - i,
            {
                let ghost before = r@;
                let entry = listed_file_value(d, &files[i]);
                r.push(entry);
                assert(items_view(r@) =~= items_view(before).push(entry@));
                assert(all.take(i + 1) =~= all.take(i as int).push(entry@));
                i += 1;
            }
            assert(all.take(all.len() as int) =~= all);
        },
        None => {
            let entry = file_value(
                "0".to_string(),
                join_below(d.dst.as_str(), d.name.as_str()),
                d.total,
                d.completed,
                true,
            );
            r.push(entry);
            assert(items_view(r@) =~= seq![entry@]);
        },
    }
    r
}

/// The size of a finished download: the total of the download, else a size in the properties.
pub open spec fn finished_total(task: Task) -> i64 {
    or_default(int_in(opt_member(download_of(task), "total"@)), size_in(props_of(task)))
}

/// What the files of a finished download have from the download.
pub open spec fn finished_download(task: Task) -> DownloadView {
    DownloadView {
        name: task_name(props_of(task), download_of(task), task.id@),
        total: finished_total(task),
        dst: destination(props_of(task)),
        completed: task.status is Completed,
    }
}

/// A task as it is shown in the list of finished downloads.
pub open spec fn finished_entry(task: Task) -> JsonView {
    let d = finished_download(task);
    let status = int_json(status_number(task.status) as i64);
    JsonView::Object(
        seq![
            ("create"@, text_json(task.created_at@)),
            ("dst"@, text_json(d.dst)),
            (
                "files"@,
                JsonView::Array(
                    finished_files(d, array_in(opt_member(download_of(task), "files"@))),
                ),
            ),
            ("gid"@, text_json(task.id@)),
            ("name"@, text_json(d.name)),
            ("node"@, text_json(text_or_empty(opt_view(task.node)))),
            ("status"@, status),
            ("task_error"@, text_json(task_error(props_of(task), opt_view(task.error)))),
            ("task_status"@, status),
            ("total"@, int_json(d.total)),
            ("update"@, text_json(task.updated_at@)),
        ],
    )
}

/// A task as it is shown in the list of finished downloads.
pub fn finished_task(task: &Task) -> (r: Json)
    ensures
        r@ == finished_entry(*task),
{
    let props = task.props.as_ref();
    let dl = member_of(props, "download");
    let total: i64 = match dl {
        Some(d) => match int_under(d, "total") {
            Some(n) => n,
            None => extract_size(props),
        },
        None => extract_size(props),
    };
    let status: i32 = v4_task_status_to_i32(&task.status);
    let d = Download {
        name: task_name_from_props(props, dl, task.id.as_str()),
        total,
        dst: task_destination(props),
        completed: status == 4,
    };
    let error = task_error_from_props(props, task.error.as_ref());
    let listed = match member_of(dl, "files") {
        Some(v) => v.as_array(),
        None => None,
    };
    let files = finished_file_list(&d, listed);
    assert(d@ == finished_download(*task));
    let entries = Entries::new().with("create", text_value(task.created_at.clone())).with(
        "dst",
        text_value(d.dst),
    ).with("files", array_value(files)).with("gid", text_value(task.id.clone())).with(
        "name",
        text_value(d.name),
    ).with("node", text_value(copy_or_empty(&task.node))).with(
        "status",
        int_value(status as i64),
    ).with("task_error", text_value(error)).with("task_status", int_value(status as i64)).with(
        "total",
        int_value(total),
    ).with("update", text_value(task.updated_at.clone()));
    assert(entries@ =~= finished_entry(*task)->Object_0);
    entries.object()
}

/// The finished downloads, as they are shown.
pub open spec fn finished_list(tasks: Seq<Task>) -> Seq<JsonView>
    decreases tasks.len(),
{
    if tasks.len() == 0 {
        Seq::empty()
    } else {
        let front = finished_list(tasks.drop_last());
        if is_ended(tasks.last()) {
            front.push(finished_entry(tasks.last()))
        } else {
            front
        }
    }
}

/// The list of the finished downloads, from what the server answered; an error with the server's
/// message where it sent no data.
pub fn v4_aria2_finished(data: Option<Vec<Task>>, msg: String) -> (r: Result<Json, String>)
    ensures
        match data {
            Some(tasks) => r matches Ok(json) && json@ == JsonView::Array(finished_list(tasks@)),
            None => r matches Err(reason) && reason@ == msg@,
        },
{
    let tasks = match data {
        Some(tasks) => tasks,
        None => {
            return Err(msg);
        },
    };
    let mut list: Vec<Json> = Vec::new();
    let mut i: usize = 0;
    while i < tasks.len()
        invariant
            i <= tasks@.len(),
            items_view(list@) == finished_list(tasks@.take(i as int)),
        decreases tasks@.len() - i,
    {
        assert(tasks@.take(i + 1).drop_last() =~= tasks@.take(i as int));
        assert(tasks@.take(i + 1).last() == tasks@[i as int]);
        let ended = match tasks[i].status {
            TaskStatus::Completed | TaskStatus::Error | TaskStatus::Canceled => true,
            _ => false,
        };
        if ended {
            let ghost before = list@;
            let entry = finished_task(&tasks[i]);
            list.push(entry);
            assert(items_view(list@) =~= items_view(before).push(entry@));
        }
        i += 1;
    }
    assert(tasks@.take(tasks@.len() as int) =~= tasks@);
    Ok(array_value(list))
}

/// A task of the general queue, as it is shown.
pub open spec fn queue_entry(task: Task) -> JsonView {
    let props = props_of(task);
    let status = status_number(task.status);
    let progress = or_default(
        int_in(opt_member(props, "progress"@)),
        if status == 4 {
            100i64
        } else {
            0i64
        },
    );
    JsonView::Object(
        seq![
            ("create_date"@, text_json(task.created_at@)),
            ("error"@, text_json(text_or_empty(opt_view(task.error)))),
            ("id"@, text_json(task.id@)),
            ("name"@, text_json(task_name(props, download_of(task), task.id@))),
            ("progress"@, int_json(progress)),
            ("status"@, int_json(status as i64)),
            ("type"@, int_json(type_number(task.task_type) as i64)),
        ],
    )
}

/// A task of the general queue, as it is shown.
pub fn queue_task(task: &Task) -> (r: Json)
    ensures
        r@ == queue_entry(*task),
{
    let props = task.props.as_ref();
    let dl = member_of(props, "download");
    let status: i32 = v4_task_status_to_i32(&task.status);
    let known = match member_of(props, "progress") {
        Some(v) => v.as_i64(),
        None => None,
    };
    let progress: i64 = match known {
        Some(n) => n,
        None => if status == 4 {
            100
        } else {
            0
        },
    };
    let entries = Entries::new().with("create_date", text_value(task.created_at.clone())).with(
        "error",
        text_value(copy_or_empty(&task.error)),
    ).with("id", text_value(task.id.clone())).with(
        "name",
        text_value(task_name_from_props(props, dl, task.id.as_str())),
    ).with("progress", int_value(progress)).with("status", int_value(status as i64)).with(
        "type",
        int_value(v4_task_type_to_i32(&task.task_type) as i64),
    );
    assert(entries@ =~= queue_entry(*task)->Object_0);
    entries.object()
}

/// The general queue, as it is shown: the tasks and how many they are.
pub open spec fn queue(tasks: Seq<Task>) -> JsonView {
    JsonView::Object(
        seq![
            ("tasks"@, JsonView::Array(tasks.map_values(|t: Task| queue_entry(t)))),
            ("total"@, nat_json(tasks.len() as u64)),
        ],
    )
}

/// The general queue, from what the server answered; an error with the server's message where it
/// sent no data.
pub fn get_user_tasks(data: Option<Vec<Task>>, msg: String) -> (r: Result<Json, String>)
    ensures
        match data {
            Some(tasks) => r matches Ok(json) && json@ == queue(tasks@),
            None => r matches Err(reason) && reason@ == msg@,
        },
{
    let tasks = match data {
        Some(tasks) => tasks,
        None => {
            return Err(msg);
        },
    };
    let ghost all = tasks@.map_values(|t: Task| queue_entry(t));
    let mut list: Vec<Json> = Vec::new();
    let mut i: usize = 0;
    while i < tasks.len()
        invariant
            i <= tasks@.len(),
            all == tasks@.map_values(|t: Task| queue_entry(t)),
            items_view(list@) == all.take(i as int),
        decreases tasks@.len() - i,
    {
        let ghost before = list@;
        let entry = queue_task(&tasks[i]);
        list.push(entry);
        assert(items_view(list@) =~= items_view(before).push(entry@));
        assert(all.take(i + 1) =~= all.take(i as int).push(entry@));
        i += 1;
    }
    assert(all.take(all.len() as int) =~= all);
    let total: usize = list.len();
    let entries = Entries::new().with("tasks", array_value(list)).with(
        "total",
        nat_value(total as u64),
    );
    assert(entries@ =~= queue(tasks@)->Object_0);
    Ok(entries.object())
}

/// Whether a page of finished downloads is known to be empty: the server answers with all of
/// them at once, so that there is nothing after the first page.
pub fn is_past_finished(page: i32) -> (r: bool)
    ensures
        r == (page > 1),
{
    page > 1
}

/// The URI of the directory that a download is put into, given as a path or as a URI.
pub open spec fn download_target(dst: Seq<char>) -> Seq<char> {
    if has_prefix(dst, "cloudreve://"@) {
        dst
    } else if dst == "/"@ {
        "cloudreve://my"@
    } else if has_prefix(dst, "/"@) {
        "cloudreve://my"@ + dst
    } else {
        "cloudreve://my/"@ + dst
    }
}

/// The URI of the directory that a download is put into, given as a path or as a URI.
pub fn normalized_download_target(dst: String) -> (r: String)
    ensures
        r@ == download_target(dst@),
{
    if begins_with(dst.as_str(), "cloudreve://") {
        dst
    } else if same_text(dst.as_str(), "/") {
        "cloudreve://my".to_string()
    } else if begins_with(dst.as_str(), "/") {
        joined("cloudreve://my", dst.as_str())
    } else {
        joined("cloudreve://my/", dst.as_str())
    }
}

/// The endpoint by which a task is deleted that could not be cancelled.
pub fn workflow_endpoint(gid: &str) -> (r: String)
    ensures
        r@ == "/workflow/"@ + gid@,
{
    joined("/workflow/", gid)
}

/// What comes of deleting a task that could not be cancelled, from the reason of that and the
/// answer to the deletion: its code and message, or nothing where it got no answer.
pub fn fallback_delete_result(
    first_error: String,
    answer: Option<(i32, String)>,
) -> (r: Result<(), String>)
    ensures
        match answer {
            None => r matches Err(reason) && reason@ == first_error@,
            Some((code, msg)) => if code == 0 {
                r is Ok
            } else {
                r matches Err(reason) && reason@ == first_error@
                    + "; fallback delete failed: API error "@ + msg@ + " ("@ + decimal(code as int)
                    + ")"@
            },
        },
{
    match answer {
        None => Err(first_error),
        Some((code, msg)) => {
            if code == 0 {
                Ok(())
            } else {
                let mut reason = first_error;
                reason.append("; fallback delete failed: API error ");
                reason.append(msg.as_str());
                reason.append(" (");
                reason.append(decimal_text(code as i64).as_str());
                reason.append(")");
                Err(reason)
            }
        },
    }
}

/// A download is never shown as further along than its total, unless the server itself counts
/// more than that.
pub proof fn law_progress_stays_within_total(total: i64, percent: i64, downloaded: i64)
    ensures
        downloaded <= 0 && percent > 0 ==> 0 <= progress_from(
            total,
            downloaded,
            percent,
        ).downloaded <= progress_from(total, downloaded, percent).total,
        downloaded > 0 || percent <= 0 ==> progress_from(total, downloaded, percent) == (Progress {
            total,
            downloaded,
        }),
{
    if downloaded <= 0 && percent > 0 && total > 0 {
        let capped = if percent < 100 {
            percent
        } else {
            100i64
        };
        assert(0 <= total * capped <= total * 100) by (nonlinear_arith)
            requires
                total > 0,
                0 < capped <= 100,
        ;
    }
}

/// Every task is among the downloads under way or among the finished ones, and none among both.
pub proof fn law_every_task_is_in_one_list(tasks: Seq<Task>)
    ensures
        downloading_list(tasks).len() + finished_list(tasks).len() == tasks.len(),
        forall|t: Task| is_active(t) != is_ended(t),
    decreases tasks.len(),
{
    if tasks.len() > 0 {
        law_every_task_is_in_one_list(tasks.drop_last());
    }
}

/// A directory other than the root that is given by its path is the same target as its URI.
pub proof fn law_download_target_is_the_uri(dst: Seq<char>)
    requires
        has_prefix(dst, "/"@),
        dst != "/"@,
    ensures
        download_target(dst) == uri_of_path(dst),
{
    reveal_strlit("/");
    reveal_strlit("cloudreve://");
    reveal_strlit("cloudreve://my");
    reveal_strlit("cloudreve://my/");
    assert(dst[0] == '/') by {
        assert(dst.subrange(0, 1)[0] == dst[0]);
    }
    if has_prefix(dst, "cloudreve://"@) {
        assert(dst.subrange(0, 12)[0] == dst[0]);
    }
    assert("cloudreve://my"@ + dst =~= "cloudreve://my/"@ + dst.skip(1));
}

} // verus!
