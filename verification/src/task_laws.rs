//! What holds of tasks and downloads as a whole.
use crate::json::{
    array_in, bool_in, int_in, member, number_for_keys, opt_member, text_in, uint_in, JsonView,
};
use crate::key_order::{
    lemma_downloading_info, lemma_downloading_keys, lemma_file_keys, lemma_finished_keys,
    lemma_queue_entry_keys, lemma_queue_keys,
};
use crate::lookup::{first_string_keyed, size_in, string_for_keys};
use crate::names::file_name;
use crate::path::property_path;
use crate::share::lemma_member_by_position;
use crate::tasks::{
    destination, download_of, download_target, downloaded_keys, downloading_entry,
    downloading_list, error_keys, file_entry, finished_entry, finished_files, finished_list,
    finished_total, listed_file, name_keys, number_in, or_default, path_below, progress_from,
    progress_keys, props_of, queue, queue_entry, speed_keys, status_number, task_error, task_name,
    task_progress, total_keys, type_number, DownloadView, Task, TaskStatus, TaskType,
};
use crate::text::{decimal, has_prefix, has_suffix, opt_view, trim_end, CharClass};
use crate::text_laws::law_occurrence;
use vstd::prelude::*;

verus! {

broadcast use vstd::string::group_string_axioms;

/// A task that waits is shown with 0 and one that runs, be it to a halt, with 1; one that ended is
/// shown with -1 after an error, 2 where it was canceled, and 4 where it is complete.
pub proof fn law_numbers_of_states(status: TaskStatus)
    ensures
        status_number(status) == 0 <==> status == TaskStatus::Queued,
        status_number(status) == 1 <==> status == TaskStatus::Processing || status
            == TaskStatus::Suspending,
        status_number(status) == -1 <==> status == TaskStatus::Error,
        status_number(status) == 2 <==> status == TaskStatus::Canceled,
        status_number(status) == 4 <==> status == TaskStatus::Completed,
{
}

/// A remote download is shown with 2, a relocation with 4, and every other task with 3.
pub proof fn law_numbers_of_tasks(task_type: TaskType)
    ensures
        type_number(task_type) == 2 <==> task_type == TaskType::RemoteDownload,
        type_number(task_type) == 4 <==> task_type == TaskType::Relocate,
        type_number(task_type) == 3 <==> task_type != TaskType::RemoteDownload && task_type
            != TaskType::Relocate,
{
}

/// The downloads under way are those tasks that wait, run or run to a halt, each shown once and in
/// the order of the server; no other task is among them.
pub proof fn law_downloads_under_way(tasks: Seq<Task>, task: Task)
    ensures
        task.status == TaskStatus::Queued || task.status == TaskStatus::Processing || task.status
            == TaskStatus::Suspending ==> downloading_list(tasks.push(task)) == downloading_list(
            tasks,
        ).push(downloading_entry(task)),
        task.status == TaskStatus::Completed || task.status == TaskStatus::Error || task.status
            == TaskStatus::Canceled ==> downloading_list(tasks.push(task)) == downloading_list(
            tasks,
        ),
        downloading_list(Seq::empty()).len() == 0,
{
    assert(tasks.push(task).drop_last() =~= tasks);
}

/// The finished downloads are those tasks that are complete, failed or were canceled, each shown
/// once and in the order of the server; no other task is among them.
pub proof fn law_finished_downloads(tasks: Seq<Task>, task: Task)
    ensures
        task.status == TaskStatus::Completed || task.status == TaskStatus::Error || task.status
            == TaskStatus::Canceled ==> finished_list(tasks.push(task)) == finished_list(
            tasks,
        ).push(finished_entry(task)),
        task.status == TaskStatus::Queued || task.status == TaskStatus::Processing || task.status
            == TaskStatus::Suspending ==> finished_list(tasks.push(task)) == finished_list(tasks),
        finished_list(Seq::empty()).len() == 0,
{
    assert(tasks.push(task).drop_last() =~= tasks);
}

/// Every download that is shown as under way has 0 or 1 as the number of its state, and every
/// finished one another.
pub proof fn law_lists_agree_with_the_numbers(tasks: Seq<Task>, i: int)
    ensures
        0 <= i < downloading_list(tasks).len() ==> (int_in(
            member(downloading_list(tasks)[i], "status"@),
        ) == Some(0i64) || int_in(member(downloading_list(tasks)[i], "status"@)) == Some(1i64)),
        0 <= i < finished_list(tasks).len() ==> int_in(member(finished_list(tasks)[i], "status"@))
            != Some(0i64) && int_in(member(finished_list(tasks)[i], "status"@)) != Some(1i64),
    decreases tasks.len(),
{
    if tasks.len() > 0 {
        law_lists_agree_with_the_numbers(tasks.drop_last(), i);
        law_download_under_way_is_shown(tasks.last());
        law_finished_download_is_shown(tasks.last());
    }
}

/// A download under way is shown with the id, the node, the time of change and the state that the
/// server reports, as active, and with nothing of its files.
pub proof fn law_download_under_way_is_shown(task: Task)
    ensures
        ({
            let shown = downloading_entry(task);
            let info = member(shown, "info"@);
            &&& text_in(opt_member(info, "gid"@)) == Some(task.id@)
            &&& text_in(opt_member(info, "status"@)) == Some("active"@)
            &&& array_in(opt_member(info, "files"@)) == Some(Seq::<JsonView>::empty())
            &&& text_in(opt_member(info, "errorMessage"@)) == Some(
                task_error(props_of(task), opt_view(task.error)),
            )
            &&& int_in(member(shown, "status"@)) == Some(status_number(task.status) as i64)
            &&& text_in(member(shown, "update"@)) == Some(task.updated_at@)
            &&& text_in(member(shown, "node"@)) == match task.node {
                Some(node) => Some(node@),
                None => Some(Seq::empty()),
            }
            &&& text_in(member(shown, "name"@)) == Some(
                task_name(props_of(task), download_of(task), task.id@),
            )
            &&& text_in(member(shown, "dst"@)) == Some(destination(props_of(task)))
            &&& int_in(member(shown, "interval"@)) == Some(5i64)
        }),
{
    lemma_downloading_keys(task);
    lemma_downloading_info(task);
    let entries = downloading_entry(task)->Object_0;
    lemma_member_by_position(entries, 1);
    lemma_member_by_position(entries, 2);
    lemma_member_by_position(entries, 3);
    lemma_member_by_position(entries, 4);
    lemma_member_by_position(entries, 5);
    lemma_member_by_position(entries, 7);
    lemma_member_by_position(entries, 9);
    let info = entries[2].1->Object_0;
    lemma_member_by_position(info, 2);
    lemma_member_by_position(info, 3);
    lemma_member_by_position(info, 4);
    lemma_member_by_position(info, 5);
}

/// A download under way is shown with how far it has come and how fast it goes, the same numbers
/// in the entry and, in decimal, in its details.
pub proof fn law_progress_is_shown(task: Task)
    ensures
        ({
            let shown = downloading_entry(task);
            let info = member(shown, "info"@);
            let progress = task_progress(task);
            let speed = match number_in(
                download_of(task),
                props_of(task),
                seq!["download_speed"@, "downloadSpeed"@, "speed"@],
            ) {
                Some(n) => n,
                None => 0,
            };
            &&& int_in(member(shown, "downloaded"@)) == Some(progress.downloaded)
            &&& int_in(member(shown, "total"@)) == Some(progress.total)
            &&& int_in(member(shown, "speed"@)) == Some(speed)
            &&& text_in(opt_member(info, "completedLength"@)) == Some(
                decimal(progress.downloaded as int),
            )
            &&& text_in(opt_member(info, "totalLength"@)) == Some(decimal(progress.total as int))
            &&& text_in(opt_member(info, "downloadSpeed"@)) == Some(decimal(speed as int))
        }),
{
    lemma_downloading_keys(task);
    lemma_downloading_info(task);
    let entries = downloading_entry(task)->Object_0;
    lemma_member_by_position(entries, 0);
    lemma_member_by_position(entries, 2);
    lemma_member_by_position(entries, 6);
    lemma_member_by_position(entries, 8);
    let info = entries[2].1->Object_0;
    lemma_member_by_position(info, 0);
    lemma_member_by_position(info, 1);
    lemma_member_by_position(info, 6);
}

/// What is looked for in a download is looked for under these keys, in this order.
pub proof fn law_keys_of_a_download()
    ensures
        total_keys() == seq!["total"@, "total_length"@, "totalLength"@, "length"@, "size"@],
        downloaded_keys() == seq![
            "downloaded"@,
            "completed"@,
            "completed_length"@,
            "completedLength"@,
            "current"@,
        ],
        progress_keys() == seq!["progress"@, "percent"@, "percentage"@],
        speed_keys() == seq!["download_speed"@, "downloadSpeed"@, "speed"@],
        error_keys() == seq!["error"@, "error_message"@, "message"@, "msg"@, "task_error"@],
        name_keys() == seq![
            "name"@,
            "file_name"@,
            "filename"@,
            "src"@,
            "src_str"@,
            "url"@,
            "url_str"@,
            "urls"@,
            "source"@,
            "source_url"@,
            "uri"@,
        ],
{
}

/// The properties of a task are those that the server reports, and its download is what they have
/// under `download`.
pub proof fn law_download_is_in_the_properties(task: Task)
    ensures
        task.props is None ==> props_of(task) is None && download_of(task) is None,
        task.props matches Some(p) ==> props_of(task) == Some(p@) && download_of(task) == member(
            p@,
            "download"@,
        ),
{
}

/// A number is taken from the download where that has it, and from the properties only else.
pub proof fn law_numbers_of_the_download_go_first(
    dl: Option<JsonView>,
    props: Option<JsonView>,
    keys: Seq<Seq<char>>,
)
    ensures
        dl matches Some(d) ==> (number_for_keys(d, keys) matches Some(n) ==> number_in(
            dl,
            props,
            keys,
        ) == Some(n)),
        dl is None || number_for_keys(dl->0, keys) is None ==> number_in(dl, props, keys)
            == match props {
            Some(p) => number_for_keys(p, keys),
            None => None,
        },
        forall|n: i64, default: i64| #[trigger] or_default(Some(n), default) == n,
        forall|default: i64| #[trigger] or_default(None, default) == default,
{
}

/// What a download has come to is what the server counts; only where it counts nothing but gives a
/// percentage is it that part of the total, and of a hundred where the total is not known.
pub proof fn law_percentage_stands_in_for_a_count(total: i64, downloaded: i64, percent: i64)
    ensures
        ({
            let progress = progress_from(total, downloaded, percent);
            let part = if percent < 100 {
                percent as int
            } else {
                100
            };
            &&& downloaded > 0 || percent <= 0 ==> progress.total == total && progress.downloaded
                == downloaded
            &&& downloaded <= 0 && percent > 0 && total > 0 ==> progress.total == total && 100
                * progress.downloaded <= total * part < 100 * progress.downloaded + 100
            &&& downloaded <= 0 && percent > 0 && total <= 0 ==> progress.total == 100
                && progress.downloaded == part
        }),
{
    if downloaded <= 0 && percent > 0 && total > 0 {
        let part = if percent < 100 {
            percent as int
        } else {
            100
        };
        assert(0 <= total * part <= total * 100) by (nonlinear_arith)
            requires
                total > 0,
                0 < part <= 100,
        ;
    }
}

/// The size, the count and the percentage of a download are each the number that is found for them;
/// a size that is not found is taken from the properties, and the others count as zero.
pub proof fn law_progress_of_a_task(task: Task)
    ensures
        ({
            let total = number_in(download_of(task), props_of(task), total_keys());
            let downloaded = number_in(download_of(task), props_of(task), downloaded_keys());
            let percent = number_in(download_of(task), props_of(task), progress_keys());
            &&& downloaded matches Some(n) ==> (n > 0 ==> task_progress(task).downloaded == n)
            &&& downloaded matches Some(n) ==> (n > 0 ==> task_progress(task).total == match total {
                Some(size) => size,
                None => size_in(props_of(task)),
            })
            &&& downloaded is None && percent is None ==> task_progress(task).downloaded == 0
            &&& downloaded is None ==> (percent matches Some(p) ==> (p > 0 ==> task_progress(task)
                == progress_from(
                match total {
                    Some(size) => size,
                    None => size_in(props_of(task)),
                },
                0,
                p,
            )))
        }),
{
}

/// The name of a task is the file name in the text that is found in the download, else in the
/// properties, else in its id; and it is the id where that text has no file name.
pub proof fn law_name_of_a_task(props: Option<JsonView>, dl: Option<JsonView>, id: Seq<char>)
    ensures
        ({
            let in_download = match dl {
                Some(d) => string_for_keys(d, name_keys()),
                None => None,
            };
            let in_props = match props {
                Some(p) => string_for_keys(p, name_keys()),
                None => None,
            };
            let name = task_name(props, dl, id);
            &&& in_download matches Some(s) ==> name == if file_name(s).len() > 0 && file_name(s)
                != "."@ {
                file_name(s)
            } else {
                id
            }
            &&& in_download is None ==> (in_props matches Some(s) ==> name == if file_name(s).len()
                > 0 && file_name(s) != "."@ {
                file_name(s)
            } else {
                id
            })
            &&& in_download is None && in_props is None && file_name(id) == id ==> name == id
        }),
{
}

/// A task that has an id has a name.
pub proof fn law_task_has_a_name(props: Option<JsonView>, dl: Option<JsonView>, id: Seq<char>)
    requires
        id.len() > 0,
    ensures
        task_name(props, dl, id).len() > 0,
{
}

/// The error of a task is the first that its properties name, else the one that the server gives
/// with the task, else nothing.
pub proof fn law_error_of_a_task(
    entries: Seq<(Seq<char>, JsonView)>,
    props: Option<JsonView>,
    fallback: Option<Seq<char>>,
)
    ensures
        first_string_keyed(entries, error_keys()) matches Some(s) ==> task_error(
            Some(JsonView::Object(entries)),
            fallback,
        ) == s,
        first_string_keyed(entries, error_keys()) is None ==> task_error(
            Some(JsonView::Object(entries)),
            fallback,
        ) == task_error(None, fallback),
        !(props matches Some(JsonView::Object(_))) ==> task_error(props, fallback) == task_error(
            None,
            fallback,
        ),
        fallback matches Some(s) ==> task_error(None, fallback) == s,
        fallback is None ==> task_error(None, fallback).len() == 0,
{
}

/// A task puts its files where its properties say: under `dst`, else `dst_str`, else `path`; and
/// it is not known where none of them is a text.
pub proof fn law_destination_of_a_task(props: JsonView)
    ensures
        text_in(member(props, "dst"@)) matches Some(s)
            ==> destination(Some(props)) == property_path(
            s,
        ),
        text_in(member(props, "dst"@)) is None ==> (text_in(
            member(props, "dst_str"@),
        ) matches Some(s) ==> destination(Some(props)) == property_path(s)),
        text_in(member(props, "dst"@)) is None && text_in(member(props, "dst_str"@)) is None ==> (
        text_in(member(props, "path"@)) matches Some(s) ==> destination(Some(props))
            == property_path(s)),
        text_in(member(props, "dst"@)) is None && text_in(member(props, "dst_str"@)) is None
            && text_in(member(props, "path"@)) is None ==> destination(Some(props)).len() == 0,
        destination(None).len() == 0,
{
}

/// A file of a download lies below the download's directory; slashes at the end of the directory do
/// not count, and where the directory is not known the name stands alone.
pub proof fn law_file_lies_below_the_directory(dst: Seq<char>, name: Seq<char>)
    ensures
        dst.len() == 0 ==> path_below(dst, name) == name,
        dst.len() > 0 ==> has_suffix(path_below(dst, name), "/"@ + name),
        dst.len() > 0 && dst.last() != '/' ==> path_below(dst, name) == dst + "/"@ + name,
        dst.len() > 0 ==> path_below(dst.push('/'), name) == path_below(dst, name),
{
    let base = trim_end(dst, CharClass::Only('/'));
    if dst.len() > 0 {
        assert(path_below(dst, name) =~= base + ("/"@ + name)) by {
            assert(base + "/"@ + name =~= base + ("/"@ + name));
        }
        law_occurrence(base, "/"@ + name, Seq::empty());
        assert(dst.push('/').drop_last() =~= dst);
        assert(trim_end(dst.push('/'), CharClass::Only('/')) == base);
    }
}

/// A file of a finished download is shown with its number, its path and its length; as much of it
/// has come as it is long where the download is complete, and nothing of it else.
pub proof fn law_file_of_a_download_is_shown(
    index: Seq<char>,
    path: Seq<char>,
    length: i64,
    completed: bool,
    selected: bool,
)
    ensures
        ({
            let shown = file_entry(index, path, length, completed, selected);
            &&& text_in(member(shown, "index"@)) == Some(index)
            &&& text_in(member(shown, "path"@)) == Some(path)
            &&& text_in(member(shown, "length"@)) == Some(decimal(length as int))
            &&& completed ==> member(shown, "completedLength"@) == member(shown, "length"@)
            &&& !completed ==> text_in(member(shown, "completedLength"@)) == Some(decimal(0))
            &&& bool_in(member(shown, "selected"@)) == Some(selected)
            &&& array_in(member(shown, "uris"@)) == Some(Seq::<JsonView>::empty())
        }),
{
    lemma_file_keys(index, path, length, completed, selected);
    let entries = file_entry(index, path, length, completed, selected)->Object_0;
    lemma_member_by_position(entries, 0);
    lemma_member_by_position(entries, 1);
    lemma_member_by_position(entries, 2);
    lemma_member_by_position(entries, 3);
    lemma_member_by_position(entries, 4);
    lemma_member_by_position(entries, 5);
}

/// A file that the server lists is shown with the name, the number, the size and the selection that
/// the server gives it; what the server leaves out is taken from the download, and a file counts as
/// selected unless the server says otherwise.
pub proof fn law_listed_file_is_shown(d: DownloadView, file: JsonView)
    ensures
        ({
            let shown = listed_file(d, file);
            &&& text_in(member(shown, "path"@)) == Some(
                path_below(
                    d.dst,
                    match text_in(member(file, "name"@)) {
                        Some(name) => name,
                        None => d.name,
                    },
                ),
            )
            &&& text_in(member(shown, "length"@)) == Some(
                decimal(
                    match int_in(member(file, "size"@)) {
                        Some(size) => size as int,
                        None => d.total as int,
                    },
                ),
            )
            &&& text_in(member(shown, "index"@)) == Some(
                decimal(
                    match int_in(member(file, "index"@)) {
                        Some(index) => index as int,
                        None => 0,
                    },
                ),
            )
            &&& bool_in(member(shown, "selected"@)) == Some(
                member(file, "selected"@) != Some(JsonView::Bool(false)),
            )
            &&& d.completed ==> member(shown, "completedLength"@) == member(shown, "length"@)
            &&& !d.completed ==> text_in(member(shown, "completedLength"@)) == Some(decimal(0))
        }),
{
    let name = match text_in(member(file, "name"@)) {
        Some(s) => s,
        None => d.name,
    };
    law_file_of_a_download_is_shown(
        decimal(or_default(int_in(member(file, "index"@)), 0) as int),
        path_below(d.dst, name),
        or_default(int_in(member(file, "size"@)), d.total),
        d.completed,
        match bool_in(member(file, "selected"@)) {
            Some(b) => b,
            None => true,
        },
    );
}

/// A finished download has the files that the server lists, in their order; where it lists none, it
/// has one file for the whole.
pub proof fn law_files_of_a_finished_download(d: DownloadView, files: Seq<JsonView>)
    ensures
        finished_files(d, Some(files)).len() == files.len(),
        forall|i: int|
            0 <= i < files.len() ==> #[trigger] finished_files(d, Some(files))[i] == listed_file(
                d,
                files[i],
            ),
        finished_files(d, None).len() == 1,
        ({
            let whole = finished_files(d, None)[0];
            &&& text_in(member(whole, "path"@)) == Some(path_below(d.dst, d.name))
            &&& text_in(member(whole, "length"@)) == Some(decimal(d.total as int))
            &&& text_in(member(whole, "index"@)) == Some("0"@)
            &&& bool_in(member(whole, "selected"@)) == Some(true)
            &&& d.completed ==> member(whole, "completedLength"@) == member(whole, "length"@)
            &&& !d.completed ==> text_in(member(whole, "completedLength"@)) == Some(decimal(0))
        }),
{
    law_file_of_a_download_is_shown("0"@, path_below(d.dst, d.name), d.total, d.completed, true);
}

/// The size of a finished download is the total of the download, and one that the properties hold
/// only where the download has none.
pub proof fn law_size_of_a_finished_download(task: Task)
    ensures
        int_in(opt_member(download_of(task), "total"@)) matches Some(n) ==> finished_total(task)
            == n,
        int_in(opt_member(download_of(task), "total"@)) is None ==> finished_total(task) == size_in(
            props_of(task),
        ),
{
}

/// A finished download is shown with the id, the node, the times and the state that the server
/// reports, its size, its error, and its name and directory.
pub proof fn law_finished_download_is_shown(task: Task)
    ensures
        ({
            let shown = finished_entry(task);
            let status = Some(status_number(task.status) as i64);
            &&& text_in(member(shown, "gid"@)) == Some(task.id@)
            &&& int_in(member(shown, "status"@)) == status
            &&& int_in(member(shown, "task_status"@)) == status
            &&& text_in(member(shown, "create"@)) == Some(task.created_at@)
            &&& text_in(member(shown, "update"@)) == Some(task.updated_at@)
            &&& text_in(member(shown, "node"@)) == match task.node {
                Some(node) => Some(node@),
                None => Some(Seq::empty()),
            }
            &&& text_in(member(shown, "name"@)) == Some(
                task_name(props_of(task), download_of(task), task.id@),
            )
            &&& text_in(member(shown, "dst"@)) == Some(destination(props_of(task)))
            &&& text_in(member(shown, "task_error"@)) == Some(
                task_error(props_of(task), opt_view(task.error)),
            )
            &&& int_in(member(shown, "total"@)) == Some(finished_total(task))
        }),
{
    lemma_finished_keys(task);
    let entries = finished_entry(task)->Object_0;
    lemma_member_by_position(entries, 0);
    lemma_member_by_position(entries, 1);
    lemma_member_by_position(entries, 3);
    lemma_member_by_position(entries, 4);
    lemma_member_by_position(entries, 5);
    lemma_member_by_position(entries, 6);
    lemma_member_by_position(entries, 7);
    lemma_member_by_position(entries, 8);
    lemma_member_by_position(entries, 9);
    lemma_member_by_position(entries, 10);
}

/// The files of a finished download are shown below its directory, under its name where they have
/// none, and as complete exactly where the download is.
pub proof fn law_files_belong_to_their_download(task: Task)
    ensures
        array_in(member(finished_entry(task), "files"@)) == Some(
            finished_files(
                (DownloadView {
                    name: task_name(props_of(task), download_of(task), task.id@),
                    total: finished_total(task),
                    dst: destination(props_of(task)),
                    completed: task.status == TaskStatus::Completed,
                }),
                array_in(opt_member(download_of(task), "files"@)),
            ),
        ),
{
    lemma_finished_keys(task);
    lemma_member_by_position(finished_entry(task)->Object_0, 2);
}

/// A task of the general queue is shown with the id, the time, the state, the kind and the error
/// that the server reports, and with its name.
pub proof fn law_task_of_the_queue_is_shown(task: Task)
    ensures
        ({
            let shown = queue_entry(task);
            &&& text_in(member(shown, "id"@)) == Some(task.id@)
            &&& text_in(member(shown, "create_date"@)) == Some(task.created_at@)
            &&& text_in(member(shown, "error"@)) == match task.error {
                Some(error) => Some(error@),
                None => Some(Seq::empty()),
            }
            &&& text_in(member(shown, "name"@)) == Some(
                task_name(props_of(task), download_of(task), task.id@),
            )
            &&& int_in(member(shown, "status"@)) == Some(status_number(task.status) as i64)
            &&& int_in(member(shown, "type"@)) == Some(type_number(task.task_type) as i64)
        }),
{
    lemma_queue_entry_keys(task);
    let entries = queue_entry(task)->Object_0;
    lemma_member_by_position(entries, 0);
    lemma_member_by_position(entries, 1);
    lemma_member_by_position(entries, 2);
    lemma_member_by_position(entries, 3);
    lemma_member_by_position(entries, 5);
    lemma_member_by_position(entries, 6);
}

/// A task of the general queue is shown with the progress that the server gives; where it gives
/// none, a complete task has come all the way and every other not at all.
pub proof fn law_progress_of_the_queue(task: Task)
    ensures
        int_in(opt_member(props_of(task), "progress"@)) matches Some(n) ==> int_in(
            member(queue_entry(task), "progress"@),
        ) == Some(n),
        int_in(opt_member(props_of(task), "progress"@)) is None ==> int_in(
            member(queue_entry(task), "progress"@),
        ) == if task.status == TaskStatus::Completed {
            Some(100i64)
        } else {
            Some(0i64)
        },
{
    lemma_queue_entry_keys(task);
    lemma_member_by_position(queue_entry(task)->Object_0, 4);
}

/// The general queue has every task of the server, in the server's order, and says how many they
/// are.
pub proof fn law_queue_has_every_task(tasks: Seq<Task>)
    requires
        tasks.len() <= u64::MAX,
    ensures
        uint_in(member(queue(tasks), "total"@)) == Some(tasks.len() as u64),
        array_in(member(queue(tasks), "tasks"@)) matches Some(shown) && shown.len() == tasks.len()
            && forall|i: int| 0 <= i < tasks.len() ==> #[trigger] shown[i] == queue_entry(tasks[i]),
{
    lemma_queue_keys(tasks);
    let entries = queue(tasks)->Object_0;
    lemma_member_by_position(entries, 0);
    lemma_member_by_position(entries, 1);
}

/// A download goes to the directory that is named: a URI stays, a path is below the drive whether
/// it begins with a slash or not, and the root is the drive itself.
pub proof fn law_target_of_a_download(dst: Seq<char>)
    ensures
        has_prefix(dst, "cloudreve://"@) ==> download_target(dst) == dst,
        dst.len() > 0 && !has_prefix(dst, "cloudreve://"@) && !has_prefix(dst, "/"@)
            ==> download_target(dst) == "cloudreve://my/"@ + dst && download_target("/"@ + dst)
            == download_target(dst),
        download_target("/"@) == "cloudreve://my"@,
        has_prefix(download_target(dst), "cloudreve://"@),
{
    reveal_strlit("/");
    reveal_strlit("cloudreve://");
    reveal_strlit("cloudreve://my");
    reveal_strlit("cloudreve://my/");
    let rooted = "/"@ + dst;
    assert(rooted.subrange(0, 1) =~= "/"@);
    assert("cloudreve://my"@ + rooted =~= "cloudreve://my/"@ + dst);
    if has_prefix(rooted, "cloudreve://"@) {
        assert(rooted.subrange(0, 12)[0] == 'c');
    }
    let root = "/"@;
    assert(root.subrange(0, 1) =~= "/"@);
    assert(dst.len() > 0 ==> rooted.len() > root.len());
    if has_prefix(root, "cloudreve://"@) {
        assert(root.subrange(0, 12)[0] == 'c');
    }
    assert("cloudreve://my"@.subrange(0, 12) =~= "cloudreve://"@);
    assert(("cloudreve://my"@ + dst).subrange(0, 12) =~= "cloudreve://"@);
    assert(("cloudreve://my/"@ + dst).subrange(0, 12) =~= "cloudreve://"@);
}

} // verus!
