//! Deleting, moving and copying many objects at once.
use crate::errors::{auth_expired, v4_auth_expired, ApiError, ErrorKind};
use crate::json::{items_view, lemma_json_view, member, opt_json, text_in, Json, JsonView};
use crate::text::{views, opt_view};
use vstd::prelude::*;

verus! {

broadcast use vstd::string::group_string_axioms;

/// An object that a batch could not process.
pub struct ItemFailure {
    pub path: String,
    /// The code of this object's failure, where the server gave one.
    pub code: Option<i32>,
    pub message: String,
    /// What the server attached, such as the tokens of a lock.
    pub data: Option<Json>,
}

/// An object that a batch could not process, as it is reported.
pub struct BatchFailure {
    pub path: String,
    pub code: i32,
    pub message: String,
    /// The tokens that release the locks in the way.
    pub tokens: Vec<String>,
}

/// What came of a batch.
pub struct BatchOutcome {
    pub succeeded: u32,
    pub failed: Vec<BatchFailure>,
}

/// The mathematical form of a reported failure.
pub struct BatchFailureView {
    pub path: Seq<char>,
    pub code: i32,
    pub message: Seq<char>,
    pub tokens: Seq<Seq<char>>,
}

impl View for BatchFailure {
    type V = BatchFailureView;

    open spec fn view(&self) -> BatchFailureView {
        BatchFailureView {
            path: self.path@,
            code: self.code,
            message: self.message@,
            tokens: views(self.tokens@),
        }
    }
}

/// The mathematical form of a list of reported failures.
pub open spec fn failure_views(list: Seq<BatchFailure>) -> Seq<BatchFailureView> {
    list.map_values(|f: BatchFailure| f@)
}

/// The tokens in the items that hold one, in their order.
pub open spec fn tokens_in(items: Seq<JsonView>) -> Seq<Seq<char>>
    decreases items.len(),
{
    if items.len() == 0 {
        Seq::empty()
    } else {
        let front = tokens_in(items.drop_last());
        match text_in(member(items.last(), "token"@)) {
            Some(token) => front.push(token),
            None => front,
        }
    }
}

/// The tokens in what describes a lock conflict: one item or an array of them.
pub open spec fn lock_tokens(data: Option<JsonView>) -> Seq<Seq<char>> {
    match data {
        Some(JsonView::Array(items)) => tokens_in(items),
        Some(item) => tokens_in(seq![item]),
        None => Seq::empty(),
    }
}

fn token_of(item: &Json) -> (r: Option<String>)
    ensures
        opt_view(r) == text_in(member(item@, "token"@)),
{
    match item.get("token") {
        Some(value) => match value.as_str() {
            Some(s) => Some(s.clone()),
            None => None,
        },
        None => None,
    }
}

/// The tokens in what describes a lock conflict: one item or an array of them.
pub fn conflict_tokens(data: Option<&Json>) -> (r: Vec<String>)
    ensures
        views(r@) == lock_tokens(opt_json(data)),
{
    broadcast use lemma_json_view;

    let mut r: Vec<String> = Vec::new();
    assert(views(r@) =~= Seq::empty());
    match data {
        None => r,
        Some(value) => match value {
            Json::Array(items) => {
                let ghost all = items_view(items@);
                let mut i: usize = 0;
                assert(all.take(0) =~= Seq::empty());
                while i < items.len()
                    invariant
                        i <= items@.len(),
                        all == items_view(items@),
                        views(r@) == tokens_in(all.take(i as int)),
                    decreases items@.len() - i,
                {
                    assert(all.take(i + 1).drop_last() =~= all.take(i as int));
                    assert(all.take(i + 1).last() == items@[i as int]@);
                    if let Some(token) = token_of(&items[i]) {
                        let ghost before = r@;
                        r.push(token);
                        assert(views(r@) =~= views(before).push(token@));
                    }
                    i += 1;
                }
                assert(all.take(all.len() as int) =~= all);
                r
            },
            _ => {
                let ghost single = seq![value@];
                assert(single.drop_last() =~= Seq::empty());
                assert(single.last() == value@);
                assert(tokens_in(single.drop_last()) =~= Seq::empty());
                if let Some(token) = token_of(value) {
                    r.push(token);
                    assert(views(r@) =~= Seq::empty().push(token@));
                }
                r
            },
        },
    }
}

/// A failure as it is reported.
pub open spec fn reported(item: ItemFailure) -> BatchFailureView {
    BatchFailureView {
        path: item.path@,
        code: match item.code {
            Some(c) => c,
            None => -1i32,
        },
        message: item.message@,
        tokens: lock_tokens(
            match item.data {
                Some(data) => Some(data@),
                None => None,
            },
        ),
    }
}

/// The failures as they are reported.
pub fn to_batch_failures(failures: &Vec<ItemFailure>) -> (r: Vec<BatchFailure>)
    ensures
        failure_views(r@) == failures@.map_values(|f: ItemFailure| reported(f)),
{
    let mut r: Vec<BatchFailure> = Vec::new();
    let ghost all = failures@.map_values(|f: ItemFailure| reported(f));
    let mut i: usize = 0;
    while i < failures.len()
        invariant
            i <= failures@.len(),
            all == failures@.map_values(|f: ItemFailure| reported(f)),
            failure_views(r@) == all.take(i as int),
        decreases failures@.len() - i,
    {
        let item = &failures[i];
        let code: i32 = match item.code {
            Some(c) => c,
            None => -1i32,
        };
        let failure = BatchFailure {
            path: item.path.clone(),
            code,
            message: item.message.clone(),
            tokens: conflict_tokens(item.data.as_ref()),
        };
        let ghost before = r@;
        r.push(failure);
        assert(failure_views(r@) =~= failure_views(before).push(failure@));
        assert(all.take(i + 1) =~= all.take(i as int).push(reported(failures@[i as int])));
        i += 1;
    }
    assert(all.take(all.len() as int) =~= all);
    r
}

/// The failure of a path in a batch that failed as a whole.
pub open spec fn failed_whole(path: Seq<char>, err: ApiError) -> BatchFailureView {
    BatchFailureView {
        path,
        code: match err.spec_code() {
            Some(c) => c,
            None => -1i32,
        },
        message: match err.spec_message() {
            Some(m) => m,
            None => "operation failed"@,
        },
        tokens: Seq::empty(),
    }
}

/// The outcome of a batch that failed as a whole: every path failed, for the same reason.
pub fn batch_outcome_all_failed(paths: &Vec<String>, err: &ApiError) -> (r: BatchOutcome)
    ensures
        r.succeeded == 0,
        failure_views(r.failed@) == views(paths@).map_values(
            |p: Seq<char>| failed_whole(p, *err),
        ),
{
    let code: i32 = match err.code() {
        Some(c) => c,
        None => -1i32,
    };
    let message = match err.message() {
        Some(m) => m.clone(),
        None => "operation failed".to_string(),
    };
    let mut failed: Vec<BatchFailure> = Vec::new();
    let ghost all = views(paths@).map_values(|p: Seq<char>| failed_whole(p, *err));
    let mut i: usize = 0;
    while i < paths.len()
        invariant
            i <= paths@.len(),
            all == views(paths@).map_values(|p: Seq<char>| failed_whole(p, *err)),
            code == failed_whole(Seq::empty(), *err).code,
            message@ == failed_whole(Seq::empty(), *err).message,
            failure_views(failed@) == all.take(i as int),
        decreases paths@.len() - i,
    {
        let failure = BatchFailure {
            path: paths[i].clone(),
            code,
            message: message.clone(),
            tokens: Vec::new(),
        };
        assert(views(failure.tokens@) =~= Seq::empty());
        let ghost before = failed@;
        failed.push(failure);
        assert(failure_views(failed@) =~= failure_views(before).push(failure@));
        assert(all.take(i + 1) =~= all.take(i as int).push(
            failed_whole(paths@[i as int]@, *err),
        ));
        i += 1;
    }
    assert(all.take(all.len() as int) =~= all);
    BatchOutcome { succeeded: 0, failed }
}

/// Whether a batch failed because the login has expired: something failed, and every failure
/// says so.
pub open spec fn all_expired(failures: Seq<ItemFailure>) -> bool {
    failures.len() > 0 && forall|i: int|
        0 <= i < failures.len() ==> auth_expired(
            match (#[trigger] failures[i]).code {
                Some(c) => c,
                None => 0,
            },
            failures[i].message@,
        )
}

/// Whether a batch failed because the login has expired.
pub fn batch_auth_expired(failures: &Vec<ItemFailure>) -> (r: bool)
    ensures
        r == all_expired(failures@),
{
    if failures.len() == 0 {
        return false;
    }
    let mut i: usize = 0;
    while i < failures.len()
        invariant
            i <= failures@.len(),
            forall|j: int|
                0 <= j < i ==> auth_expired(
                    match (#[trigger] failures@[j]).code {
                        Some(c) => c,
                        None => 0,
                    },
                    failures@[j].message@,
                ),
        decreases failures@.len() - i,
    {
        let code: i32 = match failures[i].code {
            Some(c) => c,
            None => 0,
        };
        if !v4_auth_expired(code, failures[i].message.as_str()) {
            assert(!auth_expired(
                match failures@[i as int].code {
                    Some(c) => c,
                    None => 0,
                },
                failures@[i as int].message@,
            ));
            return false;
        }
        i += 1;
    }
    true
}

/// The files and then the directories of a request, in one list.
pub fn all_paths(items: &Vec<String>, dirs: &Vec<String>) -> (r: Vec<String>)
    ensures
        views(r@) == views(items@) + views(dirs@),
{
    let mut r: Vec<String> = Vec::new();
    let mut i: usize = 0;
    while i < items.len()
        invariant
            i <= items@.len(),
            views(r@) == views(items@).take(i as int),
        decreases items@.len() - i,
    {
        let ghost before = r@;
        r.push(items[i].clone());
        assert(views(r@) =~= views(before).push(items@[i as int]@));
        assert(views(items@).take(i + 1) =~= views(items@).take(i as int).push(
            items@[i as int]@,
        ));
        i += 1;
    }
    let mut j: usize = 0;
    assert(views(items@).take(items@.len() as int) =~= views(items@));
    assert(views(r@) =~= views(items@) + views(dirs@).take(0));
    while j < dirs.len()
        invariant
            j <= dirs@.len(),
            views(r@) == views(items@) + views(dirs@).take(j as int),
        decreases dirs@.len() - j,
    {
        let ghost before = r@;
        r.push(dirs[j].clone());
        assert(views(r@) =~= views(before).push(dirs@[j as int]@));
        assert(views(r@) =~= views(items@) + views(dirs@).take(j + 1));
        j += 1;
    }
    assert(views(dirs@).take(dirs@.len() as int) =~= views(dirs@));
    r
}

/// The error by which a batch is reported where it is reported as a whole: the expired login, or
/// the first failure.
pub fn first_failure(failures: &Vec<ItemFailure>) -> (r: Result<(), ApiError>)
    ensures
        r is Ok <==> failures@.len() == 0,
        r matches Err(e) ==> e.wf() && if all_expired(failures@) {
            e.kind matches ErrorKind::Unauthorized(m) && m@ == "Login required"@
        } else {
            e.kind matches ErrorKind::Api { code, message } && code == reported(
                failures@[0],
            ).code && message@ == failures@[0].message@
        },
{
    if batch_auth_expired(failures) {
        return Err(ApiError::unauthorized("Login required".to_string()));
    }
    if failures.len() == 0 {
        Ok(())
    } else {
        let code: i32 = match failures[0].code {
            Some(c) => c,
            None => -1i32,
        };
        Err(ApiError::api(code, failures[0].message.clone()))
    }
}

/// The outcome of a batch in which nothing was asked for.
pub fn empty_outcome() -> (r: BatchOutcome)
    ensures
        r.succeeded == 0,
        r.failed@.len() == 0,
{
    BatchOutcome { succeeded: 0, failed: Vec::new() }
}

/// The outcome of a batch that the server takes or refuses as a whole.
pub fn whole_outcome(all: &Vec<String>, result: Result<(), ApiError>) -> (r: BatchOutcome)
    ensures
        match result {
            Ok(_) => r.succeeded == all@.len() as u32 && r.failed@.len() == 0,
            Err(e) => r.succeeded == 0 && failure_views(r.failed@) == views(all@).map_values(
                |p: Seq<char>| failed_whole(p, e),
            ),
        },
{
    match result {
        Ok(_) => BatchOutcome { succeeded: all.len() as u32, failed: Vec::new() },
        Err(e) => batch_outcome_all_failed(all, &e),
    }
}

/// The outcome of a batch that the server answers item by item; an error where it says that the
/// login has expired.
pub fn itemized_outcome(succeeded: usize, failures: &Vec<ItemFailure>) -> (r: Result<
    BatchOutcome,
    ApiError,
>)
    ensures
        r is Err <==> all_expired(failures@),
        r matches Err(e) ==> e.wf() && (e.kind matches ErrorKind::Unauthorized(m) && m@
            == "Login required"@),
        r matches Ok(outcome) ==> outcome.succeeded == succeeded as u32 && failure_views(
            outcome.failed@,
        ) == failures@.map_values(|f: ItemFailure| reported(f)),
{
    if batch_auth_expired(failures) {
        return Err(ApiError::unauthorized("Login required".to_string()));
    }
    Ok(BatchOutcome { succeeded: succeeded as u32, failed: to_batch_failures(failures) })
}

/// In a batch that failed as a whole every path is reported, in the order of the request, and
/// none as done.
pub proof fn law_whole_failure_reports_every_path(
    paths: Seq<Seq<char>>,
    err: ApiError,
    failed: Seq<BatchFailureView>,
)
    requires
        failed == paths.map_values(|p: Seq<char>| failed_whole(p, err)),
    ensures
        failed.map_values(|f: BatchFailureView| f.path) == paths,
        forall|i: int, j: int|
            0 <= i < failed.len() && 0 <= j < failed.len() ==> (#[trigger] failed[i]).message == (
            #[trigger] failed[j]).message && failed[i].code == failed[j].code,
{
    assert(failed.map_values(|f: BatchFailureView| f.path) =~= paths);
}

/// A lock that is described by itself has the same tokens as one that is described in a list.
pub proof fn law_single_conflict_is_a_list_of_one(item: JsonView)
    requires
        !(item is Array),
    ensures
        lock_tokens(Some(item)) == lock_tokens(Some(JsonView::Array(seq![item]))),
{
}

} // verus!
