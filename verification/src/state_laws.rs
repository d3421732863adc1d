//! What the operations that keep something do to it, one call after the other.
use crate::directory::{directory_chain, DirectoryAction, DirectoryEvent, DirectoryWalk};
use crate::json::{items_view, Json, JsonView};
use crate::listing::{get_directory, ApiDirectoryInfo, RemoteFile, StoragePolicy};
use crate::listing_laws::{
    law_listing_keeps_the_order_of_the_server, law_policy_is_shown,
    law_search_ends_only_for_a_reason,
};
use crate::lookup::next_token_in;
use crate::path::{child_of, parent_of, unix_path, uri_of_path, uri_of_search};
use crate::search::{
    distinct_ids, has_result, law_page_adds_each_path_once, law_search_result_is_sorted,
    result_of, result_views, ApiSearchObjectInfo, Search, SearchRequest,
};
use crate::session::{
    without_prefix, Client, Credential, RestorePlan, RetryRule, Run, RunAction, RunEvent, Session,
    StageView, Tokens,
};
use crate::share::{unified_share, v3_items, ShareList, V3ShareList};
use crate::share_laws::{law_page_is_asked_for_by_its_token, law_v3_list_ends_only_for_a_reason};
use crate::text::{digits, has_suffix, opt_view, text_before, views};
use crate::upload::{
    v4_upload_request, ChunkStream, ReadEvent, StreamStep, V4UploadRequest,
};
use vstd::prelude::*;

verus! {

broadcast use vstd::string::group_string_axioms;

/// What is set is kept, and nothing else changes with it.
pub proof fn law_what_is_set_is_kept(
    of_client: &mut Session,
    client: Client,
    of_token: &mut Session,
    token: Option<String>,
    of_policy: &mut Session,
    policy: Option<String>,
)
    requires
        call_ensures(Session::set_client, (of_client, client), ()),
        call_ensures(Session::set_v4_refresh, (of_token, token), ()),
        call_ensures(Session::set_v4_policy_id, (of_policy, policy), ()),
    ensures
        final(of_client)@.client == Some(client@),
        final(of_client)@.refresh_token == old(of_client)@.refresh_token,
        final(of_client)@.policy_id == old(of_client)@.policy_id,
        final(of_client)@.refreshed == old(of_client)@.refreshed,
        final(of_token)@.refresh_token == opt_view(token),
        final(of_token)@.client == old(of_token)@.client,
        final(of_token)@.policy_id == old(of_token)@.policy_id,
        final(of_token)@.refreshed == old(of_token)@.refreshed,
        final(of_policy)@.policy_id == opt_view(policy),
        final(of_policy)@.client == old(of_policy)@.client,
        final(of_policy)@.refresh_token == old(of_policy)@.refresh_token,
        final(of_policy)@.refreshed == old(of_policy)@.refreshed,
{
}

/// After a silent refresh the tokens are handed out once, as the access token, the refresh token
/// and when that expires; asked again, nothing is handed out.
pub proof fn law_refreshed_tokens_come_out_once(
    refreshed: &mut Session,
    tokens: Tokens,
    result: Result<(), String>,
    first: &mut Session,
    out: Vec<String>,
    second: &mut Session,
    again: Vec<String>,
)
    requires
        call_ensures(Session::do_v4_refresh, (refreshed, Ok(tokens)), result),
        old(refreshed)@.client is Some,
        old(first)@ == final(refreshed)@,
        call_ensures(Session::take_refreshed_session, (first,), out),
        old(second)@ == final(first)@,
        call_ensures(Session::take_refreshed_session, (second,), again),
    ensures
        result is Ok,
        out@.len() == 3,
        out@[0]@ == tokens.access@,
        out@[1]@ == tokens.refresh@,
        out@[2]@ == tokens.refresh_expires@,
        again@.len() == 0,
        final(second)@.refresh_token == Some(tokens.refresh@),
        old(refreshed)@.client->0.is_v4 ==> final(second)@.client->0.token == Some(tokens.access@),
        final(second)@.policy_id == old(refreshed)@.policy_id,
{
    assert(views(out@).len() == out@.len());
    assert(views(again@).len() == again@.len());
    assert(views(out@)[0] == out@[0]@);
    assert(views(out@)[1] == out@[1]@);
    assert(views(out@)[2] == out@[2]@);
}

/// A silent refresh that fails changes nothing.
pub proof fn law_failed_refresh_changes_nothing(
    session: &mut Session,
    error: String,
    result: Result<(), String>,
)
    requires
        call_ensures(Session::do_v4_refresh, (session, Err(error)), result),
    ensures
        final(session)@ == old(session)@,
        result matches Err(reason) && has_suffix(reason@, error@),
{
    crate::text_laws::law_occurrence("Token refresh failed: "@, error@, Seq::empty());
}

/// A saved session is restored with its credential, without the prefix that tells its version, and
/// on version 4 with its refresh token, where it has one. What a refresh of another account left is
/// dropped, and the rest stays.
pub proof fn law_saved_session_is_restored(
    session: &mut Session,
    access: &str,
    refresh: &str,
    is_v3: bool,
    plan: RestorePlan,
    after: &mut Session,
)
    requires
        call_ensures(Session::restore_session, (session, access, refresh, is_v3), plan),
        old(after)@ == final(session)@,
        call_ensures(Session::restored, (after, &plan), ()),
    ensures
        is_v3 ==> (plan.credential matches Credential::Cookie(value) && value@ == without_prefix(
            access@,
            "cloudreve-session="@,
        )),
        !is_v3 ==> (plan.credential matches Credential::Token(value) && value@ == without_prefix(
            access@,
            "v4:"@,
        )),
        !is_v3 && refresh@.len() > 0 ==> final(after)@.refresh_token == Some(refresh@),
        is_v3 || refresh@.len() == 0 ==> final(after)@.refresh_token == old(session)@.refresh_token,
        final(after)@.refreshed is None,
        final(after)@.client == old(session)@.client,
        final(after)@.policy_id == old(session)@.policy_id,
{
    if !is_v3 && refresh@.len() > 0 {
        assert(opt_view(plan.refresh_token) == Some(refresh@));
    }
}

/// A login on version 4 gives the tokens of the response and keeps its refresh token, even where
/// the user could not be had; one on version 3 gives the session cookie and keeps nothing.
pub proof fn law_login_keeps_the_refresh_token(
    session: &mut Session,
    is_v3: bool,
    cookie: String,
    tokens: Tokens,
    user: Result<String, String>,
    r: Result<Vec<String>, String>,
)
    requires
        call_ensures(Session::logged_in, (session, is_v3, Some(cookie), Some(tokens), user), r),
    ensures
        r is Ok <==> user is Ok,
        user matches Err(reason) ==> (r matches Err(e) && e@ == reason@),
        is_v3 ==> final(session)@ == old(session)@,
        !is_v3 ==> final(session)@.refresh_token == Some(tokens.refresh@) && final(session)@.client
            == old(session)@.client && final(session)@.policy_id == old(session)@.policy_id,
        r matches Ok(v) ==> v@.len() == 5 && v@[0]@ == user->Ok_0@,
        !is_v3 ==> (r matches Ok(v) ==> v@[1]@ == tokens.access@ && v@[2]@ == tokens.refresh@
            && v@[3]@ == "v4"@ && v@[4]@ == tokens.refresh_expires@),
        is_v3 ==> (r matches Ok(v) ==> v@[1]@ == cookie@ && v@[2]@.len() == 0 && v@[3]@ == "v3"@
            && v@[4]@.len() == 0),
{
    if let Ok(v) = r {
        assert(views(v@).len() == v@.len());
        assert(views(v@)[0] == v@[0]@);
        assert(views(v@)[1] == v@[1]@);
        assert(views(v@)[2] == v@[2]@);
        assert(views(v@)[3] == v@[3]@);
        assert(views(v@)[4] == v@[4]@);
    }
}

/// A login by refresh token gives the new tokens and keeps the new refresh token; a user that could
/// not be had is an empty object.
pub proof fn law_login_by_refresh_token(
    session: &mut Session,
    tokens: Tokens,
    user: Option<String>,
    v: Vec<String>,
)
    requires
        call_ensures(Session::login_with_refresh_token, (session, tokens, user), v),
    ensures
        v@.len() == 5,
        user matches Some(json) ==> v@[0]@ == json@,
        user is None ==> v@[0]@ == "{}"@,
        v@[1]@ == tokens.access@,
        v@[2]@ == tokens.refresh@,
        v@[3]@ == "v4"@,
        v@[4]@ == tokens.refresh_expires@,
        final(session)@.refresh_token == Some(tokens.refresh@),
        final(session)@.client == old(session)@.client,
{
    assert(views(v@).len() == v@.len());
    assert(views(v@)[0] == v@[0]@);
    assert(views(v@)[1] == v@[1]@);
    assert(views(v@)[2] == v@[2]@);
    assert(views(v@)[3] == v@[3]@);
    assert(views(v@)[4] == v@[4]@);
}

/// A directory is shown with an object for each file, in the server's order, with the file's size;
/// and with the storage policy that the server reports, which is kept.
pub proof fn law_directory_is_shown(
    session: &mut Session,
    files: Vec<RemoteFile>,
    parent: &str,
    policy: Option<StoragePolicy>,
    r: ApiDirectoryInfo,
)
    requires
        call_ensures(get_directory, (session, &files, parent, &policy), r),
    ensures
        r.parent@ == unix_path(parent@),
        r.objects@.len() == files@.len(),
        forall|i: int|
            0 <= i < files@.len() ==> (#[trigger] r.objects@[i]).size == files@[i].size
                && r.objects@[i].name@ == files@[i].name@ && r.objects@[i].id@ == unix_path(
                files@[i].path@,
            ),
        policy matches Some(p) ==> r.policy.id@ == p.id@ && r.policy.name@ == p.name@
            && r.policy.policy_type@ == p.policy_type@ && final(session)@.policy_id == Some(p.id@),
        policy is None ==> final(session)@ == old(session)@,
        final(session)@.client == old(session)@.client,
        final(session)@.refresh_token == old(session)@.refresh_token,
{
    law_listing_keeps_the_order_of_the_server(files@, r.objects@);
    if let Some(p) = policy {
        law_policy_is_shown(p, r.policy);
    }
}

/// The request of version 4 for an upload session is for the file that is uploaded: its place,
/// size, type and time, and the storage policy of its directory; an upload in chunks makes a new
/// version.
pub proof fn law_v4_request_is_for_the_file(
    session: &mut Session,
    path: &str,
    name: &str,
    resolved: Option<String>,
    size: u64,
    last_modified: i64,
    mime_type: String,
    chunk_size: u32,
    r: V4UploadRequest,
)
    requires
        call_ensures(
            v4_upload_request,
            (session, path, name, resolved, size, last_modified, mime_type, chunk_size),
            r,
        ),
    ensures
        r.uri@ == uri_of_path(child_of(parent_of(path@), name@)),
        r.size == size,
        resolved matches Some(id) ==> r.policy_id@ == id@,
        last_modified > 0 ==> r.last_modified == Some(last_modified as u64),
        last_modified <= 0 ==> r.last_modified is None,
        mime_type@.len() > 0 ==> (r.mime_type matches Some(m) && m@ == mime_type@),
        mime_type@.len() == 0 ==> r.mime_type is None,
        chunk_size > 0 ==> (r.entity_type matches Some(word) && word@ == "version"@),
        chunk_size == 0 ==> r.entity_type is None,
        r.policy_id@.len() > 0 ==> final(session)@.policy_id == Some(r.policy_id@),
        r.policy_id@.len() == 0 ==> final(session)@ == old(session)@,
        final(session)@.client == old(session)@.client,
        final(session)@.refresh_token == old(session)@.refresh_token,
{
    if mime_type@.len() == 0 {
        assert(opt_view(r.mime_type) is None);
    }
    if chunk_size == 0 {
        assert(opt_view(r.entity_type) is None);
    }
}

/// An upload for which no storage policy is found uses that of the directory that was listed last.
pub proof fn law_upload_uses_the_policy_that_was_seen(
    listing: &mut Session,
    files: Vec<RemoteFile>,
    parent: &str,
    policy: StoragePolicy,
    shown: ApiDirectoryInfo,
    upload: &mut Session,
    path: &str,
    name: &str,
    size: u64,
    last_modified: i64,
    mime_type: String,
    chunk_size: u32,
    r: V4UploadRequest,
)
    requires
        call_ensures(get_directory, (listing, &files, parent, &Some(policy)), shown),
        old(upload)@ == final(listing)@,
        call_ensures(
            v4_upload_request,
            (upload, path, name, None, size, last_modified, mime_type, chunk_size),
            r,
        ),
    ensures
        r.policy_id@ == policy.id@,
{
}

/// A search begins on its first page, for the keyword below the path and in any case of letters,
/// and asks for 2000 results at a time, the latest first.
pub proof fn law_search_begins(keyword: &str, path: &str, search: Search, request: SearchRequest)
    requires
        call_ensures(Search::new, (keyword, path), search),
        call_ensures(Search::request, (&search,), request),
    ensures
        search.wf(),
        search@.found.len() == 0,
        request.uri@ == uri_of_search(path@, keyword@, true),
        request.page == 0,
        request.page_size == 2000,
        request.next_page_token is None,
        request.order_by@ == "updated_at"@,
        request.order_direction@ == "desc"@,
{
    assert(opt_view(request.next_page_token) is None);
}

/// A page adds to a search the files whose paths it had not found, and changes nothing of what it
/// had found; the next page is asked for by number and token. A search goes on unless a page has
/// fewer than 2000 files, names no next page, brings nothing new, or is the hundredth.
pub proof fn law_page_of_a_search(
    search: &mut Search,
    files: Vec<RemoteFile>,
    token: Option<String>,
    more: bool,
    request: SearchRequest,
)
    requires
        old(search).wf(),
        files@.len() <= u32::MAX,
        call_ensures(Search::take_page, (search, &files, token), more),
        call_ensures(Search::request, (final(search),), request),
    ensures
        final(search).wf(),
        old(search)@.found.len() <= final(search)@.found.len(),
        final(search)@.found.take(old(search)@.found.len() as int) == old(search)@.found,
        forall|i: int|
            0 <= i < files@.len() ==> has_result(
                final(search)@.found,
                unix_path((#[trigger] files@[i]).path@),
            ),
        more ==> request.page == old(search)@.page + 1,
        opt_view(request.next_page_token) == opt_view(token),
        request.uri@ == old(search)@.address,
        more ==> files@.len() >= 2000 && token is Some,
        !more && old(search)@.page < 99 && files@.len() >= 2000 && token is Some ==> forall|i: int|
            0 <= i < files@.len() ==> has_result(
                old(search)@.found,
                result_of(#[trigger] files@[i]).id,
            ),
{
    let page = crate::search::SearchPage { files: files@, next_token: opt_view(token) };
    crate::search::law_search_stays_within_its_pages(*old(search));
    law_search_ends_only_for_a_reason(old(search)@, page);
    law_page_adds_each_path_once(old(search)@.found, files@);
    assert forall|i: int| 0 <= i < files@.len() implies has_result(
        final(search)@.found,
        unix_path((#[trigger] files@[i]).path@),
    ) by {
        assert(has_result(final(search)@.found, result_of(files@[i]).id));
    }
}

/// A search gives all that it found, each path once, and no later date behind an earlier one.
pub proof fn law_results_of_a_search(search: Search, r: Vec<ApiSearchObjectInfo>)
    requires
        search.wf(),
        call_ensures(Search::finish, (&search,), r),
    ensures
        r@.len() == search@.found.len(),
        forall|i: int|
            0 <= i < search@.found.len() ==> result_views(r@).contains(
                #[trigger] search@.found[i],
            ),
        distinct_ids(result_views(r@)),
        forall|a: int, b: int|
            0 <= a < b < r@.len() ==> !text_before(
                (#[trigger] r@[a]).date@,
                (#[trigger] r@[b]).date@,
            ),
{
    crate::search::law_search_stays_within_its_pages(search);
    let views = result_views(r@);
    law_search_result_is_sorted(search@.found, views);
    assert(views.len() == r@.len());
    assert forall|a: int, b: int| 0 <= a < b < r@.len() implies !text_before(
        (#[trigger] r@[a]).date@,
        (#[trigger] r@[b]).date@,
    ) by {
        assert(views[a].date == r@[a].date@ && views[b].date == r@[b].date@);
    }
}

/// A page adds its shares, in their order, to a list of version 3, and changes nothing of what the
/// list had; the list goes on to the following page unless the page was empty or the hundredth.
pub proof fn law_page_of_the_v3_shares(
    list: &mut V3ShareList,
    answer: Json,
    base_url: &str,
    more: bool,
    endpoint: String,
)
    requires
        old(list).wf(),
        call_ensures(V3ShareList::take_page, (list, &answer, base_url), more),
        call_ensures(V3ShareList::endpoint, (final(list),), endpoint),
    ensures
        ({
            let before = old(list).found();
            let after = final(list).found();
            let items = v3_items(answer@);
            &&& after.len() == before.len() + items.len()
            &&& forall|i: int| 0 <= i < before.len() ==> #[trigger] after[i] == before[i]
            &&& forall|i: int|
                0 <= i < items.len() ==> after[before.len() + i] == unified_share(
                    #[trigger] items[i],
                    base_url@,
                )
            &&& more <==> items.len() > 0 && old(list).at_page() < 100
            &&& more ==> endpoint@ == "/share?page="@ + digits((old(list).at_page() + 1) as nat)
                + "&order_by=created_at&order=DESC"@
        }),
{
    law_v3_list_ends_only_for_a_reason(old(list)@, answer@, base_url@);
    let before = old(list).found();
    let after = final(list).found();
    let items = v3_items(answer@);
    let shown = crate::share::v3_shares(answer@, base_url@);
    assert(after == before + shown);
    assert forall|i: int| 0 <= i < items.len() implies after[before.len() + i] == unified_share(
        #[trigger] items[i],
        base_url@,
    ) by {
        assert(shown[i] == unified_share(items[i], base_url@));
    }
}

/// A page adds its shares, in their order, to a list of version 4; the list goes on with the token
/// that the page names, unless it names none or the one it was asked for by, or it is the
/// hundredth.
pub proof fn law_page_of_the_shares(
    list: &mut ShareList,
    shares: Vec<Json>,
    data: Json,
    more: bool,
    endpoint: String,
)
    requires
        old(list).wf(),
        call_ensures(ShareList::take_page, (list, shares, &data), more),
        call_ensures(ShareList::endpoint, (final(list),), endpoint),
    ensures
        final(list).found() == old(list).found() + items_view(shares@),
        more <==> next_token_in(data@) is Some && next_token_in(data@) != old(list).next_token()
            && old(list).taken() < 99,
        more ==> endpoint@ == "/share?page_size=100"@ + "&next_page_token="@
            + crate::query::query_component(next_token_in(data@)->0),
{
    if let Some(token) = next_token_in(data@) {
        law_page_is_asked_for_by_its_token(token);
    }
}

/// A list of shares begins empty, on its first page, and gives what it has taken in.
pub proof fn law_lists_of_shares_begin_empty(
    list: ShareList,
    endpoint: String,
    older: V3ShareList,
    older_endpoint: String,
    full: ShareList,
    given: Json,
    older_full: V3ShareList,
    older_given: Json,
)
    requires
        call_ensures(ShareList::new, (), list),
        call_ensures(ShareList::endpoint, (&list,), endpoint),
        call_ensures(V3ShareList::new, (), older),
        call_ensures(V3ShareList::endpoint, (&older,), older_endpoint),
        call_ensures(ShareList::finish, (full,), given),
        call_ensures(V3ShareList::finish, (older_full,), older_given),
    ensures
        list.found().len() == 0,
        endpoint@ == "/share?page_size=100"@,
        older.found().len() == 0,
        older_endpoint@ == "/share?page="@ + digits(1) + "&order_by=created_at&order=DESC"@,
        given@ == JsonView::Array(full.found()),
        older_given@ == JsonView::Array(older_full.found()),
{
}

/// A walk begins with all the directories on the way; one that was had leaves the walk and the next
/// one is listed, one that could not be listed is created, and the walk ends with the last one had
/// or with the error of one that could not be created.
pub proof fn law_walk_goes_down_the_way(
    dir: &str,
    begun: DirectoryWalk,
    walk: &mut DirectoryWalk,
    event: DirectoryEvent,
    action: DirectoryAction,
)
    requires
        call_ensures(DirectoryWalk::new, (dir,), begun),
        old(walk).wf(),
        old(walk).left().len() > 0,
        call_ensures(DirectoryWalk::next, (walk, event), action),
    ensures
        begun.left() == directory_chain(dir@),
        event is Listed || event is Created ==> final(walk).left() == old(walk).left().drop_first(),
        event is Start || event is NotListed || event is NotCreated
            ==> final(walk).left() == old(walk).left(),
        event is NotListed
            ==> (action matches DirectoryAction::Create(path) && path@ == old(walk).left()[0]),
        event matches DirectoryEvent::NotCreated(error) ==> action == DirectoryAction::Fail(error),
        event is Start
            ==> (action matches DirectoryAction::List(path) && path@ == old(walk).left()[0]),
        (event is Listed || event is Created) && old(walk).left().len() > 1 ==> (
        action matches DirectoryAction::List(path) && path@ == old(walk).left()[1]),
        (event is Listed || event is Created) && old(walk).left().len() == 1 ==> action is Done,
{
}

/// A stream begins with the whole chunk to read. What is read is sent and leaves so much less to
/// read; a report says how much was sent in all. A failed reading ends the stream.
pub proof fn law_stream_goes_on(
    length: u64,
    begun: ChunkStream,
    stream: &mut ChunkStream,
    event: ReadEvent,
    step: StreamStep,
    size: Option<u64>,
)
    requires
        call_ensures(ChunkStream::new, (length,), begun),
        old(stream)@.wf(),
        old(stream)@.allows(event),
        call_ensures(ChunkStream::step, (stream, event), step),
        call_ensures(ChunkStream::read_size, (final(stream),), size),
    ensures
        begun@.left == length && begun@.sent == 0 && begun@.reported == 0 && !begun@.failed,
        event matches ReadEvent::Read(n) ==> final(stream)@.sent == old(stream)@.sent + n
            && final(stream)@.left == old(stream)@.left - n,
        event matches ReadEvent::Read(n) ==> (n > 0 <==> step is Send),
        event is Failed <==> step is Fail,
        step matches StreamStep::Send(Some(total)) ==> total == final(stream)@.sent,
        event is Failed ==> size is None,
        size is None <==> final(stream)@.left == 0,
        size matches Some(n) ==> n <= final(stream)@.left && n <= 262144,
{
}

/// A request begins by being made where there is a client. A first failure by an expired login on
/// version 4 sets off a refresh, after which the request is made once more; what it gives then is
/// final.
pub proof fn law_run_goes_on(
    rule: RetryRule,
    begun: Run,
    run: &mut Run,
    event: RunEvent,
    action: RunAction,
)
    requires
        call_ensures(Run::new, (rule,), begun),
        crate::session::expects(old(run).at(), event@),
        call_ensures(Run::run_api_with_v4_refresh, (run, event), action),
    ensures
        begun.retries() == rule && begun.at() == StageView::Idle,
        final(run).retries() == old(run).retries(),
        event == RunEvent::Start(true) ==> action is Call && final(run).at() is First,
        event == RunEvent::Start(false) ==> action is Fail && final(run).at() is Over,
        event is Succeeded ==> action is Return && final(run).at() is Over,
        event is Refreshed ==> action is Call && final(run).at() is Second,
        event matches RunEvent::Failed(failure, is_v4) ==> (action is Refresh
            <==> old(run).at() is First && is_v4 && (old(run).retries() is OnAnyFailure
            || failure.unauthorized)),
        event matches RunEvent::Failed(failure, is_v4) ==> (action matches RunAction::Fail(reason)
            ==> reason@ == failure.reason@ && final(run).at() is Over),
        event matches RunEvent::NotRefreshed(reason) ==> (old(run).retries() is OnUnauthorized ==> (
        action matches RunAction::Fail(given) && given@ == reason@)),
        event is NotRefreshed ==> action is Fail && final(run).at() is Over,
{
}

} // verus!
