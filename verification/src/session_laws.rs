//! What holds of the session, of errors and of batches as a whole.
use crate::batch::{
    all_expired, failed_whole, failure_views, lock_tokens, reported, tokens_in, BatchFailure,
    ItemFailure,
};
use crate::errors::{
    auth_expired, described, hides_expiry, is_normalized, some_item_expired, ApiError, ErrorKind,
};
use crate::json::{member, text_in, JsonView};
use crate::logger::{record_message, system_level, Level, LOG_APP, DOMAIN};
use crate::session::{
    address, after_answer, cookie_line, handed_out, login_result, login_tokens, opt_client,
    opt_tokens, outcome_view, refresh_question, sets_off_refresh, tokens_or_empty, version_word,
    with_nothing_refreshed, with_policy, with_tokens, without_prefix, ActionView, Client,
    ClientView, EventView, Failure, FailureView, RetryRule, RunAction, RunEvent, SessionView,
    Tokens, TokensView,
};
use crate::text::{
    ascii_lower_text, contains_text, has_prefix, has_suffix, occurs_at, trim_end, views, CharClass,
};
use crate::text_laws::law_occurrence;
use vstd::prelude::*;

verus! {

broadcast use vstd::string::group_string_axioms;

/// The address of something on the server is the server's address followed by it, without slashes
/// at the end of the server's address.
pub proof fn law_address_of_the_server(base_url: Seq<char>, rest: Seq<char>)
    ensures
        base_url.len() > 0 && base_url.last() != '/' ==> address(base_url, rest) == base_url + rest,
        address(base_url.push('/'), rest) == address(base_url, rest),
        address(Seq::empty(), rest) == rest,
        address(base_url, rest) == address(base_url, Seq::empty()) + rest,
{
    let longer = base_url.push('/');
    assert(longer.drop_last() =~= base_url);
    assert(trim_end(longer, CharClass::Only('/')) == trim_end(base_url, CharClass::Only('/')));
    assert(trim_end(Seq::<char>::empty(), CharClass::Only('/')) =~= Seq::empty());
    assert(Seq::<char>::empty() + rest =~= rest);
    assert(address(base_url, Seq::empty()) + rest =~= address(base_url, rest));
}

/// A failure sets off a silent refresh only on version 4: there any failure under `OnAnyFailure`,
/// and under `OnUnauthorized` exactly one that says that the login has expired.
pub proof fn law_what_sets_off_a_refresh(failure: FailureView)
    ensures
        forall|rule: RetryRule| !#[trigger] sets_off_refresh(rule, failure, false),
        sets_off_refresh(RetryRule::OnAnyFailure, failure, true),
        sets_off_refresh(RetryRule::OnUnauthorized, failure, true) <==> failure.unauthorized,
{
}

/// New tokens replace those of a client of version 4 and change nothing else of it; a client of
/// version 3 has none and stays as it is.
pub proof fn law_client_takes_the_new_tokens(client: ClientView, tokens: TokensView)
    ensures
        client.is_v4 ==> with_tokens(client, tokens).token == Some(tokens.access) && with_tokens(
            client,
            tokens,
        ).refresh_token == Some(tokens.refresh),
        with_tokens(client, tokens).base_url == client.base_url,
        with_tokens(client, tokens).is_v4 == client.is_v4,
        !client.is_v4 ==> with_tokens(client, tokens) == client,
{
}

/// A silent refresh asks the server of the client with the refresh token that is kept, and does not
/// ask where one of them is missing.
pub proof fn law_refresh_asks_with_what_is_kept(session: SessionView)
    ensures
        session.refresh_token matches Some(token) ==> (session.client matches Some(client)
            ==> refresh_question(session) == Ok::<(Seq<char>, Seq<char>), Seq<char>>(
            (client.base_url, token),
        )),
        refresh_question(session) is Ok <==> session.refresh_token is Some
            && session.client is Some,
        session.refresh_token is None ==> refresh_question(session) == Err::<
            (Seq<char>, Seq<char>),
            Seq<char>,
        >("Unauthorized: no refresh token stored"@),
        session.refresh_token is Some && session.client is None ==> refresh_question(session)
            == Err::<(Seq<char>, Seq<char>), Seq<char>>("not initialized: call init() first"@),
{
}

/// A silent refresh succeeds exactly where the server gave tokens and there is a client for them;
/// it changes the session only then, and then leaves the storage policy as it was.
pub proof fn law_refresh_changes_the_tokens_alone(
    session: SessionView,
    answer: Result<TokensView, Seq<char>>,
)
    ensures
        ({
            let (after, result) = after_answer(session, answer);
            &&& result is Ok <==> answer is Ok && session.client is Some
            &&& result is Err ==> after == session
            &&& result is Ok ==> after.refresh_token == Some(answer->Ok_0.refresh)
                && after.refreshed == Some(answer->Ok_0) && after.policy_id == session.policy_id
                && after.client == Some(with_tokens(session.client->0, answer->Ok_0))
            &&& answer matches Err(error) ==> result == Err::<(), Seq<char>>(
                "Token refresh failed: "@ + error,
            )
            &&& answer is Ok && session.client is None ==> result == Err::<(), Seq<char>>(
                "not initialized: call init() first"@,
            )
        }),
{
}

/// The tokens that wait are handed out as the access token, the refresh token and when that
/// expires; handing them out leaves the rest of the session as it was.
pub proof fn law_waiting_tokens_are_handed_out(session: SessionView)
    ensures
        session.refreshed matches Some(t) ==> handed_out(session).len() == 3 && handed_out(
            session,
        )[0] == t.access && handed_out(session)[1] == t.refresh && handed_out(session)[2]
            == t.refresh_expires,
        session.refreshed is None ==> handed_out(session).len() == 0,
        with_nothing_refreshed(session).refreshed is None,
        with_nothing_refreshed(session).client == session.client,
        with_nothing_refreshed(session).refresh_token == session.refresh_token,
        with_nothing_refreshed(session).policy_id == session.policy_id,
{
}

/// The storage policy of a directory is kept where the directory has one; otherwise the one that
/// was kept stays. Nothing else changes.
pub proof fn law_storage_policy_is_kept(session: SessionView, id: Seq<char>)
    ensures
        with_policy(session, Some(id)).policy_id == Some(id),
        with_policy(session, Some(id)).client == session.client,
        with_policy(session, Some(id)).refresh_token == session.refresh_token,
        with_policy(session, Some(id)).refreshed == session.refreshed,
        with_policy(session, None) == session,
{
}

/// A login gives the user, the access token, the refresh token, the version of the API and when the
/// refresh token expires, in this order. On version 3 the session cookie is the access token and
/// there is no refresh token; on version 4 the tokens are those of the response.
pub proof fn law_login_gives_user_and_tokens(
    user: Seq<char>,
    is_v3: bool,
    cookie: Option<Seq<char>>,
    response: Option<TokensView>,
)
    ensures
        ({
            let given = login_result(user, login_tokens(is_v3, cookie, response), is_v3);
            &&& given.len() == 5
            &&& given[0] == user
            &&& is_v3 ==> given[3] == "v3"@ && given[2].len() == 0 && given[4].len() == 0
            &&& !is_v3 ==> given[3] == "v4"@
            &&& is_v3 ==> (cookie matches Some(c) ==> given[1] == c)
            &&& is_v3 && cookie is None ==> given[1].len() == 0
            &&& !is_v3 ==> (response matches Some(t) ==> given[1] == t.access && given[2]
                == t.refresh && given[4] == t.refresh_expires)
            &&& !is_v3 && response is None ==> given[1].len() == 0 && given[2].len() == 0
                && given[4].len() == 0
        }),
        version_word(is_v3) == if is_v3 {
            "v3"@
        } else {
            "v4"@
        },
        response matches Some(t) ==> tokens_or_empty(response) == t,
{
}

/// What is kept of tokens and of a client is what they hold.
pub proof fn law_tokens_are_kept_as_they_are(
    tokens: Tokens,
    client: Client,
    result: Result<(), String>,
)
    ensures
        opt_tokens(Some(tokens)) matches Some(t) && t.access == tokens.access@ && t.refresh
            == tokens.refresh@ && t.refresh_expires == tokens.refresh_expires@,
        opt_tokens(None) is None,
        opt_client(Some(client)) matches Some(c) && c.base_url == client.base_url@ && c.is_v4
            == client.is_v4 && (client.token matches Some(token) ==> c.token == Some(token@)) && (
        client.token is None ==> c.token is None) && (
        client.refresh_token matches Some(token) ==> c.refresh_token == Some(token@)) && (
        client.refresh_token is None ==> c.refresh_token is None),
        opt_client(None) is None,
        result is Ok <==> outcome_view(result) is Ok,
        result matches Err(reason) ==> outcome_view(result) == Err::<(), Seq<char>>(reason@),
{
}

/// A session cookie is sent under its name, which stands before it once; and a saved credential
/// loses its prefix once, and nothing where it has none.
pub proof fn law_prefix_is_there_once(value: Seq<char>, prefix: Seq<char>)
    ensures
        has_prefix(cookie_line(value), "cloudreve-session="@),
        !has_prefix(value, "cloudreve-session="@) ==> cookie_line(value) == "cloudreve-session="@
            + value,
        without_prefix(prefix + value, prefix) == value,
        !has_prefix(value, prefix) ==> without_prefix(value, prefix) == value,
        !has_prefix(value, "cloudreve-session="@) ==> without_prefix(
            cookie_line(value),
            "cloudreve-session="@,
        ) == value,
{
    let name = "cloudreve-session="@;
    law_occurrence(Seq::empty(), prefix, value);
    law_occurrence(Seq::empty(), name, value);
    assert((prefix + value).skip(prefix.len() as int) =~= value);
    assert((name + value).skip(name.len() as int) =~= value);
}

/// An answer says that the login has expired by the code 401, or by the words "login required" in
/// any case of letters and anywhere in its message; and by nothing else.
pub proof fn law_how_an_expired_login_is_told(
    code: i32,
    before: Seq<char>,
    words: Seq<char>,
    after: Seq<char>,
    msg: Seq<char>,
)
    ensures
        auth_expired(401, msg),
        ascii_lower_text(words) == "login required"@ ==> auth_expired(
            code,
            before + words + after,
        ),
        auth_expired(code, msg) && code != 401 ==> exists|i: int|
            0 <= i <= msg.len() - 14 && ascii_lower_text(#[trigger] msg.subrange(i, i + 14))
                == "login required"@,
{
    reveal_strlit("login required");
    let wanted = "login required"@;
    if ascii_lower_text(words) == wanted {
        law_occurrence(ascii_lower_text(before), wanted, ascii_lower_text(after));
        assert(ascii_lower_text(before + words + after) =~= ascii_lower_text(before) + wanted
            + ascii_lower_text(after));
    }
    if auth_expired(code, msg) && code != 401 {
        let lowered = ascii_lower_text(msg);
        assert(contains_text(lowered, wanted));
        let i = choose|i: int| occurs_at(lowered, wanted, i);
        assert(occurs_at(lowered, wanted, i));
        assert(ascii_lower_text(msg.subrange(i, i + 14)) =~= lowered.subrange(i, i + 14));
    }
}

/// An error hides an expired login where its code and message say so, or where those of one of its
/// items do; an error that has no code hides nothing.
pub proof fn law_errors_that_hide_an_expired_login(err: ApiError, i: int)
    ensures
        err.kind matches ErrorKind::Api { code, message } ==> (hides_expiry(err) <==> auth_expired(
            code,
            message@,
        )),
        err.kind matches ErrorKind::ApiWithData { code, message, data: _ } ==> (hides_expiry(err)
            <==> auth_expired(code, message@)),
        err.kind matches ErrorKind::Aggregate { code, message, items } ==> (auth_expired(
            code,
            message@,
        ) ==> hides_expiry(err)) && (0 <= i < items@.len() && auth_expired(
            items@[i].code,
            items@[i].msg@,
        ) ==> hides_expiry(err)) && (hides_expiry(err) ==> auth_expired(code, message@) || exists|
            j: int,
        |
            0 <= j < items@.len() && auth_expired((#[trigger] items@[j]).code, items@[j].msg@)),
        err.kind is Unauthorized || err.kind is TwoFactorRequired || err.kind is Other
            ==> !hides_expiry(err),
{
    if let ErrorKind::Aggregate { code: _, message: _, items } = err.kind {
        if 0 <= i < items@.len() && auth_expired(items@[i].code, items@[i].msg@) {
            assert(some_item_expired(items@));
        }
    }
}

/// An error that hides an expired login becomes one of that kind with its message and the text of
/// that kind; every other error stays as it is.
pub proof fn law_hidden_expiry_comes_to_light(err: ApiError, normalized: ApiError)
    requires
        is_normalized(err, normalized),
    ensures
        hides_expiry(err) ==> (normalized.kind matches ErrorKind::Unauthorized(message)
            && err.spec_message() == Some(message@) && normalized.text@ == "Unauthorized: "@
            + message@),
        !hides_expiry(err) ==> normalized == err,
{
}

/// An error of the API has the code, the message and the data that the server gave with it; an
/// error of another kind has none.
pub proof fn law_what_an_error_says(err: ApiError)
    ensures
        err.kind matches ErrorKind::Api { code, message } ==> err.spec_code() == Some(code)
            && err.spec_message() == Some(message@) && err.spec_data() is None,
        err.kind matches ErrorKind::ApiWithData { code, message, data } ==> err.spec_code() == Some(
            code,
        ) && err.spec_message() == Some(message@) && err.spec_data() == Some(data@),
        err.kind matches ErrorKind::Aggregate { code, message, items: _ } ==> err.spec_code()
            == Some(code) && err.spec_message() == Some(message@) && err.spec_data() is None,
        err.kind is Unauthorized || err.kind is TwoFactorRequired || err.kind is Other
            ==> err.spec_code() is None && err.spec_message() is None && err.spec_data() is None,
{
}

/// The description of an error and of what caused it is the two descriptions with a colon between
/// them; an error without a cause is described by its text.
pub proof fn law_causes_follow_the_error(
    texts: Seq<Seq<char>>,
    causes: Seq<Seq<char>>,
    text: Seq<char>,
)
    requires
        texts.len() > 0,
        causes.len() > 0,
    ensures
        described(texts + causes) == described(texts) + ": "@ + described(causes),
        described(seq![text]) == text,
    decreases causes.len(),
{
    let all = texts + causes;
    if causes.len() == 1 {
        assert(all.drop_last() =~= texts);
        assert(all.last() == causes[0]);
    } else {
        let front = causes.drop_last();
        law_causes_follow_the_error(texts, front, text);
        assert(all.drop_last() =~= texts + front);
        assert(all.last() == causes.last());
        assert(described(all) =~= described(texts) + ": "@ + described(causes));
    }
}

/// The tokens of some items are those of the items one after the other: an item has one where it
/// has a text under `token`, and none else.
pub proof fn law_tokens_of_locks(items: Seq<JsonView>, others: Seq<JsonView>, item: JsonView)
    ensures
        tokens_in(items + others) == tokens_in(items) + tokens_in(others),
        text_in(member(item, "token"@)) matches Some(token) ==> tokens_in(seq![item])
            == seq![token],
        text_in(member(item, "token"@)) is None ==> tokens_in(seq![item]).len() == 0,
        tokens_in(Seq::empty()).len() == 0,
    decreases others.len(),
{
    let all = items + others;
    if others.len() == 0 {
        assert(all =~= items);
        assert(tokens_in(items) + tokens_in(others) =~= tokens_in(items));
    } else {
        law_tokens_of_locks(items, others.drop_last(), item);
        assert(all.drop_last() =~= items + others.drop_last());
        assert(all.last() == others.last());
        assert(tokens_in(all) =~= tokens_in(items) + tokens_in(others));
    }
    let one = seq![item];
    assert(one.drop_last() =~= Seq::empty());
    assert(tokens_in(one.drop_last()) =~= Seq::empty());
}

/// The locks in the way are those in the list that the server gives, or the one that it gives
/// alone; where it gives nothing there are none.
pub proof fn law_locks_in_the_way(items: Seq<JsonView>, item: JsonView)
    ensures
        lock_tokens(Some(JsonView::Array(items))) == tokens_in(items),
        !(item is Array) ==> lock_tokens(Some(item)) == tokens_in(seq![item]),
        lock_tokens(None).len() == 0,
{
}

/// An object that a batch could not process is reported with its path, the server's message and
/// code, and the tokens of the locks in the way.
pub proof fn law_failure_is_reported(item: ItemFailure, failures: Seq<BatchFailure>, i: int)
    ensures
        reported(item).path == item.path@,
        reported(item).message == item.message@,
        item.code matches Some(code) ==> reported(item).code == code,
        item.code is None ==> reported(item).code == -1,
        item.data matches Some(data) ==> reported(item).tokens == lock_tokens(Some(data@)),
        item.data is None ==> reported(item).tokens.len() == 0,
        failure_views(failures).len() == failures.len(),
        0 <= i < failures.len() ==> failure_views(failures)[i].path == failures[i].path@
            && failure_views(failures)[i].code == failures[i].code && failure_views(
            failures,
        )[i].message == failures[i].message@ && failure_views(failures)[i].tokens == views(
            failures[i].tokens@,
        ),
{
}

/// A path of a batch that failed as a whole is reported with the code and the message of the error,
/// with -1 and a general message where the error has none, and without tokens.
pub proof fn law_whole_failure_is_reported(path: Seq<char>, err: ApiError)
    ensures
        failed_whole(path, err).path == path,
        err.spec_code() matches Some(code) ==> failed_whole(path, err).code == code,
        err.spec_code() is None ==> failed_whole(path, err).code == -1,
        err.spec_message() matches Some(message) ==> failed_whole(path, err).message == message,
        err.spec_message() is None ==> failed_whole(path, err).message == "operation failed"@,
        failed_whole(path, err).tokens.len() == 0,
{
}

/// A batch counts as failed by an expired login only where something failed and all that failed
/// failed by that; one other failure is enough that it does not.
pub proof fn law_batch_expires_as_a_whole(failures: Seq<ItemFailure>, i: int)
    ensures
        failures.len() == 0 ==> !all_expired(failures),
        0 <= i < failures.len() && !auth_expired(
            match failures[i].code {
                Some(code) => code,
                None => 0,
            },
            failures[i].message@,
        ) ==> !all_expired(failures),
        failures.len() > 0 && (forall|k: int|
            0 <= k < failures.len() ==> (#[trigger] failures[k]).code == Some(401i32))
            ==> all_expired(failures),
{
    if failures.len() > 0 && (forall|k: int|
        0 <= k < failures.len() ==> (#[trigger] failures[k]).code == Some(401i32)) {
        assert forall|k: int| 0 <= k < failures.len() implies auth_expired(
            match (#[trigger] failures[k]).code {
                Some(c) => c,
                None => 0,
            },
            failures[k].message@,
        ) by {
            assert(failures[k].code == Some(401i32));
        }
    }
}

/// The graver a record is, the higher is the system log's number for it, from 3 for what only helps
/// in finding faults to 6 for an error.
pub proof fn law_levels_of_the_system_log()
    ensures
        system_level(Level::Trace) == 3,
        system_level(Level::Debug) == 3,
        system_level(Level::Info) == 4,
        system_level(Level::Warn) == 5,
        system_level(Level::Error) == 6,
        LOG_APP == 0,
        DOMAIN == 1,
{
}

/// A record names its target in brackets and then says its text; records with different texts are
/// different.
pub proof fn law_record_names_its_target(target: Seq<char>, text: Seq<char>, other: Seq<char>)
    ensures
        record_message(target, text) == "["@ + target + "] "@ + text,
        has_suffix(record_message(target, text), text),
        record_message(target, text) == record_message(target, other) ==> text == other,
{
    let front = "["@ + target + "] "@;
    law_occurrence(front, text, Seq::empty());
    assert(record_message(target, text).skip(front.len() as int) =~= text);
    assert(record_message(target, other).skip(front.len() as int) =~= other);
}

/// What a request is told to do and what it is told of has happened are what they say.
pub proof fn law_events_and_actions_are_what_they_say(
    failure: Failure,
    flag: bool,
    reason: String,
)
    ensures
        RunEvent::Start(flag)@ == EventView::Start(flag),
        RunEvent::Succeeded@ == EventView::Succeeded,
        RunEvent::Failed(failure, flag)@ == EventView::Failed(
            (FailureView { reason: failure.reason@, unauthorized: failure.unauthorized }),
            flag,
        ),
        RunEvent::Refreshed@ == EventView::Refreshed,
        RunEvent::NotRefreshed(reason)@ == EventView::NotRefreshed(reason@),
        RunAction::Call@ == ActionView::Call,
        RunAction::Refresh@ == ActionView::Refresh,
        RunAction::Return@ == ActionView::Return,
        RunAction::Fail(reason)@ == ActionView::Fail(reason@),
{
}

} // verus!
