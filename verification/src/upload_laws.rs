//! What holds of uploads as a whole.
use crate::errors::{ApiError, ErrorKind};
use crate::json::{bool_in, int_in, member, opt_member, text_in, uint_in, JsonView};
use crate::key_order::{lemma_v3_session_keys, lemma_v4_session_keys};
use crate::lookup::natural_under;
use crate::session::address;
use crate::session_laws::law_address_of_the_server;
use crate::share::lemma_member_by_position;
use crate::text::{digits, has_prefix, has_suffix};
use crate::text_laws::{law_digits_tell_numbers_apart, law_occurrence};
use crate::upload::{
    after_all, allows_all, body_decides, chunk_address, chunk_taken, fill_after,
    law_reports_are_a_step_apart, law_stream_sends_what_is_read, next_fill, next_read, node_address,
    reports, session_gone, upload_policy, v3_session, v4_session, window, ChunkAnswer,
    ChunkUploadTarget, FillEvent, FillStep, ReadEvent, StreamStep, StreamView,
};
use vstd::prelude::*;

verus! {

broadcast use vstd::string::group_string_axioms;

/// Two texts with the same beginning that are the same go on alike.
proof fn lemma_same_end(front: Seq<char>, one: Seq<char>, other: Seq<char>)
    requires
        front + one == front + other,
    ensures
        one == other,
{
    assert((front + one).skip(front.len() as int) =~= one);
    assert((front + other).skip(front.len() as int) =~= other);
}

/// Every chunk of an upload is sent to an address of its own: it ends in the upload session and the
/// number of the chunk, so that two chunks of a session never go to the same address.
pub proof fn law_chunk_goes_to_its_own_address(
    base_url: Seq<char>,
    is_v3: bool,
    session: Seq<char>,
    index: u32,
    other: u32,
)
    ensures
        has_suffix(
            chunk_address(base_url, is_v3, session, index),
            session + "/"@ + digits(index as nat),
        ),
        index != other ==> chunk_address(base_url, is_v3, session, index) != chunk_address(
            base_url,
            is_v3,
            session,
            other,
        ),
{
    let version = if is_v3 {
        "/api/v3/file/upload/"@
    } else {
        "/api/v4/file/upload/"@
    };
    let server = address(base_url, Seq::empty());
    let one = digits(index as nat);
    let two = digits(other as nat);
    let head = server + version;
    law_address_of_the_server(base_url, version + session + "/"@ + one);
    law_address_of_the_server(base_url, version + session + "/"@ + two);
    assert(chunk_address(base_url, is_v3, session, index) =~= head + (session + "/"@ + one));
    assert(chunk_address(base_url, is_v3, session, other) =~= head + (session + "/"@ + two));
    law_occurrence(head, session + "/"@ + one, Seq::empty());
    if chunk_address(base_url, is_v3, session, index) == chunk_address(
        base_url,
        is_v3,
        session,
        other,
    ) {
        lemma_same_end(head, session + "/"@ + one, session + "/"@ + two);
        lemma_same_end(session + "/"@, one, two);
        law_digits_tell_numbers_apart(index as nat, other as nat);
    }
}

/// The chunks of an upload go to the server, below the version of the API that it speaks; slashes
/// at the end of the server's address do not count.
pub proof fn law_chunks_go_to_the_server(
    base_url: Seq<char>,
    is_v3: bool,
    session: Seq<char>,
    index: u32,
)
    ensures
        base_url.len() > 0 && base_url.last() != '/' ==> chunk_address(
            base_url,
            is_v3,
            session,
            index,
        ) == base_url + ((if is_v3 {
            "/api/v3/file/upload/"@
        } else {
            "/api/v4/file/upload/"@
        }) + session + "/"@ + digits(index as nat)),
        chunk_address(base_url.push('/'), is_v3, session, index) == chunk_address(
            base_url,
            is_v3,
            session,
            index,
        ),
{
    law_address_of_the_server(
        base_url,
        (if is_v3 {
            "/api/v3/file/upload/"@
        } else {
            "/api/v4/file/upload/"@
        }) + session + "/"@ + digits(index as nat),
    );
}

/// Every chunk that goes to a storage node goes to the node's address, with the number of the chunk
/// as a further part of the query.
pub proof fn law_chunk_for_a_node_is_numbered(upload_url: Seq<char>, index: u32, other: u32)
    ensures
        has_prefix(node_address(upload_url, index), upload_url),
        has_suffix(node_address(upload_url, index), "chunk="@ + digits(index as nat)),
        index != other ==> node_address(upload_url, index) != node_address(upload_url, other),
        upload_url.contains('?') ==> node_address(upload_url, index) == upload_url + "&chunk="@
            + digits(index as nat),
        !upload_url.contains('?') ==> node_address(upload_url, index) == upload_url + "?chunk="@
            + digits(index as nat),
{
    reveal_strlit("&");
    reveal_strlit("?");
    reveal_strlit("chunk=");
    reveal_strlit("&chunk=");
    reveal_strlit("?chunk=");
    let mark = if upload_url.contains('?') {
        "&"@
    } else {
        "?"@
    };
    let number = digits(index as nat);
    let whole = node_address(upload_url, index);
    assert(whole =~= upload_url + (mark + "chunk="@ + number));
    law_occurrence(Seq::empty(), upload_url, mark + "chunk="@ + number);
    assert(whole =~= (upload_url + mark) + ("chunk="@ + number));
    law_occurrence(upload_url + mark, "chunk="@ + number, Seq::empty());
    assert(whole =~= upload_url + (mark + "chunk="@) + number);
    assert(mark + "chunk="@ =~= if upload_url.contains('?') {
        "&chunk="@
    } else {
        "?chunk="@
    });
    if whole == node_address(upload_url, other) {
        lemma_same_end(upload_url + mark + "chunk="@, number, digits(other as nat));
        law_digits_tell_numbers_apart(index as nat, other as nat);
    }
}

/// An upload session of version 4 is shown with what the server says of it: what it says of the
/// credential, of the addresses to upload to and of the address that completes the upload stands
/// as it is, and is null only where it says nothing.
pub proof fn law_v4_session_hands_on_what_the_server_says(session: JsonView)
    ensures
        member(v4_session(session), "credential"@) == match member(session, "credential"@) {
            Some(value) => Some(value),
            None => Some(JsonView::Null),
        },
        member(v4_session(session), "uploadUrls"@) == match member(session, "upload_urls"@) {
            Some(value) => Some(value),
            None => Some(JsonView::Null),
        },
        member(session, "completeURL"@) matches Some(value) ==> member(
            v4_session(session),
            "completeUrl"@,
        ) == Some(value),
        member(session, "completeURL"@) is None ==> member(v4_session(session), "completeUrl"@)
            == match member(session, "complete_url"@) {
            Some(value) => Some(value),
            None => Some(JsonView::Null),
        },
{
    lemma_v4_session_keys(session);
    let entries = v4_session(session)->Object_0;
    lemma_member_by_position(entries, 1);
    lemma_member_by_position(entries, 2);
    lemma_member_by_position(entries, 7);
}

/// An upload session of version 4 is shown with the server's id, size of the chunks, time of
/// expiry and storage policy; a number that the server does not give is zero, a text empty, and a
/// storage policy relays only where the server says so.
pub proof fn law_v4_session_has_the_terms_of_the_server(session: JsonView)
    ensures
        ({
            let shown = v4_session(session);
            let policy = member(session, "storage_policy"@);
            &&& text_in(member(shown, "sessionId"@)) == match text_in(
                member(session, "session_id"@),
            ) {
                Some(id) => Some(id),
                None => Some(Seq::empty()),
            }
            &&& uint_in(member(shown, "chunkSize"@)) == match natural_under(
                session,
                "chunk_size"@,
            ) {
                Some(n) => Some(n),
                None => Some(0u64),
            }
            &&& uint_in(member(shown, "expires"@)) == match natural_under(session, "expires"@) {
                Some(n) => Some(n),
                None => Some(0u64),
            }
            &&& text_in(member(shown, "storagePolicyType"@)) == match text_in(
                opt_member(policy, "type"@),
            ) {
                Some(word) => Some(word),
                None => Some(Seq::empty()),
            }
            &&& bool_in(member(shown, "storagePolicyRelay"@)) == Some(
                opt_member(policy, "relay"@) == Some(JsonView::Bool(true)),
            )
        }),
{
    lemma_v4_session_keys(session);
    let entries = v4_session(session)->Object_0;
    lemma_member_by_position(entries, 0);
    lemma_member_by_position(entries, 3);
    lemma_member_by_position(entries, 4);
    lemma_member_by_position(entries, 5);
    lemma_member_by_position(entries, 6);
}

/// An upload session of version 3 is shown with its id, size of the chunks and time of expiry.
pub proof fn law_v3_session_has_the_terms_of_the_server(
    id: Seq<char>,
    chunk_size: i64,
    expires: i64,
)
    ensures
        text_in(member(v3_session(id, chunk_size, expires), "sessionId"@)) == Some(id),
        int_in(member(v3_session(id, chunk_size, expires), "chunkSize"@)) == Some(chunk_size),
        int_in(member(v3_session(id, chunk_size, expires), "expires"@)) == Some(expires),
{
    lemma_v3_session_keys(id, chunk_size, expires);
    let entries = v3_session(id, chunk_size, expires)->Object_0;
    lemma_member_by_position(entries, 0);
    lemma_member_by_position(entries, 1);
    lemma_member_by_position(entries, 2);
}

/// An upload uses the storage policy of its directory where that is known, else the one that was
/// seen last, else none.
pub proof fn law_policy_of_the_directory_goes_first(
    resolved: Option<Seq<char>>,
    kept: Option<Seq<char>>,
)
    ensures
        resolved matches Some(id) ==> upload_policy(resolved, kept) == id,
        resolved is None ==> (kept matches Some(id) ==> upload_policy(resolved, kept) == id),
        resolved is None && kept is None ==> upload_policy(resolved, kept).len() == 0,
{
}

/// What is uploaded of a file is what is asked for, or where the file ends before that all that
/// is left of it; and nothing from behind its end.
pub proof fn law_window_is_what_the_file_has(file_len: u64, start: u64, length: u64)
    ensures
        start + length <= file_len ==> window(file_len, start, length) == length,
        start <= file_len && file_len < start + length ==> start + window(file_len, start, length)
            == file_len,
        file_len < start ==> window(file_len, start, length) == 0,
{
}

/// A stream reads as much as is left, in steps of 256 KiB at most, and only stops at the end.
pub proof fn law_stream_reads_in_steps(left: int)
    requires
        left >= 0,
    ensures
        next_read(left) <= left,
        next_read(left) <= 262144,
        next_read(left) == left || next_read(left) == 262144,
        next_read(left) == 0 <==> left == 0,
{
}

/// All that is read is sent; the stream ends only at the end of the file and fails only where the
/// reading failed. What is reported as sent is all that was sent up to then.
pub proof fn law_every_reading_is_sent(stream: StreamView, event: ReadEvent)
    requires
        stream.wf(),
        stream.allows(event),
    ensures
        event is Failed <==> stream.step_at(event) is Fail,
        event matches ReadEvent::Read(n) ==> (n == 0 <==> stream.step_at(event) is End),
        stream.step_at(event) matches StreamStep::Send(Some(total)) ==> total == stream.sent
            + event->Read_0 && stream.after(event).reported == total,
        event matches ReadEvent::Read(n) ==> stream.after(event).sent == stream.sent + n
            && stream.after(event).left == stream.left - n && stream.after(event).failed
            == stream.failed,
        event is Failed ==> stream.after(event).left == 0 && stream.after(event).failed
            && stream.after(event).sent == stream.sent,
{
}

/// Progress is reported in time: never are 4 MiB or more sent without a report, two reports are
/// 4 MiB or more apart, and the last report is what counts as reported.
pub proof fn law_progress_is_reported_in_time(stream: StreamView, events: Seq<ReadEvent>)
    requires
        stream.wf(),
        allows_all(stream, events),
    ensures
        after_all(stream, events).sent - after_all(stream, events).reported < 4194304,
        reports(stream, events).len() == 0 ==> after_all(stream, events).reported
            == stream.reported,
        reports(stream, events).len() > 0 ==> reports(stream, events).last() == after_all(
            stream,
            events,
        ).reported,
        forall|i: int, j: int|
            0 <= i < j < reports(stream, events).len() ==> #[trigger] reports(stream, events)[i]
                + 4194304 <= #[trigger] reports(stream, events)[j],
    decreases events.len(),
{
    law_stream_sends_what_is_read(stream, events);
    law_reports_are_a_step_apart(stream, events);
    if events.len() > 0 {
        law_progress_is_reported_in_time(stream, events.drop_last());
        law_stream_sends_what_is_read(stream, events.drop_last());
    }
}

/// A part of a file is read on behind what was read, over an interruption as if it had not been;
/// only a reading that failed gives the part up.
pub proof fn law_interruptions_do_not_count(capacity: usize, filled: usize, event: FillEvent)
    requires
        filled < capacity,
        event matches FillEvent::Read(n) ==> filled + n <= capacity,
    ensures
        event is Interrupted ==> fill_after(capacity, filled, event) == FillStep::Continue(filled),
        event is Failed <==> fill_after(capacity, filled, event) is Fail,
        event matches FillEvent::Read(n) ==> if n == 0 || filled + n == capacity {
            fill_after(capacity, filled, event) == FillStep::Done((filled + n) as usize)
        } else {
            fill_after(capacity, filled, event) == FillStep::Continue((filled + n) as usize)
        },
{
}

/// A part of a file is read from its beginning, and one without room is complete at once.
pub proof fn law_part_is_read_from_its_beginning(capacity: usize)
    ensures
        capacity > 0 ==> next_fill(capacity, 0) == FillStep::Continue(0),
        capacity == 0 ==> next_fill(capacity, 0) == FillStep::Done(0),
{
}

/// A server of version 3 that says in its answer what came of a chunk is believed, whatever the
/// status is; in every other case the status decides.
pub proof fn law_answer_to_a_chunk(target: ChunkUploadTarget, answer: ChunkAnswer)
    ensures
        target is V3Cookie ==> (answer.parsed matches Some(said) ==> (chunk_taken(target, answer)
            <==> said.code == 0)),
        target is V3Cookie && answer.parsed is None ==> (chunk_taken(target, answer)
            <==> answer.success),
        target is AuthHeader ==> (chunk_taken(target, answer) <==> answer.success),
        body_decides(target, answer) <==> target is V3Cookie && answer.parsed is Some,
{
}

/// Only the code 40011 of the API says that an upload session is gone.
pub proof fn law_gone_sessions_have_one_code(error: ApiError)
    ensures
        error.kind matches ErrorKind::Api { code, message: _ } ==> (session_gone(error) <==> code
            == 40011),
        !(error.kind is Api) ==> !session_gone(error),
{
}

} // verus!
