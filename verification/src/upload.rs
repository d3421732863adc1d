//! Uploading files: sessions, chunks and what the server answers.
use crate::errors::{api_text, ApiError, ErrorKind};
use crate::json::{bool_in, member, opt_member, text_in, Json, JsonView};
use crate::lookup::{json_string, json_u64, member_of, natural_under, text_or_empty};
use crate::output::{
    int_json, int_value, nat_json, nat_value, or_null, text_json, text_value, value_or_null,
    Entries,
};
use crate::path::{child_of, child_path, parent_of, unix_parent, uri_of_path};
use crate::session::{address, server_address, Session, SessionView};
use crate::text::{
    chars_of, digit_text, digits, find_char, is_empty_text, joined, joined3, lemma_index_of_char,
    opt_view,
};
use vstd::prelude::*;

verus! {

broadcast use vstd::string::group_string_axioms;

/// The code of the server for an upload session that it no longer knows.
pub const V3_CODE_UPLOAD_SESSION_EXPIRED: i32 = 40011;

/// How many bytes are read at once.
pub const READ_STEP: u64 = 262144;

/// How many bytes are sent between two reports of progress.
pub const PROGRESS_NOTIFY_STEP: u64 = 4194304;

/// How many bytes there are to upload from `start`: those asked for, as far as the file reaches.
pub open spec fn window(file_len: u64, start: u64, length: u64) -> u64 {
    let available = if file_len >= start {
        (file_len - start) as u64
    } else {
        0
    };
    if length < available {
        length
    } else {
        available
    }
}

/// How many bytes there are to upload, or the reason why there are none.
pub fn chunk_window(file_len: u64, start: u64, length: u64) -> (r: Result<u64, String>)
    ensures
        if window(file_len, start, length) > 0 {
            r == Ok::<u64, String>(window(file_len, start, length))
        } else {
            r matches Err(reason) && reason@ == "nothing to upload: file is "@ + digits(
                file_len as nat,
            ) + " bytes, offset "@ + digits(start as nat)
        },
{
    let available: u64 = if file_len >= start {
        file_len - start
    } else {
        0
    };
    let length: u64 = if length < available {
        length
    } else {
        available
    };
    if length == 0 {
        let mut reason = joined("nothing to upload: file is ", digit_text(file_len).as_str());
        reason.append(" bytes, offset ");
        reason.append(digit_text(start).as_str());
        return Err(reason);
    }
    Ok(length)
}

/// What came of reading the file.
pub enum ReadEvent {
    /// So many bytes were read; none at the end of the file.
    Read(u64),
    Failed,
}

/// What to do with what was read.
pub enum StreamStep {
    /// Send it; and report so many bytes as sent, where it is time to.
    Send(Option<u64>),
    /// End the stream.
    End,
    /// End the stream with the error.
    Fail,
}

/// How far the stream of a chunk has come.
pub struct ChunkStream {
    length: u64,
    remaining: u64,
    sent: u64,
    reported: u64,
    failed: bool,
}

/// The mathematical form of the stream of a chunk.
pub struct StreamView {
    /// The length of the chunk.
    pub length: int,
    /// How many bytes are still to be read.
    pub left: int,
    /// How many bytes were sent.
    pub sent: int,
    /// How many bytes had been sent at the last report.
    pub reported: int,
    pub failed: bool,
}

impl View for ChunkStream {
    type V = StreamView;

    closed spec fn view(&self) -> StreamView {
        StreamView {
            length: self.length as int,
            left: self.remaining as int,
            sent: self.sent as int,
            reported: self.reported as int,
            failed: self.failed,
        }
    }
}

/// How many bytes are read next where so many are left.
pub open spec fn next_read(left: int) -> int {
    if left < READ_STEP {
        left
    } else {
        READ_STEP as int
    }
}

impl StreamView {
    /// Whether what was sent and what is left make up the chunk, and no report is overdue.
    pub open spec fn wf(self) -> bool {
        &&& 0 <= self.left
        &&& 0 <= self.reported <= self.sent <= self.length <= u64::MAX
        &&& self.sent - self.reported < PROGRESS_NOTIFY_STEP
        &&& if self.failed {
            self.left == 0
        } else {
            self.sent + self.left == self.length
        }
    }

    /// Whether an event can come of the next reading.
    pub open spec fn allows(self, event: ReadEvent) -> bool {
        match event {
            ReadEvent::Read(n) => n <= next_read(self.left),
            ReadEvent::Failed => true,
        }
    }

    /// Whether a report is due once `n` more bytes are sent.
    pub open spec fn report_due(self, n: u64) -> bool {
        self.sent + n - self.reported >= PROGRESS_NOTIFY_STEP
    }

    /// The stream after an event.
    pub open spec fn after(self, event: ReadEvent) -> StreamView {
        match event {
            ReadEvent::Read(n) => StreamView {
                left: self.left - n,
                sent: self.sent + n,
                reported: if self.report_due(n) {
                    self.sent + n
                } else {
                    self.reported
                },
                ..self
            },
            ReadEvent::Failed => StreamView { left: 0, failed: true, ..self },
        }
    }

    /// What to do at an event.
    pub open spec fn step_at(self, event: ReadEvent) -> StreamStep {
        match event {
            ReadEvent::Read(n) => if n == 0 {
                StreamStep::End
            } else if self.report_due(n) {
                StreamStep::Send(Some((self.sent + n) as u64))
            } else {
                StreamStep::Send(None)
            },
            ReadEvent::Failed => StreamStep::Fail,
        }
    }
}

impl ChunkStream {
    /// The stream of a chunk of the given length.
    pub fn new(length: u64) -> (s: ChunkStream)
        ensures
            s@.wf(),
            s@ == (StreamView {
                length: length as int,
                left: length as int,
                sent: 0,
                reported: 0,
                failed: false,
            }),
    {
        ChunkStream { length, remaining: length, sent: 0, reported: 0, failed: false }
    }

    /// How many bytes to read next, or nothing where the stream is at its end.
    pub fn read_size(&self) -> (r: Option<u64>)
        requires
            self@.wf(),
        ensures
            match r {
                Some(n) => n == next_read(self@.left) && n > 0,
                None => self@.left == 0,
            },
    {
        if self.remaining == 0 {
            None
        } else if self.remaining < READ_STEP {
            Some(self.remaining)
        } else {
            Some(READ_STEP)
        }
    }

    /// Takes in what was read.
    pub fn step(&mut self, event: ReadEvent) -> (r: StreamStep)
        requires
            old(self)@.wf(),
            old(self)@.allows(event),
        ensures
            final(self)@.wf(),
            final(self)@ == old(self)@.after(event),
            r == old(self)@.step_at(event),
    {
        match event {
            ReadEvent::Failed => {
                self.remaining = 0;
                self.failed = true;
                StreamStep::Fail
            },
            ReadEvent::Read(n) => {
                if n == 0 {
                    return StreamStep::End;
                }
                self.sent = self.sent + n;
                self.remaining = self.remaining - n;
                if self.sent - self.reported >= PROGRESS_NOTIFY_STEP {
                    self.reported = self.sent;
                    StreamStep::Send(Some(self.sent))
                } else {
                    StreamStep::Send(None)
                }
            },
        }
    }
}

/// The stream after some events.
pub open spec fn after_all(stream: StreamView, events: Seq<ReadEvent>) -> StreamView
    decreases events.len(),
{
    if events.len() == 0 {
        stream
    } else {
        after_all(stream, events.drop_last()).after(events.last())
    }
}

/// Whether every one of the events can come.
pub open spec fn allows_all(stream: StreamView, events: Seq<ReadEvent>) -> bool
    decreases events.len(),
{
    events.len() > 0 ==> allows_all(stream, events.drop_last()) && after_all(
        stream,
        events.drop_last(),
    ).allows(events.last())
}

/// How many bytes the events read in all.
pub open spec fn bytes_read(events: Seq<ReadEvent>) -> int
    decreases events.len(),
{
    if events.len() == 0 {
        0
    } else {
        bytes_read(events.drop_last()) + match events.last() {
            ReadEvent::Read(n) => n as int,
            ReadEvent::Failed => 0,
        }
    }
}

/// What is reported at the events.
pub open spec fn reports(stream: StreamView, events: Seq<ReadEvent>) -> Seq<int>
    decreases events.len(),
{
    if events.len() == 0 {
        Seq::empty()
    } else {
        let earlier = reports(stream, events.drop_last());
        match after_all(stream, events.drop_last()).step_at(events.last()) {
            StreamStep::Send(Some(sent)) => earlier.push(sent as int),
            _ => earlier,
        }
    }
}

/// However the file is read, what was sent is what was read and never more than the chunk; it is
/// the whole chunk once nothing is left, unless reading failed.
pub proof fn law_stream_sends_what_is_read(stream: StreamView, events: Seq<ReadEvent>)
    requires
        stream.wf(),
        allows_all(stream, events),
    ensures
        after_all(stream, events).wf(),
        after_all(stream, events).length == stream.length,
        after_all(stream, events).sent == stream.sent + bytes_read(events),
        after_all(stream, events).sent <= stream.length,
        after_all(stream, events).left == 0 && !after_all(stream, events).failed ==> after_all(
            stream,
            events,
        ).sent == stream.length,
    decreases events.len(),
{
    if events.len() > 0 {
        law_stream_sends_what_is_read(stream, events.drop_last());
    }
}

/// Progress only grows: each report is at least a step above the one before it, and none is above
/// what was sent.
pub proof fn law_reports_are_a_step_apart(stream: StreamView, events: Seq<ReadEvent>)
    requires
        stream.wf(),
        allows_all(stream, events),
    ensures
        forall|i: int, j: int|
            0 <= i < j < reports(stream, events).len() ==> #[trigger] reports(stream, events)[i]
                + PROGRESS_NOTIFY_STEP <= #[trigger] reports(stream, events)[j],
        forall|i: int|
            0 <= i < reports(stream, events).len() ==> stream.reported + PROGRESS_NOTIFY_STEP
                <= #[trigger] reports(stream, events)[i] <= after_all(stream, events).reported,
    decreases events.len(),
{
    if events.len() > 0 {
        law_reports_are_a_step_apart(stream, events.drop_last());
        law_stream_sends_what_is_read(stream, events.drop_last());
        lemma_reported_grows(stream, events.drop_last());
        let before = after_all(stream, events.drop_last());
        let earlier = reports(stream, events.drop_last());
        let all = reports(stream, events);
        match before.step_at(events.last()) {
            StreamStep::Send(Some(sent)) => {
                assert(sent as int == before.after(events.last()).sent);
                assert(all == earlier.push(sent as int));
                assert forall|i: int| 0 <= i < earlier.len() implies all[i] == earlier[i] by {}
            },
            _ => {
                assert(all == earlier);
            },
        }
    }
}

proof fn lemma_reported_grows(stream: StreamView, events: Seq<ReadEvent>)
    requires
        stream.wf(),
        allows_all(stream, events),
    ensures
        stream.reported <= after_all(stream, events).reported,
    decreases events.len(),
{
    if events.len() > 0 {
        lemma_reported_grows(stream, events.drop_last());
        law_stream_sends_what_is_read(stream, events.drop_last());
    }
}

/// What came of reading a part of a file into memory.
pub enum FillEvent {
    /// So many bytes were read; none at the end of the file.
    Read(usize),
    /// The reading was interrupted.
    Interrupted,
    Failed,
}

/// What to do next for a part of a file.
#[derive(Clone, Copy, PartialEq, Eq, Structural, Debug)]
pub enum FillStep {
    /// Read on, behind so many bytes.
    Continue(usize),
    /// So many bytes make up the part.
    Done(usize),
    Fail,
}

/// The next step for a part of a file of `capacity` bytes of which `filled` were read.
pub open spec fn next_fill(capacity: usize, filled: usize) -> FillStep {
    if filled < capacity {
        FillStep::Continue(filled)
    } else {
        FillStep::Done(filled)
    }
}

/// The first step for a part of a file.
pub fn start_fill(capacity: usize) -> (r: FillStep)
    ensures
        r == next_fill(capacity, 0),
{
    if 0 < capacity {
        FillStep::Continue(0)
    } else {
        FillStep::Done(0)
    }
}

/// The step after an event for a part of a file: it is read until it is full or the file ends,
/// over interruptions.
pub open spec fn fill_after(capacity: usize, filled: usize, event: FillEvent) -> FillStep {
    match event {
        FillEvent::Read(n) => if n == 0 {
            FillStep::Done(filled)
        } else {
            next_fill(capacity, (filled + n) as usize)
        },
        FillEvent::Interrupted => FillStep::Continue(filled),
        FillEvent::Failed => FillStep::Fail,
    }
}

/// The step after an event for a part of a file.
pub fn read_local_chunk(capacity: usize, filled: usize, event: FillEvent) -> (r: FillStep)
    requires
        filled < capacity,
        event matches FillEvent::Read(n) ==> filled + n <= capacity,
    ensures
        r == fill_after(capacity, filled, event),
{
    match event {
        FillEvent::Read(n) => if n == 0 {
            FillStep::Done(filled)
        } else if filled + n < capacity {
            FillStep::Continue(filled + n)
        } else {
            FillStep::Done(filled + n)
        },
        FillEvent::Interrupted => FillStep::Continue(filled),
        FillEvent::Failed => FillStep::Fail,
    }
}

/// A part of a file is never taken for complete because of a short reading: it is full, or the
/// file has ended. Nothing that was read is lost, and there is room for what is read next.
pub proof fn law_part_is_full_or_the_file_has_ended(
    capacity: usize,
    filled: usize,
    event: FillEvent,
)
    requires
        filled < capacity,
        event matches FillEvent::Read(n) ==> filled + n <= capacity,
    ensures
        match fill_after(capacity, filled, event) {
            FillStep::Done(total) => total == capacity || (total == filled
                && event == FillEvent::Read(0)),
            FillStep::Continue(total) => filled <= total < capacity && (
            event matches FillEvent::Read(n) ==> total == filled + n),
            FillStep::Fail => event is Failed,
        },
{
}

/// Whether a file with `avail` bytes from the start of a part on can give an event, where
/// `filled` bytes of the part were read: a reading gives no more than there are and than there is
/// room for, and nothing only at the end of the file.
pub open spec fn can_give(avail: nat, capacity: usize, filled: usize, event: FillEvent) -> bool {
    match event {
        FillEvent::Read(n) => {
            &&& filled + n <= capacity
            &&& filled + n <= avail
            &&& n == 0 ==> filled == avail
        },
        _ => true,
    }
}

/// The step for a part of a file after the events that followed the start.
pub open spec fn filled_after(capacity: usize, events: Seq<FillEvent>) -> FillStep
    decreases events.len(),
{
    if events.len() == 0 {
        next_fill(capacity, 0)
    } else {
        match filled_after(capacity, events.drop_last()) {
            FillStep::Continue(filled) => fill_after(capacity, filled, events.last()),
            step => step,
        }
    }
}

/// Whether a file with `avail` bytes from the start of a part on can give the events, each of them
/// to a reading that the step before it asked for.
pub open spec fn can_give_all(avail: nat, capacity: usize, events: Seq<FillEvent>) -> bool
    decreases events.len(),
{
    events.len() == 0 || (can_give_all(avail, capacity, events.drop_last()) && (
    filled_after(capacity, events.drop_last()) matches FillStep::Continue(filled) && can_give(
        avail,
        capacity,
        filled,
        events.last(),
    )))
}

/// However the readings of a part of a file fall, with interruptions between them or not, the part
/// is complete only with all the bytes that there are and that there is room for; and it is given
/// up only when a reading failed.
pub proof fn law_part_holds_all_there_is(avail: nat, capacity: usize, events: Seq<FillEvent>)
    requires
        can_give_all(avail, capacity, events),
    ensures
        match filled_after(capacity, events) {
            FillStep::Done(total) => total == if capacity <= avail {
                capacity as nat
            } else {
                avail
            },
            FillStep::Continue(filled) => filled < capacity && filled <= avail,
            FillStep::Fail => events.len() > 0 && events.last() is Failed,
        },
    decreases events.len(),
{
    if events.len() > 0 {
        law_part_holds_all_there_is(avail, capacity, events.drop_last());
    }
}

/// How a chunk is sent: with an authorization, or with the session cookie of version 3.
pub enum ChunkUploadTarget {
    AuthHeader(Option<String>),
    V3Cookie(Option<String>),
}

/// The header that a chunk is sent with.
pub enum UploadHeader {
    Authorization(String),
    Cookie(String),
    Nothing,
}

/// The header that a chunk is sent with.
pub fn upload_header(target: &ChunkUploadTarget) -> (r: UploadHeader)
    ensures
        match *target {
            ChunkUploadTarget::AuthHeader(Some(value)) => r matches UploadHeader::Authorization(h)
                && h@ == value@,
            ChunkUploadTarget::V3Cookie(Some(cookie)) => r matches UploadHeader::Cookie(h) && h@
                == "cloudreve-session="@ + cookie@,
            _ => r is Nothing,
        },
{
    match target {
        ChunkUploadTarget::AuthHeader(Some(value)) => UploadHeader::Authorization(value.clone()),
        ChunkUploadTarget::V3Cookie(Some(cookie)) => UploadHeader::Cookie(
            joined("cloudreve-session=", cookie.as_str()),
        ),
        _ => UploadHeader::Nothing,
    }
}

/// How a chunk is sent to a server of version 4.
pub fn bearer_target(token: Option<String>) -> (r: ChunkUploadTarget)
    ensures
        r matches ChunkUploadTarget::AuthHeader(h) && opt_view(h) == match token {
            Some(t) => Some("Bearer "@ + t@),
            None => None,
        },
{
    match token {
        Some(t) => ChunkUploadTarget::AuthHeader(Some(joined("Bearer ", t.as_str()))),
        None => ChunkUploadTarget::AuthHeader(None),
    }
}

/// How a chunk is sent to a storage node: with the credential, where there is one.
pub fn credential_target(credential: String) -> (r: ChunkUploadTarget)
    ensures
        r matches ChunkUploadTarget::AuthHeader(h) && opt_view(h) == if credential@.len() > 0 {
            Some(credential@)
        } else {
            None
        },
{
    if is_empty_text(credential.as_str()) {
        ChunkUploadTarget::AuthHeader(None)
    } else {
        ChunkUploadTarget::AuthHeader(Some(credential))
    }
}

/// The address that a chunk is sent to.
pub open spec fn chunk_address(base_url: Seq<char>, is_v3: bool, session: Seq<char>, index: u32) -> Seq<
    char,
> {
    address(
        base_url,
        (if is_v3 {
            "/api/v3/file/upload/"@
        } else {
            "/api/v4/file/upload/"@
        }) + session + "/"@ + digits(index as nat),
    )
}

/// The address that a chunk is sent to.
pub fn chunk_url(base_url: &str, is_v3: bool, session_id: &str, index: u32) -> (r: String)
    ensures
        r@ == chunk_address(base_url@, is_v3, session_id@, index),
{
    let mut rest = if is_v3 {
        joined("/api/v3/file/upload/", session_id)
    } else {
        joined("/api/v4/file/upload/", session_id)
    };
    rest.append("/");
    rest.append(digit_text(index as u64).as_str());
    server_address(base_url, rest.as_str())
}

/// The address of a storage node that a chunk is sent to.
pub open spec fn node_address(upload_url: Seq<char>, index: u32) -> Seq<char> {
    upload_url + (if upload_url.contains('?') {
        "&"@
    } else {
        "?"@
    }) + "chunk="@ + digits(index as nat)
}

/// The address of a storage node that a chunk is sent to.
pub fn node_chunk_url(upload_url: &str, index: u32) -> (r: String)
    ensures
        r@ == node_address(upload_url@, index),
{
    let chars = chars_of(upload_url);
    proof {
        lemma_index_of_char(chars@, '?');
    }
    let mut r = match find_char(chars.as_slice(), '?') {
        Some(i) => {
            assert(chars@[i as int] == '?');
            joined(upload_url, "&")
        },
        None => joined(upload_url, "?"),
    };
    r.append("chunk=");
    r.append(digit_text(index as u64).as_str());
    r
}

/// What the body of an answer of version 3 says of a chunk.
pub struct V3ChunkUploadResponse {
    pub code: i32,
    pub msg: String,
}

/// The answer to a chunk.
pub struct ChunkAnswer {
    /// Whether the status says that it went well.
    pub success: bool,
    /// The status in words.
    pub status: String,
    pub body: String,
    /// What the body says, where it could be read so.
    pub parsed: Option<V3ChunkUploadResponse>,
}

/// Whether the body of an answer decides: version 3 answers with the same status whatever came of
/// the chunk.
pub open spec fn body_decides(target: ChunkUploadTarget, answer: ChunkAnswer) -> bool {
    target is V3Cookie && answer.parsed is Some
}

/// Whether the chunk was taken.
pub open spec fn chunk_taken(target: ChunkUploadTarget, answer: ChunkAnswer) -> bool {
    if body_decides(target, answer) {
        answer.parsed->0.code == 0
    } else {
        answer.success
    }
}

/// Whether the chunk was taken, or the reason why not.
pub fn judge_chunk(target: &ChunkUploadTarget, answer: ChunkAnswer) -> (r: Result<(), String>)
    ensures
        r is Ok <==> chunk_taken(*target, answer),
        r matches Err(reason) ==> reason@ == "upload chunk failed: "@ + if body_decides(
            *target,
            answer,
        ) {
            api_text(answer.parsed->0.code as int, answer.parsed->0.msg@)
        } else {
            answer.status@ + " "@ + if answer.body@.len() == 0 {
                "Unknown upload error"@
            } else {
                answer.body@
            }
        },
{
    let is_v3 = match target {
        ChunkUploadTarget::V3Cookie(_) => true,
        _ => false,
    };
    if is_v3 {
        if let Some(parsed) = answer.parsed {
            if parsed.code != 0 {
                let text = ApiError::api(parsed.code, parsed.msg).text;
                return Err(joined("upload chunk failed: ", text.as_str()));
            }
            return Ok(());
        }
    }
    if answer.success {
        return Ok(());
    }
    let error_text = if is_empty_text(answer.body.as_str()) {
        "Unknown upload error".to_string()
    } else {
        answer.body
    };
    let text = joined3(answer.status.as_str(), " ", error_text.as_str());
    Err(joined("upload chunk failed: ", text.as_str()))
}

/// Whether a chunk that was sent at once was taken, or the reason why not. `body` is the body of
/// the answer, where it could be read.
pub fn judge_node_chunk(success: bool, status: &str, body: Option<String>) -> (r: Result<
    (),
    String,
>)
    ensures
        r is Ok <==> success,
        r matches Err(reason) ==> reason@ == "upload url failed: "@ + (status@ + " "@ + match body {
            Some(text) => text@,
            None => "Unknown upload URL error"@,
        }),
{
    if success {
        return Ok(());
    }
    let error_text = match body {
        Some(text) => text,
        None => "Unknown upload URL error".to_string(),
    };
    let text = joined3(status, " ", error_text.as_str());
    Err(joined("upload url failed: ", text.as_str()))
}

/// A request of version 3 for an upload session.
pub struct V3UploadRequest {
    pub path: String,
    pub name: String,
    pub policy_id: String,
    pub size: i64,
    /// In milliseconds, or zero for the time of the upload.
    pub last_modified: i64,
    pub mime_type: String,
}

/// The directory that an upload goes to.
pub fn upload_parent(path: &str) -> (r: String)
    ensures
        r@ == parent_of(path@),
{
    unix_parent(path)
}

/// The request of version 3 for an upload session, with the storage policy of the directory.
pub fn v3_upload_request(
    path: &str,
    name: String,
    policy_id: String,
    size: i64,
    last_modified: i64,
    mime_type: String,
) -> (r: V3UploadRequest)
    ensures
        r.path@ == parent_of(path@),
        r.name@ == name@,
        r.policy_id@ == policy_id@,
        r.size == size,
        r.last_modified == if last_modified > 0 {
            last_modified
        } else {
            0
        },
        r.mime_type@ == mime_type@,
{
    V3UploadRequest {
        path: upload_parent(path),
        name,
        policy_id,
        size,
        last_modified: if last_modified > 0 {
            last_modified
        } else {
            0
        },
        mime_type,
    }
}

/// The upload session of version 3, as it is shown.
pub open spec fn v3_session(id: Seq<char>, chunk_size: i64, expires: i64) -> JsonView {
    JsonView::Object(
        seq![
            ("chunkSize"@, int_json(chunk_size)),
            ("expires"@, int_json(expires)),
            ("sessionId"@, text_json(id)),
        ],
    )
}

/// The upload session of version 3, as it is shown.
pub fn v3_upload_session(session_id: String, chunk_size: i64, expires: i64) -> (r: Json)
    ensures
        r@ == v3_session(session_id@, chunk_size, expires),
{
    let entries = Entries::new().with("chunkSize", int_value(chunk_size)).with(
        "expires",
        int_value(expires),
    ).with("sessionId", text_value(session_id));
    assert(entries@ =~= v3_session(session_id@, chunk_size, expires)->Object_0);
    entries.object()
}

/// A request of version 4 for an upload session.
pub struct V4UploadRequest {
    pub uri: String,
    pub size: u64,
    pub policy_id: String,
    /// In milliseconds.
    pub last_modified: Option<u64>,
    pub mime_type: Option<String>,
    pub entity_type: Option<String>,
}

/// A time of modification, where one is given: neither zero nor before that.
pub fn positive_time(last_modified: i64) -> (r: Option<u64>)
    ensures
        r == if last_modified > 0 {
            Some(last_modified as u64)
        } else {
            None
        },
{
    if last_modified > 0 {
        Some(last_modified as u64)
    } else {
        None
    }
}

/// The time of modification that an upload is marked with.
pub fn upload_time(last_modified_ms: Option<i64>) -> (r: Option<u64>)
    ensures
        r == match last_modified_ms {
            Some(t) => if t > 0 {
                Some(t as u64)
            } else {
                None
            },
            None => None,
        },
{
    match last_modified_ms {
        Some(t) => positive_time(t),
        None => None,
    }
}

/// The storage policy for an upload: that of the directory, else the one that was seen last, else
/// none.
pub open spec fn upload_policy(resolved: Option<Seq<char>>, kept: Option<Seq<char>>) -> Seq<char> {
    match resolved {
        Some(id) => id,
        None => text_or_empty(kept),
    }
}

/// The request of version 4 for an upload session. The storage policy that is used is kept, where
/// there is one. An upload in chunks makes a new version of a file that is there.
pub fn v4_upload_request(
    session: &mut Session,
    path: &str,
    name: &str,
    resolved_policy: Option<String>,
    size: u64,
    last_modified: i64,
    mime_type: String,
    chunk_size: u32,
) -> (r: V4UploadRequest)
    ensures
        r.uri@ == uri_of_path(child_of(parent_of(path@), name@)),
        r.size == size,
        r.policy_id@ == upload_policy(opt_view(resolved_policy), old(session)@.policy_id),
        final(session)@ == if r.policy_id@.len() > 0 {
            SessionView { policy_id: Some(r.policy_id@), ..old(session)@ }
        } else {
            old(session)@
        },
        r.last_modified == if last_modified > 0 {
            Some(last_modified as u64)
        } else {
            None
        },
        opt_view(r.mime_type) == if mime_type@.len() > 0 {
            Some(mime_type@)
        } else {
            None
        },
        opt_view(r.entity_type) == if chunk_size > 0 {
            Some("version"@)
        } else {
            None
        },
{
    let parent = unix_parent(path);
    let file_path = child_path(parent.as_str(), name);
    let policy_id = match resolved_policy {
        Some(id) => id,
        None => match session.get_v4_policy_id() {
            Some(id) => id,
            None => {
                let none = String::new();
                assert(none@ =~= Seq::empty());
                none
            },
        },
    };
    if !is_empty_text(policy_id.as_str()) {
        session.set_v4_policy_id(Some(policy_id.clone()));
    }
    V4UploadRequest {
        uri: cloudreve_api::api::v4::uri::path_to_uri(file_path.as_str()),
        size,
        policy_id,
        last_modified: positive_time(last_modified),
        mime_type: if is_empty_text(mime_type.as_str()) {
            None
        } else {
            Some(mime_type)
        },
        entity_type: if chunk_size > 0 {
            Some("version".to_string())
        } else {
            None
        },
    }
}

/// The number that is there, or zero.
pub open spec fn or_zero(n: Option<u64>) -> u64 {
    match n {
        Some(v) => v,
        None => 0,
    }
}

/// The upload session of version 4, as it is shown.
pub open spec fn v4_session(session: JsonView) -> JsonView {
    let policy = member(session, "storage_policy"@);
    let complete = match member(session, "completeURL"@) {
        Some(v) => Some(v),
        None => member(session, "complete_url"@),
    };
    JsonView::Object(
        seq![
            ("chunkSize"@, nat_json(or_zero(natural_under(session, "chunk_size"@)))),
            ("completeUrl"@, or_null(complete)),
            ("credential"@, or_null(member(session, "credential"@))),
            ("expires"@, nat_json(or_zero(natural_under(session, "expires"@)))),
            ("sessionId"@, text_json(text_or_empty(text_in(member(session, "session_id"@))))),
            (
                "storagePolicyRelay"@,
                JsonView::Bool(
                    match bool_in(opt_member(policy, "relay"@)) {
                        Some(b) => b,
                        None => false,
                    },
                ),
            ),
            (
                "storagePolicyType"@,
                text_json(text_or_empty(text_in(opt_member(policy, "type"@)))),
            ),
            ("uploadUrls"@, or_null(member(session, "upload_urls"@))),
        ],
    )
}

fn u64_or_zero(value: &Json, key: &str) -> (r: u64)
    ensures
        r == or_zero(natural_under(value@, key@)),
{
    match json_u64(value, key) {
        Some(n) => n,
        None => 0,
    }
}

/// The upload session of version 4, as it is shown.
pub fn v4_upload_session(session: &Json) -> (r: Json)
    ensures
        r@ == v4_session(session@),
{
    let policy = session.get("storage_policy");
    let relay = match member_of(policy, "relay") {
        Some(v) => match v.as_bool() {
            Some(b) => b,
            None => false,
        },
        None => false,
    };
    let policy_type = match policy {
        Some(p) => json_string(p, "type"),
        None => {
            let none = String::new();
            assert(none@ =~= Seq::empty());
            none
        },
    };
    let complete = match session.get("completeURL") {
        Some(v) => Some(v),
        None => session.get("complete_url"),
    };
    let entries = Entries::new().with(
        "chunkSize",
        nat_value(u64_or_zero(session, "chunk_size")),
    ).with("completeUrl", value_or_null(complete)).with(
        "credential",
        value_or_null(session.get("credential")),
    ).with("expires", nat_value(u64_or_zero(session, "expires"))).with(
        "sessionId",
        text_value(json_string(session, "session_id")),
    ).with("storagePolicyRelay", Json::Bool(relay)).with(
        "storagePolicyType",
        text_value(policy_type),
    ).with("uploadUrls", value_or_null(session.get("upload_urls")));
    assert(entries@ =~= v4_session(session@)->Object_0);
    entries.object()
}

/// The upload session, as it is shown, from the answer of the server; or the reason why there is
/// none.
pub fn get_upload_uri(code: i32, msg: String, data: Option<Json>) -> (r: Result<Json, String>)
    ensures
        if code != 0 {
            r matches Err(reason) && reason@ == api_text(code as int, msg@)
        } else {
            match data {
                Some(session) => r matches Ok(json) && json@ == v4_session(session@),
                None => r matches Err(reason) && reason@ == msg@,
            }
        },
{
    if code != 0 {
        return Err(ApiError::api(code, msg).text);
    }
    match data {
        Some(session) => Ok(v4_upload_session(&session)),
        None => Err(msg),
    }
}

/// Whether an error means that the server no longer knows an upload session.
pub open spec fn session_gone(error: ApiError) -> bool {
    error.kind matches ErrorKind::Api { code, message: _ } && code == V3_CODE_UPLOAD_SESSION_EXPIRED
}

/// What comes of deleting upload sessions: a session that is gone already counts as deleted.
pub fn delete_upload_session(result: Result<(), ApiError>) -> (r: Result<(), String>)
    ensures
        match result {
            Ok(_) => r is Ok,
            Err(error) => if session_gone(error) {
                r is Ok
            } else {
                r matches Err(reason) && reason@ == error.text@
            },
        },
{
    match result {
        Ok(()) => Ok(()),
        Err(error) => {
            let gone = match &error.kind {
                ErrorKind::Api { code, message: _ } => *code == V3_CODE_UPLOAD_SESSION_EXPIRED,
                _ => false,
            };
            if gone {
                Ok(())
            } else {
                Err(error.text)
            }
        },
    }
}

/// Whether there is a session to delete on a server of version 3: not where its id is lost.
pub fn has_session_to_delete(session_id: &str) -> (r: bool)
    ensures
        r == (session_id@.len() > 0),
{
    !is_empty_text(session_id)
}

/// What is announced as the length of a chunk is there to be read: it lies within the file.
pub proof fn law_window_lies_within_the_file(file_len: u64, start: u64, length: u64)
    ensures
        window(file_len, start, length) <= length,
        window(file_len, start, length) > 0 ==> start + window(file_len, start, length) <= file_len,
        start + length <= file_len ==> window(file_len, start, length) == length,
{
}

/// A server of version 3 that refuses a chunk in the body of its answer is never taken to have
/// accepted it, whatever the status.
pub proof fn law_refused_chunk_is_not_taken(target: ChunkUploadTarget, answer: ChunkAnswer)
    requires
        target is V3Cookie,
        answer.parsed matches Some(p) && p.code != 0,
    ensures
        !chunk_taken(target, answer),
{
}

} // verus!
