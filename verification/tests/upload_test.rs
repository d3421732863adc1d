use cloudreve_native::errors::{ApiError, ErrorKind};
use cloudreve_native::json::{Json, JsonNumber};
use cloudreve_native::session::Session;
use cloudreve_native::share::{
    create_share_link, enrich_share_source_uri, map_v3_share_to_unified, share_info_endpoint,
    ShareList, V3ShareList, SHARE_MAX_PAGES,
};
use cloudreve_native::upload::{
    bearer_target, chunk_url, chunk_window, credential_target, delete_upload_session,
    get_upload_uri, has_session_to_delete, judge_chunk, judge_node_chunk, node_chunk_url,
    read_local_chunk, start_fill, upload_header, upload_time, v3_upload_request,
    v3_upload_session, v4_upload_request, ChunkAnswer, ChunkStream, ChunkUploadTarget, FillEvent,
    FillStep, ReadEvent, StreamStep, UploadHeader, V3ChunkUploadResponse, PROGRESS_NOTIFY_STEP,
    READ_STEP,
};

fn show(value: &Json) -> String {
    match value {
        Json::Null => "null".to_string(),
        Json::Bool(b) => b.to_string(),
        Json::Number(JsonNumber::PosInt(n)) => n.to_string(),
        Json::Number(JsonNumber::NegInt(n)) => n.to_string(),
        Json::Number(JsonNumber::Float(b)) => f64::from_bits(*b).to_string(),
        Json::Text(s, _) => serde_json::to_string(s).unwrap(),
        Json::Array(items) => {
            let parts: Vec<String> = items.iter().map(show).collect();
            format!("[{}]", parts.join(","))
        }
        Json::Object(entries) => {
            let parts: Vec<String> = entries
                .iter()
                .map(|(k, v)| format!("{}:{}", serde_json::to_string(k).unwrap(), show(v)))
                .collect();
            format!("{{{}}}", parts.join(","))
        }
    }
}

fn parse(text: &str) -> Json {
    Json::parse(text).unwrap()
}

#[test]
fn the_window_of_a_chunk() {
    assert_eq!(chunk_window(100, 10, 50), Ok(50));
    assert_eq!(chunk_window(100, 10, 500), Ok(90));
    assert_eq!(chunk_window(100, 100, 5), Err("nothing to upload: file is 100 bytes, offset 100".to_string()));
    assert_eq!(chunk_window(100, 200, 5), Err("nothing to upload: file is 100 bytes, offset 200".to_string()));
    assert_eq!(chunk_window(100, 0, 0), Err("nothing to upload: file is 100 bytes, offset 0".to_string()));
    assert_eq!(chunk_window(6_000_000_000, 0, 5_000_000_000), Ok(5_000_000_000));
}

#[test]
fn the_stream_of_a_chunk() {
    let length = PROGRESS_NOTIFY_STEP + 3 * READ_STEP + 5;
    let mut stream = ChunkStream::new(length);
    let mut sent = 0;
    let mut reports = Vec::new();
    while let Some(n) = stream.read_size() {
        assert!(n <= READ_STEP);
        sent += n;
        match stream.step(ReadEvent::Read(n)) {
            StreamStep::Send(Some(total)) => {
                assert_eq!(total, sent);
                reports.push(total);
            }
            StreamStep::Send(None) => {}
            _ => panic!("the stream ends"),
        }
    }
    assert_eq!(sent, length);
    assert_eq!(reports, vec![PROGRESS_NOTIFY_STEP]);
}

#[test]
fn a_stream_ends_early() {
    let mut stream = ChunkStream::new(10);
    assert_eq!(stream.read_size(), Some(10));
    assert!(matches!(stream.step(ReadEvent::Read(4)), StreamStep::Send(None)));
    assert_eq!(stream.read_size(), Some(6));
    assert!(matches!(stream.step(ReadEvent::Read(0)), StreamStep::End));
    assert!(matches!(stream.step(ReadEvent::Failed), StreamStep::Fail));
    assert_eq!(stream.read_size(), None);
}

#[test]
fn a_part_of_a_file_is_read_full() {
    assert_eq!(start_fill(0), FillStep::Done(0));
    assert_eq!(start_fill(10), FillStep::Continue(0));
    assert_eq!(read_local_chunk(10, 0, FillEvent::Read(4)), FillStep::Continue(4));
    assert_eq!(read_local_chunk(10, 4, FillEvent::Interrupted), FillStep::Continue(4));
    assert_eq!(read_local_chunk(10, 4, FillEvent::Read(6)), FillStep::Done(10));
    assert_eq!(read_local_chunk(10, 4, FillEvent::Read(0)), FillStep::Done(4));
    assert_eq!(read_local_chunk(10, 4, FillEvent::Failed), FillStep::Fail);
}

#[test]
fn a_part_holds_all_there_is() {
    for (capacity, avail, most) in [(10, 25, 3), (10, 10, 4), (10, 7, 3), (10, 0, 5), (0, 9, 1)] {
        let mut step = start_fill(capacity);
        let mut interrupted = false;
        while let FillStep::Continue(filled) = step {
            interrupted = !interrupted;
            let event = if interrupted {
                FillEvent::Interrupted
            } else {
                FillEvent::Read(most.min(capacity - filled).min(avail - filled))
            };
            step = read_local_chunk(capacity, filled, event);
        }
        assert_eq!(step, FillStep::Done(capacity.min(avail)));
    }
}

#[test]
fn where_and_how_a_chunk_is_sent() {
    assert_eq!(chunk_url("http://h/", true, "s", 3), "http://h/api/v3/file/upload/s/3");
    assert_eq!(chunk_url("http://h", false, "s", 0), "http://h/api/v4/file/upload/s/0");
    assert_eq!(node_chunk_url("http://n/u", 2), "http://n/u?chunk=2");
    assert_eq!(node_chunk_url("http://n/u?a=b", 2), "http://n/u?a=b&chunk=2");
    assert!(matches!(upload_header(&bearer_target(Some("t".to_string()))), UploadHeader::Authorization(h) if h == "Bearer t"));
    assert!(matches!(upload_header(&bearer_target(None)), UploadHeader::Nothing));
    assert!(matches!(upload_header(&credential_target("c".to_string())), UploadHeader::Authorization(h) if h == "c"));
    assert!(matches!(upload_header(&credential_target(String::new())), UploadHeader::Nothing));
    let target = ChunkUploadTarget::V3Cookie(Some("k".to_string()));
    assert!(matches!(upload_header(&target), UploadHeader::Cookie(h) if h == "cloudreve-session=k"));
    assert!(matches!(upload_header(&ChunkUploadTarget::V3Cookie(None)), UploadHeader::Nothing));
}

fn answer(success: bool, body: &str, parsed: Option<(i32, &str)>) -> ChunkAnswer {
    ChunkAnswer {
        success,
        status: "S".to_string(),
        body: body.to_string(),
        parsed: parsed.map(|(code, msg)| V3ChunkUploadResponse { code, msg: msg.to_string() }),
    }
}

#[test]
fn what_the_server_says_of_a_chunk() {
    let v3 = ChunkUploadTarget::V3Cookie(None);
    let v4 = ChunkUploadTarget::AuthHeader(None);
    assert_eq!(
        judge_chunk(&v3, answer(true, "b", Some((40011, "gone")))),
        Err("upload chunk failed: API error: gone (code: 40011)".to_string())
    );
    assert_eq!(judge_chunk(&v3, answer(false, "b", Some((0, "")))), Ok(()));
    assert_eq!(judge_chunk(&v3, answer(false, "b", None)), Err("upload chunk failed: S b".to_string()));
    assert_eq!(judge_chunk(&v3, answer(true, "b", None)), Ok(()));
    assert_eq!(judge_chunk(&v4, answer(true, "b", Some((5, "x")))), Ok(()));
    assert_eq!(judge_chunk(&v4, answer(false, "", None)), Err("upload chunk failed: S Unknown upload error".to_string()));
    assert_eq!(judge_node_chunk(true, "S", None), Ok(()));
    assert_eq!(judge_node_chunk(false, "S", None), Err("upload url failed: S Unknown upload URL error".to_string()));
    assert_eq!(judge_node_chunk(false, "S", Some("b".to_string())), Err("upload url failed: S b".to_string()));
}

#[test]
fn requests_for_upload_sessions() {
    let r = v3_upload_request("/d/x", "n".to_string(), "p".to_string(), 5, -1, "m".to_string());
    assert_eq!((r.path.as_str(), r.name.as_str(), r.policy_id.as_str()), ("/d", "n", "p"));
    assert_eq!((r.size, r.last_modified, r.mime_type.as_str()), (5, 0, "m"));
    let r = v3_upload_request("x", "n".to_string(), "p".to_string(), 5, 1_700_000_000_000, "m".to_string());
    assert_eq!((r.path.as_str(), r.last_modified), ("/", 1_700_000_000_000));
    let mut session = Session::new();
    let r = v4_upload_request(&mut session, "/x", "n", None, 5_000_000_000, 0, String::new(), 0);
    assert_eq!((r.uri.as_str(), r.policy_id.as_str(), r.size), ("cloudreve://my/n", "", 5_000_000_000));
    assert!(r.last_modified.is_none() && r.mime_type.is_none() && r.entity_type.is_none());
    assert_eq!(session.get_v4_policy_id(), None);
    let r = v4_upload_request(&mut session, "/d/x", "n", Some("p".to_string()), 1, 9, "m".to_string(), 4);
    assert_eq!((r.uri.as_str(), r.policy_id.as_str(), r.last_modified), ("cloudreve://my/d/n", "p", Some(9)));
    assert_eq!((r.mime_type, r.entity_type), (Some("m".to_string()), Some("version".to_string())));
    assert_eq!(session.get_v4_policy_id(), Some("p".to_string()));
    let r = v4_upload_request(&mut session, "/d/x", "n", None, 1, 9, "m".to_string(), 4);
    assert_eq!(r.policy_id, "p");
    let r = v4_upload_request(&mut session, "/d/x", "n", Some(String::new()), 1, 9, "m".to_string(), 4);
    assert_eq!(r.policy_id, "");
    assert_eq!(session.get_v4_policy_id(), Some("p".to_string()));
    assert_eq!(upload_time(Some(7)), Some(7));
    assert_eq!(upload_time(Some(0)), None);
    assert_eq!(upload_time(None), None);
}

#[test]
fn upload_sessions_as_they_are_shown() {
    assert_eq!(show(&v3_upload_session("s".to_string(), 0, -1)), r#"{"chunkSize":0,"expires":-1,"sessionId":"s"}"#);
    let data = parse(r#"{"session_id":"s","chunk_size":4,"expires":-3,"upload_urls":["u"],"complete_url":"c","storage_policy":{"type":"local","relay":true}}"#);
    let json = get_upload_uri(0, String::new(), Some(data)).unwrap_or(Json::Null);
    assert_eq!(
        show(&json),
        r#"{"chunkSize":4,"completeUrl":"c","credential":null,"expires":0,"sessionId":"s","storagePolicyRelay":true,"storagePolicyType":"local","uploadUrls":["u"]}"#
    );
    let json = get_upload_uri(0, String::new(), Some(parse(r#"{"completeURL":null,"complete_url":"c"}"#))).unwrap_or(Json::Null);
    assert_eq!(
        show(&json),
        r#"{"chunkSize":0,"completeUrl":null,"credential":null,"expires":0,"sessionId":"","storagePolicyRelay":false,"storagePolicyType":"","uploadUrls":null}"#
    );
    assert!(matches!(get_upload_uri(3, "m".to_string(), None), Err(r) if r == "API error: m (code: 3)"));
    assert!(matches!(get_upload_uri(0, "m".to_string(), None), Err(r) if r == "m"));
}

#[test]
fn sessions_that_are_gone_count_as_deleted() {
    assert_eq!(delete_upload_session(Ok(())), Ok(()));
    assert_eq!(delete_upload_session(Err(ApiError::api(40011, "x".to_string()))), Ok(()));
    assert_eq!(delete_upload_session(Err(ApiError::api(1, "x".to_string()))), Err("API error: x (code: 1)".to_string()));
    let e = ApiError {
        kind: ErrorKind::ApiWithData { code: 40011, message: "x".to_string(), data: Json::Null },
        text: "t".to_string(),
    };
    assert_eq!(delete_upload_session(Err(e)), Err("t".to_string()));
    assert!(has_session_to_delete("s") && !has_session_to_delete(""));
}

#[test]
fn shares_of_version_three() {
    let item = parse(r#"{"key":"k","is_dir":true,"password":"p","source":{"name":"n"},"expire":60,"downloads":2,"views":3,"create_date":"d"}"#);
    assert_eq!(
        show(&map_v3_share_to_unified(&item, "http://h")),
        [
            r#"{"created_at":"d","downloaded":2,"expired":false,"expires":"60","id":"k","name":"n","password":"p","#,
            r#""password_protected":true,"source":{"name":"n"},"source_type":1,"source_uri":"","url":"http://h/s/k/p","visited":3}"#,
        ]
        .concat()
    );
    assert_eq!(
        show(&map_v3_share_to_unified(&parse(r#"{"expire":0}"#), "http://h")),
        [
            r#"{"created_at":"","downloaded":0,"expired":true,"expires":null,"id":"","name":"","password":"","#,
            r#""password_protected":false,"source":{"name":""},"source_type":0,"source_uri":"","url":"http://h/s/","visited":0}"#,
        ]
        .concat()
    );
    assert_eq!(map_v3_share_to_unified(&parse("{}"), "h").get("expired").unwrap().as_bool(), Some(false));
}

fn ids(list: &Json) -> Vec<String> {
    let shares = list.as_array().unwrap();
    shares.iter().map(|share| share.get("id").unwrap().as_str().unwrap().to_string()).collect()
}

#[test]
fn listing_shares_of_version_three() {
    let mut list = V3ShareList::new();
    assert_eq!(list.endpoint(), "/share?page=1&order_by=created_at&order=DESC");
    let page = parse(r#"{"data":{"items":[{"key":"a"},{"key":"b"}]}}"#);
    assert!(list.take_page(&page, "h"));
    assert_eq!(list.endpoint(), "/share?page=2&order_by=created_at&order=DESC");
    assert!(!list.take_page(&parse(r#"{"data":{"items":[]}}"#), "h"));
    assert_eq!(list.finish().as_array().unwrap().len(), 2);
    let mut list = V3ShareList::new();
    assert!(list.take_page(&page, "h"));
    assert!(list.take_page(&parse(r#"{"data":{"items":[{"key":"c"}]}}"#), "h"));
    assert!(!list.take_page(&parse("{}"), "h"));
    assert_eq!(ids(&list.finish()), ["a", "b", "c"]);
    let mut list = V3ShareList::new();
    assert!(!list.take_page(&parse("{}"), "h"));
    let mut list = V3ShareList::new();
    let mut pages = 1;
    while list.take_page(&page, "h") {
        pages += 1;
    }
    assert_eq!(pages, SHARE_MAX_PAGES);
}

#[test]
fn filling_in_a_share() {
    assert_eq!(share_info_endpoint(&parse(r#"{"id":"a b","password":"p&"}"#)).unwrap(), "/share/info/a%20b?owner_extended=true&count_views=false&password=p%26");
    assert_eq!(share_info_endpoint(&parse(r#"{"id":"a","source_uri":"","password":""}"#)).unwrap(), "/share/info/a?owner_extended=true&count_views=false");
    assert!(share_info_endpoint(&parse(r#"{"id":"a","source_uri":"u"}"#)).is_none());
    assert!(share_info_endpoint(&parse(r#"{"id":""}"#)).is_none());
    assert!(share_info_endpoint(&parse("[]")).is_none());
    let detail = parse(r#"{"a":1,"m":2,"z":3}"#);
    let share = enrich_share_source_uri(parse(r#"{"b":0,"m":0,"y":0}"#), Some(&detail));
    assert_eq!(show(&share), r#"{"a":1,"b":0,"m":2,"y":0,"z":3}"#);
    assert_eq!(show(&enrich_share_source_uri(parse(r#"{"b":0}"#), None)), r#"{"b":0}"#);
    assert_eq!(show(&enrich_share_source_uri(parse("[1]"), Some(&detail))), "[1]");
}

#[test]
fn listing_shares_of_version_four() {
    let mut list = ShareList::new();
    assert_eq!(list.endpoint(), "/share?page_size=100");
    let data = Json::parse(r#"{"shares":[{"id":"a"}],"pagination":{"next_token":"t 1"}}"#);
    let shares = ShareList::page_shares(&data, String::new()).ok().unwrap();
    assert_eq!(shares.len(), 1);
    assert!(list.take_page(shares, data.as_ref().unwrap()));
    assert_eq!(list.endpoint(), "/share?page_size=100&next_page_token=t%201");
    assert!(!list.take_page(vec![Json::Null], data.as_ref().unwrap()));
    assert_eq!(list.finish().as_array().unwrap().len(), 2);
    let mut list = ShareList::new();
    for (text, more) in [
        (r#"{"shares":[{"id":"a"},{"id":"b"}],"pagination":{"next_token":"1"}}"#, true),
        (r#"{"shares":[],"pagination":{"next_token":"2"}}"#, true),
        (r#"{"shares":[{"id":"c"},{"id":"a"}]}"#, false),
    ] {
        let data = Json::parse(text);
        let shares = ShareList::page_shares(&data, String::new()).ok().unwrap();
        assert_eq!(list.take_page(shares, data.as_ref().unwrap()), more);
    }
    assert_eq!(ids(&list.finish()), ["a", "b", "c", "a"]);
    assert_eq!(ShareList::page_shares(&None, "m".to_string()).err().unwrap().text, "Invalid response: m");
    assert!(ShareList::page_shares(&Some(Json::Null), String::new()).ok().unwrap().is_empty());
    let mut list = ShareList::new();
    let mut pages = 1u32;
    loop {
        let page = parse(&format!(r#"{{"pagination":{{"next_token":"{}"}}}}"#, pages));
        if !list.take_page(Vec::new(), &page) {
            break;
        }
        pages += 1;
    }
    assert_eq!(pages, SHARE_MAX_PAGES);
}

#[test]
fn requests_for_share_links() {
    let r = create_share_link("/a".to_string(), 2, "p".to_string());
    assert_eq!((r.uri.as_str(), r.is_private, r.expire), ("/a", Some(true), Some(172800)));
    assert_eq!((r.password, r.permission.as_str()), (Some("p".to_string()), "read"));
    let r = create_share_link("/a".to_string(), -1, String::new());
    assert!(r.is_private.is_none() && r.expire.is_none() && r.password.is_none());
    assert_eq!(create_share_link("/a".to_string(), 49710, String::new()).expire, Some(4294944000));
}
