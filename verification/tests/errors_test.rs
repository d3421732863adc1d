use cloudreve_native::batch::{
    all_paths, batch_auth_expired, batch_outcome_all_failed, conflict_tokens, empty_outcome,
    first_failure, itemized_outcome, to_batch_failures, whole_outcome, ItemFailure,
};
use cloudreve_native::errors::{
    describe_error, normalize_v4_auth_error, v4_auth_expired, ApiError, ErrorKind, ItemError,
};
use cloudreve_native::json::Json;
use cloudreve_native::objects::{delete_object_lock_aware, get_file_metadata, v4_call_json};
use cloudreve_native::session::v4_client_of;

fn failure(path: &str, code: Option<i32>, message: &str, data: Option<&str>) -> ItemFailure {
    ItemFailure {
        path: path.to_string(),
        code,
        message: message.to_string(),
        data: data.map(|d| Json::parse(d).unwrap()),
    }
}

fn strings(list: &[&str]) -> Vec<String> {
    list.iter().map(|s| s.to_string()).collect()
}

#[test]
fn texts_of_errors_are_those_of_the_client_crate() {
    let shown = cloudreve_api::Error::Api { code: -5, message: "m".to_string() }.to_string();
    assert_eq!(ApiError::api(-5, "m".to_string()).text, shown);
    assert_eq!(shown, "API error: m (code: -5)");
    assert_eq!(ApiError::unauthorized("x".to_string()).text, "Unauthorized: x");
    assert_eq!(ApiError::invalid_response("x".to_string()).text, "Invalid response: x");
    assert_eq!(
        ApiError::unsupported_feature("f".to_string(), "v".to_string()).text,
        "Feature 'f' not supported in API v"
    );
}

#[test]
fn expired_logins_are_recognised() {
    assert!(v4_auth_expired(401, ""));
    assert!(v4_auth_expired(40081, "Please: LOGIN Required now"));
    assert!(!v4_auth_expired(40081, "login"));
    assert!(!v4_auth_expired(0, ""));
}

#[test]
fn hidden_expiry_is_normalized() {
    let e = normalize_v4_auth_error(ApiError::api(40081, "Login required".to_string()));
    assert!(e.is_unauthorized());
    assert_eq!(e.text, "Unauthorized: Login required");
    let e = normalize_v4_auth_error(ApiError::api(40081, "other".to_string()));
    assert!(!e.is_unauthorized());
    let items = vec![
        ItemError { code: 1, msg: "x".to_string() },
        ItemError { code: 2, msg: "login required".to_string() },
    ];
    let e = ApiError {
        kind: ErrorKind::Aggregate { code: 40081, message: "One or more".to_string(), items },
        text: "t".to_string(),
    };
    assert_eq!(e.code(), Some(40081));
    let e = normalize_v4_auth_error(e);
    assert_eq!(e.text, "Unauthorized: One or more");
}

#[test]
fn causes_are_shown_in_one_line() {
    assert_eq!(describe_error(&strings(&["a", "b", "c"])), "a: b: c");
    assert_eq!(describe_error(&strings(&["a"])), "a");
    assert_eq!(describe_error(&Vec::new()), "");
}

#[test]
fn tokens_of_locks() {
    let parse = |t: &str| Json::parse(t).unwrap();
    assert_eq!(conflict_tokens(Some(&parse(r#"[{"token":"a"},{"x":1},{"token":2},{"token":"b"}]"#))), vec!["a", "b"]);
    assert_eq!(conflict_tokens(Some(&parse(r#"{"token":"a"}"#))), vec!["a"]);
    assert!(conflict_tokens(Some(&parse("3"))).is_empty());
    assert!(conflict_tokens(None).is_empty());
}

#[test]
fn failures_of_a_batch() {
    let failures = vec![
        failure("/a", Some(40073), "locked", Some(r#"[{"token":"t"}]"#)),
        failure("/b", None, "gone", None),
    ];
    let shown = to_batch_failures(&failures);
    assert_eq!(shown[0].code, 40073);
    assert_eq!(shown[0].tokens, vec!["t"]);
    assert_eq!((shown[1].path.as_str(), shown[1].code), ("/b", -1));
    assert!(!batch_auth_expired(&failures));
    let outcome = itemized_outcome(3, &failures).ok().unwrap();
    assert_eq!(outcome.succeeded, 3);
    assert_eq!(outcome.failed.len(), 2);
    match first_failure(&failures) {
        Err(e) => assert_eq!(e.text, "API error: locked (code: 40073)"),
        Ok(()) => panic!("no failure"),
    }
    assert!(first_failure(&Vec::new()).is_ok());
}

#[test]
fn a_batch_expires_as_a_whole() {
    let failures = vec![
        failure("/a", Some(401), "", None),
        failure("/b", None, "Login required", None),
    ];
    assert!(batch_auth_expired(&failures));
    assert!(!batch_auth_expired(&Vec::new()));
    assert_eq!(itemized_outcome(0, &failures).err().unwrap().text, "Unauthorized: Login required");
    assert!(first_failure(&failures).err().unwrap().is_unauthorized());
}

#[test]
fn a_batch_fails_as_a_whole() {
    let all = all_paths(&strings(&["/a", "/b"]), &strings(&["/c"]));
    assert_eq!(all, strings(&["/a", "/b", "/c"]));
    let outcome = whole_outcome(&all, Err(ApiError::api(7, "no".to_string())));
    assert_eq!(outcome.succeeded, 0);
    let paths: Vec<&str> = outcome.failed.iter().map(|f| f.path.as_str()).collect();
    assert_eq!(paths, vec!["/a", "/b", "/c"]);
    assert!(outcome.failed.iter().all(|f| f.code == 7 && f.message == "no" && f.tokens.is_empty()));
    let outcome = batch_outcome_all_failed(&all, &ApiError::invalid_response("x".to_string()));
    assert!(outcome.failed.iter().all(|f| f.code == -1 && f.message == "operation failed"));
    assert_eq!(whole_outcome(&all, Ok(())).succeeded, 3);
    assert!(empty_outcome().failed.is_empty());
}

#[test]
fn lock_aware_deletion() {
    let ok = delete_object_lock_aware(Ok(())).ok().unwrap();
    assert_eq!(ok.get("code").unwrap().as_i64(), Some(0));
    assert_eq!(ok.get("msg").unwrap().as_str().unwrap(), "");
    assert!(matches!(ok.get("data").unwrap(), Json::Null));
    let locked = ApiError {
        kind: ErrorKind::ApiWithData {
            code: 40073,
            message: "locked".to_string(),
            data: Json::parse("[1]").unwrap(),
        },
        text: "API error: locked (code: 40073)".to_string(),
    };
    let answer = delete_object_lock_aware(Err(locked)).ok().unwrap();
    assert_eq!(answer.get("code").unwrap().as_i64(), Some(40073));
    assert_eq!(answer.get("data").unwrap().as_array().unwrap().len(), 1);
    let other = delete_object_lock_aware(Err(ApiError::invalid_response("x".to_string()))).ok().unwrap();
    assert_eq!(other.get("code").unwrap().as_i64(), Some(-1));
    assert_eq!(other.get("msg").unwrap().as_str().unwrap(), "");
    assert!(delete_object_lock_aware(Err(ApiError::api(401, "m".to_string()))).is_err());
    assert!(delete_object_lock_aware(Err(ApiError::unauthorized("m".to_string()))).is_err());
}

#[test]
fn metadata_of_a_file() {
    let data = Json::parse(r#"{"metadata":{"a":"b"}}"#);
    let m = get_file_metadata(0, String::new(), &data).ok().unwrap();
    assert_eq!(m.get("a").unwrap().as_str().unwrap(), "b");
    let none = get_file_metadata(0, String::new(), &None).ok().unwrap();
    assert!(matches!(none, Json::Object(entries) if entries.is_empty()));
    let null = Json::parse(r#"{"metadata":null}"#);
    let none = get_file_metadata(0, String::new(), &null).ok().unwrap();
    assert!(matches!(none, Json::Object(entries) if entries.is_empty()));
    let e = get_file_metadata(5, "bad".to_string(), &None).err().unwrap();
    assert_eq!(e.text, "API error: bad (code: 5)");
    assert!(get_file_metadata(401, "out".to_string(), &None).err().unwrap().is_unauthorized());
    assert!(v4_call_json(5, "x").is_ok());
    assert_eq!(v4_client_of(false, "search").err().unwrap().text, "Feature 'search' not supported in API non-v4");
    assert!(v4_client_of(true, "search").is_ok());
}
