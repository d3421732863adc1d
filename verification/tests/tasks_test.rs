use cloudreve_native::json::{Json, JsonNumber};
use cloudreve_native::tasks::{
    fallback_delete_result, get_user_tasks, is_past_finished, settle_progress,
    task_error_from_props, task_name_from_props, v4_aria2_downloading, v4_aria2_finished,
    v4_task_status_to_i32, v4_task_type_to_i32, Task, TaskStatus, TaskType,
};

fn show(value: &Json) -> String {
    match value {
        Json::Null => "null".to_string(),
        Json::Bool(b) => b.to_string(),
        Json::Number(JsonNumber::PosInt(n)) => n.to_string(),
        Json::Number(JsonNumber::NegInt(n)) => n.to_string(),
        Json::Number(JsonNumber::Float(b)) => f64::from_bits(*b).to_string(),
        Json::Text(s, _) => serde_json::to_string(s).unwrap(),
        Json::Array(items) => {
            let parts: Vec<String> = items.iter().map(show).collect();
            format!("[{}]", parts.join(","))
        }
        Json::Object(entries) => {
            let parts: Vec<String> = entries
                .iter()
                .map(|(k, v)| format!("{}:{}", serde_json::to_string(k).unwrap(), show(v)))
                .collect();
            format!("{{{}}}", parts.join(","))
        }
    }
}

fn task(id: &str, status: TaskStatus, props: Option<&str>) -> Task {
    Task {
        id: id.to_string(),
        created_at: "c".to_string(),
        updated_at: "u".to_string(),
        status,
        task_type: TaskType::RemoteDownload,
        props: props.map(|p| Json::parse(p).unwrap()),
        error: None,
        node: Some("node".to_string()),
    }
}

#[test]
fn numbers_of_states_and_types() {
    assert_eq!(v4_task_status_to_i32(&TaskStatus::Queued), 0);
    assert_eq!(v4_task_status_to_i32(&TaskStatus::Processing), 1);
    assert_eq!(v4_task_status_to_i32(&TaskStatus::Suspending), 1);
    assert_eq!(v4_task_status_to_i32(&TaskStatus::Error), -1);
    assert_eq!(v4_task_status_to_i32(&TaskStatus::Canceled), 2);
    assert_eq!(v4_task_status_to_i32(&TaskStatus::Completed), 4);
    assert_eq!(v4_task_type_to_i32(&TaskType::RemoteDownload), 2);
    assert_eq!(v4_task_type_to_i32(&TaskType::Relocate), 4);
    assert_eq!(v4_task_type_to_i32(&TaskType::CreateArchive), 3);
}

#[test]
fn names_and_errors_of_tasks() {
    let props = Json::parse(r#"{"src_str":"https://h/a.iso?q","error_message":"boom","download":{"name":"d.iso"}}"#).unwrap();
    let dl = props.get("download");
    assert_eq!(task_name_from_props(Some(&props), dl, "id"), "d.iso");
    assert_eq!(task_name_from_props(Some(&props), None, "id"), "a.iso");
    assert_eq!(task_name_from_props(None, None, "x/id"), "id");
    let dot = Json::parse(r#"{"name":"?x"}"#).unwrap();
    assert_eq!(task_name_from_props(Some(&dot), None, "id"), "id");
    assert_eq!(task_error_from_props(Some(&props), None), "boom");
    let fallback = "f".to_string();
    assert_eq!(task_error_from_props(None, Some(&fallback)), "f");
    assert_eq!(task_error_from_props(None, None), "");
}

#[test]
fn progress_of_downloads() {
    let p = |t, d, pc| {
        let r = settle_progress(t, d, pc);
        (r.total, r.downloaded)
    };
    assert_eq!(p(1000, 0, 25), (1000, 250));
    assert_eq!(p(1000, 0, 250), (1000, 1000));
    assert_eq!(p(0, 0, 30), (100, 30));
    assert_eq!(p(-1, -1, 200), (100, 100));
    assert_eq!(p(1000, 7, 25), (1000, 7));
    assert_eq!(p(1000, 0, 0), (1000, 0));
    assert_eq!(p(i64::MAX, 0, 50), (i64::MAX, i64::MAX / 2));
}

#[test]
fn downloads_under_way() {
    let tasks = vec![
        task("t1", TaskStatus::Processing, Some(r#"{"dst":"cloudreve://my/d","download":{"name":"a.iso","downloaded":0,"total":200,"progress":50,"download_speed":9}}"#)),
        task("t2", TaskStatus::Completed, None),
    ];
    let json = v4_aria2_downloading(Some(tasks), String::new()).unwrap_or(Json::Null);
    assert_eq!(
        show(&json),
        concat_lines(&[
            r#"[{"downloaded":100,"dst":"/d","info":{"completedLength":"100","downloadSpeed":"9","#,
            r#""errorMessage":"","files":[],"gid":"t1","status":"active","totalLength":"200"},"#,
            r#""interval":5,"name":"a.iso","node":"node","speed":9,"status":1,"total":200,"update":"u"}]"#,
        ])
    );
    assert!(matches!(v4_aria2_downloading(None, "m".to_string()), Err(reason) if reason == "m"));
}

fn concat_lines(parts: &[&str]) -> String {
    parts.concat()
}

#[test]
fn finished_downloads() {
    let tasks = vec![
        task("t1", TaskStatus::Completed, Some(r#"{"path":"/d/","download":{"total":5,"files":[{"name":"x","size":3,"index":2,"selected":false},{}]},"name":"n"}"#)),
        task("t2", TaskStatus::Queued, None),
        task("t3", TaskStatus::Error, Some(r#"{"size":"?","error":"bad","total":8}"#)),
    ];
    let json = v4_aria2_finished(Some(tasks), String::new()).unwrap_or(Json::Null);
    assert_eq!(
        show(&json),
        concat_lines(&[
            r#"[{"create":"c","dst":"/d/","files":["#,
            r#"{"completedLength":"3","index":"2","length":"3","path":"/d/x","selected":false,"uris":[]},"#,
            r#"{"completedLength":"5","index":"0","length":"5","path":"/d/x","selected":true,"uris":[]}],"#,
            r#""gid":"t1","name":"x","node":"node","status":4,"task_error":"","task_status":4,"total":5,"update":"u"},"#,
            r#"{"create":"c","dst":"","files":[{"completedLength":"0","index":"0","length":"8","path":"t3","selected":true,"uris":[]}],"#,
            r#""gid":"t3","name":"t3","node":"node","status":-1,"task_error":"bad","task_status":-1,"total":8,"update":"u"}]"#,
        ])
    );
    assert!(matches!(v4_aria2_finished(None, "m".to_string()), Err(reason) if reason == "m"));
    assert!(!is_past_finished(1) && !is_past_finished(-3) && is_past_finished(2));
}

#[test]
fn the_general_queue() {
    let mut first = task("t1", TaskStatus::Completed, Some(r#"{"src":"/a/b.zip"}"#));
    first.task_type = TaskType::CreateArchive;
    first.error = Some("e".to_string());
    let second = task("t2", TaskStatus::Queued, Some(r#"{"progress":12}"#));
    let json = get_user_tasks(Some(vec![first, second]), String::new()).unwrap_or(Json::Null);
    assert_eq!(
        show(&json),
        concat_lines(&[
            r#"{"tasks":[{"create_date":"c","error":"e","id":"t1","name":"b.zip","progress":100,"status":4,"type":3},"#,
            r#"{"create_date":"c","error":"","id":"t2","name":"t2","progress":12,"status":0,"type":2}],"total":2}"#,
        ])
    );
    assert!(matches!(get_user_tasks(None, "m".to_string()), Err(reason) if reason == "m"));
}

#[test]
fn deleting_a_task_the_second_way() {
    assert_eq!(fallback_delete_result("a".to_string(), None), Err("a".to_string()));
    assert_eq!(fallback_delete_result("a".to_string(), Some((0, String::new()))), Ok(()));
    assert_eq!(
        fallback_delete_result("a".to_string(), Some((-7, "m".to_string()))),
        Err("a; fallback delete failed: API error m (-7)".to_string())
    );
}
