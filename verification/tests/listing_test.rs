use cloudreve_native::json::Json;
use cloudreve_native::listing::{
    detail_in_answer, get_directory, get_object_detail, object_detail_endpoint, FolderSummary,
    RemoteDetail, RemoteFile, StoragePolicy,
};
use cloudreve_native::objects::{
    file_metadata_endpoint, get_user_setting, get_user_storage, rename_object,
    v4_create_object, v4_do_move_or_copy, v4_get_download_url,
};
use cloudreve_native::search::{map_v4_search_file, Search, SEARCH_MAX_PAGES, SEARCH_PAGE_SIZE};
use cloudreve_native::session::Session;

fn file(name: &str, path: &str, is_folder: bool, updated: &str) -> RemoteFile {
    RemoteFile {
        name: name.to_string(),
        path: path.to_string(),
        is_folder,
        size: 7,
        created_at: "c".to_string(),
        updated_at: updated.to_string(),
        metadata: None,
    }
}

#[test]
fn a_directory() {
    let mut session = Session::new();
    let files = vec![
        file("a.JPG", "cloudreve://my/v/a.JPG", false, "u"),
        file("d.jpg", "cloudreve://my/v/d.jpg", true, "u"),
    ];
    let policy = Some(StoragePolicy {
        id: "p".to_string(),
        name: "n".to_string(),
        policy_type: "local".to_string(),
        max_size: u64::MAX,
    });
    let dir = get_directory(&mut session, &files, "cloudreve://my/v", &policy);
    assert_eq!(dir.parent, "/v");
    assert_eq!(dir.objects[0].id, "/v/a.JPG");
    assert_eq!(dir.objects[0].path, "/v");
    assert!(dir.objects[0].thumb && !dir.objects[1].thumb);
    assert_eq!(dir.objects[0].object_type, "file");
    assert_eq!(dir.objects[1].object_type, "dir");
    assert_eq!((dir.objects[0].date.as_str(), dir.objects[0].create_date.as_str()), ("u", "c"));
    assert!(!dir.objects[0].source_enabled);
    assert_eq!(dir.policy.max_size, -1);
    assert!(dir.policy.file_type.is_none());
    assert_eq!(session.get_v4_policy_id(), Some("p".to_string()));
    let dir = get_directory(&mut session, &Vec::new(), "cloudreve://my", &None);
    assert_eq!((dir.parent.as_str(), dir.policy.id.as_str(), dir.policy.max_size), ("/", "", 0));
    assert_eq!(session.get_v4_policy_id(), Some("p".to_string()));
}

#[test]
fn details_of_an_object() {
    assert_eq!(
        object_detail_endpoint("/a b", true),
        "/file/info?uri=cloudreve%3A%2F%2Fmy%2Fa%20b&extended=true&folder_summary=true"
    );
    assert_eq!(
        object_detail_endpoint("/a", false),
        "/file/info?uri=cloudreve%3A%2F%2Fmy%2Fa&extended=true"
    );
    let detail = |summary: Option<FolderSummary>, policy: Option<&str>| RemoteDetail {
        created_at: "c".to_string(),
        updated_at: "u".to_string(),
        size: 3,
        path: "cloudreve://my/x%20y".to_string(),
        folder_summary: summary,
        policy: policy.map(|p| p.to_string()),
    };
    let shown = get_object_detail(detail(None, None));
    assert_eq!((shown.size, shown.child_file_num, shown.child_folder_num), (3, 0, 0));
    assert_eq!((shown.path.as_str(), shown.query_date.as_str(), shown.policy.as_str()), ("/x y", "u", ""));
    let shown = get_object_detail(detail(Some(FolderSummary { size: 9, files: 2, folders: 1 }), Some("p")));
    assert_eq!((shown.size, shown.child_file_num, shown.child_folder_num), (9, 2, 1));
    assert_eq!(shown.policy, "p");
    assert!(detail_in_answer(Some(detail(None, None)), "").is_ok());
    assert_eq!(
        detail_in_answer(None, "A").err().unwrap().text,
        "Invalid response: API returned no data for get_object_detail request: A"
    );
}

#[test]
fn results_of_a_search() {
    let mut f = file("a.mp4", "cloudreve://my/v/a.mp4", false, "");
    f.metadata = Some(Json::Null);
    let r = map_v4_search_file(&f);
    assert!(r.thumb && r.metadata.is_none() && r.source_enabled);
    assert_eq!((r.id.as_str(), r.path.as_str(), r.date.as_str()), ("/v/a.mp4", "/v", "c"));
    f.metadata = Json::parse(r#"{"thumb:disabled":""}"#);
    f.updated_at = "u".to_string();
    let r = map_v4_search_file(&f);
    assert!(!r.thumb && r.metadata.is_some());
    assert_eq!(r.date, "u");
}

#[test]
fn a_search_page_by_page() {
    let mut search = Search::new("k", "/");
    let request = search.request();
    assert_eq!((request.page, request.page_size), (0, SEARCH_PAGE_SIZE));
    assert_eq!((request.order_by.as_str(), request.order_direction.as_str()), ("updated_at", "desc"));
    assert!(request.next_page_token.is_none());
    let page: Vec<RemoteFile> =
        (0..2000).map(|i| file("a", &format!("cloudreve://my/{}", i % 1999), false, &format!("{}", i % 10))).collect();
    assert!(search.take_page(&page, Some("t".to_string())));
    assert_eq!(search.request().page, 1);
    assert_eq!(search.request().next_page_token, Some("t".to_string()));
    assert!(!search.take_page(&page, Some("t".to_string())));
    let result = search.finish();
    assert_eq!(result.len(), 1999);
    assert!(result.windows(2).all(|w| w[0].date >= w[1].date));
    assert_eq!((result[0].id.as_str(), result[1].id.as_str()), ("/9", "/19"));
}

#[test]
fn a_search_finds_what_its_pages_hold() {
    let page = |from: usize, to: usize| -> Vec<RemoteFile> {
        (from..to).map(|i| file("a", &format!("cloudreve://my/{}", i), false, "d")).collect()
    };
    let mut search = Search::new("k", "/");
    assert!(search.take_page(&page(0, 2000), Some("1".to_string())));
    assert!(search.take_page(&page(1500, 3500), Some("2".to_string())));
    assert!(!search.take_page(&page(3400, 3600), Some("3".to_string())));
    let paths: Vec<String> = search.finish().into_iter().map(|result| result.id).collect();
    let expected: Vec<String> = (0..3600).map(|i| format!("/{}", i)).collect();
    assert_eq!(paths, expected);
}

#[test]
fn a_search_ends() {
    let page = |n: usize, k: usize| -> Vec<RemoteFile> {
        (0..n).map(|i| file("a", &format!("cloudreve://my/{}/{}", k, i), false, "d")).collect()
    };
    let mut search = Search::new("k", "/");
    assert!(!search.take_page(&page(1999, 0), Some("t".to_string())));
    let mut search = Search::new("k", "/");
    assert!(!search.take_page(&page(2000, 0), None));
    let mut search = Search::new("k", "/");
    let mut pages = 1;
    while search.take_page(&page(2000, pages), Some("t".to_string())) {
        pages += 1;
    }
    assert_eq!(pages, SEARCH_MAX_PAGES as usize);
}

#[test]
fn requests_for_objects() {
    let paths = vec!["/a".to_string(), "b".to_string()];
    let plan = v4_do_move_or_copy(&paths, "/d", false).unwrap();
    assert_eq!(plan.uris, vec!["cloudreve://my/a", "cloudreve://my/b"]);
    assert_eq!((plan.dst.as_str(), plan.copy), ("cloudreve://my/d", None));
    assert_eq!(v4_do_move_or_copy(&paths, "/d", true).unwrap().copy, Some(true));
    assert!(v4_do_move_or_copy(&Vec::new(), "/d", true).is_none());
    let r = rename_object("i".to_string(), true);
    assert!(r.items.is_empty() && r.dirs == vec!["i"]);
    let r = rename_object("i".to_string(), false);
    assert!(r.dirs.is_empty() && r.items == vec!["i"]);
    let c = v4_create_object("/p".to_string(), "folder");
    assert!(c.is_folder && c.err_on_conflict == Some(true) && c.path == "/p");
    assert!(!v4_create_object("/p".to_string(), "file").is_folder);
    assert_eq!(v4_get_download_url(vec!["u".to_string(), "v".to_string()]), Ok("u".to_string()));
    assert_eq!(v4_get_download_url(Vec::new()), Err("no download URL in response".to_string()));
    assert_eq!(file_metadata_endpoint("/a b"), "/api/v4/file/info?uri=cloudreve%3A%2F%2Fmy%2Fa%20b");
}

#[test]
fn settings_and_storage_of_a_user() {
    let s = get_user_setting(Some(vec!["k".to_string()]), true);
    assert!(s.uid == 0 && s.authn == vec!["k"] && s.two_factor && !s.homepage);
    assert!(s.themes.is_empty() && s.prefer_theme.is_empty());
    assert!(get_user_setting(None, false).authn.is_empty());
    let q = get_user_storage(1, 3, 2);
    assert_eq!(q.get("used").unwrap().as_u64(), Some(1));
    assert_eq!(q.get("total").unwrap().as_u64(), Some(3));
    assert_eq!(q.get("free").unwrap().as_u64(), Some(2));
}
