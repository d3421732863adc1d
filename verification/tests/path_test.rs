use cloudreve_native::directory::{
    directory_steps, DirectoryAction, DirectoryEvent, DirectoryWalk,
};
use cloudreve_native::errors::ApiError;
use cloudreve_native::names::{filename_from_url_or_str, supports_thumbnail};
use cloudreve_native::path::{
    child_path, decode_v4_prop_path, remote_parent, unix_parent, v4_uri_to_unix,
};
use cloudreve_native::query::{encode_query_component, percent_decode};
use cloudreve_native::search::Search;
use cloudreve_native::tasks::{normalized_download_target, workflow_endpoint};
use cloudreve_native::thumb::v4_thumb_endpoint;

#[test]
fn uris_of_both_forms_are_read() {
    assert_eq!(v4_uri_to_unix("cloudreve://my/videos/a.mp4"), "/videos/a.mp4");
    assert_eq!(v4_uri_to_unix("cloudreve://KZHZ@my/%2Fpackages"), "/packages");
    assert_eq!(v4_uri_to_unix("cloudreve://my"), "/");
    assert_eq!(v4_uri_to_unix("cloudreve://my/"), "/");
    assert_eq!(v4_uri_to_unix("/plain"), "/plain");
    assert_eq!(v4_uri_to_unix("my/x"), "/x");
    assert_eq!(v4_uri_to_unix(""), "/");
}

#[test]
fn only_the_drive_is_stripped() {
    assert_eq!(v4_uri_to_unix("cloudreve://my/a@my.txt"), "/a@my.txt");
    assert_eq!(v4_uri_to_unix("cloudreve://my/d@my/b"), "/d@my/b");
    assert_eq!(v4_uri_to_unix("cloudreve://u@my/a@my.txt"), "/a@my.txt");
    assert_eq!(v4_uri_to_unix("cloudreve://u@my@my/%2Fx"), "/x");
    assert_eq!(v4_uri_to_unix("cloudreve://my@my/x"), "/x");
    assert_eq!(v4_uri_to_unix("cloudreve://u@my"), "/");
    assert_eq!(v4_uri_to_unix("cloudreve://u@mydrive/x"), "drive/x");
    assert_eq!(v4_uri_to_unix("cloudreve://u@my%2Fx"), "/x");
    assert_eq!(v4_uri_to_unix("cloudreve://other/a@my"), "other/a@my");
}

#[test]
fn encoded_paths_come_back() {
    for path in ["/a b/c@my.txt", "/100%/%41", "//x", "/", "/你/好"] {
        let component = encode_query_component(path);
        assert_eq!(v4_uri_to_unix(&format!("cloudreve://my/{component}")), path);
        assert_eq!(v4_uri_to_unix(&format!("cloudreve://u@my@x@my/{component}")), path);
    }
}

#[test]
fn escapes_are_decoded() {
    assert_eq!(v4_uri_to_unix("cloudreve://my/%E4%BD%A0%20b"), "/你 b");
    assert_eq!(v4_uri_to_unix("cloudreve://my/a%2"), "/a%2");
    assert_eq!(v4_uri_to_unix("cloudreve://my/a%zz"), "/a%zz");
    assert_eq!(v4_uri_to_unix("cloudreve://my/a%41"), "/aA");
    assert_eq!(v4_uri_to_unix("cloudreve://my/%FFx"), "/\u{fffd}x");
    assert_eq!(percent_decode(b"%+1"), vec![1u8]);
    assert_eq!(percent_decode(b"%41%"), b"A%".to_vec());
}

#[test]
fn property_paths() {
    assert_eq!(decode_v4_prop_path("cloudreve://my/d%20e"), "/d e");
    assert_eq!(decode_v4_prop_path("/d%20e"), "/d%20e");
}

#[test]
fn parents_and_children() {
    for f in [unix_parent, remote_parent] {
        assert_eq!(f("/videos"), "/");
        assert_eq!(f("/videos/a"), "/videos");
        assert_eq!(f("plain"), "/");
        assert_eq!(f(""), "/");
        assert_eq!(f("/videos/"), "/videos");
    }
    assert_eq!(child_path("/", "a"), "/a");
    assert_eq!(child_path("/b", "a"), "/b/a");
    assert_eq!(unix_parent(&child_path("/b/c", "a")), "/b/c");
}

#[test]
fn query_components() {
    assert_eq!(encode_query_component("aZ09-_.~"), "aZ09-_.~");
    assert_eq!(encode_query_component("a b/ü"), "a%20b%2F%C3%BC");
    assert_eq!(encode_query_component(""), "");
    let text = "cloudreve://my/ä b?x=1&y=2";
    let decoded = percent_decode(encode_query_component(text).as_bytes());
    assert_eq!(String::from_utf8(decoded).unwrap(), text);
}

#[test]
fn uris_come_from_the_client_crate() {
    assert_eq!(v4_thumb_endpoint("/a b.jpg"), "/file/thumb?uri=cloudreve://my/a b.jpg&width=200&height=200");
    assert_eq!(v4_thumb_endpoint("c"), "/file/thumb?uri=cloudreve://my/c&width=200&height=200");
    assert_eq!(
        v4_thumb_endpoint("cloudreve://my/c"),
        "/file/thumb?uri=cloudreve://my/c&width=200&height=200"
    );
    assert_eq!(
        Search::new("a b", "/x y//z").request().uri,
        "cloudreve://my/x%20y/z?name=a%20b&case_folding=true"
    );
    assert_eq!(Search::new("", "/").request().uri, "cloudreve://my/?name=&case_folding=true");
}

#[test]
fn media_have_thumbnails() {
    for name in ["a.jpg", "b.JPEG", "c.d.Mp4", "3gp", "x.webm"] {
        assert!(supports_thumbnail(name), "{name}");
    }
    for name in ["a.txt", "jpg.", "", "a.jpg ", "K.\u{212a}jpg"] {
        assert!(!supports_thumbnail(name), "{name}");
    }
    assert!(supports_thumbnail("x.M\u{212a}V"));
}

#[test]
fn file_names_of_addresses() {
    assert_eq!(filename_from_url_or_str("https://h/p/a.iso?x=1/2"), "a.iso");
    assert_eq!(filename_from_url_or_str(" \"a.iso\" "), "a.iso");
    assert_eq!(filename_from_url_or_str("https://h/p/"), "https://h/p/");
    assert_eq!(filename_from_url_or_str("h/."), "h/.");
    assert_eq!(filename_from_url_or_str(""), "");
}

#[test]
fn directories_on_the_way_down() {
    assert_eq!(directory_steps("/a//b/c/"), vec!["/a", "/a/b", "/a/b/c"]);
    assert_eq!(directory_steps("a"), vec!["/a"]);
    assert!(directory_steps("/").is_empty());
    assert!(directory_steps("").is_empty());
}

#[test]
fn a_walk_makes_sure_of_every_directory() {
    let mut walk = DirectoryWalk::new("/a/b//c/");
    let mut had: Vec<String> = Vec::new();
    let mut requests = 0;
    let mut action = walk.next(DirectoryEvent::Start);
    loop {
        let event = match action {
            DirectoryAction::List(path) if path == "/a" => {
                had.push(path);
                DirectoryEvent::Listed
            }
            DirectoryAction::List(_) => DirectoryEvent::NotListed,
            DirectoryAction::Create(path) => {
                had.push(path);
                DirectoryEvent::Created
            }
            DirectoryAction::Done => break,
            DirectoryAction::Fail(error) => panic!("{}", error.text),
        };
        requests += 1;
        action = walk.next(event);
    }
    assert_eq!(had, directory_steps("/a/b//c/"));
    assert_eq!(requests, 5);
}

#[test]
fn walking_down_a_directory() {
    let mut walk = DirectoryWalk::new("/a/b");
    assert!(matches!(walk.next(DirectoryEvent::Start), DirectoryAction::List(p) if p == "/a"));
    assert!(matches!(walk.next(DirectoryEvent::Listed), DirectoryAction::List(p) if p == "/a/b"));
    assert!(matches!(walk.next(DirectoryEvent::NotListed), DirectoryAction::Create(p) if p == "/a/b"));
    assert!(matches!(walk.next(DirectoryEvent::Created), DirectoryAction::Done));

    let mut walk = DirectoryWalk::new("/");
    assert!(matches!(walk.next(DirectoryEvent::Start), DirectoryAction::Done));

    let mut walk = DirectoryWalk::new("/a");
    walk.next(DirectoryEvent::Start);
    walk.next(DirectoryEvent::NotListed);
    let error = ApiError::api(40016, "Path not exist".to_string());
    match walk.next(DirectoryEvent::NotCreated(error)) {
        DirectoryAction::Fail(e) => assert_eq!(e.text, "API error: Path not exist (code: 40016)"),
        _ => panic!("the walk goes on"),
    }
}

#[test]
fn download_targets() {
    assert_eq!(normalized_download_target("/".to_string()), "cloudreve://my");
    assert_eq!(normalized_download_target("/a b".to_string()), "cloudreve://my/a b");
    assert_eq!(normalized_download_target("a".to_string()), "cloudreve://my/a");
    assert_eq!(normalized_download_target("cloudreve://u@my/a".to_string()), "cloudreve://u@my/a");
    assert_eq!(normalized_download_target("".to_string()), "cloudreve://my/");
    assert_eq!(workflow_endpoint("g1"), "/workflow/g1");
}
