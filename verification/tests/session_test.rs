use cloudreve_native::errors::{ApiError, ErrorKind};
use cloudreve_native::session::{
    cookie_header, extract_v4_tokens, failed_login, get_api_version_info, not_initialized,
    refresh_failure, server_address, strip_prefix, Client, Credential, Failure, RetryRule, Run, RunAction,
    RunEvent, Session, Tokens,
};
use cloudreve_native::thumb::{
    avatar_url, fetch_user_avatar, get_thumb, image_mime, v3_thumb_url, v4_thumb_address,
};

fn client(is_v4: bool) -> Client {
    Client { base_url: "http://h".to_string(), is_v4, token: None, refresh_token: None }
}

fn tokens(a: &str) -> Tokens {
    Tokens { access: a.to_string(), refresh: format!("{a}-r"), refresh_expires: format!("{a}-e") }
}

#[test]
fn refreshed_tokens_are_handed_out_once() {
    let mut session = Session::new();
    session.set_client(client(true));
    assert!(session.take_refreshed_session().is_empty());
    assert_eq!(session.do_v4_refresh(Ok(tokens("a"))), Ok(()));
    assert_eq!(session.do_v4_refresh(Ok(tokens("b"))), Ok(()));
    assert_eq!(session.get_v4_refresh(), Some("b-r".to_string()));
    assert_eq!(session.take_refreshed_session(), vec!["b", "b-r", "b-e"]);
    assert!(session.take_refreshed_session().is_empty());
    assert_eq!(session.get_v4_refresh(), Some("b-r".to_string()));
}

#[test]
fn restoring_drops_what_another_account_left() {
    let mut session = Session::new();
    session.set_client(client(true));
    assert_eq!(session.do_v4_refresh(Ok(tokens("a"))), Ok(()));
    let plan = session.restore_session("v4:tok", "", false);
    assert!(session.take_refreshed_session().is_empty());
    assert!(matches!(&plan.credential, Credential::Token(t) if t == "tok"));
    session.restored(&plan);
    assert_eq!(session.get_v4_refresh(), Some("a-r".to_string()));
    let plan = session.restore_session("tok", "r", false);
    assert!(matches!(&plan.credential, Credential::Token(t) if t == "tok"));
    session.restored(&plan);
    assert_eq!(session.get_v4_refresh(), Some("r".to_string()));
    let plan = session.restore_session("cloudreve-session=v", "x", true);
    assert!(matches!(&plan.credential, Credential::Cookie(c) if c == "v"));
    session.restored(&plan);
    assert_eq!(session.get_v4_refresh(), Some("r".to_string()));
    assert_eq!(strip_prefix("v4:v4:x", "v4:"), "v4:x");
}

#[test]
fn what_is_kept() {
    let mut session = Session::new();
    session.set_v4_refresh(Some("r".to_string()));
    assert_eq!(session.get_v4_refresh(), Some("r".to_string()));
    session.set_v4_policy_id(Some("p".to_string()));
    session.remember_policy(&None);
    assert_eq!(session.get_v4_policy_id(), Some("p".to_string()));
    session.remember_policy(&Some("q".to_string()));
    assert_eq!(session.get_v4_policy_id(), Some("q".to_string()));
    assert_eq!(refresh_failure("x"), "Token refresh failed: x");
    assert_eq!(not_initialized(), "not initialized: call init() first");
}

#[test]
fn what_a_login_gives() {
    let mut session = Session::new();
    let r = session.logged_in(true, Some("c".to_string()), None, Ok("{u}".to_string()));
    assert_eq!(r.unwrap(), vec!["{u}", "c", "", "v3", ""]);
    assert_eq!(session.get_v4_refresh(), None);
    let r = session.logged_in(false, None, Some(tokens("a")), Ok("{u}".to_string()));
    assert_eq!(r.unwrap(), vec!["{u}", "a", "a-r", "v4", "a-e"]);
    assert_eq!(session.get_v4_refresh(), Some("a-r".to_string()));
    let r = session.logged_in(false, None, Some(tokens("b")), Err("bad".to_string()));
    assert_eq!(r, Err("bad".to_string()));
    assert_eq!(session.get_v4_refresh(), Some("b-r".to_string()));
    assert_eq!(session.login_with_refresh_token(tokens("c"), None), vec!["{}", "c", "c-r", "v4", "c-e"]);
    assert_eq!(session.get_v4_refresh(), Some("c-r".to_string()));
    let user = Some("{n}".to_string());
    assert_eq!(session.login_with_refresh_token(tokens("d"), user)[0], "{n}");
    assert_eq!(extract_v4_tokens(None).access, "");
    let e = ApiError { kind: ErrorKind::TwoFactorRequired, text: "t".to_string() };
    assert_eq!(failed_login(e, true).unwrap(), vec!["2fa_required", "", "", "v3", ""]);
    let e = ApiError { kind: ErrorKind::Other, text: "t".to_string() };
    assert_eq!(failed_login(e, false), Err("t".to_string()));
}

#[test]
fn versions_and_headers() {
    assert_eq!(get_api_version_info("v4".to_string(), Some("4.1".to_string())), vec!["v4", "4.1"]);
    assert_eq!(get_api_version_info("v3".to_string(), None), vec!["v3", "unknown"]);
    assert_eq!(cookie_header("x".to_string()), "cloudreve-session=x");
    assert_eq!(cookie_header("cloudreve-session=x".to_string()), "cloudreve-session=x");
    assert_eq!(server_address("http://h//", "/api"), "http://h/api");
    assert_eq!(avatar_url("http://h/", true, "u"), "http://h/api/v3/user/avatar/u/l");
    assert_eq!(avatar_url("http://h/", false, "u"), "http://h/api/v4/user/avatar/u?nocache=true");
    assert_eq!(fetch_user_avatar(false, "404 Not Found"), Err("avatar request failed: 404 Not Found".to_string()));
    assert_eq!(fetch_user_avatar(true, "200 OK"), Ok(()));
}

fn failure(reason: &str, unauthorized: bool) -> Failure {
    Failure { reason: reason.to_string(), unauthorized }
}

#[test]
fn an_expired_login_is_refreshed_once() {
    let mut run = Run::new(RetryRule::OnUnauthorized);
    assert!(matches!(run.run_api_with_v4_refresh(RunEvent::Start(true)), RunAction::Call));
    let e = Failure::of(ApiError::unauthorized("x".to_string()));
    assert!(matches!(run.run_api_with_v4_refresh(RunEvent::Failed(e, true)), RunAction::Refresh));
    assert!(matches!(run.run_api_with_v4_refresh(RunEvent::Refreshed), RunAction::Call));
    let e = failure("again", true);
    assert!(matches!(run.run_api_with_v4_refresh(RunEvent::Failed(e, true)), RunAction::Fail(r) if r == "again"));
}

#[test]
fn failures_that_are_not_repeated() {
    for (e, v4) in [(failure("a", true), false), (failure("a", false), true)] {
        let mut run = Run::new(RetryRule::OnUnauthorized);
        run.run_api_with_v4_refresh(RunEvent::Start(true));
        assert!(matches!(run.run_api_with_v4_refresh(RunEvent::Failed(e, v4)), RunAction::Fail(r) if r == "a"));
    }
    let mut run = Run::new(RetryRule::OnUnauthorized);
    run.run_api_with_v4_refresh(RunEvent::Start(true));
    run.run_api_with_v4_refresh(RunEvent::Failed(failure("a", true), true));
    assert!(matches!(run.run_api_with_v4_refresh(RunEvent::NotRefreshed("b".to_string())), RunAction::Fail(r) if r == "b"));
    let mut run = Run::new(RetryRule::OnAnyFailure);
    run.run_api_with_v4_refresh(RunEvent::Start(true));
    assert!(matches!(run.run_api_with_v4_refresh(RunEvent::Failed(failure("a", false), true)), RunAction::Refresh));
    assert!(matches!(run.run_api_with_v4_refresh(RunEvent::NotRefreshed("b".to_string())), RunAction::Fail(r) if r == "a"));
    let mut run = Run::new(RetryRule::OnAnyFailure);
    run.run_api_with_v4_refresh(RunEvent::Start(true));
    assert!(matches!(run.run_api_with_v4_refresh(RunEvent::Succeeded), RunAction::Return));
}

#[test]
fn thumbnails() {
    assert_eq!(v3_thumb_url("http://h/", "i"), "http://h/api/v3/file/thumb/i");
    assert_eq!(image_mime(Some(" image/png ; charset=x")), "image/png");
    assert_eq!(image_mime(Some("text/html")), "image/jpeg");
    assert_eq!(image_mime(None), "image/jpeg");
    assert_eq!(get_thumb(true, "", Some("image/gif"), b"Man"), Ok("data:image/gif;base64,TWFu".to_string()));
    assert_eq!(get_thumb(true, "", None, b"Ma"), Ok("data:image/jpeg;base64,TWE=".to_string()));
    assert_eq!(get_thumb(true, "", None, &[0xfb, 0xff, 0xbf, 0x00]), Ok("data:image/jpeg;base64,+/+/AA==".to_string()));
    assert_eq!(get_thumb(true, "", None, b""), Ok("data:image/jpeg;base64,".to_string()));
    assert_eq!(get_thumb(false, "500 X", None, b""), Err("thumb request failed: 500 X".to_string()));
    assert_eq!(v4_thumb_address(0, String::new(), Some("u".to_string())), Ok("u".to_string()));
    assert_eq!(v4_thumb_address(5, String::new(), None), Err("thumbnail unavailable (code 5)".to_string()));
    assert_eq!(v4_thumb_address(-5, "m".to_string(), None), Err("m (code -5)".to_string()));
}

#[test]
fn a_silent_refresh() {
    let mut session = Session::new();
    assert_eq!(session.get_client().err(), Some("not initialized: call init() first".to_string()));
    session.set_client(client(true));
    let reason = session.refresh_request().err().unwrap();
    assert_eq!(reason, "Unauthorized: no refresh token stored");
    session.set_v4_refresh(Some("r".to_string()));
    let request = session.refresh_request().ok().unwrap();
    assert_eq!((request.base_url.as_str(), request.refresh_token.as_str()), ("http://h", "r"));
    let failed = session.do_v4_refresh(Err("down".to_string()));
    assert_eq!(failed, Err("Token refresh failed: down".to_string()));
    assert_eq!(session.get_v4_refresh(), Some("r".to_string()));
    assert_eq!(session.get_client().ok().unwrap().token, None);
    assert!(session.take_refreshed_session().is_empty());
    assert_eq!(session.do_v4_refresh(Ok(tokens("a"))), Ok(()));
    let kept = session.get_client().ok().unwrap();
    assert_eq!((kept.token, kept.refresh_token), (Some("a".to_string()), Some("a-r".to_string())));
    assert_eq!(session.get_v4_refresh(), Some("a-r".to_string()));
    assert_eq!(session.take_refreshed_session(), vec!["a", "a-r", "a-e"]);
}

#[test]
fn a_silent_refresh_without_a_client_of_version_four() {
    let mut session = Session::new();
    session.set_v4_refresh(Some("r".to_string()));
    assert_eq!(session.refresh_request().err().unwrap(), not_initialized());
    assert_eq!(session.do_v4_refresh(Ok(tokens("a"))), Err(not_initialized()));
    assert_eq!(session.get_v4_refresh(), Some("r".to_string()));
    session.set_client(client(false));
    assert_eq!(session.do_v4_refresh(Ok(tokens("a"))), Ok(()));
    assert_eq!(session.get_client().ok().unwrap().token, None);
    assert_eq!(session.get_v4_refresh(), Some("a-r".to_string()));
}

#[test]
fn nothing_is_asked_without_a_client() {
    let mut run = Run::new(RetryRule::OnUnauthorized);
    let action = run.run_api_with_v4_refresh(RunEvent::Start(false));
    assert!(matches!(action, RunAction::Fail(r) if r == "not initialized: call init() first"));
}
