use bingooj::auth::{
    checking_state, check_failed_state, classify_profile_response, current_codeforces_auth_state,
    navigated_state, parse_codeforces_handle, set_codeforces_auth_state, verify_codeforces_auth, AuthCheck,
    CodeforcesAuthState,
};
use bingooj::cookies::{codeforces_cookie_header, should_persist_codeforces_cookie, snapshot_codeforces_cookies, StoredCodeforcesCookie};

fn cookie(name: &str, value: &str) -> StoredCodeforcesCookie {
    StoredCodeforcesCookie {
        name: name.to_string(),
        value: value.to_string(),
        domain: Some("codeforces.com".to_string()),
        path: Some("/".to_string()),
        secure: Some(true),
        http_only: None,
    }
}

#[test]
fn empty_jar_signs_out_without_request() {
    match verify_codeforces_auth(&Vec::new()) {
        AuthCheck::Settled(state) => {
            assert!(!state.connected && !state.expired && !state.checking);
            assert_eq!(state.handle, None);
            assert_eq!(state.message, "提交前请先登录");
        }
        AuthCheck::FetchProfile(_) => panic!("no request is owed for an empty jar"),
    }
}

#[test]
fn jar_with_cookies_requests_profile() {
    let jar = vec![("JSESSIONID".to_string(), "abc".to_string()), ("39ce7".to_string(), "x".to_string())];
    match verify_codeforces_auth(&jar) {
        AuthCheck::FetchProfile(header) => assert_eq!(header, "JSESSIONID=abc; 39ce7=x"),
        AuthCheck::Settled(_) => panic!("cookies must be checked"),
    }
}

#[test]
fn login_redirect_means_expired() {
    let state = classify_profile_response("https://codeforces.com/enter?back=%2Fsettings%2Fgeneral", "<a href='/profile/tourist'>tourist</a>");
    assert!(state.expired);
    assert!(!state.connected);
    assert_eq!(state.handle, None);
    assert_eq!(state.last_url.as_deref(), Some("https://codeforces.com/enter?back=%2Fsettings%2Fgeneral"));
    assert_eq!(state.message, "Codeforces 登录已过期，请重新登录");
}

#[test]
fn profile_page_gives_handle() {
    let body = r#"<div><a href="/profile/"> </a><a href="/profile/tourist">  tourist </a></div>"#;
    let state = classify_profile_response("https://codeforces.com/settings/general", body);
    assert!(state.connected && !state.expired);
    assert_eq!(state.handle.as_deref(), Some("tourist"));
    assert_eq!(state.message, "已登录：tourist");
}

#[test]
fn connected_without_handle() {
    let state = classify_profile_response("https://codeforces.com/settings/general", "<p>settings</p>");
    assert!(state.connected);
    assert_eq!(state.handle, None);
    assert_eq!(state.message, "已登录，可以提交代码");
    assert_eq!(parse_codeforces_handle("<a href='/blog'>blog</a>"), None);
}

#[test]
fn auth_status_twice_is_same() {
    let body = r#"<a href="/profile/Petr">Petr</a>"#;
    let first = classify_profile_response("https://codeforces.com/settings/general", body);
    let second = classify_profile_response("https://codeforces.com/settings/general", body);
    assert_eq!(first.connected, second.connected);
    assert_eq!(first.handle, second.handle);
    let mut store = CodeforcesAuthState::signed_out();
    set_codeforces_auth_state(&mut store, first);
    let a = current_codeforces_auth_state(&store);
    let b = current_codeforces_auth_state(&store);
    assert_eq!((a.connected, a.handle), (b.connected, b.handle));
}

#[test]
fn checking_keeps_message_or_sets_default() {
    let signed_out = CodeforcesAuthState::signed_out();
    let checking = checking_state(&signed_out);
    assert!(checking.checking);
    assert_eq!(checking.message, "提交前请先登录");
    let mut blank = CodeforcesAuthState::signed_out();
    blank.message = String::new();
    assert_eq!(checking_state(&blank).message, "正在检查登录状态...");
}

#[test]
fn failed_check_keeps_last_url() {
    let current = navigated_state(&CodeforcesAuthState::expired(), "https://codeforces.com/enter");
    let failed = check_failed_state(&current, "verify Codeforces login failed: timeout".to_string());
    assert!(!failed.connected && !failed.expired && !failed.checking);
    assert_eq!(failed.last_url.as_deref(), Some("https://codeforces.com/enter"));
    assert_eq!(failed.message, "verify Codeforces login failed: timeout");
}

#[test]
fn tracking_and_empty_cookies_are_not_kept() {
    assert!(!should_persist_codeforces_cookie("_ga", "GA1.2"));
    assert!(!should_persist_codeforces_cookie("__utmz", "1"));
    assert!(!should_persist_codeforces_cookie("JSESSIONID", ""));
    assert!(should_persist_codeforces_cookie("JSESSIONID", "abc"));
    assert!(should_persist_codeforces_cookie("_gax", "1"));
}

#[test]
fn snapshot_filters_in_order() {
    let kept = snapshot_codeforces_cookies(vec![cookie("a", "1"), cookie("_ym_uid", "2"), cookie("b", ""), cookie("c", "3")]);
    let names: Vec<String> = kept.iter().map(|c| c.name.clone()).collect();
    assert_eq!(names, vec!["a".to_string(), "c".to_string()]);
}

#[test]
fn cookie_header_of_jar() {
    assert_eq!(codeforces_cookie_header(&Vec::new()), None);
    let jar = vec![("a".to_string(), "1".to_string())];
    assert_eq!(codeforces_cookie_header(&jar), Some("a=1".to_string()));
}
