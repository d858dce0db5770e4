use bingooj::auth::CodeforcesAuthState;
use bingooj::fetch::{check_api_response, on_fallback_result, AttemptFailure, FetchAction, FetchKind, FetchRetry};
use bingooj::submit::{
    finish_submission, on_title_changed, plan_submission, CompletionSlot, PageLoadAction, SubmissionOutcome,
    TitleAction, WebviewSubmitState,
};

#[test]
fn page_loads_fill_then_inspect_then_ignore() {
    let mut state = WebviewSubmitState::new();
    let url = "https://codeforces.com/problemset/submit?contestId=1000&problemIndex=A";
    assert_eq!(state.on_page_load(url, 1000), PageLoadAction::InjectSubmitScript);
    assert_eq!(state.on_page_load(url, 1000), PageLoadAction::InjectInspectScript);
    assert_eq!(state.on_page_load(url, 1000), PageLoadAction::Ignore);
}

#[test]
fn page_load_success_and_challenge() {
    let mut state = WebviewSubmitState::new();
    assert_eq!(
        state.on_page_load("https://codeforces.com/contest/1000/submission/123456", 1000),
        PageLoadAction::Accepted(123456)
    );
    assert_eq!(
        state.on_page_load("https://codeforces.com/problemset/submit?__cf_chl_tk=abc", 1000),
        PageLoadAction::Challenge
    );
    assert_eq!(state.on_page_load("https://codeforces.com/problemset", 1000), PageLoadAction::Ignore);
    assert!(!state.form_submitted && !state.inspect_requested);
}

#[test]
fn title_changes() {
    match on_title_changed("__BINGOOJ_SUBMIT_ERROR__:You have submitted exactly the same code before") {
        TitleAction::ReportedError(e) => assert_eq!(e, "You have submitted exactly the same code before"),
        _ => panic!("error title"),
    }
    assert!(matches!(on_title_changed("__BINGOOJ_SUBMITTING__"), TitleAction::Ignore));
    assert!(matches!(on_title_changed("Just a moment..."), TitleAction::Challenge));
    assert!(matches!(on_title_changed("Codeforces"), TitleAction::Ignore));
}

#[test]
fn slot_delivers_first_outcome_only() {
    let mut slot = CompletionSlot::new();
    assert!(slot.offer(SubmissionOutcome::NeedsVerification("challenge".to_string())));
    assert!(!slot.offer(SubmissionOutcome::Accepted(5)));
    match slot.delivered {
        Some(SubmissionOutcome::NeedsVerification(m)) => assert_eq!(m, "challenge"),
        _ => panic!("the first outcome must stay"),
    }
}

#[test]
fn plan_needs_connected_session() {
    let err = plan_submission(&CodeforcesAuthState::signed_out(), 1000, "A", "cpp", "x").err().unwrap();
    assert_eq!(err, "Codeforces account is not connected yet.");
}

#[test]
fn plan_for_connected_session() {
    let mut auth = CodeforcesAuthState::signed_out();
    auth.connected = true;
    let plan = plan_submission(&auth, 1000, "B2", "py", "print(1)").ok().unwrap();
    assert_eq!(plan.problem_code, "1000B2");
    assert_eq!(plan.submit_page_url, "https://codeforces.com/problemset/submit?contestId=1000&problemIndex=B2");
    assert!(plan.submit_script.contains(r#"const problemCode = "1000B2";"#));
    assert!(plan.submit_script.contains(r#"["Python 3","PyPy 3"]"#));
    assert!(plan.inspect_script.contains("__BINGOOJ_SUBMIT_ERROR__"));
}

#[test]
fn finish_accepted_and_timeout() {
    let receipt = finish_submission(SubmissionOutcome::Accepted(42), 1_700_000_000).ok().unwrap();
    assert_eq!(receipt.submission_id, 42);
    assert_eq!(receipt.submitted_at, 1_700_000_000);
    assert_eq!(receipt.message, "Submitted to Codeforces. Submission #42. Waiting for verdict...");
    assert_eq!(
        finish_submission(SubmissionOutcome::TimedOut, 0).err().unwrap(),
        "Timed out while waiting for Codeforces to accept the submission."
    );
    assert_eq!(finish_submission(SubmissionOutcome::NeedsVerification("m".to_string()), 0).err().unwrap(), "m");
}

#[test]
fn three_failures_then_fallback_body() {
    let mut retry = FetchRetry::new(FetchKind::Api);
    match retry.on_attempt_result(Err(AttemptFailure::Request("dns".to_string()))) {
        FetchAction::Retry { delay_millis } => assert_eq!(delay_millis, 300),
        _ => panic!("retry after the first failure"),
    }
    match retry.on_attempt_result(Err(AttemptFailure::Http("503".to_string()))) {
        FetchAction::Retry { delay_millis } => assert_eq!(delay_millis, 600),
        _ => panic!("retry after the second failure"),
    }
    match retry.on_attempt_result(Err(AttemptFailure::ApiStatus)) {
        FetchAction::Fallback { delay_millis, prior_error } => {
            assert_eq!(delay_millis, 900);
            assert_eq!(
                prior_error,
                "failed to fetch Codeforces API after 3 reqwest attempts: attempt 1: request failed: dns; attempt 2: http error: 503; attempt 3: Codeforces API status was not OK"
            );
        }
        _ => panic!("fallback after the third failure"),
    }
    let prior = "failed to fetch Codeforces API after 3 reqwest attempts: attempt 1: request failed: dns; attempt 2: http error: 503; attempt 3: Codeforces API status was not OK";
    assert_eq!(retry.failures.len(), 3);
    assert_eq!(
        on_fallback_result(FetchKind::Api, prior, Ok("{\"status\":\"OK\"}".to_string()), Ok(Some("OK".to_string()))),
        Ok("{\"status\":\"OK\"}".to_string())
    );
}

#[test]
fn fallback_api_answer_needs_ok_status() {
    let prior = "failed to fetch Codeforces API after 3 reqwest attempts: x";
    assert_eq!(
        on_fallback_result(FetchKind::Api, prior, Ok("{\"status\":\"FAILED\"}".to_string()), Ok(Some("FAILED".to_string()))),
        Err(format!("{prior}; curl fallback: Codeforces API status was not OK"))
    );
    assert_eq!(
        on_fallback_result(FetchKind::Api, prior, Ok("<html>".to_string()), Err("expected value".to_string())),
        Err(format!("{prior}; curl fallback returned invalid json: expected value"))
    );
    assert_eq!(
        on_fallback_result(FetchKind::Api, prior, Err(format!("{prior}; curl fallback failed")), Ok(None)),
        Err(format!("{prior}; curl fallback failed"))
    );
    assert_eq!(
        on_fallback_result(FetchKind::ProblemPage, prior, Ok("<html>".to_string()), Ok(None)),
        Ok("<html>".to_string())
    );
}

#[test]
fn first_success_is_done() {
    let mut retry = FetchRetry::new(FetchKind::ProblemPage);
    match retry.on_attempt_result(Ok("<html>".to_string())) {
        FetchAction::Done(body) => assert_eq!(body, "<html>"),
        _ => panic!("done"),
    }
    let mut retry = FetchRetry::new(FetchKind::ProblemPage);
    let _ = retry.on_attempt_result(Err(AttemptFailure::Body("eof".to_string())));
    assert_eq!(retry.failures, vec!["attempt 1: failed to read response body: eof".to_string()]);
}

#[test]
fn api_status_must_be_ok() {
    assert!(check_api_response("b".to_string(), Ok(Some("OK".to_string()))).is_ok());
    assert!(matches!(check_api_response("b".to_string(), Ok(Some("FAILED".to_string()))), Err(AttemptFailure::ApiStatus)));
    assert!(matches!(check_api_response("b".to_string(), Ok(None)), Err(AttemptFailure::ApiStatus)));
    assert!(matches!(check_api_response("b".to_string(), Err("eof".to_string())), Err(AttemptFailure::Json(_))));
}
