use bingooj::auth::CodeforcesAuthState;
use bingooj::verdict::{resolve_submission_status, status_text, submission_status_url, StatusEntry, SUBMISSION_MATCH_SLACK_SECONDS};

fn entry(id: u64, contest: u64, index: &str, created: u64, verdict: Option<&str>) -> StatusEntry {
    StatusEntry {
        id: Some(id),
        contest_id: Some(contest),
        problem_index: Some(index.to_string()),
        verdict: verdict.map(|v| v.to_string()),
        passed_test_count: Some(12),
        programming_language: Some("GNU G++17".to_string()),
        creation_time_seconds: Some(created),
    }
}

#[test]
fn match_by_id() {
    let entries = vec![entry(5, 10, "A", 1000, Some("OK"))];
    let s = resolve_submission_status("h", &entries, 10, "A", Some(5), 0, SUBMISSION_MATCH_SLACK_SECONDS);
    assert!(s.found);
    assert_eq!(s.verdict.as_deref(), Some("OK"));
    assert!(s.finished);
    assert_eq!(s.status_text, "Accepted on Codeforces after 12 tests.");
}

#[test]
fn match_by_time_window() {
    let entries = vec![entry(5, 10, "A", 1000, Some("OK"))];
    let s = resolve_submission_status("h", &entries, 10, "A", None, 900, SUBMISSION_MATCH_SLACK_SECONDS);
    assert!(s.found);
    assert_eq!(s.id, Some(5));
    assert_eq!(s.verdict.as_deref(), Some("OK"));
}

#[test]
fn outside_slack_is_not_found() {
    let entries = vec![entry(5, 10, "A", 1000, Some("OK"))];
    let s = resolve_submission_status("h", &entries, 10, "A", None, 50000, SUBMISSION_MATCH_SLACK_SECONDS);
    assert!(!s.found);
    assert!(!s.finished);
    assert_eq!(s.passed_test_count, None);
    assert_eq!(s.programming_language, None);
    assert_eq!(s.status_text, "Waiting for Codeforces to register the submission...");
    assert_eq!(
        s.debug.as_deref(),
        Some("handle=h, contest=10, index=A, submission_id=None, submitted_after=50000, recent=#5 1000 OK")
    );
}

#[test]
fn slack_edge_is_inclusive() {
    let entries = vec![entry(5, 10, "A", 1000, Some("OK"))];
    assert!(resolve_submission_status("h", &entries, 10, "A", None, 8200, 7200).found);
    assert!(!resolve_submission_status("h", &entries, 10, "A", None, 8201, 7200).found);
}

#[test]
fn miss_lists_three_recent_of_problem() {
    let entries = vec![
        entry(9, 10, "A", 500, None),
        entry(8, 11, "A", 400, Some("OK")),
        entry(7, 10, "A", 300, Some("WRONG_ANSWER")),
        entry(6, 10, "A", 200, Some("OK")),
        entry(5, 10, "A", 100, Some("OK")),
    ];
    let s = resolve_submission_status("u", &entries, 10, "A", Some(1), 0, 7200);
    assert!(!s.found);
    assert_eq!(
        s.debug.as_deref(),
        Some("handle=u, contest=10, index=A, submission_id=Some(1), submitted_after=0, recent=#9 500 PENDING | #7 300 WRONG_ANSWER | #6 200 OK")
    );
    let none = resolve_submission_status("u", &Vec::new(), 10, "A", None, 0, 7200);
    assert!(none.debug.unwrap().ends_with("recent=none"));
}

#[test]
fn newest_matching_entry_wins() {
    let entries = vec![entry(9, 10, "A", 5000, Some("TESTING")), entry(8, 10, "A", 4000, Some("OK"))];
    let s = resolve_submission_status("u", &entries, 10, "A", None, 4500, 7200);
    assert_eq!(s.id, Some(9));
    assert!(!s.finished);
    assert_eq!(s.status_text, "Testing on Codeforces passed 12 tests...");
}

#[test]
fn status_lines() {
    assert_eq!(status_text(&None, Some(3)), "Submission is in queue on Codeforces...");
    assert_eq!(status_text(&Some("WRONG_ANSWER".to_string()), Some(3)), "WRONG_ANSWER on Codeforces after 3 tests.");
    assert_eq!(status_text(&Some("OK".to_string()), None), "Accepted on Codeforces.");
    assert_eq!(status_text(&Some("TESTING".to_string()), None), "Testing on Codeforces...");
}

#[test]
fn status_url_needs_handle() {
    let mut auth = CodeforcesAuthState::signed_out();
    assert_eq!(
        submission_status_url(&auth).err().unwrap(),
        "Codeforces handle is not available yet. Please log in again."
    );
    auth.connected = true;
    auth.handle = Some("tourist".to_string());
    assert_eq!(
        submission_status_url(&auth).ok().unwrap(),
        "https://codeforces.com/api/user.status?handle=tourist&from=1&count=20"
    );
}
