use bingooj::install::TranslationInstallState;
use bingooj::python::{
    format_python_version, is_supported_translation_python, parse_python_version, preferred_python_build_versions,
    select_python_release_asset, supported_python_build_suffixes, translation_python_candidates, GitHubReleaseAsset,
    PythonSearch,
};

fn asset(name: &str) -> GitHubReleaseAsset {
    GitHubReleaseAsset { name: name.to_string(), browser_download_url: format!("https://example.invalid/{name}") }
}

#[test]
fn python_versions_parse() {
    assert_eq!(parse_python_version("Python 3.12.4\n"), Some((3, 12)));
    assert_eq!(parse_python_version("  Python 3.8"), Some((3, 8)));
    assert_eq!(parse_python_version("Python 3"), None);
    assert_eq!(parse_python_version("Python 3.x"), None);
    assert_eq!(parse_python_version("Python 300.1"), None);
    assert_eq!(parse_python_version("python 3.11"), None);
}

#[test]
fn supported_range() {
    assert!(is_supported_translation_python((3, 8)));
    assert!(is_supported_translation_python((3, 13)));
    assert!(!is_supported_translation_python((3, 14)));
    assert!(!is_supported_translation_python((2, 10)));
    assert_eq!(format_python_version((3, 12)), "Python 3.12");
}

#[test]
fn candidate_lists() {
    assert_eq!(preferred_python_build_versions(), vec!["3.12.", "3.11.", "3.10.", "3.13.", "3.9.", "3.8."]);
    assert_eq!(translation_python_candidates().len(), 7);
    assert_eq!(translation_python_candidates()[6], "python3");
}

#[test]
fn release_asset_preference() {
    let suffixes = supported_python_build_suffixes("linux", "x86_64").ok().unwrap();
    let assets = vec![
        asset("cpython-3.13.1+20250101-x86_64_v3-unknown-linux-gnu-install_only_stripped.tar.gz"),
        asset("cpython-3.12.8+20250101-x86_64-unknown-linux-gnu-freethreaded-install_only_stripped.tar.gz"),
        asset("cpython-3.12.8+20250101-x86_64-unknown-linux-gnu-install_only_stripped.tar.gz"),
        asset("cpython-3.12.8+20250101-x86_64_v2-unknown-linux-gnu-install_only_stripped.tar.gz"),
    ];
    let picked = select_python_release_asset(&assets, &suffixes, "linux", "x86_64").ok().unwrap();
    assert_eq!(picked.name, "cpython-3.12.8+20250101-x86_64_v2-unknown-linux-gnu-install_only_stripped.tar.gz");
    let none = select_python_release_asset(&Vec::new(), &suffixes, "linux", "x86_64").err().unwrap();
    assert_eq!(none, "No compatible bundled Python runtime was found for linux x86_64.");
    assert_eq!(
        supported_python_build_suffixes("freebsd", "x86_64").err().unwrap(),
        "BingoOJ does not have a bundled translation runtime for freebsd x86_64 yet."
    );
}

#[test]
fn install_log_keeps_last_two_hundred() {
    let mut state = TranslationInstallState::idle();
    for i in 0..205 {
        state.push_install_log(format!("line {i}"));
    }
    assert_eq!(state.logs.len(), 200);
    assert_eq!(state.logs[0], "line 5");
    assert_eq!(state.logs[199], "line 204");
}

#[test]
fn install_phases() {
    let mut state = TranslationInstallState::starting();
    state.set_install_phase(2, 4, "Creating local translation runtime".to_string());
    assert!(state.active && !state.finished);
    assert_eq!(state.step, 2);
    state.finish_install_error("pip failed".to_string());
    assert!(!state.active && state.finished && !state.ready);
    assert_eq!(state.error, "pip failed");
    assert_eq!(state.logs.last().map(String::as_str), Some("Error: pip failed"));
    state.finish_install_success();
    assert!(state.ready && state.step == state.total_steps);
    assert_eq!(state.phase, "Ready");
    assert_eq!(state.logs.last().map(String::as_str), Some("Chinese statement support is ready."));
}

#[test]
fn python_search_lists_what_it_saw() {
    let mut search = PythonSearch::new();
    assert_eq!(search.failure_message(), "Chinese statement support currently requires Python 3.8-3.13, but this machine only has: none detected. Install a compatible system Python or let BingoOJ provide a bundled translation runtime.");
    assert!(!search.on_version_output("python3.13", None));
    assert!(!search.on_version_output("python3.12", Some("Python 3.14.0\n")));
    assert!(!search.on_version_output("python3.11", Some("garbage")));
    assert!(!search.on_version_output("python3", Some("Python 2.7.18")));
    assert_eq!(search.detected, vec!["python3.12 (Python 3.14)".to_string(), "python3 (Python 2.7)".to_string()]);
    assert!(search.failure_message().contains("this machine only has: python3.12 (Python 3.14), python3 (Python 2.7). Install"));
    assert!(search.on_version_output("python3.9", Some("Python 3.9.18")));
}
