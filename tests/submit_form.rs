use bingooj::form::{
    build_codeforces_submit_inspect_script, build_codeforces_submit_script, codeforces_language_needles,
    extract_js_number_value, extract_js_string_value, extract_submission_id_from_html,
    extract_submission_id_from_url, hidden_field_value, looks_like_cloudflare_challenge,
    select_program_type_id,
};
use bingooj::page::parse_submit_form_page;

fn pairs(items: &[(&str, &str)]) -> Vec<(String, String)> {
    items.iter().map(|(a, b)| (a.to_string(), b.to_string())).collect()
}

#[test]
fn cpp_picks_first_preferred_label() {
    let options = pairs(&[("42", "GNU G++17"), ("7", "GNU C++11")]);
    assert_eq!(select_program_type_id(&options, "cpp"), Some("42".to_string()));
}

#[test]
fn needle_order_beats_option_order() {
    let options = pairs(&[("1", "GNU G++17 7.3.0"), ("2", "GNU G++20 13.2 (64 bit)")]);
    assert_eq!(select_program_type_id(&options, "cpp"), Some("2".to_string()));
}

#[test]
fn python_falls_back_to_pypy() {
    let options = pairs(&[("9", "PyPy 3.10 (7.3.15)"), ("10", "Kotlin 1.9")]);
    assert_eq!(select_program_type_id(&options, "py"), Some("9".to_string()));
}

#[test]
fn unknown_language_selects_nothing() {
    let options = pairs(&[("42", "GNU G++17")]);
    assert_eq!(select_program_type_id(&options, "rust"), None);
    assert!(codeforces_language_needles("rust").is_empty());
}

#[test]
fn language_needles_in_preference_order() {
    assert_eq!(
        codeforces_language_needles("cpp"),
        vec!["GNU G++23", "GNU G++20", "GNU G++17", "GNU C++17", "GNU G++14"]
    );
    assert_eq!(codeforces_language_needles("js"), vec!["Node.js", "JavaScript"]);
}

#[test]
fn hidden_field_takes_first_of_name() {
    let fields = pairs(&[("csrf_token", "T1"), ("ftaa", "a"), ("ftaa", "b")]);
    assert_eq!(hidden_field_value(&fields, "ftaa"), Some("a".to_string()));
    assert_eq!(hidden_field_value(&fields, "bfaa"), None);
}

#[test]
fn submission_id_from_url() {
    let url = "https://codeforces.com/contest/1850/submission/215432101?locale=en";
    assert_eq!(extract_submission_id_from_url(url, 1850), Some(215432101));
    assert_eq!(extract_submission_id_from_url(url, 1851), None);
    assert_eq!(extract_submission_id_from_url("https://codeforces.com/contest/1850/submission/", 1850), None);
}

#[test]
fn submission_id_too_large_is_none() {
    let url = "/contest/5/submission/99999999999999999999999";
    assert_eq!(extract_submission_id_from_url(url, 5), None);
    let max = "/contest/5/submission/18446744073709551615";
    assert_eq!(extract_submission_id_from_url(max, 5), Some(u64::MAX));
}

#[test]
fn submission_id_from_html_link() {
    let html = r#"<a href="/contest/10/submission/77">#77</a><a href="/contest/10/submission/78">"#;
    assert_eq!(extract_submission_id_from_html(html, 10), Some(77));
}

#[test]
fn js_string_value_forms() {
    assert_eq!(extract_js_string_value(r#"window._ftaa = "abc";"#, "_ftaa"), Some("abc".to_string()));
    assert_eq!(extract_js_string_value("var _bfaa='xyz';", "_bfaa"), Some("xyz".to_string()));
    assert_eq!(extract_js_string_value(r#"window._ftaa = ""; _ftaa='q'"#, "_ftaa"), Some("q".to_string()));
    assert_eq!(extract_js_string_value("nothing here", "_ftaa"), None);
}

#[test]
fn js_number_value_forms() {
    assert_eq!(extract_js_number_value("var _tta = 377;", "_tta"), Some("377".to_string()));
    assert_eq!(extract_js_number_value("window._tta =   42", "_tta"), Some("42".to_string()));
    assert_eq!(extract_js_number_value("var _tta = x;", "_tta"), None);
}

#[test]
fn cloudflare_markers() {
    assert!(looks_like_cloudflare_challenge("<html><title>Just a moment...</title></html>"));
    assert!(looks_like_cloudflare_challenge("<script>window._cf_chl_opt={}</script>"));
    assert!(looks_like_cloudflare_challenge("Enable JavaScript and cookies to continue"));
    assert!(!looks_like_cloudflare_challenge("<title>Problem A</title>"));
}

#[test]
fn submit_script_embeds_json_values() {
    let script = build_codeforces_submit_script("cpp", "1000A", "A", "int main() {\n  return 0;\n}\n");
    assert!(script.contains(r#"const compilerNeedles = ["GNU G++23","GNU G++20","GNU G++17","GNU C++17","GNU G++14"];"#));
    assert!(script.contains(r#"const problemCode = "1000A";"#));
    assert!(script.contains(r#"const problemIndex = "A";"#));
    assert!(script.contains(r#"const sourceCode = "int main() {\n  return 0;\n}\n";"#));
    assert!(script.contains("form.submit();"));
    assert!(script.starts_with("\n(() => {\n  const compilerNeedles = "));
}

#[test]
fn submit_script_for_unknown_language_has_no_needles() {
    let script = build_codeforces_submit_script("go", "1A", "A", "x");
    assert!(script.contains("const compilerNeedles = [];"));
}

#[test]
fn inspect_script_reports_through_title() {
    let script = build_codeforces_submit_inspect_script();
    assert!(script.contains("__BINGOOJ_SUBMIT_ERROR__:Codeforces returned to the submit page without creating a submission."));
}

const FORM_FIXTURE: &str = r#"<html><head><script>var _tta = 377;</script></head><body>
<form method="post" action="/search"><input name="query" value="x"></form>
<form method="post" action="/problemset/submit">
  <input type="hidden" name="csrf_token" value="T1">
  <input type="hidden" name="ftaa" value="">
  <input type="hidden" name="bfaa" value="">
  <select name="programTypeId">
    <option value="">Choose</option>
    <option value="42"> GNU G++17 7.3.0 </option>
    <option value="7">GNU C++11</option>
  </select>
</form></body></html>"#;

#[test]
fn form_page_with_empty_hidden_tokens() {
    let page = parse_submit_form_page(FORM_FIXTURE).unwrap();
    assert_eq!(page.csrf_token, "T1");
    assert_eq!(page.hidden_fields, pairs(&[("csrf_token", "T1"), ("ftaa", ""), ("bfaa", "")]));
    assert_eq!(page.tta, Some("377".to_string()));
    assert_eq!(page.ftaa, Some(String::new()));
    assert_eq!(page.bfaa, Some(String::new()));
    assert_eq!(page.language_options, pairs(&[("42", "GNU G++17 7.3.0"), ("7", "GNU C++11")]));
    assert_eq!(select_program_type_id(&page.language_options, "cpp"), Some("42".to_string()));
}

#[test]
fn form_page_prefers_script_over_empty_hidden() {
    let html = FORM_FIXTURE.replace("var _tta = 377;", r#"var _tta = 377; window._ftaa = "F1"; var _bfaa='B1';"#);
    let page = parse_submit_form_page(&html).unwrap();
    assert_eq!(page.ftaa, Some("F1".to_string()));
    assert_eq!(page.bfaa, Some("B1".to_string()));
    assert_eq!(page.tta, Some("377".to_string()));
}

#[test]
fn form_page_without_submit_form() {
    let err = parse_submit_form_page("<form><input name='q'></form>").err().unwrap();
    assert_eq!(err, "Codeforces submit form was not found");
}

#[test]
fn submit_script_escapes_values() {
    let script = build_codeforces_submit_script("py", "1A", "A", "print(\"a\\b\")\t\u{1}</script>");
    assert!(script.contains(r#"const sourceCode = "print(\"a\\b\")\t\u0001</script>";"#));
}

#[test]
fn submit_script_tries_needles_in_order() {
    let script = build_codeforces_submit_script("cpp", "1A", "A", "x");
    assert!(script.contains("for (const needle of compilerNeedles)"));
}
