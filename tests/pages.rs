use bingooj::page::extract_codeforces_submit_error;
use bingooj::problems::{finish_sample_text, parse_problem_page, problem_list_id, problem_list_url, problem_page_url, statement_placeholder};
use bingooj::run::{compile_failure_text, process_result_text, render_output, run_language, time_limit_message, RunLanguage};

const PROBLEM_FIXTURE: &str = r#"<html><body>
<div class="problem-statement"><div class="header">A. Sum</div><p>Add two numbers.</p></div>
<div class="sample-test">
  <div class="input"><div class="title">Input</div><pre><div class="test-example-line">1 2</div><div class="test-example-line">3 4</div></pre></div>
  <div class="output"><div class="title">Output</div><pre>3<br>7
</pre></div>
  <div class="input"><div class="title">Input</div><pre>5&nbsp;6</pre></div>
</div>
</body></html>"#;

#[test]
fn problem_page_statement_and_samples() {
    let page = parse_problem_page(PROBLEM_FIXTURE).ok().unwrap();
    assert!(page.statement_html.starts_with("<div class=\"problem-statement\">"));
    assert!(page.statement_html.contains("Add two numbers."));
    assert_eq!(page.samples.len(), 1);
    assert_eq!(page.samples[0].input, "1 2\n3 4");
    assert_eq!(page.samples[0].output, "3\n7");
}

#[test]
fn problem_page_without_statement() {
    assert_eq!(parse_problem_page("<p>nothing</p>").err().unwrap(), "problem statement not found");
}

#[test]
fn problem_page_without_samples() {
    let page = parse_problem_page(r#"<div class="problem-statement">x</div>"#).ok().unwrap();
    assert!(page.samples.is_empty());
}

#[test]
fn sample_text_finishing() {
    assert_eq!(finish_sample_text("1\u{a0}2\n\n"), "1 2");
    assert_eq!(finish_sample_text("\n"), "");
    assert_eq!(finish_sample_text("a\nb"), "a\nb");
}

#[test]
fn submit_error_text_is_collapsed() {
    let html = r#"<span class="error"> </span><span class="error for__source">  You have submitted
        exactly the same code   before </span>"#;
    assert_eq!(
        extract_codeforces_submit_error(html),
        Some("You have submitted exactly the same code before".to_string())
    );
    assert_eq!(extract_codeforces_submit_error("<p>fine</p>"), None);
}

#[test]
fn problem_links() {
    assert_eq!(problem_page_url(1850, "B"), "https://codeforces.com/problemset/problem/1850/B");
    assert_eq!(problem_list_id(Some(1850), "B"), "CF-1850-B");
    assert_eq!(problem_list_id(None, "B"), "CF-B");
    assert_eq!(problem_list_url(None, "B"), "");
    assert_eq!(problem_list_url(Some(7), "A1"), "https://codeforces.com/problemset/problem/7/A1");
    assert_eq!(statement_placeholder("u"), "题面暂不抓取，打开链接：u");
}

#[test]
fn run_languages() {
    assert_eq!(run_language("py"), Ok(RunLanguage::Python));
    assert_eq!(run_language("cpp"), Ok(RunLanguage::Cpp));
    assert_eq!(run_language("js"), Ok(RunLanguage::JavaScript));
    assert_eq!(run_language("rb"), Err("unsupported language: rb".to_string()));
}

#[test]
fn rendered_output() {
    assert_eq!(render_output("out", "err"), "out\nerr");
    assert_eq!(render_output("", "err"), "err");
    assert_eq!(render_output("out", ""), "out");
    assert_eq!(process_result_text("", " \n", true), "OK\n");
    assert_eq!(process_result_text("", "", false), "Error\n");
    assert_eq!(process_result_text("42\n", "", true), "42\n");
    assert_eq!(compile_failure_text("", ""), "Compilation failed.\n");
    assert_eq!(compile_failure_text("", "main.cpp:1: error"), "main.cpp:1: error");
    assert_eq!(time_limit_message(2), "Time limit exceeded (2s)");
}
