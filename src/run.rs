//! Texts of the local runner: which languages run, and how a finished
//! process's output is shown.

use vstd::prelude::*;
use crate::text::{chars_of, decimal_spec, push_decimal, push_str, str_equals, string_of, trim_chars, trim_spec};

verus! {

/// How long a local run may take, in seconds.
pub const RUN_TIMEOUT_SECONDS: u64 = 2;

/// The languages that run locally.
#[derive(PartialEq, Eq, Structural, Clone, Copy, Debug)]
pub enum RunLanguage {
    Python,
    Cpp,
    JavaScript,
}

/// The language named `py`, `cpp` or `js`.
pub open spec fn language_named(lang: Seq<char>) -> Option<RunLanguage> {
    if lang == "py"@ {
        Some(RunLanguage::Python)
    } else if lang == "cpp"@ {
        Some(RunLanguage::Cpp)
    } else if lang == "js"@ {
        Some(RunLanguage::JavaScript)
    } else {
        None
    }
}

/// The language to run `lang` code with; others are refused.
pub fn run_language(lang: &str) -> (r: Result<RunLanguage, String>)
    ensures
        match language_named(lang@) {
            Some(l) => r == Ok::<RunLanguage, String>(l),
            None => r is Err && r->Err_0@ == "unsupported language: "@ + lang@,
        },
{
    if str_equals(lang, "py") {
        Ok(RunLanguage::Python)
    } else if str_equals(lang, "cpp") {
        Ok(RunLanguage::Cpp)
    } else if str_equals(lang, "js") {
        Ok(RunLanguage::JavaScript)
    } else {
        let mut m = chars_of("unsupported language: ");
        push_str(&mut m, lang);
        Err(string_of(m))
    }
}

/// Standard output, then standard error on a line of its own where both are present.
pub open spec fn rendered(stdout: Seq<char>, stderr: Seq<char>) -> Seq<char> {
    if stderr.len() == 0 {
        stdout
    } else if stdout.len() == 0 {
        stderr
    } else {
        stdout + seq!['\n'] + stderr
    }
}

/// The output of a process: standard output, then standard error on a line
/// of its own where both are present.
pub fn render_output(stdout: &str, stderr: &str) -> (r: String)
    ensures
        r@ == rendered(stdout@, stderr@),
{
    let mut text = chars_of(stdout);
    let err = chars_of(stderr);
    if err.len() > 0 {
        if text.len() > 0 {
            text.push('\n');
        }
        crate::text::push_all(&mut text, &err);
        assert(text@ =~= rendered(stdout@, stderr@));
    }
    string_of(text)
}

/// What a finished run shows: its output, or `OK` / `Error` on a line where
/// the output is blank.
pub open spec fn run_result_text(stdout: Seq<char>, stderr: Seq<char>, success: bool) -> Seq<char> {
    if trim_spec(rendered(stdout, stderr)).len() == 0 {
        if success { "OK\n"@ } else { "Error\n"@ }
    } else {
        rendered(stdout, stderr)
    }
}

/// What a finished run shows.
pub fn process_result_text(stdout: &str, stderr: &str, success: bool) -> (r: String)
    ensures
        r@ == run_result_text(stdout@, stderr@, success),
{
    let text = render_output(stdout, stderr);
    if trim_chars(&chars_of(text.as_str())).len() == 0 {
        if success {
            string_of(chars_of("OK\n"))
        } else {
            string_of(chars_of("Error\n"))
        }
    } else {
        text
    }
}

/// What a failed compile shows: the compiler's output, or a fixed line where it is blank.
pub fn compile_failure_text(stdout: &str, stderr: &str) -> (r: String)
    ensures
        trim_spec(rendered(stdout@, stderr@)).len() == 0 ==> r@ == "Compilation failed.\n"@,
        trim_spec(rendered(stdout@, stderr@)).len() > 0 ==> r@ == rendered(stdout@, stderr@),
{
    let text = render_output(stdout, stderr);
    if trim_chars(&chars_of(text.as_str())).len() == 0 {
        string_of(chars_of("Compilation failed.\n"))
    } else {
        text
    }
}

/// The error of a run that did not finish in time.
pub fn time_limit_message(seconds: u64) -> (r: String)
    ensures
        r@ == "Time limit exceeded ("@ + decimal_spec(seconds as nat) + "s)"@,
{
    let mut m = chars_of("Time limit exceeded (");
    push_decimal(&mut m, seconds);
    push_str(&mut m, "s)");
    string_of(m)
}

} // verus!
