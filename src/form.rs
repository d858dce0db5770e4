//! The judge's submit page: the compiler choice, the anti-forgery values,
//! the submission id in a URL, and the scripts injected into the page.

use vstd::prelude::*;
use crate::text::{
    digit_char,
    chars_of, contains_chars, contains_spec, decimal_spec, digit_run_end, digit_run_end_exec,
    find_chars, find_spec, lemma_find_from_found, parse_unsigned, parse_unsigned_spec,
    push_decimal, push_str, slice_chars, str_contains, str_equals, string_of,
    until_char_end, until_char_end_exec, white_run_end, white_run_end_exec,
};

verus! {

/// The first index in `i..n` that satisfies `p`.
pub open spec fn first_index_from(p: spec_fn(int) -> bool, i: int, n: int) -> Option<int>
    decreases n - i,
{
    if i < 0 || i >= n {
        None
    } else if p(i) {
        Some(i)
    } else {
        first_index_from(p, i + 1, n)
    }
}

/// Where some index in `i..n` satisfies `p`, the first one is found, and it
/// comes no later than that index.
pub proof fn lemma_first_index_witness(p: spec_fn(int) -> bool, i: int, n: int, k: int)
    requires
        0 <= i <= k < n,
        p(k),
    ensures
        first_index_from(p, i, n) is Some,
        p(first_index_from(p, i, n)->0),
        first_index_from(p, i, n)->0 <= k,
    decreases k - i,
{
    if !p(i) {
        lemma_first_index_witness(p, i + 1, n, k);
    }
}

/// The compiler names acceptable for a language, most preferred first.
pub open spec fn language_needles(lang: Seq<char>) -> Seq<Seq<char>> {
    if lang == "cpp"@ {
        seq!["GNU G++23"@, "GNU G++20"@, "GNU G++17"@, "GNU C++17"@, "GNU G++14"@]
    } else if lang == "py"@ {
        seq!["Python 3"@, "PyPy 3"@]
    } else if lang == "js"@ {
        seq!["Node.js"@, "JavaScript"@]
    } else {
        seq![]
    }
}

/// The compiler names acceptable for `lang`, most preferred first; none for
/// a language that the judge is not driven for.
pub fn codeforces_language_needles(lang: &str) -> (r: Vec<&'static str>)
    ensures
        r.deep_view() == language_needles(lang@),
{
    let mut r: Vec<&'static str> = Vec::new();
    if str_equals(lang, "cpp") {
        r.push("GNU G++23");
        r.push("GNU G++20");
        r.push("GNU G++17");
        r.push("GNU C++17");
        r.push("GNU G++14");
    } else if str_equals(lang, "py") {
        r.push("Python 3");
        r.push("PyPy 3");
    } else if str_equals(lang, "js") {
        r.push("Node.js");
        r.push("JavaScript");
    }
    assert(r.deep_view() =~= language_needles(lang@));
    r
}

/// Option `i` carries `needle` in its visible label.
pub open spec fn label_has(opts: Seq<(Seq<char>, Seq<char>)>, needle: Seq<char>) -> spec_fn(int) -> bool {
    |i: int| contains_spec(opts[i].1, needle)
}

/// The option value chosen for the needles `needles`: for the first needle
/// that some label contains, the value of the first such option.
pub open spec fn pick_program_type(opts: Seq<(Seq<char>, Seq<char>)>, needles: Seq<Seq<char>>) -> Option<Seq<char>>
    decreases needles.len(),
{
    if needles.len() == 0 {
        None
    } else {
        match first_index_from(label_has(opts, needles[0]), 0, opts.len() as int) {
            Some(i) => Some(opts[i].0),
            None => pick_program_type(opts, needles.drop_first()),
        }
    }
}

/// The first option (value, visible label) whose label contains `needle`.
fn option_with_label(options: &Vec<(String, String)>, needle: &str) -> (r: Option<usize>)
    ensures
        r is Some ==> r->0 < options@.len(),
        match r {
            Some(i) => first_index_from(label_has(options.deep_view(), needle@), 0, options@.len() as int) == Some(i as int),
            None => first_index_from(label_has(options.deep_view(), needle@), 0, options@.len() as int) is None,
        },
{
    let ghost p = label_has(options.deep_view(), needle@);
    let pat = chars_of(needle);
    let mut i: usize = 0;
    while i < options.len()
        invariant
            i <= options@.len(),
            pat@ == needle@,
            p == label_has(options.deep_view(), needle@),
            first_index_from(p, 0, options@.len() as int) == first_index_from(p, i as int, options@.len() as int),
        decreases options@.len() - i,
    {
        let label = chars_of(options[i].1.as_str());
        if contains_chars(&label, &pat) {
            assert(p(i as int));
            return Some(i);
        }
        i += 1;
    }
    None
}

/// The value of the compiler option to select for `lang`: the needles of
/// `codeforces_language_needles` are tried in order, and the first one that
/// some label contains picks the first option with that label.
pub fn select_program_type_id(options: &Vec<(String, String)>, lang: &str) -> (r: Option<String>)
    ensures
        r.deep_view() == pick_program_type(options.deep_view(), language_needles(lang@)),
{
    let needles = codeforces_language_needles(lang);
    let ghost all = needles.deep_view();
    assert(all.subrange(0, all.len() as int) =~= all);
    let mut k: usize = 0;
    while k < needles.len()
        invariant
            k <= needles@.len(),
            all == needles.deep_view(),
            all == language_needles(lang@),
            pick_program_type(options.deep_view(), all) == pick_program_type(options.deep_view(), all.subrange(k as int, all.len() as int)),
        decreases needles@.len() - k,
    {
        let ghost rest = all.subrange(k as int, all.len() as int);
        assert(rest[0] == needles[k as int]@);
        assert(rest.drop_first() =~= all.subrange(k + 1, all.len() as int));
        if let Some(i) = option_with_label(options, needles[k]) {
            assert(options.deep_view()[i as int].0 == options@[i as int].0@);
            return Some(options[i].0.clone());
        }
        k += 1;
    }
    assert(all.subrange(k as int, all.len() as int).len() == 0);
    None
}

/// Field `i` is named `name`.
pub open spec fn field_named(fields: Seq<(Seq<char>, Seq<char>)>, name: Seq<char>) -> spec_fn(int) -> bool {
    |i: int| fields[i].0 == name
}

/// The value of the first field called `name`.
pub open spec fn field_value(fields: Seq<(Seq<char>, Seq<char>)>, name: Seq<char>) -> Option<Seq<char>> {
    match first_index_from(field_named(fields, name), 0, fields.len() as int) {
        Some(i) => Some(fields[i].1),
        None => None,
    }
}

/// The value of the first (name, value) field called `name`.
pub fn hidden_field_value(fields: &Vec<(String, String)>, name: &str) -> (r: Option<String>)
    ensures
        r.deep_view() == field_value(fields.deep_view(), name@),
{
    let ghost p = field_named(fields.deep_view(), name@);
    let mut i: usize = 0;
    while i < fields.len()
        invariant
            i <= fields@.len(),
            p == field_named(fields.deep_view(), name@),
            first_index_from(p, 0, fields@.len() as int) == first_index_from(p, i as int, fields@.len() as int),
        decreases fields@.len() - i,
    {
        if str_equals(fields[i].0.as_str(), name) {
            assert(p(i as int));
            return Some(fields[i].1.clone());
        }
        i += 1;
    }
    None
}

/// The path that precedes a submission id of contest `contest_id`.
pub open spec fn submission_path_needle(contest_id: nat) -> Seq<char> {
    "/contest/"@ + decimal_spec(contest_id) + "/submission/"@
}

/// The number spelled by the digits that follow the first
/// `/contest/{contest_id}/submission/` in `s`, where there are digits and
/// their number fits in a `u64`.
pub open spec fn submission_id_in(s: Seq<char>, contest_id: nat) -> Option<u64> {
    let needle = submission_path_needle(contest_id);
    match find_spec(s, needle) {
        None => None,
        Some(p) => {
            let start = p + needle.len();
            match parse_unsigned_spec(s.subrange(start, digit_run_end(s, start)), u64::MAX as nat) {
                Some(v) => Some(v as u64),
                None => None,
            }
        },
    }
}

fn submission_id_after_needle(s: &str, contest_id: u32) -> (r: Option<u64>)
    ensures
        r == submission_id_in(s@, contest_id as nat),
{
    let text = chars_of(s);
    let mut needle = chars_of("/contest/");
    push_decimal(&mut needle, contest_id as u64);
    push_str(&mut needle, "/submission/");
    assert(needle@ == submission_path_needle(contest_id as nat));
    match find_chars(&text, &needle) {
        None => None,
        Some(p) => {
            proof {
                lemma_find_from_found(text@, needle@, 0);
            }
            let tl = text.len();
            assert(p + needle@.len() <= tl);
            let start = p + needle.len();
            let end = digit_run_end_exec(&text, start);
            let digits = slice_chars(&text, start, end);
            parse_unsigned(&digits, u64::MAX)
        },
    }
}

/// The submission id in a URL of the form `.../contest/{contest_id}/submission/{digits}`.
pub fn extract_submission_id_from_url(url: &str, contest_id: u32) -> (r: Option<u64>)
    ensures
        r == submission_id_in(url@, contest_id as nat),
{
    submission_id_after_needle(url, contest_id)
}

/// The submission id of the first link to `/contest/{contest_id}/submission/{digits}` in a page.
pub fn extract_submission_id_from_html(html: &str, contest_id: u32) -> (r: Option<u64>)
    ensures
        r == submission_id_in(html@, contest_id as nat),
{
    submission_id_after_needle(html, contest_id)
}

pub open spec fn or_else(a: Option<Seq<char>>, b: Option<Seq<char>>) -> Option<Seq<char>> {
    if a is Some {
        a
    } else {
        b
    }
}

/// The non-empty text between the first `pat` in `s` and the next copy of
/// the quote that ends `pat`.
pub open spec fn quoted_value_after(s: Seq<char>, pat: Seq<char>) -> Option<Seq<char>> {
    match find_spec(s, pat) {
        None => None,
        Some(p) => {
            let start = p + pat.len();
            let v = s.subrange(start, until_char_end(s, start, pat.last()));
            if v.len() > 0 {
                Some(v)
            } else {
                None
            }
        },
    }
}

/// The non-empty run of digits that follows the first `pat` in `s`, after
/// any whitespace.
pub open spec fn number_value_after(s: Seq<char>, pat: Seq<char>) -> Option<Seq<char>> {
    match find_spec(s, pat) {
        None => None,
        Some(p) => {
            let w = white_run_end(s, p + pat.len());
            let v = s.subrange(w, digit_run_end(s, w));
            if v.len() > 0 {
                Some(v)
            } else {
                None
            }
        },
    }
}

/// A string assigned to the script variable `var`: the assignment forms are
/// tried in order and the first that yields a non-empty value wins.
pub open spec fn js_string_value(s: Seq<char>, var: Seq<char>) -> Option<Seq<char>> {
    or_else(
        quoted_value_after(s, "window."@ + var + " = \""@),
        or_else(
            quoted_value_after(s, "window."@ + var + "='"@),
            or_else(
                quoted_value_after(s, "var "@ + var + " = \""@),
                or_else(
                    quoted_value_after(s, "var "@ + var + "='"@),
                    or_else(
                        quoted_value_after(s, var + " = \""@),
                        quoted_value_after(s, var + "='"@),
                    ),
                ),
            ),
        ),
    )
}

/// A number assigned to the script variable `var`, as its digits.
pub open spec fn js_number_value(s: Seq<char>, var: Seq<char>) -> Option<Seq<char>> {
    or_else(
        number_value_after(s, "window."@ + var + " = "@),
        or_else(number_value_after(s, "var "@ + var + " = "@), number_value_after(s, var + " = "@)),
    )
}

fn pattern(prefix: &str, var: &str, suffix: &str) -> (r: Vec<char>)
    ensures
        r@ == prefix@ + var@ + suffix@,
{
    let mut r = chars_of(prefix);
    push_str(&mut r, var);
    push_str(&mut r, suffix);
    r
}

fn quoted_value_exec(s: &Vec<char>, pat: &Vec<char>) -> (r: Option<Vec<char>>)
    requires
        pat@.len() > 0,
    ensures
        r.deep_view() == quoted_value_after(s@, pat@),
{
    match find_chars(s, pat) {
        None => None,
        Some(p) => {
            proof {
                lemma_find_from_found(s@, pat@, 0);
            }
            let sl = s.len();
            assert(p + pat@.len() <= sl);
            let start = p + pat.len();
            let end = until_char_end_exec(s, start, pat[pat.len() - 1]);
            if end == start {
                None
            } else {
                let v = slice_chars(s, start, end);
                assert(v.deep_view() =~= v@);
                Some(v)
            }
        },
    }
}

fn number_value_exec(s: &Vec<char>, pat: &Vec<char>) -> (r: Option<Vec<char>>)
    ensures
        r.deep_view() == number_value_after(s@, pat@),
{
    match find_chars(s, pat) {
        None => None,
        Some(p) => {
            proof {
                lemma_find_from_found(s@, pat@, 0);
            }
            let sl = s.len();
            assert(p + pat@.len() <= sl);
            let w = white_run_end_exec(s, p + pat.len());
            let end = digit_run_end_exec(s, w);
            if end == w {
                None
            } else {
                let v = slice_chars(s, w, end);
                assert(v.deep_view() =~= v@);
                Some(v)
            }
        },
    }
}

fn text_of(v: Option<Vec<char>>) -> (r: Option<String>)
    ensures
        r.deep_view() == v.deep_view(),
{
    match v {
        None => None,
        Some(c) => {
            let t = string_of(c);
            assert(c.deep_view() =~= c@);
            Some(t)
        },
    }
}

/// The string that the page's script assigns to `var_name`
/// (`window.x = "..."`, `window.x='...'`, `var x = "..."`, `var x='...'`,
/// `x = "..."` or `x='...'`, tried in this order; an empty value does not count).
pub fn extract_js_string_value(html: &str, var_name: &str) -> (r: Option<String>)
    ensures
        r.deep_view() == js_string_value(html@, var_name@),
{
    let s = chars_of(html);
    proof {
        reveal_strlit("");
        reveal_strlit(" = \"");
        reveal_strlit("='");
        assert(""@ + var_name@ =~= var_name@);
    }
    let p1 = pattern("window.", var_name, " = \"");
    let v1 = quoted_value_exec(&s, &p1);
    if v1.is_some() {
        return text_of(v1);
    }
    let p2 = pattern("window.", var_name, "='");
    let v2 = quoted_value_exec(&s, &p2);
    if v2.is_some() {
        return text_of(v2);
    }
    let p3 = pattern("var ", var_name, " = \"");
    let v3 = quoted_value_exec(&s, &p3);
    if v3.is_some() {
        return text_of(v3);
    }
    let p4 = pattern("var ", var_name, "='");
    let v4 = quoted_value_exec(&s, &p4);
    if v4.is_some() {
        return text_of(v4);
    }
    let p5 = pattern("", var_name, " = \"");
    let v5 = quoted_value_exec(&s, &p5);
    if v5.is_some() {
        return text_of(v5);
    }
    let p6 = pattern("", var_name, "='");
    text_of(quoted_value_exec(&s, &p6))
}

/// The digits of a number that the page's script assigns to `var_name`
/// (`window.x = `, `var x = ` or `x = `, tried in this order, then any
/// whitespace; an empty run of digits does not count).
pub fn extract_js_number_value(html: &str, var_name: &str) -> (r: Option<String>)
    ensures
        r.deep_view() == js_number_value(html@, var_name@),
{
    proof {
        reveal_strlit("");
        assert(""@ + var_name@ =~= var_name@);
    }
    let s = chars_of(html);
    let p1 = pattern("window.", var_name, " = ");
    let v1 = number_value_exec(&s, &p1);
    if v1.is_some() {
        return text_of(v1);
    }
    let p2 = pattern("var ", var_name, " = ");
    let v2 = number_value_exec(&s, &p2);
    if v2.is_some() {
        return text_of(v2);
    }
    let p3 = pattern("", var_name, " = ");
    text_of(number_value_exec(&s, &p3))
}

/// A page is an anti-bot interstitial when it holds one of its markers.
pub open spec fn is_challenge_page(html: Seq<char>) -> bool {
    contains_spec(html, "window._cf_chl_opt"@)
        || contains_spec(html, "Enable JavaScript and cookies to continue"@)
        || contains_spec(html, "<title>Just a moment...</title>"@)
}

/// Whether the page is an anti-bot interstitial rather than the page asked for.
pub fn looks_like_cloudflare_challenge(html: &str) -> (r: bool)
    ensures
        r == is_challenge_page(html@),
{
    str_contains(html, "window._cf_chl_opt") || str_contains(
        html,
        "Enable JavaScript and cookies to continue",
    ) || str_contains(html, "<title>Just a moment...</title>")
}

/// The document title through which an injected script reports an error;
/// the error text follows it.
pub const SUBMIT_ERROR_TITLE_PREFIX: &'static str = "__BINGOOJ_SUBMIT_ERROR__:";

/// The document title that an injected script sets just before it posts the form.
pub const SUBMITTING_TITLE: &'static str = "__BINGOOJ_SUBMITTING__";

/// The script injected when the submit page comes back after the form was
/// posted: it reports the page's validation error through the title.
pub const SUBMIT_INSPECT_SCRIPT: &'static str = r#"
(() => {
  const text = (node) => (node?.textContent || "").replace(/\s+/g, " ").trim();
  const errorNode = Array.from(
    document.querySelectorAll('.error, .error-message, .error[for="source"], .error.for__program-source')
  ).find((node) => text(node).length > 0);
  const errorText = text(errorNode);
  if (errorText) {
    document.title = `__BINGOOJ_SUBMIT_ERROR__:${errorText}`;
    return;
  }
  document.title = `__BINGOOJ_SUBMIT_ERROR__:Codeforces returned to the submit page without creating a submission.`;
})();
"#;

/// The script that reports the submit page's validation error.
pub fn build_codeforces_submit_inspect_script() -> (r: String)
    ensures
        r@ == SUBMIT_INSPECT_SCRIPT@,
{
    string_of(chars_of(SUBMIT_INSPECT_SCRIPT))
}

/// The lower-case hexadecimal digit of `n` (below 16).
pub open spec fn hex_digit(n: nat) -> char {
    if n < 10 {
        digit_char(n)
    } else if n == 10 {
        'a'
    } else if n == 11 {
        'b'
    } else if n == 12 {
        'c'
    } else if n == 13 {
        'd'
    } else if n == 14 {
        'e'
    } else {
        'f'
    }
}

/// How `serde_json` writes one character inside a string literal: `"` and
/// `\` behind a backslash, the five short control escapes, any other
/// character below U+0020 as `\u00XX`, and every other character as itself.
pub open spec fn json_escape(c: char) -> Seq<char> {
    let n = c as u32;
    if c == '"' {
        seq!['\\', '"']
    } else if c == '\\' {
        seq!['\\', '\\']
    } else if n == 0x08 {
        seq!['\\', 'b']
    } else if n == 0x0c {
        seq!['\\', 'f']
    } else if c == '\n' {
        seq!['\\', 'n']
    } else if c == '\r' {
        seq!['\\', 'r']
    } else if c == '\t' {
        seq!['\\', 't']
    } else if n < 0x20 {
        seq!['\\', 'u', '0', '0', hex_digit((n / 16) as nat), hex_digit((n % 16) as nat)]
    } else {
        seq![c]
    }
}

/// The escaped characters of `s`, in order.
pub open spec fn json_escaped(s: Seq<char>) -> Seq<char>
    decreases s.len(),
{
    if s.len() == 0 {
        seq![]
    } else {
        json_escaped(s.drop_last()) + json_escape(s.last())
    }
}

/// The JSON string literal that `serde_json` writes for a text.
pub open spec fn json_string_literal(s: Seq<char>) -> Seq<char> {
    seq!['"'] + json_escaped(s) + seq!['"']
}

#[verifier::external_type_specification]
#[verifier::external_body]
pub struct ExJsonError(serde_json::Error);

/// Relies on `serde_json::to_string` for a `&str`: `serialize_str` escapes
/// each byte by the `ESCAPE` table of `ser.rs` between two quotes, and writes
/// into a `Vec`, which cannot fail.
#[verifier::external_body]
fn json_string(s: &str) -> (r: Result<String, serde_json::Error>)
    ensures
        r is Ok,
        r->Ok_0@ == json_string_literal(s@),
{
    serde_json::to_string(s)
}

/// The items joined by `,` between `[` and `]`.
pub open spec fn js_array(items: Seq<Seq<char>>) -> Seq<char> {
    "["@ + join_with(items, ","@) + "]"@
}

/// The items with `sep` between each two.
pub open spec fn join_with(items: Seq<Seq<char>>, sep: Seq<char>) -> Seq<char>
    decreases items.len(),
{
    if items.len() == 0 {
        seq![]
    } else if items.len() == 1 {
        items[0]
    } else {
        join_with(items.drop_last(), sep) + sep + items.last()
    }
}

/// The JSON literal of each needle.
pub open spec fn json_literals(items: Seq<Seq<char>>) -> Seq<Seq<char>> {
    items.map_values(|x: Seq<char>| json_string_literal(x))
}

pub const SUBMIT_SCRIPT_HEAD: &'static str = "\n(() => {\n  const compilerNeedles = ";

pub const SUBMIT_SCRIPT_AFTER_NEEDLES: &'static str = ";\n  const problemCode = ";

pub const SUBMIT_SCRIPT_AFTER_PROBLEM_CODE: &'static str = ";\n  const problemIndex = ";

pub const SUBMIT_SCRIPT_AFTER_INDEX: &'static str = ";\n  const sourceCode = ";

pub const SUBMIT_SCRIPT_TAIL: &'static str = r#";
  const form = Array.from(document.querySelectorAll("form")).find((node) =>
    node.querySelector('input[name="csrf_token"]') &&
    node.querySelector('select[name="programTypeId"]')
  );
  if (!form) {
    document.title = "__BINGOOJ_SUBMIT_ERROR__:Codeforces submit form was not found.";
    return;
  }

  const setValue = (name, value) => {
    const field = form.querySelector(`[name="${name}"]`);
    if (field) field.value = value;
    return field;
  };

  const compilerSelect = form.querySelector('select[name="programTypeId"]');
  const compilerOptions = Array.from(compilerSelect?.options || []);
  let compilerOption;
  for (const needle of compilerNeedles) {
    compilerOption = compilerOptions.find((option) => option.textContent.includes(needle));
    if (compilerOption) break;
  }
  if (!compilerOption) {
    document.title = "__BINGOOJ_SUBMIT_ERROR__:No matching Codeforces compiler was found for this language.";
    return;
  }

  setValue("ftaa", window._ftaa ?? form.querySelector('[name="ftaa"]')?.value ?? "");
  setValue("bfaa", window._bfaa ?? form.querySelector('[name="bfaa"]')?.value ?? "");
  setValue("_tta", String(window._tta ?? form.querySelector('[name="_tta"]')?.value ?? "377"));
  setValue("submittedProblemCode", problemCode);
  setValue("submittedProblemIndex", problemIndex);
  setValue("tabSize", "4");
  setValue("sourceFile", "");
  setValue("source", sourceCode);
  compilerSelect.value = compilerOption.value;

  const actionField = form.querySelector('[name="action"]');
  if (actionField && !actionField.value) {
    actionField.value = "submitSolutionFormSubmitted";
  }

  document.title = "__BINGOOJ_SUBMITTING__";
  form.submit();
})();
"#;

/// The form-filling script for a language, problem and source text: each
/// value is written into the script as a JSON literal.
pub open spec fn submit_script_text(lang: Seq<char>, problem_code: Seq<char>, index: Seq<char>, code: Seq<char>) -> Seq<char> {
    SUBMIT_SCRIPT_HEAD@ + js_array(json_literals(language_needles(lang))) + SUBMIT_SCRIPT_AFTER_NEEDLES@
        + json_string_literal(problem_code) + SUBMIT_SCRIPT_AFTER_PROBLEM_CODE@ + json_string_literal(index)
        + SUBMIT_SCRIPT_AFTER_INDEX@ + json_string_literal(code) + SUBMIT_SCRIPT_TAIL@
}

fn push_json(v: &mut Vec<char>, s: &str)
    ensures
        final(v)@ == old(v)@ + json_string_literal(s@),
{
    match json_string(s) {
        Ok(lit) => push_str(v, lit.as_str()),
        Err(_) => {},
    }
}

/// The script that fills the submit form in the page and posts it. It tries
/// the language's needles in their order and picks, for the first one that
/// some label contains, the first option with that label. It reports a
/// missing form or compiler through the title.
pub fn build_codeforces_submit_script(lang: &str, problem_code: &str, index: &str, code: &str) -> (r: String)
    ensures
        r@ == submit_script_text(lang@, problem_code@, index@, code@),
{
    let needles = codeforces_language_needles(lang);
    let ghost lits = json_literals(needles.deep_view());
    let mut out = chars_of(SUBMIT_SCRIPT_HEAD);
    let ghost head = out@;
    push_str(&mut out, "[");
    let mut k: usize = 0;
    while k < needles.len()
        invariant
            k <= needles@.len(),
            lits == json_literals(needles.deep_view()),
            out@ == head + "["@ + join_with(lits.subrange(0, k as int), ","@),
        decreases needles@.len() - k,
    {
        if k > 0 {
            push_str(&mut out, ",");
        }
        push_json(&mut out, needles[k]);
        proof {
            let sub = lits.subrange(0, k + 1);
            assert(sub.drop_last() =~= lits.subrange(0, k as int));
            assert(sub.last() == json_string_literal(needles[k as int]@));
            if k == 0 {
                assert(sub.len() == 1);
            }
        }
        k += 1;
    }
    assert(lits.subrange(0, needles@.len() as int) =~= lits);
    push_str(&mut out, "]");
    push_str(&mut out, SUBMIT_SCRIPT_AFTER_NEEDLES);
    push_json(&mut out, problem_code);
    push_str(&mut out, SUBMIT_SCRIPT_AFTER_PROBLEM_CODE);
    push_json(&mut out, index);
    push_str(&mut out, SUBMIT_SCRIPT_AFTER_INDEX);
    push_json(&mut out, code);
    push_str(&mut out, SUBMIT_SCRIPT_TAIL);
    assert(out@ =~= submit_script_text(lang@, problem_code@, index@, code@));
    string_of(out)
}

} // verus!
