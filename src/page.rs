//! Reading the judge's submit page: the form, its hidden fields, the
//! compiler choices and the anti-forgery values.

use vstd::prelude::*;
use crate::form::{
    extract_js_number_value, extract_js_string_value, first_index_from, hidden_field_value,
    js_number_value, js_string_value, field_value,
};
use crate::auth::{select_texts, selected_texts};
use crate::text::{chars_of, collapse_spec, collapse_whitespace, str_equals, string_of, trim_chars, trim_spec};

verus! {

/// One element found under a container: two of its attributes and its text.
pub type ElementView = (Option<Seq<char>>, Option<Seq<char>>, Seq<char>);

/// For each element of `html` that `outer` matches, in the order in which
/// `Html::select` visits the parsed tree's nodes (their insertion order), the
/// elements under it that `inner` matches, in the order of a walk of its
/// subtree, each with its attributes
/// `first` and `second` and its text; `None` when a selector is not valid CSS.
pub uninterp spec fn nested_elements_of(
    html: Seq<char>,
    outer: Seq<char>,
    inner: Seq<char>,
    first: Seq<char>,
    second: Seq<char>,
) -> Option<Seq<Seq<ElementView>>>;

/// Relies on scraper's `Html::parse_document`, `Selector::parse`,
/// `Html::select`, `ElementRef::select`, `ElementRef::attr` and
/// `ElementRef::text`: the document is parsed, and for each element that
/// `outer` matches (in the tree's insertion order), the elements under it that
/// `inner` matches are listed in the order of a walk of its subtree, with two
/// attributes and their text.
#[verifier::external_body]
fn nested_elements(html: &str, outer: &str, inner: &str, first: &str, second: &str) -> (r: Option<Vec<Vec<(Option<String>, Option<String>, String)>>>)
    ensures
        r.deep_view() == nested_elements_of(html@, outer@, inner@, first@, second@),
{
    let document = scraper::Html::parse_document(html);
    let outer = scraper::Selector::parse(outer).ok()?;
    let inner = scraper::Selector::parse(inner).ok()?;
    Some(document.select(&outer).map(|o| o.select(&inner).map(|e| (
        e.attr(first).map(String::from),
        e.attr(second).map(String::from),
        e.text().collect::<String>(),
    )).collect()).collect())
}

pub const FORM_SELECTOR: &'static str = "form";

pub const INPUT_SELECTOR: &'static str = "input[name]";

pub const PROGRAM_OPTION_SELECTOR: &'static str = "select[name='programTypeId'] option";

pub const FORM_NOT_FOUND_MESSAGE: &'static str = "Codeforces submit form was not found";

pub const SELECTOR_REFUSED_MESSAGE: &'static str = "a selector of the submit form was refused";

/// The submit form as read from the page.
pub struct SubmitFormPage {
    pub csrf_token: String,
    /// Every named input of the form, in page order, with its value ("" if none).
    pub hidden_fields: Vec<(String, String)>,
    /// (option value, visible label) of each compiler choice with a value, trimmed.
    pub language_options: Vec<(String, String)>,
    pub ftaa: Option<String>,
    pub bfaa: Option<String>,
    pub tta: Option<String>,
}

/// The (name, value) fields of the form's inputs; an input without a value has "".
pub open spec fn fields_of(inputs: Seq<ElementView>) -> Seq<(Seq<char>, Seq<char>)>
    decreases inputs.len(),
{
    if inputs.len() == 0 {
        seq![]
    } else {
        let rest = fields_of(inputs.drop_last());
        let e = inputs.last();
        match e.0 {
            Some(name) => rest.push((name, match e.1 { Some(v) => v, None => seq![] })),
            None => rest,
        }
    }
}

/// The value of the last input named `csrf_token`.
pub open spec fn last_csrf(inputs: Seq<ElementView>) -> Option<Seq<char>>
    decreases inputs.len(),
{
    if inputs.len() == 0 {
        None
    } else {
        let e = inputs.last();
        if e.0 == Some("csrf_token"@) {
            Some(match e.1 { Some(v) => v, None => seq![] })
        } else {
            last_csrf(inputs.drop_last())
        }
    }
}

/// The compiler choices: (trimmed value, trimmed text) of each option whose
/// trimmed value is not empty.
pub open spec fn options_of(opts: Seq<ElementView>) -> Seq<(Seq<char>, Seq<char>)>
    decreases opts.len(),
{
    if opts.len() == 0 {
        seq![]
    } else {
        let rest = options_of(opts.drop_last());
        let e = opts.last();
        match e.0 {
            Some(v) => if trim_spec(v).len() > 0 {
                rest.push((trim_spec(v), trim_spec(e.2)))
            } else {
                rest
            },
            None => rest,
        }
    }
}

/// The form is the submit form: it has a `csrf_token` input and a compiler option.
pub open spec fn is_submit_form(inputs: Seq<ElementView>, opts: Seq<ElementView>) -> bool {
    last_csrf(inputs) is Some && opts.len() > 0
}

pub open spec fn submit_form_at(forms_inputs: Seq<Seq<ElementView>>, forms_options: Seq<Seq<ElementView>>) -> spec_fn(int) -> bool {
    |i: int| is_submit_form(forms_inputs[i], forms_options[i])
}

/// A hidden anti-forgery value, or the page script's value where the hidden
/// field is missing or empty (the hidden field's empty value where the script
/// has none).
pub open spec fn anti_forgery_value(hidden: Option<Seq<char>>, script: Option<Seq<char>>) -> Option<Seq<char>> {
    match hidden {
        Some(h) => if h.len() > 0 {
            hidden
        } else if script is Some {
            script
        } else {
            hidden
        },
        None => script,
    }
}

fn anti_forgery(hidden: Option<String>, script: Option<String>) -> (r: Option<String>)
    ensures
        r.deep_view() == anti_forgery_value(hidden.deep_view(), script.deep_view()),
{
    match hidden {
        Some(h) => {
            if chars_of(h.as_str()).len() > 0 {
                Some(h)
            } else if script.is_some() {
                script
            } else {
                Some(h)
            }
        },
        None => script,
    }
}

fn fields_exec(inputs: &Vec<(Option<String>, Option<String>, String)>) -> (r: (Vec<(String, String)>, Option<String>))
    ensures
        r.0.deep_view() == fields_of(inputs.deep_view()),
        r.1.deep_view() == last_csrf(inputs.deep_view()),
{
    let ghost all = inputs.deep_view();
    let mut fields: Vec<(String, String)> = Vec::new();
    let mut csrf: Option<String> = None;
    let mut i: usize = 0;
    assert(all.subrange(0, 0) =~= Seq::<ElementView>::empty());
    while i < inputs.len()
        invariant
            i <= inputs@.len(),
            all == inputs.deep_view(),
            fields.deep_view() == fields_of(all.subrange(0, i as int)),
            csrf.deep_view() == last_csrf(all.subrange(0, i as int)),
        decreases inputs@.len() - i,
    {
        let ghost sub = all.subrange(0, i + 1);
        assert(sub.drop_last() =~= all.subrange(0, i as int));
        assert(sub.last() == all[i as int]);
        let e = &inputs[i];
        match &e.0 {
            Some(name) => {
                let value = match &e.1 {
                    Some(v) => v.clone(),
                    None => string_of(Vec::new()),
                };
                if str_equals(name.as_str(), "csrf_token") {
                    csrf = Some(value.clone());
                }
                let ghost before = fields.deep_view();
                fields.push((name.clone(), value));
                assert(fields.deep_view() =~= before.push((name@, match e.1.deep_view() { Some(v) => v, None => seq![] })));
            },
            None => {},
        }
        i += 1;
    }
    assert(all.subrange(0, all.len() as int) =~= all);
    (fields, csrf)
}

fn options_exec(opts: &Vec<(Option<String>, Option<String>, String)>) -> (r: Vec<(String, String)>)
    ensures
        r.deep_view() == options_of(opts.deep_view()),
{
    let ghost all = opts.deep_view();
    let mut out: Vec<(String, String)> = Vec::new();
    let mut i: usize = 0;
    assert(all.subrange(0, 0) =~= Seq::<ElementView>::empty());
    while i < opts.len()
        invariant
            i <= opts@.len(),
            all == opts.deep_view(),
            out.deep_view() == options_of(all.subrange(0, i as int)),
        decreases opts@.len() - i,
    {
        let ghost sub = all.subrange(0, i + 1);
        assert(sub.drop_last() =~= all.subrange(0, i as int));
        assert(sub.last() == all[i as int]);
        let e = &opts[i];
        match &e.0 {
            Some(v) => {
                let value = trim_chars(&chars_of(v.as_str()));
                if value.len() > 0 {
                    let label = trim_chars(&chars_of(e.2.as_str()));
                    let ghost before = out.deep_view();
                    out.push((string_of(value), string_of(label)));
                    assert(out.deep_view() =~= before.push((value@, label@)));
                }
            },
            None => {},
        }
        i += 1;
    }
    assert(all.subrange(0, all.len() as int) =~= all);
    out
}

/// Where the submit form stands among the page's forms.
pub open spec fn submit_form_index(html: Seq<char>) -> Option<int> {
    match (
        nested_elements_of(html, FORM_SELECTOR@, INPUT_SELECTOR@, "name"@, "value"@),
        nested_elements_of(html, FORM_SELECTOR@, PROGRAM_OPTION_SELECTOR@, "value"@, "value"@),
    ) {
        (Some(inputs), Some(opts)) => first_index_from(
            submit_form_at(inputs, opts),
            0,
            if inputs.len() <= opts.len() { inputs.len() as int } else { opts.len() as int },
        ),
        _ => None,
    }
}

/// Reads the submit form of a page: the first form with a `csrf_token`
/// input and a compiler option. Its named inputs become the hidden fields
/// (in order), the options with a value the compiler choices, and each
/// anti-forgery value comes from its hidden field or, where that is missing
/// or empty, from the page script (`_ftaa`, `_bfaa`, and the number `_tta`).
pub fn parse_submit_form_page(html: &str) -> (r: Result<SubmitFormPage, String>)
    ensures
        r is Ok <==> submit_form_index(html@) is Some,
        match (
            submit_form_index(html@),
            nested_elements_of(html@, FORM_SELECTOR@, INPUT_SELECTOR@, "name"@, "value"@),
            nested_elements_of(html@, FORM_SELECTOR@, PROGRAM_OPTION_SELECTOR@, "value"@, "value"@),
        ) {
            (Some(i), Some(inputs), Some(opts)) => r is Ok && {
                let page = r->Ok_0;
                let fields = fields_of(inputs[i]);
                &&& page.hidden_fields.deep_view() == fields
                &&& Some(page.csrf_token@) == last_csrf(inputs[i])
                &&& page.language_options.deep_view() == options_of(opts[i])
                &&& page.ftaa.deep_view() == anti_forgery_value(field_value(fields, "ftaa"@), js_string_value(html@, "_ftaa"@))
                &&& page.bfaa.deep_view() == anti_forgery_value(field_value(fields, "bfaa"@), js_string_value(html@, "_bfaa"@))
                &&& page.tta.deep_view() == anti_forgery_value(field_value(fields, "_tta"@), js_number_value(html@, "_tta"@))
            },
            (None, Some(_), Some(_)) => r is Err && r->Err_0@ == FORM_NOT_FOUND_MESSAGE@,
            _ => r is Err && r->Err_0@ == SELECTOR_REFUSED_MESSAGE@,
        },
{
    let found_inputs = nested_elements(html, FORM_SELECTOR, INPUT_SELECTOR, "name", "value");
    let found_opts = nested_elements(html, FORM_SELECTOR, PROGRAM_OPTION_SELECTOR, "value", "value");
    if found_inputs.is_none() || found_opts.is_none() {
        return Err(string_of(chars_of(SELECTOR_REFUSED_MESSAGE)));
    }
    let inputs = found_inputs.unwrap();
    let opts = found_opts.unwrap();
    let ghost iv = inputs.deep_view();
    let ghost ov = opts.deep_view();
    assert(nested_elements_of(html@, FORM_SELECTOR@, INPUT_SELECTOR@, "name"@, "value"@) == Some(iv));
    assert(nested_elements_of(html@, FORM_SELECTOR@, PROGRAM_OPTION_SELECTOR@, "value"@, "value"@) == Some(ov));
    let ghost p = submit_form_at(iv, ov);
    let n = if inputs.len() <= opts.len() { inputs.len() } else { opts.len() };
    let mut i: usize = 0;
    while i < n
        invariant
            i <= n,
            n <= inputs@.len() && n <= opts@.len(),
            n == if iv.len() <= ov.len() { iv.len() } else { ov.len() },
            iv == inputs.deep_view(),
            ov == opts.deep_view(),
            p == submit_form_at(iv, ov),
            first_index_from(p, 0, n as int) == first_index_from(p, i as int, n as int),
            nested_elements_of(html@, FORM_SELECTOR@, INPUT_SELECTOR@, "name"@, "value"@) == Some(iv),
            nested_elements_of(html@, FORM_SELECTOR@, PROGRAM_OPTION_SELECTOR@, "value"@, "value"@) == Some(ov),
            submit_form_index(html@) == first_index_from(p, 0, n as int),
        decreases n - i,
    {
        assert(iv[i as int] == inputs[i as int].deep_view());
        assert(ov[i as int] == opts[i as int].deep_view());
        let (hidden_fields, csrf) = fields_exec(&inputs[i]);
        if opts[i].len() > 0 {
            if let Some(csrf_token) = csrf {
                assert(p(i as int));
                let language_options = options_exec(&opts[i]);
                let ftaa = anti_forgery(hidden_field_value(&hidden_fields, "ftaa"), extract_js_string_value(html, "_ftaa"));
                let bfaa = anti_forgery(hidden_field_value(&hidden_fields, "bfaa"), extract_js_string_value(html, "_bfaa"));
                let tta = anti_forgery(hidden_field_value(&hidden_fields, "_tta"), extract_js_number_value(html, "_tta"));
                return Ok(SubmitFormPage { csrf_token, hidden_fields, language_options, ftaa, bfaa, tta });
            }
        }
        assert(!p(i as int));
        i += 1;
    }
    Err(string_of(chars_of(FORM_NOT_FOUND_MESSAGE)))
}

/// The elements of the submit page that carry a validation error.
pub const SUBMIT_ERROR_SELECTOR: &'static str = ".error, .error-message, .error for__program-source";

/// The first error text that is not blank once its whitespace is collapsed, collapsed.
pub open spec fn first_error_text(texts: Seq<Seq<char>>) -> Option<Seq<char>>
    decreases texts.len(),
{
    if texts.len() == 0 {
        None
    } else if collapse_spec(texts[0]).len() > 0 {
        Some(collapse_spec(texts[0]))
    } else {
        first_error_text(texts.drop_first())
    }
}

/// The validation error shown by a submit page, with its whitespace collapsed.
pub open spec fn submit_error_of(html: Seq<char>) -> Option<Seq<char>> {
    match selected_texts(html, SUBMIT_ERROR_SELECTOR@) {
        Some(texts) => first_error_text(texts),
        None => None,
    }
}

/// The validation error shown by a submit page: the text of the first error
/// element that is not blank, its runs of whitespace turned into single spaces.
pub fn extract_codeforces_submit_error(html: &str) -> (r: Option<String>)
    ensures
        r.deep_view() == submit_error_of(html@),
{
    let found = select_texts(html, SUBMIT_ERROR_SELECTOR);
    if found.is_none() {
        return None;
    }
    let texts = found.unwrap();
    let ghost all = texts.deep_view();
    assert(all.subrange(0, all.len() as int) =~= all);
    let mut i: usize = 0;
    while i < texts.len()
        invariant
            i <= texts@.len(),
            all == texts.deep_view(),
            submit_error_of(html@) == first_error_text(all),
            first_error_text(all) == first_error_text(all.subrange(i as int, all.len() as int)),
        decreases texts@.len() - i,
    {
        let ghost rest = all.subrange(i as int, all.len() as int);
        assert(rest[0] == texts[i as int]@);
        assert(rest.drop_first() =~= all.subrange(i + 1, all.len() as int));
        let t = collapse_whitespace(&chars_of(texts[i].as_str()));
        if t.len() > 0 {
            return Some(string_of(t));
        }
        i += 1;
    }
    None
}

} // verus!
