//! Names and links of the judge's problems, as the problem list shows them.

use vstd::prelude::*;
use ego_tree::iter::Edge;
use crate::text::{chars_of, decimal_spec, push_all, push_decimal, push_str, str_equals, string_of};

verus! {

/// The statement page of a problem.
pub open spec fn problem_url_text(contest_id: nat, index: Seq<char>) -> Seq<char> {
    "https://codeforces.com/problemset/problem/"@ + decimal_spec(contest_id) + "/"@ + index
}

/// The statement page of a problem.
pub fn problem_page_url(contest_id: u64, index: &str) -> (r: String)
    ensures
        r@ == problem_url_text(contest_id as nat, index@),
{
    let mut u = chars_of("https://codeforces.com/problemset/problem/");
    push_decimal(&mut u, contest_id);
    push_str(&mut u, "/");
    push_str(&mut u, index);
    string_of(u)
}

/// The id of a problem in the list: `CF-{contest}-{index}`, or `CF-{index}`
/// for a problem without a contest.
pub fn problem_list_id(contest_id: Option<u64>, index: &str) -> (r: String)
    ensures
        r@ == match contest_id {
            Some(c) => "CF-"@ + decimal_spec(c as nat) + "-"@ + index@,
            None => "CF-"@ + index@,
        },
{
    let mut s = chars_of("CF-");
    match contest_id {
        Some(c) => {
            push_decimal(&mut s, c);
            push_str(&mut s, "-");
        },
        None => {},
    }
    push_str(&mut s, index);
    string_of(s)
}

/// The link of a problem in the list; empty for a problem without a contest.
pub fn problem_list_url(contest_id: Option<u64>, index: &str) -> (r: String)
    ensures
        r@ == match contest_id {
            Some(c) => problem_url_text(c as nat, index@),
            None => Seq::<char>::empty(),
        },
{
    match contest_id {
        Some(c) => problem_page_url(c, index),
        None => string_of(Vec::new()),
    }
}

/// The statement text of a listed problem: a pointer to its page.
pub fn statement_placeholder(url: &str) -> (r: String)
    ensures
        r@ == "题面暂不抓取，打开链接："@ + url@,
{
    let mut s = chars_of("题面暂不抓取，打开链接：");
    push_str(&mut s, url);
    string_of(s)
}

/// `s` with each no-break space turned into a space.
pub open spec fn plain_spaces(s: Seq<char>) -> Seq<char> {
    s.map_values(|c: char| if c == '\u{a0}' { ' ' } else { c })
}

/// Where `s[..e]` ends once trailing newlines are dropped.
pub open spec fn without_trailing_newlines(s: Seq<char>, e: int) -> int
    decreases e,
{
    if 0 < e <= s.len() && s[e - 1] == '\n' {
        without_trailing_newlines(s, e - 1)
    } else {
        e
    }
}

/// The text of a sample as shown: no-break spaces become spaces, and
/// trailing newlines are dropped.
pub open spec fn sample_text_of(raw: Seq<char>) -> Seq<char> {
    let p = plain_spaces(raw);
    p.subrange(0, without_trailing_newlines(p, p.len() as int))
}

/// The text of a sample as shown.
pub fn finish_sample_text(raw: &str) -> (r: String)
    ensures
        r@ == sample_text_of(raw@),
{
    let s = chars_of(raw);
    let mut p: Vec<char> = Vec::new();
    let mut i: usize = 0;
    while i < s.len()
        invariant
            i <= s@.len(),
            p@ == plain_spaces(s@.subrange(0, i as int)),
        decreases s@.len() - i,
    {
        let c = s[i];
        p.push(if c == '\u{a0}' { ' ' } else { c });
        i += 1;
        assert(p@ =~= plain_spaces(s@.subrange(0, i as int)));
    }
    assert(s@.subrange(0, s@.len() as int) =~= s@);
    let mut e = p.len();
    while e > 0 && p[e - 1] == '\n'
        invariant
            e <= p@.len(),
            without_trailing_newlines(p@, p@.len() as int) == without_trailing_newlines(p@, e as int),
        decreases e,
    {
        e -= 1;
    }
    let kept = crate::text::slice_chars(&p, 0, e);
    string_of(kept)
}

/// One step of a walk through an element's subtree, in tree order:
/// whether it opens (else closes) a node, the node's text if it is a text
/// node, and its name if it is an element.
pub type WalkStep = (bool, Option<Seq<char>>, Option<Seq<char>>);

/// For each element of `html` that `scope` matches, in the order in which
/// `Html::select` visits the parsed tree's nodes (their insertion order), the
/// walk of each element under it that `inner` matches; `None` when a
/// selector is not valid CSS.
pub uninterp spec fn subtree_walks_of(html: Seq<char>, scope: Seq<char>, inner: Seq<char>) -> Option<Seq<Seq<Seq<WalkStep>>>>;

/// Relies on scraper's `Html::parse_document`, `Selector::parse`,
/// `Html::select` and `ElementRef::select`, and on ego_tree's
/// `NodeRef::traverse`: each matched element's subtree is walked in tree
/// order, an `Edge::Open` before and an `Edge::Close` after each node's children.
#[verifier::external_body]
fn subtree_walks(html: &str, scope: &str, inner: &str) -> (r: Option<Vec<Vec<Vec<(bool, Option<String>, Option<String>)>>>>)
    ensures
        r.deep_view() == subtree_walks_of(html@, scope@, inner@),
{
    let document = scraper::Html::parse_document(html);
    let scope = scraper::Selector::parse(scope).ok()?;
    let inner = scraper::Selector::parse(inner).ok()?;
    Some(document.select(&scope).map(|b| b.select(&inner).map(|e| e.traverse().map(|edge| {
        let (open, n) = match edge { Edge::Open(n) => (true, n), Edge::Close(n) => (false, n) };
        (open, n.value().as_text().map(|t| t.to_string()), n.value().as_element().map(|e| e.name().to_string()))
    }).collect()).collect()).collect())
}

/// `out` ending with a line break: one is added unless it is already there.
pub open spec fn with_line_end(out: Seq<char>) -> Seq<char> {
    if out.len() > 0 && out.last() == '\n' {
        out
    } else {
        out.push('\n')
    }
}

/// Elements after which a sample's text goes on a new line.
pub open spec fn is_block_tag(name: Seq<char>) -> bool {
    name == "div"@ || name == "p"@ || name == "li"@
}

/// The text gathered from a walk so far, and how deep the walk is inside a
/// `br` whose contents are skipped (0 outside one). Texts are kept; a `br`
/// breaks the line; the end of a `div`, `p` or `li` breaks the line.
pub open spec fn walk_text_state(steps: Seq<WalkStep>) -> (Seq<char>, nat)
    decreases steps.len(),
{
    if steps.len() == 0 {
        (seq![], 0)
    } else {
        let (out, skip) = walk_text_state(steps.drop_last());
        let (open, text, name) = steps.last();
        if skip > 0 {
            if name is Some && open {
                (out, skip + 1)
            } else if name is Some {
                (out, (skip - 1) as nat)
            } else {
                (out, skip)
            }
        } else if open && text is Some {
            (out + text->0, 0)
        } else if open && name == Some("br"@) {
            (with_line_end(out), 1)
        } else if !open && name is Some && is_block_tag(name->0) {
            (with_line_end(out), 0)
        } else {
            (out, 0)
        }
    }
}

/// The raw text of a sample element from its walk; the last step, which
/// closes the element itself, adds nothing.
pub open spec fn walk_text(steps: Seq<WalkStep>) -> Seq<char> {
    if steps.len() == 0 {
        seq![]
    } else {
        walk_text_state(steps.drop_last()).0
    }
}

fn push_line_end(out: &mut Vec<char>)
    ensures
        final(out)@ == with_line_end(old(out)@),
{
    let n = out.len();
    if !(n > 0 && out[n - 1] == '\n') {
        out.push('\n');
    }
}

/// The raw text of a sample element from its walk.
fn walk_text_exec(steps: &Vec<(bool, Option<String>, Option<String>)>) -> (r: Vec<char>)
    ensures
        r@ == walk_text(steps.deep_view()),
{
    let ghost all = steps.deep_view();
    if steps.len() == 0 {
        return Vec::new();
    }
    let last = steps.len() - 1;
    let mut out: Vec<char> = Vec::new();
    let mut skip: u64 = 0;
    let mut i: usize = 0;
    assert(all.subrange(0, 0) =~= Seq::<WalkStep>::empty());
    while i < last
        invariant
            last < steps@.len(),
            i <= last,
            all == steps.deep_view(),
            skip <= i,
            (out@, skip as nat) == walk_text_state(all.subrange(0, i as int)),
        decreases last - i,
    {
        let ghost sub = all.subrange(0, i + 1);
        assert(sub.drop_last() =~= all.subrange(0, i as int));
        assert(sub.last() == all[i as int]);
        let step = &steps[i];
        let open = step.0;
        if skip > 0 {
            if step.2.is_some() && open {
                skip = skip + 1;
            } else if step.2.is_some() {
                skip = skip - 1;
            }
        } else if open && step.1.is_some() {
            match &step.1 {
                Some(t) => push_str(&mut out, t.as_str()),
                None => {},
            }
        } else {
            match &step.2 {
                Some(name) => {
                    let name = name.as_str();
                    if open && str_equals(name, "br") {
                        push_line_end(&mut out);
                        skip = 1;
                    } else if !open && (str_equals(name, "div") || str_equals(name, "p") || str_equals(name, "li")) {
                        push_line_end(&mut out);
                    }
                },
                None => {},
            }
        }
        i += 1;
    }
    assert(all.drop_last() =~= all.subrange(0, last as int));
    out
}

/// The text of a sample as shown, from the walk of its element.
pub open spec fn sample_of_walk(steps: Seq<WalkStep>) -> Seq<char> {
    sample_text_of(walk_text(steps))
}

/// The outer HTML of each element of `html` that `selector` matches, in the
/// order in which `Html::select` visits the parsed tree's nodes (their
/// insertion order); `None` when the selector is not valid CSS.
pub uninterp spec fn outer_htmls_of(html: Seq<char>, selector: Seq<char>) -> Option<Seq<Seq<char>>>;

/// Relies on scraper's `Html::parse_document`, `Selector::parse`,
/// `Html::select` and `ElementRef::html`: the outer HTML of each matching
/// element, in the order in which `Html::select` visits the tree's nodes.
#[verifier::external_body]
fn outer_htmls(html: &str, selector: &str) -> (r: Option<Vec<String>>)
    ensures
        r.deep_view() == outer_htmls_of(html@, selector@),
{
    let document = scraper::Html::parse_document(html);
    let selector = scraper::Selector::parse(selector).ok()?;
    Some(document.select(&selector).map(|e| e.html()).collect())
}

pub const STATEMENT_SELECTOR: &'static str = ".problem-statement";

pub const SAMPLE_SELECTOR: &'static str = ".sample-test";

pub const SAMPLE_INPUT_SELECTOR: &'static str = ".input pre";

pub const SAMPLE_OUTPUT_SELECTOR: &'static str = ".output pre";

pub const STATEMENT_NOT_FOUND_MESSAGE: &'static str = "problem statement not found";

/// One sample test of a problem.
pub struct ProblemSample {
    pub input: String,
    pub output: String,
}

/// A problem's statement page, as the application shows it.
pub struct ProblemPage {
    /// The outer HTML of the statement.
    pub statement_html: String,
    /// The samples of the first sample block, inputs and outputs paired in order.
    pub samples: Vec<ProblemSample>,
}

/// The walks of the sample elements that `inner` matches in the first
/// sample block (none where the page has no sample block).
pub open spec fn first_block_walks(html: Seq<char>, inner: Seq<char>) -> Option<Seq<Seq<WalkStep>>> {
    match subtree_walks_of(html, SAMPLE_SELECTOR@, inner) {
        Some(blocks) => Some(if blocks.len() > 0 { blocks[0] } else { seq![] }),
        None => None,
    }
}

fn first_block(blocks: Vec<Vec<Vec<(bool, Option<String>, Option<String>)>>>) -> (r: Vec<Vec<(bool, Option<String>, Option<String>)>>)
    ensures
        r.deep_view() == (if blocks@.len() > 0 { blocks.deep_view()[0] } else { seq![] }),
{
    let mut blocks = blocks;
    if blocks.len() > 0 {
        let ghost b0 = blocks.deep_view()[0];
        let r = blocks.swap_remove(0);
        assert(r.deep_view() == b0);
        r
    } else {
        let r: Vec<Vec<(bool, Option<String>, Option<String>)>> = Vec::new();
        assert(r.deep_view() =~= Seq::<Seq<WalkStep>>::empty());
        r
    }
}

/// Reads a problem's statement page: the outer HTML of the first statement
/// element, and the samples of the first sample block, the i-th input
/// paired with the i-th output as long as both exist.
pub fn parse_problem_page(html: &str) -> (r: Result<ProblemPage, String>)
    ensures
        match (outer_htmls_of(html@, STATEMENT_SELECTOR@), first_block_walks(html@, SAMPLE_INPUT_SELECTOR@), first_block_walks(html@, SAMPLE_OUTPUT_SELECTOR@)) {
            (Some(statements), Some(ins), Some(outs)) => if statements.len() == 0 {
                r is Err && r->Err_0@ == STATEMENT_NOT_FOUND_MESSAGE@
            } else {
                r is Ok && r->Ok_0.statement_html@ == statements[0]
                    && r->Ok_0.samples@.len() == (if ins.len() <= outs.len() { ins.len() } else { outs.len() })
                    && forall|i: int| 0 <= i < r->Ok_0.samples@.len() ==> {
                        &&& (#[trigger] r->Ok_0.samples@[i]).input@ == sample_of_walk(ins[i])
                        &&& r->Ok_0.samples@[i].output@ == sample_of_walk(outs[i])
                    }
            },
            _ => r is Err,
        },
{
    let statements = match outer_htmls(html, STATEMENT_SELECTOR) {
        Some(s) => s,
        None => return Err(string_of(chars_of("a selector of the problem page was refused"))),
    };
    let ins_found = subtree_walks(html, SAMPLE_SELECTOR, SAMPLE_INPUT_SELECTOR);
    let outs_found = subtree_walks(html, SAMPLE_SELECTOR, SAMPLE_OUTPUT_SELECTOR);
    if ins_found.is_none() || outs_found.is_none() {
        return Err(string_of(chars_of("a selector of the problem page was refused")));
    }
    if statements.len() == 0 {
        return Err(string_of(chars_of(STATEMENT_NOT_FOUND_MESSAGE)));
    }
    let ins = first_block(ins_found.unwrap());
    let outs = first_block(outs_found.unwrap());
    let ghost iv = ins.deep_view();
    let ghost ov = outs.deep_view();
    let n = if ins.len() <= outs.len() { ins.len() } else { outs.len() };
    let mut samples: Vec<ProblemSample> = Vec::new();
    let mut i: usize = 0;
    while i < n
        invariant
            i <= n,
            n <= ins@.len() && n <= outs@.len(),
            iv == ins.deep_view(),
            ov == outs.deep_view(),
            samples@.len() == i,
            forall|j: int| 0 <= j < i ==> {
                &&& (#[trigger] samples@[j]).input@ == sample_of_walk(iv[j])
                &&& samples@[j].output@ == sample_of_walk(ov[j])
            },
        decreases n - i,
    {
        assert(iv[i as int] == ins[i as int].deep_view());
        assert(ov[i as int] == outs[i as int].deep_view());
        let input = finish_sample_text(string_of(walk_text_exec(&ins[i])).as_str());
        let output = finish_sample_text(string_of(walk_text_exec(&outs[i])).as_str());
        samples.push(ProblemSample { input, output });
        i += 1;
    }
    Ok(ProblemPage { statement_html: statements[0].clone(), samples })
}

} // verus!
