//! One submission attempt through the embedded browser: what each page load
//! and title change leads to, the single-slot delivery of the outcome, and
//! what the caller gets back.

use vstd::prelude::*;
use crate::auth::CodeforcesAuthState;
use crate::form::{
    build_codeforces_submit_inspect_script, build_codeforces_submit_script,
    extract_submission_id_from_url, submission_id_in, submit_script_text, SUBMIT_ERROR_TITLE_PREFIX,
    SUBMIT_INSPECT_SCRIPT, SUBMITTING_TITLE,
};
use crate::text::{
    chars_of, contains_spec, decimal_spec, push_decimal, push_str, slice_chars, starts_with_spec,
    str_contains, string_of, matches_at,
};

verus! {

/// Where a page load marks an anti-bot challenge.
pub const CHALLENGE_URL_MARKER: &'static str = "__cf_chl";

/// Where a page load is the submit page.
pub const SUBMIT_URL_MARKER: &'static str = "/submit";

pub const CHALLENGE_MESSAGE: &'static str = "Please complete the anti-bot verification in the opened Codeforces window, then click Submit again.";

pub const CHALLENGE_TITLE_MARKER: &'static str = "Just a moment";

pub const CHALLENGE_PROMPT_MARKER: &'static str = "Please complete the anti-bot verification";

pub const NOT_CONNECTED_MESSAGE: &'static str = "Codeforces account is not connected yet.";

pub const TIMED_OUT_MESSAGE: &'static str = "Timed out while waiting for Codeforces to accept the submission.";

/// How long the caller waits for an outcome, in seconds.
pub const SUBMIT_WAIT_SECONDS: u64 = 30;

/// What the form driver has done on the submit page in this attempt.
pub struct WebviewSubmitState {
    /// The form-filling script was injected.
    pub form_submitted: bool,
    /// The inspection script was injected after the page came back.
    pub inspect_requested: bool,
}

/// What the driver does after a page finished loading.
#[derive(PartialEq, Eq, Structural, Clone, Copy, Debug)]
pub enum PageLoadAction {
    /// An anti-bot challenge: ask the user to solve it (with `CHALLENGE_MESSAGE`).
    Challenge,
    /// The judge created the submission with this id: deliver it and close the window.
    Accepted(u64),
    /// Fill and post the form (`build_codeforces_submit_script`).
    InjectSubmitScript,
    /// The form came back: report its error (`build_codeforces_submit_inspect_script`).
    InjectInspectScript,
    /// Nothing to do.
    Ignore,
}

/// What the driver does after the document title changed.
pub enum TitleAction {
    /// The injected script reported this error.
    ReportedError(String),
    /// The title shows an anti-bot challenge.
    Challenge,
    /// Nothing to do.
    Ignore,
}

/// The page-load step: the action for a page that finished loading at `url`
/// in contest `contest_id`, and the driver's state after it.
pub open spec fn page_load_step(
    form_submitted: bool,
    inspect_requested: bool,
    url: Seq<char>,
    contest_id: nat,
) -> (PageLoadAction, bool, bool) {
    if contains_spec(url, CHALLENGE_URL_MARKER@) {
        (PageLoadAction::Challenge, form_submitted, inspect_requested)
    } else if submission_id_in(url, contest_id) is Some {
        (PageLoadAction::Accepted(submission_id_in(url, contest_id)->0), form_submitted, inspect_requested)
    } else if !contains_spec(url, SUBMIT_URL_MARKER@) {
        (PageLoadAction::Ignore, form_submitted, inspect_requested)
    } else if !form_submitted {
        (PageLoadAction::InjectSubmitScript, true, inspect_requested)
    } else if !inspect_requested {
        (PageLoadAction::InjectInspectScript, form_submitted, true)
    } else {
        (PageLoadAction::Ignore, form_submitted, inspect_requested)
    }
}

impl WebviewSubmitState {
    /// A fresh attempt: nothing injected yet.
    pub fn new() -> (r: Self)
        ensures
            !r.form_submitted,
            !r.inspect_requested,
    {
        WebviewSubmitState { form_submitted: false, inspect_requested: false }
    }

    /// Decides what a finished page load at `url` leads to. The form is filled
    /// once; a second load of the submit page is inspected once; later loads
    /// of it are ignored.
    pub fn on_page_load(&mut self, url: &str, contest_id: u32) -> (r: PageLoadAction)
        ensures
            (r, final(self).form_submitted, final(self).inspect_requested) == page_load_step(
                old(self).form_submitted,
                old(self).inspect_requested,
                url@,
                contest_id as nat,
            ),
    {
        if str_contains(url, CHALLENGE_URL_MARKER) {
            return PageLoadAction::Challenge;
        }
        if let Some(id) = extract_submission_id_from_url(url, contest_id) {
            return PageLoadAction::Accepted(id);
        }
        if !str_contains(url, SUBMIT_URL_MARKER) {
            return PageLoadAction::Ignore;
        }
        if !self.form_submitted {
            self.form_submitted = true;
            PageLoadAction::InjectSubmitScript
        } else if !self.inspect_requested {
            self.inspect_requested = true;
            PageLoadAction::InjectInspectScript
        } else {
            PageLoadAction::Ignore
        }
    }
}

/// The title carries an anti-bot challenge.
pub open spec fn title_shows_challenge(title: Seq<char>) -> bool {
    contains_spec(title, CHALLENGE_TITLE_MARKER@) || contains_spec(title, CHALLENGE_PROMPT_MARKER@)
}

/// Decides what a new document title leads to: an error reported by the
/// injected script (the text after `SUBMIT_ERROR_TITLE_PREFIX`), an anti-bot
/// challenge, or nothing (the script's own `SUBMITTING_TITLE` among others).
pub fn on_title_changed(title: &str) -> (r: TitleAction)
    ensures
        match r {
            TitleAction::ReportedError(e) => starts_with_spec(title@, SUBMIT_ERROR_TITLE_PREFIX@)
                && e@ == title@.subrange(SUBMIT_ERROR_TITLE_PREFIX@.len() as int, title@.len() as int),
            TitleAction::Challenge => !starts_with_spec(title@, SUBMIT_ERROR_TITLE_PREFIX@)
                && title@ != SUBMITTING_TITLE@ && title_shows_challenge(title@),
            TitleAction::Ignore => !starts_with_spec(title@, SUBMIT_ERROR_TITLE_PREFIX@)
                && (title@ == SUBMITTING_TITLE@ || !title_shows_challenge(title@)),
        },
{
    let t = chars_of(title);
    let prefix = chars_of(SUBMIT_ERROR_TITLE_PREFIX);
    if matches_at(&t, &prefix, 0) {
        let e = slice_chars(&t, prefix.len(), t.len());
        return TitleAction::ReportedError(string_of(e));
    }
    let submitting = chars_of(SUBMITTING_TITLE);
    if t.len() == submitting.len() && matches_at(&t, &submitting, 0) {
        assert(t@ =~= t@.subrange(0, submitting@.len() as int));
        return TitleAction::Ignore;
    }
    proof {
        if t@ == submitting@ {
            assert(t@.subrange(0, submitting@.len() as int) =~= t@);
        }
    }
    if str_contains(title, CHALLENGE_TITLE_MARKER) || str_contains(title, CHALLENGE_PROMPT_MARKER) {
        TitleAction::Challenge
    } else {
        TitleAction::Ignore
    }
}

/// How a submission attempt ended.
pub enum SubmissionOutcome {
    /// The judge created the submission with this id.
    Accepted(u64),
    /// The user has to act in the open window (challenge or form error).
    NeedsVerification(String),
    /// No outcome came within the wait.
    TimedOut,
}

/// The single slot through which an attempt delivers its outcome: the first
/// outcome offered is kept, and later ones are dropped.
pub struct CompletionSlot {
    pub delivered: Option<SubmissionOutcome>,
}

/// Offering `outcome` to a slot that holds `delivered`: whether it is taken,
/// and what the slot holds after.
pub open spec fn offer_step(delivered: Option<SubmissionOutcome>, outcome: SubmissionOutcome) -> (bool, Option<SubmissionOutcome>) {
    if delivered is None {
        (true, Some(outcome))
    } else {
        (false, delivered)
    }
}

impl CompletionSlot {
    /// An empty slot.
    pub fn new() -> (r: Self)
        ensures
            r.delivered is None,
    {
        CompletionSlot { delivered: None }
    }

    /// Offers an outcome; it is taken only when the slot is still empty.
    /// The caller forwards a taken outcome to the waiting side.
    pub fn offer(&mut self, outcome: SubmissionOutcome) -> (taken: bool)
        ensures
            (taken, final(self).delivered) == offer_step(old(self).delivered, outcome),
    {
        if self.delivered.is_none() {
            self.delivered = Some(outcome);
            true
        } else {
            false
        }
    }
}

/// However many outcomes are offered after the first, the slot delivers the
/// first one and takes no other: a challenge page followed by a success page
/// still delivers only the challenge.
pub proof fn lemma_slot_delivers_once(first: SubmissionOutcome, second: SubmissionOutcome)
    ensures
        offer_step(None, first) == (true, Some(first)),
        offer_step(offer_step(None, first).1, second) == (false, Some(first)),
{
}

/// A slot that holds an outcome keeps it under any later offer.
pub proof fn lemma_slot_keeps_outcome(delivered: Option<SubmissionOutcome>, later: SubmissionOutcome)
    requires
        delivered is Some,
    ensures
        offer_step(delivered, later) == (false, delivered),
{
}

/// The page where a problem's solution is submitted.
pub open spec fn submit_page_url_text(contest_id: nat, index: Seq<char>) -> Seq<char> {
    "https://codeforces.com/problemset/submit?contestId="@ + decimal_spec(contest_id) + "&problemIndex="@ + index
}

/// Everything the driver needs for one attempt.
pub struct SubmissionPlan {
    /// The contest id followed by the problem index (`1000A`).
    pub problem_code: String,
    pub submit_page_url: String,
    pub submit_script: String,
    pub inspect_script: String,
}

/// Prepares a submission: refused unless the session is connected; else the
/// submit page URL and the two scripts for the problem, language and source.
pub fn plan_submission(
    auth: &CodeforcesAuthState,
    contest_id: u32,
    index: &str,
    lang: &str,
    code: &str,
) -> (r: Result<SubmissionPlan, String>)
    ensures
        auth.connected <==> r is Ok,
        !auth.connected ==> r is Err && r->Err_0@ == NOT_CONNECTED_MESSAGE@,
        r is Ok ==> r->Ok_0.problem_code@ == decimal_spec(contest_id as nat) + index@
            && r->Ok_0.submit_page_url@ == submit_page_url_text(contest_id as nat, index@)
            && r->Ok_0.submit_script@ == submit_script_text(lang@, decimal_spec(contest_id as nat) + index@, index@, code@)
            && r->Ok_0.inspect_script@ == SUBMIT_INSPECT_SCRIPT@,
{
    if !auth.connected {
        return Err(string_of(chars_of(NOT_CONNECTED_MESSAGE)));
    }
    let mut pc: Vec<char> = Vec::new();
    push_decimal(&mut pc, contest_id as u64);
    push_str(&mut pc, index);
    let problem_code = string_of(pc);
    let mut url = chars_of("https://codeforces.com/problemset/submit?contestId=");
    push_decimal(&mut url, contest_id as u64);
    push_str(&mut url, "&problemIndex=");
    push_str(&mut url, index);
    assert(pc@ =~= decimal_spec(contest_id as nat) + index@);
    let submit_script = build_codeforces_submit_script(lang, problem_code.as_str(), index, code);
    Ok(SubmissionPlan {
        problem_code,
        submit_page_url: string_of(url),
        submit_script,
        inspect_script: build_codeforces_submit_inspect_script(),
    })
}

/// What the caller gets for an accepted submission.
pub struct SubmissionReceipt {
    pub submission_id: u64,
    /// Seconds since the Unix epoch when the judge accepted it.
    pub submitted_at: u64,
    pub message: String,
}

/// The message shown for an accepted submission.
pub open spec fn accepted_message(id: nat) -> Seq<char> {
    "Submitted to Codeforces. Submission #"@ + decimal_spec(id) + ". Waiting for verdict..."@
}

/// Turns the outcome of the wait into the caller's answer: a receipt for an
/// accepted submission, the message for one that needs the user, and a
/// timeout error otherwise.
pub fn finish_submission(outcome: SubmissionOutcome, submitted_at: u64) -> (r: Result<SubmissionReceipt, String>)
    ensures
        match outcome {
            SubmissionOutcome::Accepted(id) => r is Ok && r->Ok_0.submission_id == id
                && r->Ok_0.submitted_at == submitted_at && r->Ok_0.message@ == accepted_message(id as nat),
            SubmissionOutcome::NeedsVerification(m) => r is Err && r->Err_0@ == m@,
            SubmissionOutcome::TimedOut => r is Err && r->Err_0@ == TIMED_OUT_MESSAGE@,
        },
{
    match outcome {
        SubmissionOutcome::Accepted(id) => {
            let mut m = chars_of("Submitted to Codeforces. Submission #");
            push_decimal(&mut m, id);
            push_str(&mut m, ". Waiting for verdict...");
            Ok(SubmissionReceipt { submission_id: id, submitted_at, message: string_of(m) })
        },
        SubmissionOutcome::NeedsVerification(m) => Err(m),
        SubmissionOutcome::TimedOut => Err(string_of(chars_of(TIMED_OUT_MESSAGE))),
    }
}

/// Within one attempt the form is filled at most once and inspected at most
/// once, only after it was filled: the flags only ever go from unset to set,
/// and each injection sets the flag it needs unset.
pub proof fn lemma_fill_and_inspect_once(form_submitted: bool, inspect_requested: bool, url: Seq<char>, contest_id: nat)
    ensures
        ({
            let (action, filled, inspected) = page_load_step(form_submitted, inspect_requested, url, contest_id);
            &&& (form_submitted ==> filled)
            &&& (inspect_requested ==> inspected)
            &&& (action == PageLoadAction::InjectSubmitScript ==> !form_submitted && filled)
            &&& (action == PageLoadAction::InjectInspectScript ==> form_submitted && !inspect_requested && inspected)
        }),
{
}

/// A page that reloads to the submit page is filled on the first load,
/// inspected on the second, and left alone after that.
pub proof fn lemma_reload_sequence(url: Seq<char>, contest_id: nat)
    requires
        !contains_spec(url, CHALLENGE_URL_MARKER@),
        submission_id_in(url, contest_id) is None,
        contains_spec(url, SUBMIT_URL_MARKER@),
    ensures
        page_load_step(false, false, url, contest_id) == (PageLoadAction::InjectSubmitScript, true, false),
        page_load_step(true, false, url, contest_id) == (PageLoadAction::InjectInspectScript, true, true),
        page_load_step(true, true, url, contest_id) == (PageLoadAction::Ignore, true, true),
{
}

} // verus!
