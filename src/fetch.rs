//! The retry policy of the page fetcher: up to three attempts with the
//! primary client, a linear backoff between them, then one attempt with the
//! fallback transport.

use vstd::prelude::*;
use crate::form::join_with;
use crate::text::{chars_of, decimal_spec, push_decimal, push_str, str_equals, string_of};

verus! {

/// Attempts made with the primary client before the fallback.
pub const PRIMARY_ATTEMPTS: u64 = 3;

/// The backoff unit: after attempt `n` the fetcher waits `n` units.
pub const BACKOFF_UNIT_MILLIS: u64 = 300;

/// What is fetched; it names the target in the error of the primary attempts.
#[derive(PartialEq, Eq, Structural, Clone, Copy, Debug)]
pub enum FetchKind {
    ProblemPage,
    Api,
}

/// Why one primary attempt failed.
pub enum AttemptFailure {
    /// The request could not be sent or got no response.
    Request(String),
    /// The response had an error status.
    Http(String),
    /// The response body could not be read.
    Body(String),
    /// The body is not JSON.
    Json(String),
    /// The JSON's `status` is not `OK`.
    ApiStatus,
}

/// What the fetcher does after an attempt.
pub enum FetchAction {
    /// Hand back this body.
    Done(String),
    /// Wait, then make the next primary attempt.
    Retry { delay_millis: u64 },
    /// Wait, then fetch once with the fallback transport; its error is to
    /// begin with `prior_error`.
    Fallback { delay_millis: u64, prior_error: String },
}

#[derive(PartialEq, Eq, Structural, Clone, Copy, Debug)]
pub enum StepKind {
    Done,
    Retry,
    Fallback,
}

pub open spec fn action_kind(a: FetchAction) -> StepKind {
    match a {
        FetchAction::Done(_) => StepKind::Done,
        FetchAction::Retry { .. } => StepKind::Retry,
        FetchAction::Fallback { .. } => StepKind::Fallback,
    }
}

/// The step after primary attempt `attempt`: done on success, else another
/// attempt while fewer than `PRIMARY_ATTEMPTS` were made, else the fallback.
pub open spec fn step_kind(attempt: nat, succeeded: bool) -> StepKind {
    if succeeded {
        StepKind::Done
    } else if attempt < PRIMARY_ATTEMPTS {
        StepKind::Retry
    } else {
        StepKind::Fallback
    }
}

/// The texts of a `Result` of texts.
pub open spec fn text_result(r: Result<String, String>) -> Result<Seq<char>, Seq<char>> {
    match r {
        Ok(a) => Ok(a@),
        Err(e) => Err(e@),
    }
}

/// The texts of a parsed `status` field, or of the parser's error.
pub open spec fn status_result(r: Result<Option<String>, String>) -> Result<Option<Seq<char>>, Seq<char>> {
    match r {
        Ok(Some(a)) => Ok(Some(a@)),
        Ok(None) => Ok(None),
        Err(e) => Err(e@),
    }
}

/// What a fetch hands back once the fallback answered with `result`: its
/// error as it is (it already begins with `prior_error`); for a page, its
/// body; for the API, its body only where the body parses and its `status`
/// is `OK`, else an error that adds what was wrong to `prior_error`.
pub open spec fn fallback_outcome(
    kind: FetchKind,
    prior_error: Seq<char>,
    result: Result<Seq<char>, Seq<char>>,
    parsed_status: Result<Option<Seq<char>>, Seq<char>>,
) -> Result<Seq<char>, Seq<char>> {
    match result {
        Err(e) => Err(e),
        Ok(body) => match kind {
            FetchKind::ProblemPage => Ok(body),
            FetchKind::Api => match parsed_status {
                Err(pe) => Err(prior_error + "; curl fallback returned invalid json: "@ + pe),
                Ok(Some(st)) => if st == "OK"@ {
                    Ok(body)
                } else {
                    Err(prior_error + FALLBACK_STATUS_ERROR@)
                },
                Ok(None) => Err(prior_error + FALLBACK_STATUS_ERROR@),
            },
        },
    }
}

/// What follows the primary attempts' errors when the fallback's JSON has a bad `status`.
pub const FALLBACK_STATUS_ERROR: &'static str = "; curl fallback: Codeforces API status was not OK";

/// The text of a failed attempt.
pub open spec fn failure_text(attempt: nat, f: AttemptFailure) -> Seq<char> {
    let tail = match f {
        AttemptFailure::Request(e) => ": request failed: "@ + e@,
        AttemptFailure::Http(e) => ": http error: "@ + e@,
        AttemptFailure::Body(e) => ": failed to read response body: "@ + e@,
        AttemptFailure::Json(e) => ": failed to parse json: "@ + e@,
        AttemptFailure::ApiStatus => ": Codeforces API status was not OK"@,
    };
    "attempt "@ + decimal_spec(attempt) + tail
}

/// The start of the fallback's error: what was fetched, and how each primary
/// attempt failed, in order, joined by `; `.
pub open spec fn prior_error_text(kind: FetchKind, failures: Seq<Seq<char>>) -> Seq<char> {
    let head = match kind {
        FetchKind::ProblemPage => "failed to fetch Codeforces problem page after 3 reqwest attempts: "@,
        FetchKind::Api => "failed to fetch Codeforces API after 3 reqwest attempts: "@,
    };
    head + join_with(failures, "; "@)
}

/// The retry state of one fetch.
pub struct FetchRetry {
    pub kind: FetchKind,
    /// The number of the next primary attempt, from 1.
    pub attempt: u64,
    /// How each failed attempt failed, in order.
    pub failures: Vec<String>,
}

impl FetchRetry {
    pub open spec fn wf(&self) -> bool {
        &&& 1 <= self.attempt <= PRIMARY_ATTEMPTS
        &&& self.failures@.len() == self.attempt - 1
    }

    /// A fetch that has made no attempt.
    pub fn new(kind: FetchKind) -> (r: Self)
        ensures
            r.wf(),
            r.kind == kind,
            r.attempt == 1,
            r.failures@.len() == 0,
    {
        FetchRetry { kind, attempt: 1, failures: Vec::new() }
    }

    /// Records the result of the current primary attempt and says what comes
    /// next. After attempt `n` fails, the wait is `n` backoff units.
    pub fn on_attempt_result(&mut self, result: Result<String, AttemptFailure>) -> (r: FetchAction)
        requires
            old(self).wf(),
        ensures
            action_kind(r) == step_kind(old(self).attempt as nat, result is Ok),
            final(self).kind == old(self).kind,
            match result {
                Ok(body) => r == FetchAction::Done(body) && *final(self) == *old(self),
                Err(f) => {
                    &&& final(self).failures.deep_view() == old(self).failures.deep_view().push(
                        failure_text(old(self).attempt as nat, f),
                    )
                    &&& match r {
                        FetchAction::Retry { delay_millis } => delay_millis == BACKOFF_UNIT_MILLIS * old(self).attempt
                            && final(self).attempt == old(self).attempt + 1 && final(self).wf(),
                        FetchAction::Fallback { delay_millis, prior_error } => delay_millis == BACKOFF_UNIT_MILLIS * old(self).attempt
                            && prior_error@ == prior_error_text(old(self).kind, final(self).failures.deep_view())
                            && final(self).failures@.len() == PRIMARY_ATTEMPTS,
                        FetchAction::Done(_) => false,
                    }
                },
            },
    {
        let f = match result {
            Ok(body) => return FetchAction::Done(body),
            Err(f) => f,
        };
        let mut t = chars_of("attempt ");
        push_decimal(&mut t, self.attempt);
        match &f {
            AttemptFailure::Request(e) => {
                push_str(&mut t, ": request failed: ");
                push_str(&mut t, e.as_str());
            },
            AttemptFailure::Http(e) => {
                push_str(&mut t, ": http error: ");
                push_str(&mut t, e.as_str());
            },
            AttemptFailure::Body(e) => {
                push_str(&mut t, ": failed to read response body: ");
                push_str(&mut t, e.as_str());
            },
            AttemptFailure::Json(e) => {
                push_str(&mut t, ": failed to parse json: ");
                push_str(&mut t, e.as_str());
            },
            AttemptFailure::ApiStatus => {
                push_str(&mut t, ": Codeforces API status was not OK");
            },
        }
        assert(t@ =~= failure_text(self.attempt as nat, f));
        let ghost before = self.failures.deep_view();
        self.failures.push(string_of(t));
        assert(self.failures.deep_view() =~= before.push(failure_text(old(self).attempt as nat, f)));
        let delay_millis = BACKOFF_UNIT_MILLIS * self.attempt;
        if self.attempt < PRIMARY_ATTEMPTS {
            self.attempt = self.attempt + 1;
            FetchAction::Retry { delay_millis }
        } else {
            let mut p = match self.kind {
                FetchKind::ProblemPage => chars_of("failed to fetch Codeforces problem page after 3 reqwest attempts: "),
                FetchKind::Api => chars_of("failed to fetch Codeforces API after 3 reqwest attempts: "),
            };
            let ghost all = self.failures.deep_view();
            let ghost head = p@;
            let mut k: usize = 0;
            assert(all.subrange(0, 0) =~= Seq::<Seq<char>>::empty());
            while k < self.failures.len()
                invariant
                    k <= self.failures@.len(),
                    all == self.failures.deep_view(),
                    p@ == head + join_with(all.subrange(0, k as int), "; "@),
                decreases self.failures@.len() - k,
            {
                if k > 0 {
                    push_str(&mut p, "; ");
                }
                push_str(&mut p, self.failures[k].as_str());
                proof {
                    let sub = all.subrange(0, k + 1);
                    assert(sub.drop_last() =~= all.subrange(0, k as int));
                    assert(sub.last() == self.failures[k as int]@);
                    if k == 0 {
                        assert(sub.len() == 1);
                    }
                }
                k += 1;
            }
            assert(all.subrange(0, all.len() as int) =~= all);
            FetchAction::Fallback { delay_millis, prior_error: string_of(p) }
        }
    }
}

/// What the fetch hands back once the fallback transport answered with
/// `result`; for the API, `parsed_status` is the `status` field of its body
/// as parsed (or the parser's error), and it is not read otherwise.
pub fn on_fallback_result(
    kind: FetchKind,
    prior_error: &str,
    result: Result<String, String>,
    parsed_status: Result<Option<String>, String>,
) -> (r: Result<String, String>)
    ensures
        text_result(r) == fallback_outcome(kind, prior_error@, text_result(result), status_result(parsed_status)),
{
    let body = match result {
        Err(e) => return Err(e),
        Ok(body) => body,
    };
    match kind {
        FetchKind::ProblemPage => Ok(body),
        FetchKind::Api => match parsed_status {
            Err(pe) => {
                let mut m = chars_of(prior_error);
                push_str(&mut m, "; curl fallback returned invalid json: ");
                push_str(&mut m, pe.as_str());
                Err(string_of(m))
            },
            Ok(Some(st)) => {
                if str_equals(st.as_str(), "OK") {
                    Ok(body)
                } else {
                    let mut m = chars_of(prior_error);
                    push_str(&mut m, FALLBACK_STATUS_ERROR);
                    Err(string_of(m))
                }
            },
            Ok(None) => {
                let mut m = chars_of(prior_error);
                push_str(&mut m, FALLBACK_STATUS_ERROR);
                Err(string_of(m))
            },
        },
    }
}

/// Classifies a JSON answer of the API by its parsed `status` field: a body
/// that did not parse fails with the parser's message, and one whose status
/// is not `OK` fails as well.
pub fn check_api_response(body: String, parsed_status: Result<Option<String>, String>) -> (r: Result<String, AttemptFailure>)
    ensures
        match parsed_status {
            Err(e) => r is Err && r->Err_0 == AttemptFailure::Json(e),
            Ok(Some(s)) => if s@ == "OK"@ { r is Ok && r->Ok_0 == body } else { r is Err && r->Err_0 == AttemptFailure::ApiStatus },
            Ok(None) => r is Err && r->Err_0 == AttemptFailure::ApiStatus,
        },
{
    match parsed_status {
        Err(e) => Err(AttemptFailure::Json(e)),
        Ok(Some(s)) => {
            if str_equals(s.as_str(), "OK") {
                Ok(body)
            } else {
                Err(AttemptFailure::ApiStatus)
            }
        },
        Ok(None) => Err(AttemptFailure::ApiStatus),
    }
}

/// Three failed primary attempts lead to the fallback, and a fallback that
/// answers hands back its body, not an error: a page as it came, an API
/// answer once its `status` is `OK`.
pub proof fn lemma_fallback_after_failures(prior_error: Seq<char>, body: Seq<char>)
    ensures
        step_kind(1, false) == StepKind::Retry,
        step_kind(2, false) == StepKind::Retry,
        step_kind(3, false) == StepKind::Fallback,
        fallback_outcome(FetchKind::ProblemPage, prior_error, Ok(body), Ok(None)) == Ok::<Seq<char>, Seq<char>>(body),
        fallback_outcome(FetchKind::Api, prior_error, Ok(body), Ok(Some("OK"@))) == Ok::<Seq<char>, Seq<char>>(body),
{
}

/// The fetcher never makes more than `PRIMARY_ATTEMPTS` primary attempts: a
/// failure at the last one always leads to the fallback.
pub proof fn lemma_attempts_bounded(attempt: nat)
    requires
        attempt >= PRIMARY_ATTEMPTS,
    ensures
        step_kind(attempt, false) == StepKind::Fallback,
{
}

/// An API answer of the fallback is accepted only with status `OK`; any other
/// answer fails with an error that begins with the primary attempts' errors.
pub proof fn lemma_fallback_checks_status(
    prior_error: Seq<char>,
    body: Seq<char>,
    parsed_status: Result<Option<Seq<char>>, Seq<char>>,
)
    requires
        parsed_status != Ok::<Option<Seq<char>>, Seq<char>>(Some("OK"@)),
    ensures
        fallback_outcome(FetchKind::Api, prior_error, Ok(body), parsed_status) is Err,
        prior_error.is_prefix_of(fallback_outcome(FetchKind::Api, prior_error, Ok(body), parsed_status)->Err_0),
{
    let r = fallback_outcome(FetchKind::Api, prior_error, Ok(body), parsed_status);
    assert(prior_error.is_prefix_of(r->Err_0)) by {
        match parsed_status {
            Err(pe) => {
                assert((prior_error + "; curl fallback returned invalid json: "@ + pe).subrange(0, prior_error.len() as int) =~= prior_error);
            },
            _ => {
                assert((prior_error + FALLBACK_STATUS_ERROR@).subrange(0, prior_error.len() as int) =~= prior_error);
            },
        }
    }
}

} // verus!
