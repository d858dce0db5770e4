//! Resolving a submission's verdict from the judge's list of recent
//! submissions of a user.

use vstd::prelude::*;
use crate::auth::CodeforcesAuthState;
use crate::form::{first_index_from, join_with, lemma_first_index_witness};
use crate::text::{chars_of, decimal_spec, push_all, push_decimal, push_str, str_equals, string_of};
use crate::auth::clone_text;

verus! {

/// How far before the expected submission time an entry may have been created
/// and still be taken for it when its id is not known, in seconds.
pub const SUBMISSION_MATCH_SLACK_SECONDS: u64 = 7200;

/// How many recent entries of the same problem a miss reports.
pub const RECENT_CANDIDATE_LIMIT: u64 = 3;

pub const NO_HANDLE_MESSAGE: &'static str = "Codeforces handle is not available yet. Please log in again.";

pub const WAITING_MESSAGE: &'static str = "Waiting for Codeforces to register the submission...";

pub const QUEUED_MESSAGE: &'static str = "Submission is in queue on Codeforces...";

/// The verdict of a submission whose tests are still running.
pub const IN_PROGRESS_RESULT: &'static str = "TESTING";

/// The verdict of an accepted submission.
pub const ACCEPTED_RESULT: &'static str = "OK";

/// One entry of the judge's status list; a field the entry lacks is `None`.
pub struct StatusEntry {
    pub id: Option<u64>,
    pub contest_id: Option<u64>,
    pub problem_index: Option<String>,
    pub verdict: Option<String>,
    pub passed_test_count: Option<u64>,
    pub programming_language: Option<String>,
    pub creation_time_seconds: Option<u64>,
}

/// What a poll reports about a submission.
pub struct CodeforcesSubmissionStatus {
    pub found: bool,
    pub id: Option<u64>,
    pub verdict: Option<String>,
    pub passed_test_count: Option<u64>,
    pub programming_language: Option<String>,
    pub status_text: String,
    /// The verdict is final: present and not `TESTING`.
    pub finished: bool,
    /// For a miss: what was looked for and the recent entries of the problem.
    pub debug: Option<String>,
}

impl CodeforcesSubmissionStatus {
    /// The record is final exactly when its verdict is present and not
    /// `TESTING`, and a miss carries no verdict.
    pub open spec fn wf(&self) -> bool {
        &&& self.finished == verdict_finished(self.verdict.deep_view())
        &&& (!self.found ==> self.verdict is None)
    }
}

pub open spec fn or_zero(v: Option<u64>) -> nat {
    match v {
        Some(x) => x as nat,
        None => 0,
    }
}

/// `a - b`, or 0 where `b > a`.
pub open spec fn saturating_sub(a: nat, b: nat) -> nat {
    if a >= b {
        (a - b) as nat
    } else {
        0
    }
}

/// The entry is of this contest and problem.
pub open spec fn same_problem(e: StatusEntry, contest_id: nat, index: Seq<char>) -> bool {
    e.contest_id == Some(contest_id as u64) && e.problem_index.deep_view() == Some(index)
}

/// The entry is the submission looked for: the one with its id where the id
/// is known; else one of the problem created no earlier than `slack` seconds
/// before `submitted_after` (an entry without a time counts as created at 0).
pub open spec fn entry_matches(
    e: StatusEntry,
    contest_id: nat,
    index: Seq<char>,
    submission_id: Option<u64>,
    submitted_after: nat,
    slack: nat,
) -> bool {
    match submission_id {
        Some(id) => e.id == Some(id),
        None => same_problem(e, contest_id, index) && or_zero(e.creation_time_seconds) >= saturating_sub(
            submitted_after,
            slack,
        ),
    }
}

pub open spec fn matches_at_index(
    entries: Seq<StatusEntry>,
    contest_id: nat,
    index: Seq<char>,
    submission_id: Option<u64>,
    submitted_after: nat,
    slack: nat,
) -> spec_fn(int) -> bool {
    |i: int| entry_matches(entries[i], contest_id, index, submission_id, submitted_after, slack)
}

/// The entry taken for the submission: the first that matches (the list is
/// newest first).
pub open spec fn matched_entry(
    entries: Seq<StatusEntry>,
    contest_id: nat,
    index: Seq<char>,
    submission_id: Option<u64>,
    submitted_after: nat,
    slack: nat,
) -> Option<int> {
    first_index_from(
        matches_at_index(entries, contest_id, index, submission_id, submitted_after, slack),
        0,
        entries.len() as int,
    )
}

/// The position of the entry taken for the submission.
pub fn find_submission_entry(
    entries: &Vec<StatusEntry>,
    contest_id: u32,
    index: &str,
    submission_id: Option<u64>,
    submitted_after: u64,
    slack: u64,
) -> (r: Option<usize>)
    ensures
        match r {
            Some(i) => matched_entry(entries@, contest_id as nat, index@, submission_id, submitted_after as nat, slack as nat) == Some(i as int),
            None => matched_entry(entries@, contest_id as nat, index@, submission_id, submitted_after as nat, slack as nat) is None,
        },
        r is Some ==> r->0 < entries@.len(),
{
    let ghost p = matches_at_index(entries@, contest_id as nat, index@, submission_id, submitted_after as nat, slack as nat);
    let earliest = submitted_after.saturating_sub(slack);
    let mut i: usize = 0;
    while i < entries.len()
        invariant
            i <= entries@.len(),
            earliest as nat == saturating_sub(submitted_after as nat, slack as nat),
            p == matches_at_index(entries@, contest_id as nat, index@, submission_id, submitted_after as nat, slack as nat),
            first_index_from(p, 0, entries@.len() as int) == first_index_from(p, i as int, entries@.len() as int),
        decreases entries@.len() - i,
    {
        let e = &entries[i];
        let hit = match submission_id {
            Some(id) => e.id == Some(id),
            None => same_problem_exec(e, contest_id, index) && match e.creation_time_seconds {
                Some(t) => t >= earliest,
                None => 0 >= earliest,
            },
        };
        if hit {
            assert(p(i as int));
            return Some(i);
        }
        assert(!p(i as int));
        i += 1;
    }
    None
}

fn same_problem_exec(e: &StatusEntry, contest_id: u32, index: &str) -> (r: bool)
    ensures
        r == same_problem(*e, contest_id as nat, index@),
{
    let contest_ok = match e.contest_id {
        Some(c) => c == contest_id as u64,
        None => false,
    };
    contest_ok && match &e.problem_index {
        Some(p) => str_equals(p.as_str(), index),
        None => false,
    }
}

/// `" after N tests"` where the count is known.
pub open spec fn tests_suffix(lead: Seq<char>, passed: Option<u64>) -> Seq<char> {
    match passed {
        Some(n) => lead + decimal_spec(n as nat) + " tests"@,
        None => seq![],
    }
}

/// The status line for a found entry with this verdict and passed-test count.
pub open spec fn status_text_for(verdict: Option<Seq<char>>, passed: Option<u64>) -> Seq<char> {
    match verdict {
        None => QUEUED_MESSAGE@,
        Some(v) => if v == ACCEPTED_RESULT@ {
            "Accepted on Codeforces"@ + tests_suffix(" after "@, passed) + "."@
        } else if v == IN_PROGRESS_RESULT@ {
            "Testing on Codeforces"@ + tests_suffix(" passed "@, passed) + "..."@
        } else {
            v + " on Codeforces"@ + tests_suffix(" after "@, passed) + "."@
        },
    }
}

/// A verdict is final when it is present and not `TESTING`.
pub open spec fn verdict_finished(verdict: Option<Seq<char>>) -> bool {
    match verdict {
        Some(v) => v != IN_PROGRESS_RESULT@,
        None => false,
    }
}

fn push_tests_suffix(out: &mut Vec<char>, lead: &str, passed: Option<u64>)
    ensures
        final(out)@ == old(out)@ + tests_suffix(lead@, passed),
{
    match passed {
        Some(n) => {
            push_str(out, lead);
            push_decimal(out, n);
            push_str(out, " tests");
        },
        None => {
            assert(old(out)@ + seq![] =~= old(out)@);
        },
    }
}

/// The status line for a found entry.
pub fn status_text(verdict: &Option<String>, passed: Option<u64>) -> (r: String)
    ensures
        r@ == status_text_for(verdict.deep_view(), passed),
{
    match verdict {
        None => string_of(chars_of(QUEUED_MESSAGE)),
        Some(v) => {
            let mut out: Vec<char>;
            if str_equals(v.as_str(), ACCEPTED_RESULT) {
                out = chars_of("Accepted on Codeforces");
                push_tests_suffix(&mut out, " after ", passed);
                push_str(&mut out, ".");
            } else if str_equals(v.as_str(), IN_PROGRESS_RESULT) {
                out = chars_of("Testing on Codeforces");
                push_tests_suffix(&mut out, " passed ", passed);
                push_str(&mut out, "...");
            } else {
                out = chars_of(v.as_str());
                push_str(&mut out, " on Codeforces");
                push_tests_suffix(&mut out, " after ", passed);
                push_str(&mut out, ".");
            }
            string_of(out)
        },
    }
}

/// The record for the entry taken for the submission.
pub fn status_from_entry(e: &StatusEntry) -> (r: CodeforcesSubmissionStatus)
    ensures
        r.found,
        r.id == e.id,
        r.verdict.deep_view() == e.verdict.deep_view(),
        r.passed_test_count == e.passed_test_count,
        r.programming_language.deep_view() == e.programming_language.deep_view(),
        r.status_text@ == status_text_for(e.verdict.deep_view(), e.passed_test_count),
        r.finished == verdict_finished(e.verdict.deep_view()),
        r.debug is None,
{
    let finished = match &e.verdict {
        Some(v) => !str_equals(v.as_str(), IN_PROGRESS_RESULT),
        None => false,
    };
    CodeforcesSubmissionStatus {
        found: true,
        id: e.id,
        verdict: clone_text(&e.verdict),
        passed_test_count: e.passed_test_count,
        programming_language: clone_text(&e.programming_language),
        status_text: status_text(&e.verdict, e.passed_test_count),
        finished,
        debug: None,
    }
}

/// The recent entries of the problem, newest first, at most `left` of them.
pub open spec fn recent_candidates(entries: Seq<StatusEntry>, contest_id: nat, index: Seq<char>, left: nat) -> Seq<StatusEntry>
    decreases entries.len(),
{
    if left == 0 || entries.len() == 0 {
        seq![]
    } else if same_problem(entries[0], contest_id, index) {
        seq![entries[0]] + recent_candidates(entries.drop_first(), contest_id, index, (left - 1) as nat)
    } else {
        recent_candidates(entries.drop_first(), contest_id, index, left)
    }
}

/// `#id time verdict` for an entry; a missing number reads 0 and a missing
/// verdict `PENDING`.
pub open spec fn candidate_text(e: StatusEntry) -> Seq<char> {
    "#"@ + decimal_spec(or_zero(e.id)) + " "@ + decimal_spec(or_zero(e.creation_time_seconds)) + " "@
        + match e.verdict.deep_view() {
        Some(v) => v,
        None => "PENDING"@,
    }
}

/// The candidates as text: joined by ` | `, or `none`.
pub open spec fn candidates_text(c: Seq<StatusEntry>) -> Seq<char> {
    if c.len() == 0 {
        "none"@
    } else {
        join_with(c.map_values(|e: StatusEntry| candidate_text(e)), " | "@)
    }
}

/// How `{:?}` writes an optional id.
pub open spec fn debug_option(v: Option<u64>) -> Seq<char> {
    match v {
        Some(x) => "Some("@ + decimal_spec(x as nat) + ")"@,
        None => "None"@,
    }
}

/// The diagnostic line of a miss.
pub open spec fn miss_debug_text(
    handle: Seq<char>,
    entries: Seq<StatusEntry>,
    contest_id: nat,
    index: Seq<char>,
    submission_id: Option<u64>,
    submitted_after: nat,
) -> Seq<char> {
    "handle="@ + handle + ", contest="@ + decimal_spec(contest_id) + ", index="@ + index
        + ", submission_id="@ + debug_option(submission_id) + ", submitted_after="@ + decimal_spec(submitted_after)
        + ", recent="@ + candidates_text(recent_candidates(entries, contest_id, index, RECENT_CANDIDATE_LIMIT as nat))
}

fn push_candidate(out: &mut Vec<char>, e: &StatusEntry)
    ensures
        final(out)@ == old(out)@ + candidate_text(*e),
{
    push_str(out, "#");
    push_decimal(out, match e.id { Some(x) => x, None => 0 });
    push_str(out, " ");
    push_decimal(out, match e.creation_time_seconds { Some(x) => x, None => 0 });
    push_str(out, " ");
    match &e.verdict {
        Some(v) => push_str(out, v.as_str()),
        None => push_str(out, "PENDING"),
    }
    assert(final(out)@ =~= old(out)@ + candidate_text(*e));
}

proof fn lemma_join_push(items: Seq<Seq<char>>, x: Seq<char>, sep: Seq<char>)
    requires
        items.len() > 0,
    ensures
        join_with(items.push(x), sep) == join_with(items, sep) + sep + x,
{
    assert(items.push(x).drop_last() =~= items);
}

/// The recent entries of the problem, as the text of a miss.
fn recent_candidates_text(entries: &Vec<StatusEntry>, contest_id: u32, index: &str) -> (r: Vec<char>)
    ensures
        r@ == candidates_text(recent_candidates(entries@, contest_id as nat, index@, RECENT_CANDIDATE_LIMIT as nat)),
{
    let ghost all = entries@;
    let ghost target = recent_candidates(all, contest_id as nat, index@, RECENT_CANDIDATE_LIMIT as nat);
    let ghost mut taken: Seq<StatusEntry> = seq![];
    let mut out: Vec<char> = Vec::new();
    let mut count: u64 = 0;
    let mut i: usize = 0;
    assert(all.subrange(0, all.len() as int) =~= all);
    while i < entries.len() && count < RECENT_CANDIDATE_LIMIT
        invariant
            i <= all.len(),
            all == entries@,
            count <= RECENT_CANDIDATE_LIMIT,
            taken.len() == count,
            target == taken + recent_candidates(all.subrange(i as int, all.len() as int), contest_id as nat, index@, (RECENT_CANDIDATE_LIMIT - count) as nat),
            count > 0 ==> out@ == join_with(taken.map_values(|e: StatusEntry| candidate_text(e)), " | "@),
            count == 0 ==> out@.len() == 0,
        decreases all.len() - i,
    {
        let ghost rest = all.subrange(i as int, all.len() as int);
        assert(rest.drop_first() =~= all.subrange(i + 1, all.len() as int));
        assert(rest[0] == entries[i as int]);
        if same_problem_exec(&entries[i], contest_id, index) {
            if count > 0 {
                push_str(&mut out, " | ");
            }
            push_candidate(&mut out, &entries[i]);
            proof {
                let old_taken = taken;
                taken = taken.push(entries[i as int]);
                assert(taken.map_values(|e: StatusEntry| candidate_text(e)) =~= old_taken.map_values(|e: StatusEntry| candidate_text(e)).push(candidate_text(entries[i as int])));
                if count > 0 {
                    lemma_join_push(old_taken.map_values(|e: StatusEntry| candidate_text(e)), candidate_text(entries[i as int]), " | "@);
                } else {
                    assert(taken.map_values(|e: StatusEntry| candidate_text(e)).len() == 1);
                    assert(out@ =~= candidate_text(entries[i as int]));
                }
                assert(target =~= taken + recent_candidates(all.subrange(i + 1, all.len() as int), contest_id as nat, index@, (RECENT_CANDIDATE_LIMIT - count - 1) as nat));
            }
            count += 1;
        }
        i += 1;
    }
    proof {
        if count == RECENT_CANDIDATE_LIMIT {
            assert(recent_candidates(all.subrange(i as int, all.len() as int), contest_id as nat, index@, 0) =~= seq![]);
        } else {
            assert(all.subrange(i as int, all.len() as int).len() == 0);
        }
        assert(target =~= taken);
    }
    if count == 0 {
        return chars_of("none");
    }
    out
}

/// The record of a miss: not found, with the diagnostic line.
pub fn submission_not_found(
    handle: &str,
    entries: &Vec<StatusEntry>,
    contest_id: u32,
    index: &str,
    submission_id: Option<u64>,
    submitted_after: u64,
) -> (r: CodeforcesSubmissionStatus)
    ensures
        !r.found,
        !r.finished,
        r.id is None && r.verdict is None && r.passed_test_count is None && r.programming_language is None,
        r.status_text@ == WAITING_MESSAGE@,
        r.debug.deep_view() == Some(miss_debug_text(handle@, entries@, contest_id as nat, index@, submission_id, submitted_after as nat)),
{
    let mut d = chars_of("handle=");
    push_str(&mut d, handle);
    push_str(&mut d, ", contest=");
    push_decimal(&mut d, contest_id as u64);
    push_str(&mut d, ", index=");
    push_str(&mut d, index);
    push_str(&mut d, ", submission_id=");
    match submission_id {
        Some(x) => {
            push_str(&mut d, "Some(");
            push_decimal(&mut d, x);
            push_str(&mut d, ")");
        },
        None => push_str(&mut d, "None"),
    }
    push_str(&mut d, ", submitted_after=");
    push_decimal(&mut d, submitted_after);
    push_str(&mut d, ", recent=");
    let recent = recent_candidates_text(entries, contest_id, index);
    push_all(&mut d, &recent);
    assert(d@ =~= miss_debug_text(handle@, entries@, contest_id as nat, index@, submission_id, submitted_after as nat));
    CodeforcesSubmissionStatus {
        found: false,
        id: None,
        verdict: None,
        passed_test_count: None,
        programming_language: None,
        status_text: string_of(chars_of(WAITING_MESSAGE)),
        finished: false,
        debug: Some(string_of(d)),
    }
}

/// Resolves a poll against the judge's list of recent entries of `handle`
/// (newest first): the entry with the submission's id where it is known,
/// else the newest entry of the problem created within `slack` seconds
/// before `submitted_after`; a miss reports not found with a diagnostic.
pub fn resolve_submission_status(
    handle: &str,
    entries: &Vec<StatusEntry>,
    contest_id: u32,
    index: &str,
    submission_id: Option<u64>,
    submitted_after: u64,
    slack: u64,
) -> (r: CodeforcesSubmissionStatus)
    ensures
        r.wf(),
        match matched_entry(entries@, contest_id as nat, index@, submission_id, submitted_after as nat, slack as nat) {
            Some(i) => r.found && r.id == entries@[i].id
                && r.verdict.deep_view() == entries@[i].verdict.deep_view()
                && r.passed_test_count == entries@[i].passed_test_count
                && r.programming_language.deep_view() == entries@[i].programming_language.deep_view()
                && r.status_text@ == status_text_for(entries@[i].verdict.deep_view(), entries@[i].passed_test_count)
                && r.finished == verdict_finished(entries@[i].verdict.deep_view())
                && r.debug is None,
            None => !r.found && !r.finished && r.id is None && r.verdict is None
                && r.passed_test_count is None && r.programming_language is None
                && r.status_text@ == WAITING_MESSAGE@
                && r.debug.deep_view() == Some(miss_debug_text(handle@, entries@, contest_id as nat, index@, submission_id, submitted_after as nat)),
        },
{
    match find_submission_entry(entries, contest_id, index, submission_id, submitted_after, slack) {
        Some(i) => status_from_entry(&entries[i]),
        None => submission_not_found(handle, entries, contest_id, index, submission_id, submitted_after),
    }
}

/// The judge's list of the 20 most recent submissions of `handle`.
pub open spec fn status_api_url(handle: Seq<char>) -> Seq<char> {
    "https://codeforces.com/api/user.status?handle="@ + handle + "&from=1&count=20"@
}

/// The status list to poll for the session's user; refused while the
/// session has no handle.
pub fn submission_status_url(auth: &CodeforcesAuthState) -> (r: Result<String, String>)
    ensures
        match auth.handle {
            Some(h) => r is Ok && r->Ok_0@ == status_api_url(h@),
            None => r is Err && r->Err_0@ == NO_HANDLE_MESSAGE@,
        },
{
    match &auth.handle {
        Some(h) => {
            let mut u = chars_of("https://codeforces.com/api/user.status?handle=");
            push_str(&mut u, h.as_str());
            push_str(&mut u, "&from=1&count=20");
            Ok(string_of(u))
        },
        None => Err(string_of(chars_of(NO_HANDLE_MESSAGE))),
    }
}

/// A poll with a known submission id finds the submission whenever the list
/// holds an entry with that id, and then reports an entry with that id.
pub proof fn lemma_known_id_is_found(
    entries: Seq<StatusEntry>,
    contest_id: nat,
    index: Seq<char>,
    id: u64,
    submitted_after: nat,
    slack: nat,
    k: int,
)
    requires
        0 <= k < entries.len(),
        entries[k].id == Some(id),
    ensures
        matched_entry(entries, contest_id, index, Some(id), submitted_after, slack) is Some,
        entries[matched_entry(entries, contest_id, index, Some(id), submitted_after, slack)->0].id == Some(id),
{
    let p = matches_at_index(entries, contest_id, index, Some(id), submitted_after, slack);
    assert(p(k));
    lemma_first_index_witness(p, 0, entries.len() as int, k);
}

/// Without an id, an entry of the problem created exactly `slack` seconds
/// before the expected time still counts: the window's edge is inclusive.
pub proof fn lemma_slack_edge_is_found(
    entries: Seq<StatusEntry>,
    contest_id: nat,
    index: Seq<char>,
    submitted_after: nat,
    slack: nat,
    k: int,
)
    requires
        0 <= k < entries.len(),
        same_problem(entries[k], contest_id, index),
        slack <= submitted_after <= u64::MAX,
        entries[k].creation_time_seconds == Some((submitted_after - slack) as u64),
    ensures
        matched_entry(entries, contest_id, index, None, submitted_after, slack) is Some,
        matched_entry(entries, contest_id, index, None, submitted_after, slack)->0 <= k,
{
    let p = matches_at_index(entries, contest_id, index, None, submitted_after, slack);
    assert(p(k));
    lemma_first_index_witness(p, 0, entries.len() as int, k);
}

/// Without an id, an entry created before the window never counts.
pub proof fn lemma_before_window_not_taken(
    e: StatusEntry,
    contest_id: nat,
    index: Seq<char>,
    submitted_after: nat,
    slack: nat,
)
    requires
        or_zero(e.creation_time_seconds) < saturating_sub(submitted_after, slack),
    ensures
        !entry_matches(e, contest_id, index, None, submitted_after, slack),
{
}

} // verus!
