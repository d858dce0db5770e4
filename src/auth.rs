//! The session with the judge: its state record, how a profile response is
//! classified, and the transitions that the session store goes through.

use vstd::prelude::*;
use crate::cookies::{codeforces_cookie_header, cookie_pairs};
use crate::form::join_with;
use crate::text::{
    chars_of, contains_spec, push_str, str_contains, string_of, trim_chars, trim_spec,
};

verus! {

pub const SIGNED_OUT_MESSAGE: &'static str = "提交前请先登录";

pub const EXPIRED_MESSAGE: &'static str = "Codeforces 登录已过期，请重新登录";

pub const CHECKING_MESSAGE: &'static str = "正在检查登录状态...";

pub const CONNECTED_PREFIX: &'static str = "已登录：";

pub const CONNECTED_NO_HANDLE_MESSAGE: &'static str = "已登录，可以提交代码";

/// The marker of the login page in a URL: a profile request that lands
/// there was refused.
pub const LOGIN_PAGE_MARKER: &'static str = "/enter";

/// The page whose response tells whether the session is valid.
pub const PROFILE_CHECK_URL: &'static str = "https://codeforces.com/settings/general";

/// The CSS selector of the links to a user's profile.
pub const PROFILE_LINK_SELECTOR: &'static str = "a[href^='/profile/']";

/// The session with the judge as the application shows it.
pub struct CodeforcesAuthState {
    pub connected: bool,
    pub checking: bool,
    pub expired: bool,
    pub handle: Option<String>,
    pub last_url: Option<String>,
    pub message: String,
}

/// The value of a `CodeforcesAuthState`, with its texts as character sequences.
pub struct AuthStateView {
    pub connected: bool,
    pub checking: bool,
    pub expired: bool,
    pub handle: Option<Seq<char>>,
    pub last_url: Option<Seq<char>>,
    pub message: Seq<char>,
}

impl View for CodeforcesAuthState {
    type V = AuthStateView;

    open spec fn view(&self) -> AuthStateView {
        AuthStateView {
            connected: self.connected,
            checking: self.checking,
            expired: self.expired,
            handle: self.handle.deep_view(),
            last_url: self.last_url.deep_view(),
            message: self.message@,
        }
    }
}

impl AuthStateView {
    /// A connected session is never expired, and only a connected session has a handle.
    pub open spec fn wf(&self) -> bool {
        &&& !(self.connected && self.expired)
        &&& (self.handle is Some ==> self.connected)
    }
}

/// The signed-out record.
pub open spec fn signed_out_view() -> AuthStateView {
    AuthStateView {
        connected: false,
        checking: false,
        expired: false,
        handle: None,
        last_url: None,
        message: SIGNED_OUT_MESSAGE@,
    }
}

/// The record of a session whose cookies were refused.
pub open spec fn expired_view() -> AuthStateView {
    AuthStateView {
        connected: false,
        checking: false,
        expired: true,
        handle: None,
        last_url: None,
        message: EXPIRED_MESSAGE@,
    }
}

pub(crate) fn clone_text(o: &Option<String>) -> (r: Option<String>)
    ensures
        r.deep_view() == o.deep_view(),
{
    match o {
        Some(s) => Some(s.clone()),
        None => None,
    }
}

impl CodeforcesAuthState {
    /// No session: the user has to log in before submitting.
    pub fn signed_out() -> (r: Self)
        ensures
            r@ == signed_out_view(),
            r@.wf(),
    {
        CodeforcesAuthState {
            connected: false,
            checking: false,
            expired: false,
            handle: None,
            last_url: None,
            message: string_of(chars_of(SIGNED_OUT_MESSAGE)),
        }
    }

    /// The session's cookies were refused: the user has to log in again.
    pub fn expired() -> (r: Self)
        ensures
            r@ == expired_view(),
            r@.wf(),
    {
        CodeforcesAuthState {
            connected: false,
            checking: false,
            expired: true,
            handle: None,
            last_url: None,
            message: string_of(chars_of(EXPIRED_MESSAGE)),
        }
    }

    /// A copy of the record, as handed to observers.
    pub fn snapshot(&self) -> (r: Self)
        ensures
            r@ == self@,
    {
        CodeforcesAuthState {
            connected: self.connected,
            checking: self.checking,
            expired: self.expired,
            handle: clone_text(&self.handle),
            last_url: clone_text(&self.last_url),
            message: self.message.clone(),
        }
    }
}

/// The current record of the store, as a snapshot.
pub fn current_codeforces_auth_state(store: &CodeforcesAuthState) -> (r: CodeforcesAuthState)
    ensures
        r@ == store@,
{
    store.snapshot()
}

/// Replaces the whole record of the store.
pub fn set_codeforces_auth_state(store: &mut CodeforcesAuthState, state: CodeforcesAuthState)
    ensures
        final(store)@ == state@,
{
    *store = state;
}

/// The record shown while a check runs: the current one, marked as checking,
/// with a default message where it has none.
pub open spec fn checking_view(current: AuthStateView) -> AuthStateView {
    AuthStateView {
        checking: true,
        message: if current.message.len() == 0 { CHECKING_MESSAGE@ } else { current.message },
        ..current
    }
}

/// The record to show while a check runs.
pub fn checking_state(current: &CodeforcesAuthState) -> (r: CodeforcesAuthState)
    ensures
        r@ == checking_view(current@),
        current@.wf() ==> r@.wf(),
{
    let mut r = current.snapshot();
    r.checking = true;
    if chars_of(r.message.as_str()).len() == 0 {
        r.message = string_of(chars_of(CHECKING_MESSAGE));
    }
    r
}

/// The record after a check that failed with `error`: signed out, keeping
/// the last URL seen.
pub open spec fn check_failed_view(current: AuthStateView, error: Seq<char>) -> AuthStateView {
    AuthStateView {
        connected: false,
        checking: false,
        expired: false,
        handle: None,
        last_url: current.last_url,
        message: error,
    }
}

/// The record to show after a check that failed with `error`.
pub fn check_failed_state(current: &CodeforcesAuthState, error: String) -> (r: CodeforcesAuthState)
    ensures
        r@ == check_failed_view(current@, error@),
        r@.wf(),
{
    CodeforcesAuthState {
        connected: false,
        checking: false,
        expired: false,
        handle: None,
        last_url: clone_text(&current.last_url),
        message: error,
    }
}

/// The record after the auth window navigated to `url`.
pub fn navigated_state(current: &CodeforcesAuthState, url: &str) -> (r: CodeforcesAuthState)
    ensures
        r@ == (AuthStateView { last_url: Some(url@), ..current@ }),
        current@.wf() ==> r@.wf(),
{
    let mut r = current.snapshot();
    r.last_url = Some(string_of(chars_of(url)));
    r
}

/// The text of each element of `html` that `selector` matches, in the order
/// in which `Html::select` visits the parsed tree's nodes (their insertion
/// order), or `None` when `selector` is not a valid CSS selector.
pub uninterp spec fn selected_texts(html: Seq<char>, selector: Seq<char>) -> Option<Seq<Seq<char>>>;

/// Relies on scraper's `Html::parse_document`, `Selector::parse`,
/// `Html::select` and `ElementRef::text`: the document is parsed, and the text
/// of each element that the selector matches is given in the order in which
/// `Html::select` visits the tree's nodes (their insertion order).
#[verifier::external_body]
pub(crate) fn select_texts(html: &str, selector: &str) -> (r: Option<Vec<String>>)
    ensures
        r.deep_view() == selected_texts(html@, selector@),
{
    let document = scraper::Html::parse_document(html);
    let selector = scraper::Selector::parse(selector).ok()?;
    Some(document.select(&selector).map(|node| node.text().collect::<String>()).collect())
}

/// The first text that is not blank once trimmed, trimmed.
pub open spec fn first_filled(texts: Seq<Seq<char>>) -> Option<Seq<char>>
    decreases texts.len(),
{
    if texts.len() == 0 {
        None
    } else if trim_spec(texts[0]).len() > 0 {
        Some(trim_spec(texts[0]))
    } else {
        first_filled(texts.drop_first())
    }
}

/// The handle shown in a page: the trimmed text of the first profile link
/// whose text is not blank.
pub open spec fn profile_handle(body: Seq<char>) -> Option<Seq<char>> {
    match selected_texts(body, PROFILE_LINK_SELECTOR@) {
        Some(texts) => first_filled(texts),
        None => None,
    }
}

/// The handle shown in a page: the trimmed text of the first profile link
/// whose text is not blank.
pub fn parse_codeforces_handle(body: &str) -> (r: Option<String>)
    ensures
        r.deep_view() == profile_handle(body@),
{
    let found = select_texts(body, PROFILE_LINK_SELECTOR);
    let texts = match found {
        Some(t) => t,
        None => return None,
    };
    let ghost all = texts.deep_view();
    assert(profile_handle(body@) == first_filled(all));
    assert(all.subrange(0, all.len() as int) =~= all);
    let mut i: usize = 0;
    while i < texts.len()
        invariant
            i <= texts@.len(),
            all == texts.deep_view(),
            first_filled(all) == first_filled(all.subrange(i as int, all.len() as int)),
            profile_handle(body@) == first_filled(all),
        decreases texts@.len() - i,
    {
        let ghost rest = all.subrange(i as int, all.len() as int);
        assert(rest[0] == texts[i as int]@);
        assert(rest.drop_first() =~= all.subrange(i + 1, all.len() as int));
        let t = trim_chars(&chars_of(texts[i].as_str()));
        assert(t@ == trim_spec(rest[0]));
        if t.len() > 0 {
            assert(first_filled(rest) == Some(t@));
            return Some(string_of(t));
        }
        i += 1;
    }
    None
}

/// The record for a profile response that ended at `final_url` with page
/// `body`: expired where the request was sent to the login page, else
/// connected, with the handle the page shows if any.
pub open spec fn profile_response_view(final_url: Seq<char>, body: Seq<char>) -> AuthStateView {
    if contains_spec(final_url, LOGIN_PAGE_MARKER@) {
        AuthStateView { last_url: Some(final_url), ..expired_view() }
    } else {
        AuthStateView {
            connected: true,
            checking: false,
            expired: false,
            handle: profile_handle(body),
            last_url: Some(final_url),
            message: match profile_handle(body) {
                Some(h) => CONNECTED_PREFIX@ + h,
                None => CONNECTED_NO_HANDLE_MESSAGE@,
            },
        }
    }
}

/// Classifies the response to the profile request.
pub fn classify_profile_response(final_url: &str, body: &str) -> (r: CodeforcesAuthState)
    ensures
        r@ == profile_response_view(final_url@, body@),
        r@.wf(),
        contains_spec(final_url@, LOGIN_PAGE_MARKER@) ==> r.expired && !r.connected,
{
    if str_contains(final_url, LOGIN_PAGE_MARKER) {
        let mut status = CodeforcesAuthState::expired();
        status.last_url = Some(string_of(chars_of(final_url)));
        return status;
    }
    let handle = parse_codeforces_handle(body);
    let message = match &handle {
        Some(h) => {
            let mut m = chars_of(CONNECTED_PREFIX);
            push_str(&mut m, h.as_str());
            string_of(m)
        },
        None => string_of(chars_of(CONNECTED_NO_HANDLE_MESSAGE)),
    };
    CodeforcesAuthState {
        connected: true,
        checking: false,
        expired: false,
        handle,
        last_url: Some(string_of(chars_of(final_url))),
        message,
    }
}

/// The first step of a session check.
pub enum AuthCheck {
    /// The check is over without a request: there are no cookies to show.
    Settled(CodeforcesAuthState),
    /// The profile page is to be requested with this `Cookie` header, and the
    /// response handed to `classify_profile_response`.
    FetchProfile(String),
}

/// Starts a session check from the cookies of the jar: with no cookie no
/// session can exist, so the check ends signed out without a request.
pub fn verify_codeforces_auth(cookies: &Vec<(String, String)>) -> (r: AuthCheck)
    ensures
        cookies@.len() == 0 <==> r is Settled,
        r is Settled ==> r->Settled_0@ == signed_out_view(),
        r is FetchProfile ==> r->FetchProfile_0@ == join_with(cookie_pairs(cookies.deep_view()), "; "@),
{
    match codeforces_cookie_header(cookies) {
        None => AuthCheck::Settled(CodeforcesAuthState::signed_out()),
        Some(header) => AuthCheck::FetchProfile(header),
    }
}

/// The record that a session check ends with, for a jar of `cookie_count`
/// cookies whose profile request ended at `final_url` with page `body`.
pub open spec fn session_check_view(cookie_count: nat, final_url: Seq<char>, body: Seq<char>) -> AuthStateView {
    if cookie_count == 0 {
        signed_out_view()
    } else {
        profile_response_view(final_url, body)
    }
}

/// A session check with no cookie ends signed out, whatever a request would
/// have returned.
pub proof fn lemma_empty_jar_signs_out(final_url: Seq<char>, body: Seq<char>)
    ensures
        session_check_view(0, final_url, body) == signed_out_view(),
        !session_check_view(0, final_url, body).connected,
        !session_check_view(0, final_url, body).expired,
{
}

/// A profile request that lands on the login page means an expired session:
/// never signed out, never connected.
pub proof fn lemma_login_redirect_expires(cookie_count: nat, final_url: Seq<char>, body: Seq<char>)
    requires
        cookie_count > 0,
        contains_spec(final_url, LOGIN_PAGE_MARKER@),
    ensures
        session_check_view(cookie_count, final_url, body).expired,
        !session_check_view(cookie_count, final_url, body).connected,
        session_check_view(cookie_count, final_url, body).handle is None,
{
}

/// Every session check ends in a well-formed record.
pub proof fn lemma_session_check_wf(cookie_count: nat, final_url: Seq<char>, body: Seq<char>)
    ensures
        session_check_view(cookie_count, final_url, body).wf(),
{
}

/// Asking for the session status twice, with the same cookies and the same
/// answers from the judge, gives the same connection state and handle; and
/// storing the result, then reading the store twice, gives that record both times.
pub proof fn lemma_auth_status_idempotent(
    cookie_count: nat,
    final_url: Seq<char>,
    body: Seq<char>,
    first: AuthStateView,
    second: AuthStateView,
)
    requires
        first == session_check_view(cookie_count, final_url, body),
        second == session_check_view(cookie_count, final_url, body),
    ensures
        first.connected == second.connected,
        first.handle == second.handle,
        first == second,
{
}

} // verus!
