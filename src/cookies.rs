//! The cookie jar of the session: which cookies are worth keeping, and the
//! `Cookie` header that a request carries.

use vstd::prelude::*;
use crate::form::join_with;
use crate::text::{chars_of, push_str, str_equals, string_of};

verus! {

/// A cookie as it is kept between runs.
pub struct StoredCodeforcesCookie {
    pub name: String,
    pub value: String,
    pub domain: Option<String>,
    pub path: Option<String>,
    pub secure: Option<bool>,
    pub http_only: Option<bool>,
}

/// Analytics cookies, which are never kept.
pub open spec fn is_tracking_cookie_name(name: Seq<char>) -> bool {
    ||| name == "_ga"@
    ||| name == "_gid"@
    ||| name == "_gat"@
    ||| name == "_ym_d"@
    ||| name == "_ym_isad"@
    ||| name == "_ym_uid"@
    ||| name == "__utma"@
    ||| name == "__utmb"@
    ||| name == "__utmc"@
    ||| name == "__utmz"@
}

/// A cookie is kept when it has a value and is not an analytics cookie.
pub open spec fn keeps_cookie(name: Seq<char>, value: Seq<char>) -> bool {
    value.len() > 0 && !is_tracking_cookie_name(name)
}

/// Whether the cookie `name=value` is worth keeping.
pub fn should_persist_codeforces_cookie(name: &str, value: &str) -> (r: bool)
    ensures
        r == keeps_cookie(name@, value@),
{
    if chars_of(value).len() == 0 {
        return false;
    }
    !(str_equals(name, "_ga") || str_equals(name, "_gid") || str_equals(name, "_gat")
        || str_equals(name, "_ym_d") || str_equals(name, "_ym_isad") || str_equals(
        name,
        "_ym_uid",
    ) || str_equals(name, "__utma") || str_equals(name, "__utmb") || str_equals(name, "__utmc")
        || str_equals(name, "__utmz"))
}

/// The cookies among `cookies` that are kept, in their order.
pub open spec fn kept_cookies(cookies: Seq<StoredCodeforcesCookie>) -> Seq<StoredCodeforcesCookie> {
    cookies.filter(|c: StoredCodeforcesCookie| keeps_cookie(c.name@, c.value@))
}

/// The cookies of a jar that are written to storage: the analytics cookies
/// and those without a value are left out.
pub fn snapshot_codeforces_cookies(cookies: Vec<StoredCodeforcesCookie>) -> (r: Vec<StoredCodeforcesCookie>)
    ensures
        r@ == kept_cookies(cookies@),
{
    let mut r: Vec<StoredCodeforcesCookie> = Vec::new();
    let mut rest = cookies;
    let ghost all = rest@;
    let mut i: usize = 0;
    let n = rest.len();
    assert(all.subrange(0, 0).filter(|c: StoredCodeforcesCookie| keeps_cookie(c.name@, c.value@)) =~= Seq::<StoredCodeforcesCookie>::empty());
    while i < n
        invariant
            n == all.len(),
            i <= n,
            rest@ == all.subrange(i as int, n as int),
            r@ == kept_cookies(all.subrange(0, i as int)),
        decreases n - i,
    {
        let c = rest.remove(0);
        assert(c == all[i as int]);
        proof {
            let sub = all.subrange(0, i + 1);
            assert(sub.drop_last() =~= all.subrange(0, i as int));
            assert(sub.last() == c);
            reveal(Seq::filter);
        }
        if should_persist_codeforces_cookie(c.name.as_str(), c.value.as_str()) {
            r.push(c);
        }
        i += 1;
    }
    assert(all.subrange(0, n as int) =~= all);
    r
}

/// The `name=value` text of each cookie.
pub open spec fn cookie_pairs(cookies: Seq<(Seq<char>, Seq<char>)>) -> Seq<Seq<char>> {
    cookies.map_values(|c: (Seq<char>, Seq<char>)| c.0 + "="@ + c.1)
}

/// The `Cookie` header for the (name, value) cookies: `name=value` pairs
/// joined by `; `, or none for an empty jar.
pub fn codeforces_cookie_header(cookies: &Vec<(String, String)>) -> (r: Option<String>)
    ensures
        cookies@.len() == 0 <==> r is None,
        r is Some ==> r->0@ == join_with(cookie_pairs(cookies.deep_view()), "; "@),
{
    if cookies.len() == 0 {
        return None;
    }
    let ghost pairs = cookie_pairs(cookies.deep_view());
    let mut out: Vec<char> = Vec::new();
    let mut k: usize = 0;
    assert(pairs.subrange(0, 0).len() == 0);
    while k < cookies.len()
        invariant
            k <= cookies@.len(),
            pairs == cookie_pairs(cookies.deep_view()),
            out@ == join_with(pairs.subrange(0, k as int), "; "@),
        decreases cookies@.len() - k,
    {
        if k > 0 {
            push_str(&mut out, "; ");
        }
        push_str(&mut out, cookies[k].0.as_str());
        push_str(&mut out, "=");
        push_str(&mut out, cookies[k].1.as_str());
        proof {
            let sub = pairs.subrange(0, k + 1);
            assert(sub.drop_last() =~= pairs.subrange(0, k as int));
            assert(sub.last() == cookies[k as int].0@ + "="@ + cookies[k as int].1@);
            if k == 0 {
                assert(sub.len() == 1);
                assert(out@ =~= sub[0]);
            } else {
                assert(out@ =~= join_with(pairs.subrange(0, k as int), "; "@) + "; "@ + sub.last());
            }
        }
        k += 1;
    }
    assert(pairs.subrange(0, cookies@.len() as int) =~= pairs);
    Some(string_of(out))
}

} // verus!
