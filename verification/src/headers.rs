//! Header filtering and cookie-domain rewriting.
//!
//! Requests to the origin carry only the headers on a fixed
//! allow-list, so nothing proxy-internal leaks upstream.  Responses to
//! the client carry only `Content-Type`, `Cache-Control` and
//! `Set-Cookie`, the latter with every occurrence of the origin's
//! hostnames replaced by the proxy's public address, plus a wildcard
//! CORS header.  Header names are compared case-insensitively, as HTTP
//! asks.

use vstd::prelude::*;
use crate::config::pairs_view;
use crate::config::AppState;
use crate::text::clear_of;
use crate::text::contains_seq;
use crate::text::eq_ignore_case;
use crate::text::lemma_replace_preserves_absence;
use crate::text::replace_all;
use crate::text::seq_eq_ci;
use crate::text::spec_replace;
use vstd::string::StringExecFns;

verus! {

/// The value of the first header whose name equals `name` up to ASCII
/// case, as a header-map lookup finds it.
pub open spec fn spec_first_value(hs: Seq<(Seq<char>, Seq<char>)>, name: Seq<char>) -> Option<
    Seq<char>,
>
    decreases hs.len(),
{
    if hs.len() == 0 {
        None
    } else if seq_eq_ci(hs[0].0, name) {
        Some(hs[0].1)
    } else {
        spec_first_value(hs.skip(1), name)
    }
}

/// What one allow-list lookup contributes to a filtered header list:
/// nothing, or a single header under the list's canonical name.
pub open spec fn spec_entry(hs: Seq<(Seq<char>, Seq<char>)>, name: Seq<char>) -> Seq<
    (Seq<char>, Seq<char>),
> {
    match spec_first_value(hs, name) {
        None => Seq::empty(),
        Some(v) => seq![(name, v)],
    }
}

/// Finds the first header named `name` up to ASCII case.
pub fn get_header<'a>(headers: &'a Vec<(String, String)>, name: &str) -> (r: Option<&'a String>)
    ensures
        match r {
            Some(v) => spec_first_value(pairs_view(headers@), name@) == Some(v@),
            None => spec_first_value(pairs_view(headers@), name@) is None,
        },
{
    let ghost hs = pairs_view(headers@);
    let n = headers.len();
    let mut i: usize = 0;
    proof {
        assert(hs.skip(0) =~= hs);
    }
    while i < n
        invariant
            i <= n,
            n == headers@.len(),
            hs == pairs_view(headers@),
            hs.len() == n,
            forall|m: int| 0 <= m < n ==> hs[m] == (headers@[m].0@, headers@[m].1@),
            spec_first_value(hs, name@) == spec_first_value(hs.skip(i as int), name@),
        decreases n - i,
    {
        proof {
            assert(hs.skip(i as int)[0] == hs[i as int]);
            assert(hs.skip(i as int).skip(1) =~= hs.skip(i + 1));
        }
        if eq_ignore_case(headers[i].0.as_str(), name) {
            return Some(&headers[i].1);
        }
        i = i + 1;
    }
    assert(hs.skip(n as int) =~= Seq::<(Seq<char>, Seq<char>)>::empty());
    None
}

/// Copies the first header matching `name`, if any, onto the end of
/// `out` under the canonical spelling `name`.
fn push_entry(out: &mut Vec<(String, String)>, headers: &Vec<(String, String)>, name: &str)
    ensures
        pairs_view(final(out)@) == pairs_view(old(out)@) + spec_entry(
            pairs_view(headers@),
            name@,
        ),
{
    match get_header(headers, name) {
        Some(v) => {
            let value = v.clone();
            out.push((String::from_str(name), value));
        },
        None => {},
    }
    proof {
        assert(pairs_view(out@) =~~= pairs_view(old(out)@) + spec_entry(
            pairs_view(headers@),
            name@,
        ));
    }
}

/// The headers forwarded to the origin: the inbound headers filtered
/// through the request allow-list, in the list's order.
pub open spec fn spec_request_headers(hs: Seq<(Seq<char>, Seq<char>)>) -> Seq<
    (Seq<char>, Seq<char>),
> {
    spec_entry(hs, "User-Agent"@) + spec_entry(hs, "Accept"@) + spec_entry(hs, "Accept-Language"@)
        + spec_entry(hs, "Cookie"@) + spec_entry(hs, "Content-Type"@) + spec_entry(
        hs,
        "Content-Length"@,
    ) + spec_entry(hs, "Connection"@) + spec_entry(hs, "Authorization"@)
}

/// Filters the inbound headers through the request allow-list.
pub fn build_request_header(headers: &Vec<(String, String)>) -> (r: Vec<(String, String)>)
    ensures
        pairs_view(r@) == spec_request_headers(pairs_view(headers@)),
{
    let mut out: Vec<(String, String)> = Vec::new();
    assert(pairs_view(out@) =~~= Seq::<(Seq<char>, Seq<char>)>::empty());
    push_entry(&mut out, headers, "User-Agent");
    push_entry(&mut out, headers, "Accept");
    push_entry(&mut out, headers, "Accept-Language");
    push_entry(&mut out, headers, "Cookie");
    push_entry(&mut out, headers, "Content-Type");
    push_entry(&mut out, headers, "Content-Length");
    push_entry(&mut out, headers, "Connection");
    push_entry(&mut out, headers, "Authorization");
    proof {
        assert(pairs_view(out@) =~~= spec_request_headers(pairs_view(headers@)));
    }
    out
}

/// A name the request allow-list admits.
pub open spec fn spec_request_allowed(name: Seq<char>) -> bool {
    ||| name == "User-Agent"@
    ||| name == "Accept"@
    ||| name == "Accept-Language"@
    ||| name == "Cookie"@
    ||| name == "Content-Type"@
    ||| name == "Content-Length"@
    ||| name == "Connection"@
    ||| name == "Authorization"@
}

/// Only allow-listed headers reach the outbound request, and each
/// carries the value of the first inbound header of that name; every
/// other inbound header is dropped.
#[verifier::rlimit(100)]
proof fn lemma_request_headers_sound(hs: Seq<(Seq<char>, Seq<char>)>)
    ensures
        forall|j: int|
            0 <= j < spec_request_headers(hs).len() ==> spec_request_allowed(
                #[trigger] spec_request_headers(hs)[j].0,
            ) && spec_first_value(hs, spec_request_headers(hs)[j].0) == Some(
                spec_request_headers(hs)[j].1,
            ),
{
    let out = spec_request_headers(hs);
    let e1 = spec_entry(hs, "User-Agent"@);
    let e2 = spec_entry(hs, "Accept"@);
    let e3 = spec_entry(hs, "Accept-Language"@);
    let e4 = spec_entry(hs, "Cookie"@);
    let e5 = spec_entry(hs, "Content-Type"@);
    let e6 = spec_entry(hs, "Content-Length"@);
    let e7 = spec_entry(hs, "Connection"@);
    let e8 = spec_entry(hs, "Authorization"@);
    let l1 = e1.len() as int;
    let l2 = l1 + e2.len();
    let l3 = l2 + e3.len();
    let l4 = l3 + e4.len();
    let l5 = l4 + e5.len();
    let l6 = l5 + e6.len();
    let l7 = l6 + e7.len();
    assert forall|j: int| 0 <= j < out.len() implies spec_request_allowed(#[trigger] out[j].0)
        && spec_first_value(hs, out[j].0) == Some(out[j].1) by {
        if j < l1 {
            assert(out[j] == e1[j]);
        } else if j < l2 {
            assert(out[j] == e2[j - l1]);
        } else if j < l3 {
            assert(out[j] == e3[j - l2]);
        } else if j < l4 {
            assert(out[j] == e4[j - l3]);
        } else if j < l5 {
            assert(out[j] == e5[j - l4]);
        } else if j < l6 {
            assert(out[j] == e6[j - l5]);
        } else if j < l7 {
            assert(out[j] == e7[j - l6]);
        } else {
            assert(out[j] == e8[j - l7]);
        }
    }
}

#[verifier::rlimit(100)]
proof fn lemma_request_headers_complete(hs: Seq<(Seq<char>, Seq<char>)>)
    ensures
        forall|name: Seq<char>, v: Seq<char>|
            spec_request_allowed(name) && spec_first_value(hs, name) == Some(v)
                ==> #[trigger] spec_request_headers(hs).contains((name, v)),
{
    let out = spec_request_headers(hs);
    let e1 = spec_entry(hs, "User-Agent"@);
    let e2 = spec_entry(hs, "Accept"@);
    let e3 = spec_entry(hs, "Accept-Language"@);
    let e4 = spec_entry(hs, "Cookie"@);
    let e5 = spec_entry(hs, "Content-Type"@);
    let e6 = spec_entry(hs, "Content-Length"@);
    let e7 = spec_entry(hs, "Connection"@);
    let e8 = spec_entry(hs, "Authorization"@);
    assert forall|name: Seq<char>, v: Seq<char>|
        spec_request_allowed(name) && spec_first_value(hs, name) == Some(v) implies #[trigger] out
        .contains((name, v)) by {
        if name == "User-Agent"@ {
            assert(out[0] == (name, v));
        } else if name == "Accept"@ {
            assert(out[e1.len() as int] == (name, v));
        } else if name == "Accept-Language"@ {
            assert(out[(e1.len() + e2.len()) as int] == (name, v));
        } else if name == "Cookie"@ {
            assert(out[(e1.len() + e2.len() + e3.len()) as int] == (name, v));
        } else if name == "Content-Type"@ {
            assert(out[(e1.len() + e2.len() + e3.len() + e4.len()) as int] == (name, v));
        } else if name == "Content-Length"@ {
            assert(out[(e1.len() + e2.len() + e3.len() + e4.len() + e5.len()) as int] == (
                name,
                v,
            ));
        } else if name == "Connection"@ {
            assert(out[(e1.len() + e2.len() + e3.len() + e4.len() + e5.len() + e6.len()) as int]
                == (name, v));
        } else {
            assert(out[(e1.len() + e2.len() + e3.len() + e4.len() + e5.len() + e6.len()
                + e7.len()) as int] == (name, v));
        }
    }
}

/// Only allow-listed headers reach the outbound request, each carrying
/// the value of the first inbound header of that name; every other
/// inbound header is dropped.  Conversely, every allow-listed header
/// that is present inbound is forwarded.
pub proof fn lemma_request_headers_allowlisted(hs: Seq<(Seq<char>, Seq<char>)>)
    ensures
        forall|j: int|
            0 <= j < spec_request_headers(hs).len() ==> spec_request_allowed(
                #[trigger] spec_request_headers(hs)[j].0,
            ) && spec_first_value(hs, spec_request_headers(hs)[j].0) == Some(
                spec_request_headers(hs)[j].1,
            ),
        forall|name: Seq<char>, v: Seq<char>|
            spec_request_allowed(name) && spec_first_value(hs, name) == Some(v)
                ==> #[trigger] spec_request_headers(hs).contains((name, v)),
{
    lemma_request_headers_sound(hs);
    lemma_request_headers_complete(hs);
}

/// A `Set-Cookie` value with every occurrence of the origin's
/// hostnames replaced by the proxy's public address, so the cookie
/// stays valid against the proxy's own domain.
pub open spec fn spec_cookie_rewrite(v: Seq<char>, addr: Seq<char>) -> Seq<char> {
    spec_replace(spec_replace(v, "notion.site"@, addr), "www.notion.so"@, addr)
}

/// What the origin's `Set-Cookie` header, if any, contributes to the
/// client-facing response.
pub open spec fn spec_cookie_entry(hs: Seq<(Seq<char>, Seq<char>)>, addr: Seq<char>) -> Seq<
    (Seq<char>, Seq<char>),
> {
    match spec_first_value(hs, "Set-Cookie"@) {
        None => Seq::empty(),
        Some(v) => seq![("Set-Cookie"@, spec_cookie_rewrite(v, addr))],
    }
}

/// The headers returned to the client: the origin's headers filtered
/// through the response allow-list, the cookie rewritten, and the
/// wildcard CORS header appended.
pub open spec fn spec_response_headers(hs: Seq<(Seq<char>, Seq<char>)>, addr: Seq<char>) -> Seq<
    (Seq<char>, Seq<char>),
> {
    spec_entry(hs, "Content-Type"@) + spec_entry(hs, "Cache-Control"@) + spec_cookie_entry(
        hs,
        addr,
    ) + seq![("Access-Control-Allow-Origin"@, "*"@)]
}

/// Filters the origin's response headers for the client, rewriting the
/// cookie domain to the public address and adding the CORS header.
pub fn build_response_header(origin: &Vec<(String, String)>, state: &AppState) -> (r: Vec<
    (String, String),
>)
    ensures
        pairs_view(r@) == spec_response_headers(
            pairs_view(origin@),
            state.external_address@,
        ),
{
    let mut out: Vec<(String, String)> = Vec::new();
    push_entry(&mut out, origin, "Content-Type");
    push_entry(&mut out, origin, "Cache-Control");
    match get_header(origin, "Set-Cookie") {
        Some(v) => {
            proof {
                reveal_strlit("notion.site");
                reveal_strlit("www.notion.so");
            }
            let step = replace_all(v.as_str(), "notion.site", state.external_address.as_str());
            let rewritten = replace_all(
                step.as_str(),
                "www.notion.so",
                state.external_address.as_str(),
            );
            out.push((String::from_str("Set-Cookie"), rewritten));
        },
        None => {},
    }
    out.push((String::from_str("Access-Control-Allow-Origin"), String::from_str("*")));
    proof {
        assert(pairs_view(out@) =~~= spec_response_headers(
            pairs_view(origin@),
            state.external_address@,
        ));
    }
    out
}

/// A name the response allow-list admits, the CORS header included.
pub open spec fn spec_response_allowed(name: Seq<char>) -> bool {
    ||| name == "Content-Type"@
    ||| name == "Cache-Control"@
    ||| name == "Set-Cookie"@
    ||| name == "Access-Control-Allow-Origin"@
}

/// Only `Content-Type`, `Cache-Control` and `Set-Cookie` survive into
/// the client-facing response, and the wildcard CORS header is always
/// present.
#[verifier::rlimit(100)]
pub proof fn lemma_response_headers_allowlisted(hs: Seq<(Seq<char>, Seq<char>)>, addr: Seq<char>)
    ensures
        forall|j: int|
            0 <= j < spec_response_headers(hs, addr).len() ==> spec_response_allowed(
                #[trigger] spec_response_headers(hs, addr)[j].0,
            ),
        spec_response_headers(hs, addr).contains(("Access-Control-Allow-Origin"@, "*"@)),
{
    let out = spec_response_headers(hs, addr);
    let e1 = spec_entry(hs, "Content-Type"@);
    let e2 = spec_entry(hs, "Cache-Control"@);
    let e3 = spec_cookie_entry(hs, addr);
    let l1 = e1.len() as int;
    let l2 = l1 + e2.len();
    let l3 = l2 + e3.len();
    assert forall|j: int| 0 <= j < out.len() implies spec_response_allowed(
        #[trigger] out[j].0,
    ) by {
        if j < l1 {
            assert(out[j] == e1[j]);
        } else if j < l2 {
            assert(out[j] == e2[j - l1]);
        } else if j < l3 {
            assert(out[j] == e3[j - l2]);
        } else {
            assert(out[j] == ("Access-Control-Allow-Origin"@, "*"@));
        }
    }
    assert(out[l3] == ("Access-Control-Allow-Origin"@, "*"@));
}

/// The rewritten cookie no longer mentions either origin hostname,
/// provided the public address gives neither hostname a way to appear
/// around a replacement seam.
pub proof fn lemma_cookie_rewrite_removes_origin(v: Seq<char>, addr: Seq<char>)
    requires
        addr.len() >= 1,
        clear_of(addr, "notion.site"@),
        clear_of(addr, "www.notion.so"@),
    ensures
        !contains_seq(spec_cookie_rewrite(v, addr), "notion.site"@),
        !contains_seq(spec_cookie_rewrite(v, addr), "www.notion.so"@),
{
    reveal_strlit("notion.site");
    reveal_strlit("www.notion.so");
    let q1 = "notion.site"@;
    let q2 = "www.notion.so"@;
    let s1 = spec_replace(v, q1, addr);
    lemma_replace_preserves_absence(v, q1, addr, q1);
    lemma_replace_preserves_absence(s1, q2, addr, q2);
    lemma_replace_preserves_absence(s1, q2, addr, q1);
}

} // verus!
