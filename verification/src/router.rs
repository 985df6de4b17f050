//! Path resolution: which handling route an inbound path falls under.
//!
//! The precedence is fixed: an exact match in the route mapping wins
//! and redirects permanently to the mapped page; otherwise a path that
//! names a configured page identifier is proxied with the page
//! transformer; everything else is a generic passthrough.  The root
//! path redirects through the mapping or is not found.

use vstd::prelude::*;
use crate::config::pairs_view;
use crate::config::strs_view;
use crate::config::AppState;
use crate::text::str_eq;
use vstd::string::StringExecFns;

verus! {

/// How an inbound path is handled: a permanent redirect, a not-found
/// answer, a proxied page view (page transformer), or a generic
/// passthrough (generic transformer).  Redirect and proxy variants
/// carry the target location or origin URL.
pub enum RouteDecision {
    Redirect(String),
    NotFound,
    Page(String),
    Generic(String),
}

/// The page the mapping sends a path to: the value of the last pair
/// with that key, matching the overwrite behavior of a map built from
/// a pair list.
pub open spec fn spec_route_lookup(m: Seq<(Seq<char>, Seq<char>)>, k: Seq<char>) -> Option<
    Seq<char>,
>
    decreases m.len(),
{
    if m.len() == 0 {
        None
    } else if m.last().0 == k {
        Some(m.last().1)
    } else {
        spec_route_lookup(m.drop_last(), k)
    }
}

/// Looks a path up in the route mapping.
pub fn route_lookup<'a>(map: &'a Vec<(String, String)>, key: &str) -> (r: Option<&'a String>)
    ensures
        match r {
            Some(v) => spec_route_lookup(pairs_view(map@), key@) == Some(v@),
            None => spec_route_lookup(pairs_view(map@), key@) is None,
        },
{
    let ghost m = pairs_view(map@);
    let n = map.len();
    let mut i: usize = n;
    proof {
        assert(m.take(n as int) =~= m);
    }
    while i > 0
        invariant
            i <= n,
            n == map@.len(),
            m == pairs_view(map@),
            m.len() == n,
            forall|j: int| 0 <= j < n ==> m[j] == (map@[j].0@, map@[j].1@),
            spec_route_lookup(m, key@) == spec_route_lookup(m.take(i as int), key@),
        decreases i,
    {
        i = i - 1;
        proof {
            assert(m.take(i + 1).last() == m[i as int]);
            assert(m.take(i + 1).drop_last() =~= m.take(i as int));
        }
        if str_eq(map[i].0.as_str(), key) {
            return Some(&map[i].1);
        }
    }
    assert(m.take(0) =~= Seq::<(Seq<char>, Seq<char>)>::empty());
    None
}

/// The path names one of the configured page identifiers.
pub open spec fn spec_page_listed(pages: Seq<Seq<char>>, p: Seq<char>) -> bool {
    exists|i: int| 0 <= i < pages.len() && pages[i] == p
}

/// Whether the path is a configured page identifier.
pub fn page_listed(pages: &Vec<String>, p: &str) -> (r: bool)
    ensures
        r == spec_page_listed(strs_view(pages@), p@),
{
    let ghost ps = strs_view(pages@);
    let n = pages.len();
    let mut i: usize = 0;
    while i < n
        invariant
            i <= n,
            n == pages@.len(),
            ps == strs_view(pages@),
            ps.len() == n,
            forall|j: int| 0 <= j < n ==> ps[j] == pages@[j]@,
            forall|j: int| 0 <= j < i ==> ps[j] != p@,
        decreases n - i,
    {
        if str_eq(pages[i].as_str(), p) {
            assert(ps[i as int] == p@);
            return true;
        }
        i = i + 1;
    }
    false
}

/// Resolves the root path: a permanent redirect to the mapped page, or
/// not found when the mapping has no root entry.
pub fn route_index(state: &AppState) -> (r: RouteDecision)
    ensures
        match spec_route_lookup(pairs_view(state.path_to_notion_map@), "/"@) {
            Some(page) => r matches RouteDecision::Redirect(location) && location@ == "/"@
                + page,
            None => r matches RouteDecision::NotFound,
        },
{
    match route_lookup(&state.path_to_notion_map, "/") {
        Some(page) => {
            let mut location = String::from_str("/");
            location.append(page.as_str());
            RouteDecision::Redirect(location)
        },
        None => RouteDecision::NotFound,
    }
}

/// Resolves any other path, `path` being the part after the leading
/// slash.  An exact route-mapping match redirects; a configured page
/// identifier is proxied as a page view; everything else passes
/// through generically.
pub fn route_path(state: &AppState, path: &str) -> (r: RouteDecision)
    ensures
        ({
            let full = "/"@ + path@;
            let map = pairs_view(state.path_to_notion_map@);
            let url = state.host@ + "/"@ + path@;
            match spec_route_lookup(map, full) {
                Some(page) => r matches RouteDecision::Redirect(location) && location@ == "/"@
                    + page,
                None => {
                    if spec_page_listed(strs_view(state.notion_pages@), path@) {
                        r matches RouteDecision::Page(u) && u@ == url
                    } else {
                        r matches RouteDecision::Generic(u) && u@ == url
                    }
                },
            }
        }),
{
    let mut full = String::from_str("/");
    full.append(path);
    match route_lookup(&state.path_to_notion_map, full.as_str()) {
        Some(page) => {
            let mut location = String::from_str("/");
            location.append(page.as_str());
            RouteDecision::Redirect(location)
        },
        None => {
            let mut url = state.host.clone();
            url.append("/");
            url.append(path);
            if page_listed(&state.notion_pages, path) {
                RouteDecision::Page(url)
            } else {
                RouteDecision::Generic(url)
            }
        },
    }
}

/// The origin URL an API passthrough request is forwarded to, `path`
/// being the part after the API prefix.
pub fn api_url(state: &AppState, path: &str) -> (r: String)
    ensures
        r@ == state.host@ + "/api/"@ + path@,
{
    let mut url = state.host.clone();
    url.append("/api/");
    url.append(path);
    url
}

} // verus!
