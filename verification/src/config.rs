//! Configuration values and their derivation.
//!
//! The process environment is read outside the library; this module
//! takes the raw variable values and derives the configuration the
//! proxy runs on: defaults, the parsed port, the comma-separated route
//! and page lists, and the route-to-page mapping built by pairing the
//! two lists.  Lists of unequal length are a configuration error.

use vstd::prelude::*;
use crate::numbers::parse_u16;
use crate::numbers::spec_parse_u16;
use vstd::string::StrSliceExecFns;
use vstd::string::StringExecFns;

verus! {

/// The views of a list of strings.
pub open spec fn strs_view(v: Seq<String>) -> Seq<Seq<char>> {
    v.map_values(|x: String| x@)
}

/// The views of a list of string pairs.
pub open spec fn pairs_view(v: Seq<(String, String)>) -> Seq<(Seq<char>, Seq<char>)> {
    v.map_values(|x: (String, String)| (x.0@, x.1@))
}

/// Splitting at a separator, as `str::split` does: splitting the empty
/// text gives one empty piece, and a separator at either end gives an
/// empty piece on that side.
pub open spec fn spec_split(s: Seq<char>, sep: char) -> Seq<Seq<char>>
    decreases s.len(),
{
    if s.len() == 0 {
        seq![Seq::<char>::empty()]
    } else if s[0] == sep {
        seq![Seq::<char>::empty()] + spec_split(s.skip(1), sep)
    } else {
        let rest = spec_split(s.skip(1), sep);
        seq![seq![s[0]] + rest[0]] + rest.skip(1)
    }
}

pub proof fn lemma_split_nonempty(s: Seq<char>, sep: char)
    ensures
        spec_split(s, sep).len() >= 1,
    decreases s.len(),
{
    if s.len() > 0 {
        lemma_split_nonempty(s.skip(1), sep);
    }
}

/// Splits at every comma.
pub fn split_commas(s: &str) -> (r: Vec<String>)
    ensures
        strs_view(r@) == spec_split(s@, ','),
        r@.len() >= 1,
    decreases s@.len(),
{
    let n = s.unicode_len();
    proof {
        lemma_split_nonempty(s@, ',');
    }
    if n == 0 {
        let mut r: Vec<String> = Vec::new();
        r.push(String::new());
        proof {
            assert(strs_view(r@) =~~= spec_split(s@, ','));
        }
        r
    } else if s.get_char(0) == ',' {
        let tail = s.substring_char(1, n);
        assert(tail@ =~= s@.skip(1));
        let mut rest = split_commas(tail);
        rest.insert(0, String::new());
        proof {
            assert(strs_view(rest@) =~~= spec_split(s@, ','));
        }
        rest
    } else {
        let tail = s.substring_char(1, n);
        assert(tail@ =~= s@.skip(1));
        let mut rest = split_commas(tail);
        let mut head = String::from_str(s.substring_char(0, 1));
        assert(head@ =~= seq![s@[0]]);
        head.append(rest[0].as_str());
        let _ = rest.remove(0);
        rest.insert(0, head);
        proof {
            assert(strs_view(rest@) =~~= spec_split(s@, ','));
        }
        rest
    }
}

/// Pairs the two lists index by index.
pub open spec fn spec_zip(a: Seq<Seq<char>>, b: Seq<Seq<char>>) -> Seq<(Seq<char>, Seq<char>)> {
    Seq::new(a.len(), |i: int| (a[i], b[i]))
}

/// Builds the route-to-page mapping from the two configured lists.
pub fn zip_routes(paths: &Vec<String>, pages: &Vec<String>) -> (r: Vec<(String, String)>)
    requires
        paths@.len() == pages@.len(),
    ensures
        pairs_view(r@) == spec_zip(strs_view(paths@), strs_view(pages@)),
{
    let n = paths.len();
    let mut r: Vec<(String, String)> = Vec::new();
    let mut i: usize = 0;
    while i < n
        invariant
            i <= n,
            n == paths@.len(),
            n == pages@.len(),
            r@.len() == i,
            forall|k: int|
                0 <= k < i ==> r@[k].0@ == paths@[k]@ && r@[k].1@ == pages@[k]@,
        decreases n - i,
    {
        r.push((paths[i].clone(), pages[i].clone()));
        i = i + 1;
    }
    proof {
        assert(pairs_view(r@) =~~= spec_zip(strs_view(paths@), strs_view(pages@)));
    }
    r
}

/// The raw configuration, after defaulting and parsing.
pub struct Env {
    pub address: String,
    pub port: u16,
    pub host: String,
    pub external_address: String,
    pub route_paths: Vec<String>,
    pub notion_pages: Vec<String>,
    pub path_to_notion_map: Vec<(String, String)>,
}

/// Rejected configurations.
#[derive(Clone, Copy, Debug, PartialEq, Eq, Structural)]
pub enum ConfigError {
    /// The route-path list and the page list differ in length.
    RoutePageMismatch,
}

/// The route list derived from the optional variable: its pieces, or
/// the single root path when the variable is absent.
pub open spec fn spec_route_list(route_paths: Option<String>) -> Seq<Seq<char>> {
    match route_paths {
        Some(s) => spec_split(s@, ','),
        None => seq!["/"@],
    }
}

/// The text of an optional variable, or its default.
pub open spec fn spec_or_default(v: Option<String>, d: Seq<char>) -> Seq<char> {
    match v {
        Some(s) => s@,
        None => d,
    }
}

/// The port a value parses to: absent or malformed values fall back to
/// the stock port.
pub open spec fn spec_port(port: Option<String>) -> u16 {
    match port {
        Some(p) => match spec_parse_u16(p@) {
            Some(v) => v,
            None => 48099,
        },
        None => 48099,
    }
}

impl Env {
    /// Derives the configuration from the raw variable values.  The
    /// bind address, port, host and route list fall back to defaults
    /// when absent; the external address and the page list have no
    /// default and are handed in directly.  The route list and the
    /// page list must pair up exactly.
    pub fn new(
        bind_address: Option<String>,
        port: Option<String>,
        host: Option<String>,
        external_address: String,
        route_paths: Option<String>,
        notion_pages: String,
    ) -> (r: Result<Env, ConfigError>)
        ensures
            match r {
                Ok(env) => {
                    &&& spec_route_list(route_paths).len() == spec_split(notion_pages@, ',').len()
                    &&& env.address@ == spec_or_default(bind_address, "127.0.0.1"@)
                    &&& env.port == spec_port(port)
                    &&& env.host@ == spec_or_default(host, "http://localhost/"@)
                    &&& env.external_address@ == external_address@
                    &&& strs_view(env.route_paths@) == spec_route_list(route_paths)
                    &&& strs_view(env.notion_pages@) == spec_split(notion_pages@, ',')
                    &&& pairs_view(env.path_to_notion_map@) == spec_zip(
                        spec_route_list(route_paths),
                        spec_split(notion_pages@, ','),
                    )
                },
                Err(e) => {
                    &&& e == ConfigError::RoutePageMismatch
                    &&& spec_route_list(route_paths).len() != spec_split(notion_pages@, ',').len()
                },
            },
    {
        let address = match bind_address {
            Some(a) => a,
            None => String::from_str("127.0.0.1"),
        };
        let port_num: u16 = match port {
            Some(p) => match parse_u16(p.as_str()) {
                Some(v) => v,
                None => 48099,
            },
            None => 48099,
        };
        let host_val = match host {
            Some(h) => h,
            None => String::from_str("http://localhost/"),
        };
        let routes: Vec<String> = match route_paths {
            Some(rp) => split_commas(rp.as_str()),
            None => {
                let mut v: Vec<String> = Vec::new();
                v.push(String::from_str("/"));
                proof {
                    assert(strs_view(v@) =~~= seq!["/"@]);
                }
                v
            },
        };
        let pages = split_commas(notion_pages.as_str());
        if routes.len() != pages.len() {
            return Err(ConfigError::RoutePageMismatch);
        }
        let map = zip_routes(&routes, &pages);
        Ok(
            Env {
                address,
                port: port_num,
                host: host_val,
                external_address,
                route_paths: routes,
                notion_pages: pages,
                path_to_notion_map: map,
            },
        )
    }
}

/// The read-only state every request handler shares.
pub struct AppState {
    pub host: String,
    pub port: u16,
    pub address: String,
    pub external_address: String,
    pub notion_pages: Vec<String>,
    pub path_to_notion_map: Vec<(String, String)>,
}

impl AppState {
    /// Carries the derived configuration over into the shared state.
    pub fn from_env(env: Env) -> (s: Self)
        ensures
            s.host == env.host,
            s.port == env.port,
            s.address == env.address,
            s.external_address == env.external_address,
            s.notion_pages == env.notion_pages,
            s.path_to_notion_map == env.path_to_notion_map,
    {
        AppState {
            host: env.host,
            port: env.port,
            address: env.address,
            external_address: env.external_address,
            notion_pages: env.notion_pages,
            path_to_notion_map: env.path_to_notion_map,
        }
    }
}

} // verus!
