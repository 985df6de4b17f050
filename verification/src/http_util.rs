//! The plain-value shape of an HTTP response, and the small helpers
//! that build one: the long-lived cache header and the header-only
//! error response.

use vstd::prelude::*;
use crate::config::pairs_view;
use crate::numbers::spec_dec;
use crate::numbers::u32_to_dec;
use vstd::string::StringExecFns;

verus! {

/// A response body: raw bytes passed through unmodified, or text that
/// went through a transformer.
pub enum ProxyBody {
    Binary(Vec<u8>),
    Text(String),
}

/// A response as the library hands it back: status code, header pairs,
/// body.  The transport layer outside the library turns it into a wire
/// response verbatim.
pub struct ProxyResponse {
    pub status: u16,
    pub headers: Vec<(String, String)>,
    pub body: ProxyBody,
}

/// One year, in seconds: cached assets are served as immutable.
pub const YEAR_TO_SECONDS: u32 = 31536000;

/// The `Cache-Control` value for a max-age: `no-cache` for zero.
pub open spec fn spec_cache_value(age: u32) -> Seq<char> {
    if age == 0 {
        "no-cache"@
    } else {
        "public, max-age="@ + spec_dec(age as nat)
    }
}

/// Builds the `Cache-Control` header pair for a max-age.
pub fn get_cache_header(age: u32) -> (r: (String, String))
    ensures
        r.0@ == "Cache-Control"@,
        r.1@ == spec_cache_value(age),
{
    let value = if age == 0 {
        String::from_str("no-cache")
    } else {
        let mut v = String::from_str("public, max-age=");
        v.append(u32_to_dec(age).as_str());
        v
    };
    (String::from_str("Cache-Control"), value)
}

/// A bodyless response for a failing request: the given status and an
/// uncacheable-response header.
pub fn response_error(status: u16) -> (r: ProxyResponse)
    ensures
        r.status == status,
        pairs_view(r.headers@) == seq![("Cache-Control"@, spec_cache_value(0))],
        r.body matches ProxyBody::Text(t) && t@ == Seq::<char>::empty(),
{
    let mut headers: Vec<(String, String)> = Vec::new();
    headers.push(get_cache_header(0));
    proof {
        assert(pairs_view(headers@) =~~= seq![("Cache-Control"@, spec_cache_value(0))]);
    }
    ProxyResponse { status, headers, body: ProxyBody::Text(String::new()) }
}

} // verus!
