//! Assembling the client-facing response from what the origin sent.
//!
//! The transport layer issues the outbound request (headers filtered
//! by this library beforehand) and hands back the origin's status,
//! headers and body as plain values.  This module makes the decisions:
//! whether the body is binary and passes through untouched, which
//! transformer runs on a textual body, and what a transport failure
//! turns into.

use vstd::prelude::*;
use crate::config::pairs_view;
use crate::config::AppState;
use crate::headers::build_response_header;
use crate::headers::get_header;
use crate::headers::spec_first_value;
use crate::headers::spec_response_headers;
use crate::http_util::ProxyBody;
use crate::http_util::ProxyResponse;
use crate::text::contains_seq;
use crate::text::contains_str;
use crate::transform::format_notion_page;
use crate::transform::modify_notion_url;
use crate::transform::spec_format_notion_page;
use crate::transform::spec_modify_notion_url;
use vstd::string::StringExecFns;

verus! {

/// Which transformer the router selected: the closed set of the two
/// body-rewriting variants.
#[derive(Clone, Copy, Debug, PartialEq, Eq, Structural)]
pub enum TransformKind {
    Generic,
    Page,
}

/// A content type that marks the body as binary: one that mentions
/// `image`.  Binary bodies are never run through a transformer.
pub open spec fn spec_is_image(ct: Option<Seq<char>>) -> bool {
    match ct {
        Some(v) => contains_seq(v, "image"@),
        None => false,
    }
}

/// Decides from the origin's headers whether the body is binary and
/// must be fetched and returned as raw bytes.
pub fn is_image_response(headers: &Vec<(String, String)>) -> (r: bool)
    ensures
        r == spec_is_image(spec_first_value(pairs_view(headers@), "Content-Type"@)),
{
    match get_header(headers, "Content-Type") {
        Some(v) => contains_str(v.as_str(), "image"),
        None => false,
    }
}

/// The body a textual origin response is rewritten to, by transformer
/// kind.
pub open spec fn spec_transform(
    kind: TransformKind,
    body: Seq<char>,
    host: Seq<char>,
    addr: Seq<char>,
    map: Seq<(Seq<char>, Seq<char>)>,
    custom_head: Seq<char>,
    custom_body: Seq<char>,
) -> Seq<char> {
    match kind {
        TransformKind::Generic => spec_modify_notion_url(body, addr),
        TransformKind::Page => spec_format_notion_page(
            body,
            host,
            addr,
            map,
            custom_head,
            custom_body,
        ),
    }
}

/// Builds the client-facing response from the origin's.  The status is
/// preserved verbatim; the headers go through the response allow-list
/// with the cookie domain rewritten; a binary body is returned
/// byte-identical, a textual one through the selected transformer.
pub fn make_response(
    status: u16,
    origin_headers: &Vec<(String, String)>,
    body: ProxyBody,
    state: &AppState,
    kind: TransformKind,
    custom_head: &str,
    custom_body: &str,
) -> (r: ProxyResponse)
    ensures
        r.status == status,
        pairs_view(r.headers@) == spec_response_headers(
            pairs_view(origin_headers@),
            state.external_address@,
        ),
        body matches ProxyBody::Binary(b) ==> r.body matches ProxyBody::Binary(out) && out@
            == b@,
        body matches ProxyBody::Text(t) ==> r.body matches ProxyBody::Text(out) && out@
            == spec_transform(
            kind,
            t@,
            state.host@,
            state.external_address@,
            pairs_view(state.path_to_notion_map@),
            custom_head@,
            custom_body@,
        ),
{
    let headers = build_response_header(origin_headers, state);
    let out_body = match body {
        ProxyBody::Binary(b) => ProxyBody::Binary(b),
        ProxyBody::Text(t) => ProxyBody::Text(
            match kind {
                TransformKind::Generic => modify_notion_url(t, state),
                TransformKind::Page => format_notion_page(t, state, custom_head, custom_body),
            },
        ),
    };
    ProxyResponse { status, headers, body: out_body }
}

/// The response for a failed upstream exchange: a plain 500 with the
/// given generic message as its body, leaking no detail.
pub fn error_response(message: &str) -> (r: ProxyResponse)
    ensures
        r.status == 500,
        r.headers@.len() == 0,
        r.body matches ProxyBody::Text(t) && t@ == message@,
{
    ProxyResponse {
        status: 500,
        headers: Vec::new(),
        body: ProxyBody::Text(String::from_str(message)),
    }
}

} // verus!
