//! Body rewriting: URL substitution and page script injection.
//!
//! Two transformers act on textual bodies.  The generic one replaces
//! the origin's canonical URL prefixes by the proxy's public address
//! and points asset links back at the origin's asset path.  The page
//! one additionally injects, just before the closing body tag, a
//! script block that exposes the proxy configuration to the client and
//! keeps the visible URL on the proxy's canonical paths; optional
//! caller-supplied fragments are spliced in before the closing body
//! and head tags.  URL substitution always runs before injection, so
//! the injected script is never itself rewritten.

use vstd::prelude::*;
use crate::config::pairs_view;
use crate::config::AppState;
use crate::text::clear_of;
use crate::text::contains_seq;
use crate::text::lemma_replace_absent;
use crate::text::lemma_replace_preserves_absence;
use crate::text::replace_all;
use crate::text::spec_replace;
use vstd::string::StrSliceExecFns;
use vstd::string::StringExecFns;

verus! {

/// The origin URL prefixes replaced by the public address.
pub open spec fn spec_remove_notion_url(body: Seq<char>, addr: Seq<char>) -> Seq<char> {
    spec_replace(spec_replace(body, "https://www.notion.so"@, addr), "https://notion.so"@, addr)
}

/// The generic transformer: origin URLs replaced by the public
/// address, then asset links pointed back at the origin so the asset
/// route keeps serving them.
pub open spec fn spec_modify_notion_url(body: Seq<char>, addr: Seq<char>) -> Seq<char> {
    spec_replace(
        spec_remove_notion_url(body, addr),
        "/_assets/"@,
        "https://www.notion.so/_assets/"@,
    )
}

/// Replaces the origin's URL prefixes by the public address.
pub fn remove_notion_url(body: String, state: &AppState) -> (r: String)
    ensures
        r@ == spec_remove_notion_url(body@, state.external_address@),
{
    proof {
        reveal_strlit("https://www.notion.so");
        reveal_strlit("https://notion.so");
    }
    let s1 = replace_all(
        body.as_str(),
        "https://www.notion.so",
        state.external_address.as_str(),
    );
    replace_all(s1.as_str(), "https://notion.so", state.external_address.as_str())
}

/// The generic transformer, executably.
pub fn modify_notion_url(body: String, state: &AppState) -> (r: String)
    ensures
        r@ == spec_modify_notion_url(body@, state.external_address@),
{
    proof {
        reveal_strlit("/_assets/");
    }
    let s2 = remove_notion_url(body, state);
    replace_all(s2.as_str(), "/_assets/", "https://www.notion.so/_assets/")
}

/// Applying the generic transformer to its own output changes nothing,
/// provided the public address gives none of the three search texts a
/// way to reappear around a replacement seam, and the body holds no
/// asset link (an asset link is deliberately rewritten to an origin
/// URL, which a second pass would rewrite again).
pub proof fn lemma_generic_rewrite_idempotent(body: Seq<char>, addr: Seq<char>)
    requires
        addr.len() >= 1,
        clear_of(addr, "https://www.notion.so"@),
        clear_of(addr, "https://notion.so"@),
        clear_of(addr, "/_assets/"@),
        !contains_seq(body, "/_assets/"@),
    ensures
        spec_modify_notion_url(spec_modify_notion_url(body, addr), addr)
            == spec_modify_notion_url(body, addr),
{
    reveal_strlit("https://www.notion.so");
    reveal_strlit("https://notion.so");
    reveal_strlit("/_assets/");
    let n1 = "https://www.notion.so"@;
    let n2 = "https://notion.so"@;
    let n3 = "/_assets/"@;
    let t3 = "https://www.notion.so/_assets/"@;
    let s1 = spec_replace(body, n1, addr);
    let s2 = spec_replace(s1, n2, addr);
    lemma_replace_preserves_absence(body, n1, addr, n1);
    lemma_replace_preserves_absence(body, n1, addr, n3);
    lemma_replace_preserves_absence(s1, n2, addr, n2);
    lemma_replace_preserves_absence(s1, n2, addr, n1);
    lemma_replace_preserves_absence(s1, n2, addr, n3);
    lemma_replace_absent(s2, n3, t3);
    lemma_replace_absent(s2, n1, addr);
    lemma_replace_absent(s2, n2, addr);
}

/// The script block injected into a proxied page, with placeholders
/// for the public address, the origin host, the route-to-page mapping
/// and the caller-supplied body fragment.  It exposes the mapping to
/// the client, suppresses history replacements that would surface a
/// mapped page slug, and re-normalizes the visible URL and the page
/// chrome on every DOM mutation.
pub const SCRIPT_TEMPLATE: &'static str = r#"
    <script>
    window.EXTERNAL_ADDRESS="{{external_address}}";
    window.ORIGIN_HOST="{{origin_host}}";
    window.SLUGS={{slugs}};
    window.CONFIG.domainBaseUrl = window.ORIGIN_HOST;
    const replaceState = window.history.replaceState;
    window.history.replaceState = function(state, title, url) {
      if (Object.values(window.SLUGS).find(x => url.includes(x))) {
        return;
      }

      return replaceState.apply(window.history, arguments);
    };
    const observer = new MutationObserver(function() {
      if (!Object.keys(window.SLUGS).find(x => window.location.pathname === x)) {
        const selected = Object.entries(window.SLUGS).find(([key, value]) => value === window.location.pathname.slice(1));
        window.history.replaceState({}, "", (selected ? selected[0] : "") || "/");
      }

      const topBar = document.querySelector(".notion-topbar") || document.querySelector(".notion-topbar-mobile");

      if (topBar && topBar.parentElement instanceof HTMLElement) {
        topBar.parentElement.remove();
      }

      const notionFrame = document.querySelector(".notion-frame");

      if (notionFrame) {
        notionFrame.style.removeProperty("height")
      }
    });
    observer.observe(document.getElementById("notion-app"), {
      childList: true,
      subtree: true,
    });
    </script>
    {{custom_body_string}}
    </body>
    "#;

/// The filled-in script block: the template with its four placeholders
/// replaced, in order.
pub open spec fn spec_inject_to_body(
    addr: Seq<char>,
    host: Seq<char>,
    slugs_json: Seq<char>,
    custom_body: Seq<char>,
) -> Seq<char> {
    spec_replace(
        spec_replace(
            spec_replace(
                spec_replace(SCRIPT_TEMPLATE@, "{{external_address}}"@, addr),
                "{{origin_host}}"@,
                host,
            ),
            "{{slugs}}"@,
            slugs_json,
        ),
        "{{custom_body_string}}"@,
        custom_body,
    )
}

/// The page transformer: the generic URL substitution, then the filled
/// script block spliced in before the closing body tag and the
/// caller's head fragment before the closing head tag.
pub open spec fn spec_format_notion_page(
    body: Seq<char>,
    host: Seq<char>,
    addr: Seq<char>,
    map: Seq<(Seq<char>, Seq<char>)>,
    custom_head: Seq<char>,
    custom_body: Seq<char>,
) -> Seq<char> {
    let inject_body = spec_inject_to_body(addr, host, spec_json_object(map), custom_body);
    let inject_head = custom_head + "</head>"@;
    spec_replace(
        spec_replace(spec_modify_notion_url(body, addr), "</body>"@, inject_body),
        "</head>"@,
        inject_head,
    )
}

/// The page transformer, executably.  The two optional fragments are
/// read from files outside the library and handed in; absence degrades
/// to the empty string.
pub fn format_notion_page(
    body: String,
    state: &AppState,
    custom_head: &str,
    custom_body: &str,
) -> (r: String)
    ensures
        r@ == spec_format_notion_page(
            body@,
            state.host@,
            state.external_address@,
            pairs_view(state.path_to_notion_map@),
            custom_head@,
            custom_body@,
        ),
{
    proof {
        reveal_strlit("{{external_address}}");
        reveal_strlit("{{origin_host}}");
        reveal_strlit("{{slugs}}");
        reveal_strlit("{{custom_body_string}}");
        reveal_strlit("</body>");
        reveal_strlit("</head>");
    }
    let slugs = json_of_map(&state.path_to_notion_map);
    let t1 = replace_all(SCRIPT_TEMPLATE, "{{external_address}}", state.external_address.as_str());
    let t2 = replace_all(t1.as_str(), "{{origin_host}}", state.host.as_str());
    let t3 = replace_all(t2.as_str(), "{{slugs}}", slugs.as_str());
    let inject_to_body = replace_all(t3.as_str(), "{{custom_body_string}}", custom_body);
    let mut inject_to_head = String::from_str(custom_head);
    inject_to_head.append("</head>");
    let base = modify_notion_url(body, state);
    let r1 = replace_all(base.as_str(), "</body>", inject_to_body.as_str());
    replace_all(r1.as_str(), "</head>", inject_to_head.as_str())
}

/// One character of JSON string content: quotes and backslashes carry
/// an escape, everything else stands as itself.
pub open spec fn spec_json_escape_char(c: char) -> Seq<char> {
    if c == '"' || c == '\\' {
        seq!['\\', c]
    } else {
        seq![c]
    }
}

/// JSON string content, character by character.
pub open spec fn spec_json_escape(s: Seq<char>) -> Seq<char>
    decreases s.len(),
{
    if s.len() == 0 {
        Seq::empty()
    } else {
        spec_json_escape_char(s[0]) + spec_json_escape(s.skip(1))
    }
}

/// A JSON string literal.
pub open spec fn spec_json_string(s: Seq<char>) -> Seq<char> {
    seq!['"'] + spec_json_escape(s) + seq!['"']
}

/// The members of a JSON object, comma-separated, in list order.
pub open spec fn spec_json_members(m: Seq<(Seq<char>, Seq<char>)>) -> Seq<char>
    decreases m.len(),
{
    if m.len() == 0 {
        Seq::empty()
    } else if m.len() == 1 {
        spec_json_string(m[0].0) + seq![':'] + spec_json_string(m[0].1)
    } else {
        spec_json_string(m[0].0) + seq![':'] + spec_json_string(m[0].1) + seq![',']
            + spec_json_members(m.skip(1))
    }
}

/// A JSON object over string keys and values, in list order.
pub open spec fn spec_json_object(m: Seq<(Seq<char>, Seq<char>)>) -> Seq<char> {
    seq!['{'] + spec_json_members(m) + seq!['}']
}

fn json_escape(s: &str) -> (r: String)
    ensures
        r@ == spec_json_escape(s@),
{
    let n = s.unicode_len();
    let mut out = String::new();
    let mut i: usize = 0;
    proof {
        assert(s@.skip(0) =~= s@);
        assert(Seq::<char>::empty() + spec_json_escape(s@) =~= spec_json_escape(s@));
    }
    while i < n
        invariant
            i <= n,
            n == s@.len(),
            out@ + spec_json_escape(s@.skip(i as int)) == spec_json_escape(s@),
        decreases n - i,
    {
        proof {
            assert(s@.skip(i as int)[0] == s@[i as int]);
            assert(s@.skip(i as int).skip(1) =~= s@.skip(i + 1));
        }
        let c = s.get_char(i);
        if c == '"' {
            proof {
                reveal_strlit("\\\"");
            }
            out.append("\\\"");
            proof {
                assert("\\\""@ =~= spec_json_escape_char('"'));
            }
        } else if c == '\\' {
            proof {
                reveal_strlit("\\\\");
            }
            out.append("\\\\");
            proof {
                assert("\\\\"@ =~= spec_json_escape_char('\\'));
            }
        } else {
            let piece = s.substring_char(i, i + 1);
            proof {
                assert(piece@ =~= spec_json_escape_char(s@[i as int]));
            }
            out.append(piece);
        }
        proof {
            let rest = spec_json_escape(s@.skip(i + 1));
            assert((out@ + spec_json_escape_char(s@[i as int])) + rest =~= out@
                + (spec_json_escape_char(s@[i as int]) + rest));
        }
        i = i + 1;
    }
    proof {
        assert(s@.skip(n as int) =~= Seq::<char>::empty());
        assert(out@ + Seq::<char>::empty() =~= out@);
    }
    out
}

fn json_string(s: &str) -> (r: String)
    ensures
        r@ == spec_json_string(s@),
{
    proof {
        reveal_strlit("\"");
    }
    let mut out = String::from_str("\"");
    assert(out@ =~= seq!['"']);
    out.append(json_escape(s).as_str());
    out.append("\"");
    proof {
        assert(out@ =~= spec_json_string(s@));
    }
    out
}

fn json_members(pairs: &Vec<(String, String)>, i: usize) -> (r: String)
    requires
        i <= pairs@.len(),
    ensures
        r@ == spec_json_members(pairs_view(pairs@).skip(i as int)),
    decreases pairs@.len() - i,
{
    let ghost m = pairs_view(pairs@).skip(i as int);
    if i == pairs.len() {
        assert(m =~= Seq::<(Seq<char>, Seq<char>)>::empty());
        String::new()
    } else {
        proof {
            reveal_strlit(":");
            reveal_strlit(",");
            assert(m[0] == pairs_view(pairs@)[i as int]);
            assert(m.skip(1) =~= pairs_view(pairs@).skip(i + 1));
        }
        let mut out = json_string(pairs[i].0.as_str());
        out.append(":");
        assert(":"@ =~= seq![':']);
        out.append(json_string(pairs[i].1.as_str()).as_str());
        if i + 1 < pairs.len() {
            out.append(",");
            assert(","@ =~= seq![',']);
            out.append(json_members(pairs, i + 1).as_str());
            proof {
                assert(out@ =~= spec_json_members(m));
            }
        } else {
            proof {
                assert(m.len() == 1);
                assert(out@ =~= spec_json_members(m));
            }
        }
        out
    }
}

/// Renders the route-to-page mapping as the JSON object the injected
/// script reads.
pub fn json_of_map(pairs: &Vec<(String, String)>) -> (r: String)
    ensures
        r@ == spec_json_object(pairs_view(pairs@)),
{
    proof {
        reveal_strlit("{");
        reveal_strlit("}");
    }
    let mut out = String::from_str("{");
    assert(out@ =~= seq!['{']);
    proof {
        assert(pairs_view(pairs@).skip(0) =~= pairs_view(pairs@));
    }
    out.append(json_members(pairs, 0).as_str());
    out.append("}");
    proof {
        assert("}"@ =~= seq!['}']);
        assert(out@ =~= spec_json_object(pairs_view(pairs@)));
    }
    out
}

} // verus!
