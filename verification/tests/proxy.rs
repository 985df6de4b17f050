use notion_proxy::cache::asset_cache_path;
use notion_proxy::cache::asset_location;
use notion_proxy::cache::asset_origin_url;
use notion_proxy::cache::AssetCache;
use notion_proxy::config::AppState;
use notion_proxy::config::split_commas;
use notion_proxy::config::ConfigError;
use notion_proxy::config::Env;
use notion_proxy::forward::error_response;
use notion_proxy::forward::is_image_response;
use notion_proxy::forward::make_response;
use notion_proxy::forward::TransformKind;
use notion_proxy::headers::build_request_header;
use notion_proxy::headers::build_response_header;
use notion_proxy::http_util::get_cache_header;
use notion_proxy::http_util::response_error;
use notion_proxy::http_util::ProxyBody;
use notion_proxy::numbers::parse_u16;
use notion_proxy::numbers::u32_to_dec;
use notion_proxy::router::api_url;
use notion_proxy::router::route_index;
use notion_proxy::router::route_path;
use notion_proxy::router::RouteDecision;
use notion_proxy::text::replace_all;
use notion_proxy::transform::format_notion_page;
use notion_proxy::transform::json_of_map;
use notion_proxy::transform::modify_notion_url;
use notion_proxy::transform::remove_notion_url;

fn test_state(host: &str, external: &str) -> AppState {
    let env = Env::new(
        None,
        None,
        Some(host.to_string()),
        external.to_string(),
        Some("/,/docs".to_string()),
        "pageA,pageB".to_string(),
    )
    .expect("configuration should pair up");
    AppState::from_env(env)
}

#[test]
fn test_get_cache_header() {
    let header = get_cache_header(0);
    assert_eq!(header.0, "Cache-Control");
    assert_eq!(header.1, "no-cache");

    let header = get_cache_header(100);
    assert_eq!(header.0, "Cache-Control");
    assert_eq!(header.1, "public, max-age=100");
}

#[test]
fn test_response_error() {
    let response = response_error(404);
    assert_eq!(response.status, 404);
    assert_eq!(response.headers.len(), 1);
    assert_eq!(response.headers[0].0, "Cache-Control");
    assert_eq!(response.headers[0].1, "no-cache");
}

#[test]
fn test_request_header_allowlist() {
    let inbound = vec![
        ("User-Agent".to_string(), "agent/1.0".to_string()),
        ("X-Custom".to_string(), "1".to_string()),
        ("cookie".to_string(), "id=7".to_string()),
        ("Host".to_string(), "proxy.example".to_string()),
    ];
    let outbound = build_request_header(&inbound);
    assert_eq!(
        outbound,
        vec![
            ("User-Agent".to_string(), "agent/1.0".to_string()),
            ("Cookie".to_string(), "id=7".to_string()),
        ]
    );
}

#[test]
fn test_response_header_allowlist() {
    let state = test_state("https://www.notion.so", "proxy.example");
    let origin = vec![
        ("Content-Type".to_string(), "text/html".to_string()),
        ("X-Served-By".to_string(), "origin".to_string()),
        ("Set-Cookie".to_string(), "id=1; Domain=notion.site".to_string()),
    ];
    let filtered = build_response_header(&origin, &state);
    assert_eq!(
        filtered,
        vec![
            ("Content-Type".to_string(), "text/html".to_string()),
            ("Set-Cookie".to_string(), "id=1; Domain=proxy.example".to_string()),
            ("Access-Control-Allow-Origin".to_string(), "*".to_string()),
        ]
    );
}

#[test]
fn test_cookie_rewrite_removes_origin() {
    let state = test_state("https://www.notion.so", "proxy.example");
    let origin = vec![(
        "Set-Cookie".to_string(),
        "id=1; Domain=notion.site; Path=/; other=www.notion.so".to_string(),
    )];
    let filtered = build_response_header(&origin, &state);
    let cookie = &filtered[0].1;
    assert!(!cookie.contains("notion.site"));
    assert!(!cookie.contains("www.notion.so"));
    assert_eq!(cookie, "id=1; Domain=proxy.example; Path=/; other=proxy.example");
}

#[test]
fn test_index_redirects_to_mapped_page() {
    let state = test_state("https://www.notion.so", "proxy.example");
    match route_index(&state) {
        RouteDecision::Redirect(location) => assert_eq!(location, "/pageA"),
        _ => panic!("the mapped root path must redirect"),
    }
}

#[test]
fn test_index_unmapped_is_not_found() {
    let env = Env::new(
        None,
        None,
        None,
        "proxy.example".to_string(),
        Some("/docs".to_string()),
        "pageB".to_string(),
    )
    .unwrap();
    let state = AppState::from_env(env);
    assert!(matches!(route_index(&state), RouteDecision::NotFound));
}

#[test]
fn test_mapped_path_redirects_to_page() {
    let state = test_state("https://www.notion.so", "proxy.example");
    match route_path(&state, "docs") {
        RouteDecision::Redirect(location) => assert_eq!(location, "/pageB"),
        _ => panic!("a mapped path must redirect"),
    }
}

#[test]
fn test_page_identifier_is_proxied_as_page() {
    let state = test_state("https://www.notion.so", "proxy.example");
    match route_path(&state, "pageA") {
        RouteDecision::Page(url) => assert_eq!(url, "https://www.notion.so/pageA"),
        _ => panic!("a configured page identifier must be a page view"),
    }
}

#[test]
fn test_unknown_path_is_generic_passthrough() {
    let state = test_state("https://www.notion.so", "proxy.example");
    match route_path(&state, "styles/site.css") {
        RouteDecision::Generic(url) => {
            assert_eq!(url, "https://www.notion.so/styles/site.css")
        }
        _ => panic!("an unknown path must pass through"),
    }
}

#[test]
fn test_api_url() {
    let state = test_state("https://www.notion.so", "proxy.example");
    assert_eq!(api_url(&state, "v3/loadPage"), "https://www.notion.so/api/v3/loadPage");
}

#[test]
fn test_remove_notion_url() {
    let state = test_state("https://www.notion.so", "https://proxy.example");
    let body = "a https://www.notion.so/x and https://notion.so/y".to_string();
    let out = remove_notion_url(body, &state);
    assert_eq!(out, "a https://proxy.example/x and https://proxy.example/y");
}

#[test]
fn test_generic_transformer_replaces_origin() {
    let state = test_state("https://www.notion.so", "https://proxy.example");
    let body = "visit https://origin.example/foo"
        .to_string()
        .replace("https://origin.example", "https://www.notion.so");
    let out = modify_notion_url(body, &state);
    assert_eq!(out, "visit https://proxy.example/foo");
    assert!(!out.contains("https://www.notion.so"));
}

#[test]
fn test_generic_transformer_idempotent() {
    let state = test_state("https://www.notion.so", "https://proxy.example");
    let body = "visit https://www.notion.so/foo and https://notion.so/bar".to_string();
    let once = modify_notion_url(body, &state);
    let twice = modify_notion_url(once.clone(), &state);
    assert_eq!(once, twice);
}

#[test]
fn test_generic_transformer_asset_links() {
    let state = test_state("https://www.notion.so", "https://proxy.example");
    let body = "<img src=\"/_assets/logo.png\">".to_string();
    let out = modify_notion_url(body, &state);
    assert_eq!(out, "<img src=\"https://www.notion.so/_assets/logo.png\">");
}

#[test]
fn test_page_transformer_injects_script() {
    let state = test_state("http://localhost/", "https://proxy.example");
    let body =
        "<html><head></head><body>see https://www.notion.so/pageA</body></html>".to_string();
    let out = format_notion_page(body, &state, "", "");
    assert!(out.contains("window.EXTERNAL_ADDRESS=\"https://proxy.example\""));
    assert!(out.contains("window.SLUGS={\"/\":\"pageA\",\"/docs\":\"pageB\"}"));
    assert!(out.contains("MutationObserver"));
    assert!(!out.contains("https://www.notion.so"));
}

#[test]
fn test_page_transformer_splices_fragments() {
    let state = test_state("http://localhost/", "https://proxy.example");
    let body = "<html><head></head><body>x</body></html>".to_string();
    let out = format_notion_page(body, &state, "<meta n=\"1\">", "<footer></footer>");
    assert!(out.contains("<meta n=\"1\"></head>"));
    assert!(out.contains("<footer></footer>"));
    // substitution runs before injection: the injected script is intact
    assert!(out.contains("window.ORIGIN_HOST=\"http://localhost/\""));
}

#[test]
fn test_json_of_map() {
    let pairs = vec![
        ("/".to_string(), "pageA".to_string()),
        ("/do\"cs".to_string(), "pa\\geB".to_string()),
    ];
    assert_eq!(json_of_map(&pairs), "{\"/\":\"pageA\",\"/do\\\"cs\":\"pa\\\\geB\"}");
}

#[test]
fn test_json_of_empty_map() {
    let pairs: Vec<(String, String)> = Vec::new();
    assert_eq!(json_of_map(&pairs), "{}");
}

#[test]
fn test_binary_passthrough() {
    let state = test_state("https://www.notion.so", "https://proxy.example");
    let origin_headers = vec![("Content-Type".to_string(), "image/png".to_string())];
    assert!(is_image_response(&origin_headers));
    let payload: Vec<u8> = vec![137, 80, 78, 71, 13, 10, 26, 10, 0, 255];
    let response = make_response(
        200,
        &origin_headers,
        ProxyBody::Binary(payload.clone()),
        &state,
        TransformKind::Generic,
        "",
        "",
    );
    assert_eq!(response.status, 200);
    match response.body {
        ProxyBody::Binary(bytes) => assert_eq!(bytes, payload),
        ProxyBody::Text(_) => panic!("a binary body must pass through untouched"),
    }
    assert!(response
        .headers
        .contains(&("Access-Control-Allow-Origin".to_string(), "*".to_string())));
}

#[test]
fn test_text_response_is_transformed() {
    let state = test_state("https://www.notion.so", "https://proxy.example");
    let origin_headers = vec![("Content-Type".to_string(), "text/html".to_string())];
    assert!(!is_image_response(&origin_headers));
    let response = make_response(
        201,
        &origin_headers,
        ProxyBody::Text("go to https://www.notion.so/z".to_string()),
        &state,
        TransformKind::Generic,
        "",
        "",
    );
    assert_eq!(response.status, 201);
    match response.body {
        ProxyBody::Text(text) => assert_eq!(text, "go to https://proxy.example/z"),
        ProxyBody::Binary(_) => panic!("a textual body must be transformed"),
    }
}

#[test]
fn test_error_response() {
    let response = error_response("Failed to fetch data");
    assert_eq!(response.status, 500);
    assert!(response.headers.is_empty());
    match response.body {
        ProxyBody::Text(text) => assert_eq!(text, "Failed to fetch data"),
        ProxyBody::Binary(_) => panic!("an error body is text"),
    }
}

#[test]
fn test_asset_fetch_once() {
    let mut cache = AssetCache::new();
    let mut origin_fetches: u32 = 0;
    let payload: Vec<u8> = b"PNG-BYTES".to_vec();

    // first request: miss, fetch from the stub origin, store
    let served_first = match cache.lookup("_assets/x.png") {
        Some(data) => data.clone(),
        None => {
            origin_fetches += 1;
            cache.store("_assets/x.png", payload.clone());
            payload.clone()
        }
    };
    assert_eq!(served_first, payload);

    // second request: served from the cache, no further fetch
    let served_second = match cache.lookup("_assets/x.png") {
        Some(data) => data.clone(),
        None => {
            origin_fetches += 1;
            unreachable!()
        }
    };
    assert_eq!(served_second, payload);
    assert_eq!(origin_fetches, 1);
}

#[test]
fn test_asset_paths() {
    let location = asset_location("img/logo.png");
    assert_eq!(location, "_assets/img/logo.png");
    assert_eq!(asset_cache_path(&location), "cache/_assets/img/logo.png");
    assert_eq!(
        asset_origin_url(&location),
        "https://www.notion.so/_assets/img/logo.png"
    );
}

#[test]
fn test_env_defaults() {
    let env = Env::new(
        None,
        None,
        None,
        "https://proxy.example".to_string(),
        None,
        "pageA".to_string(),
    )
    .unwrap();
    assert_eq!(env.address, "127.0.0.1");
    assert_eq!(env.port, 48099);
    assert_eq!(env.host, "http://localhost/");
    assert_eq!(env.external_address, "https://proxy.example");
    assert_eq!(env.route_paths, vec!["/".to_string()]);
    assert_eq!(env.notion_pages, vec!["pageA".to_string()]);
    assert_eq!(
        env.path_to_notion_map,
        vec![("/".to_string(), "pageA".to_string())]
    );
}

#[test]
fn test_env_lists_and_map() {
    let env = Env::new(
        Some("0.0.0.0".to_string()),
        Some("8080".to_string()),
        Some("https://www.notion.so".to_string()),
        "proxy.example".to_string(),
        Some("/,/docs".to_string()),
        "pageA,pageB".to_string(),
    )
    .unwrap();
    assert_eq!(env.address, "0.0.0.0");
    assert_eq!(env.port, 8080);
    assert_eq!(
        env.path_to_notion_map,
        vec![
            ("/".to_string(), "pageA".to_string()),
            ("/docs".to_string(), "pageB".to_string()),
        ]
    );
}

#[test]
fn test_env_length_mismatch_is_rejected() {
    let r = Env::new(
        None,
        None,
        None,
        "proxy.example".to_string(),
        Some("/,/docs".to_string()),
        "pageA".to_string(),
    );
    assert_eq!(r.err(), Some(ConfigError::RoutePageMismatch));
}

#[test]
fn test_env_bad_port_falls_back() {
    let env = Env::new(
        None,
        Some("not-a-port".to_string()),
        None,
        "proxy.example".to_string(),
        None,
        "pageA".to_string(),
    )
    .unwrap();
    assert_eq!(env.port, 48099);
}

#[test]
fn test_parse_u16() {
    assert_eq!(parse_u16("0"), Some(0));
    assert_eq!(parse_u16("8080"), Some(8080));
    assert_eq!(parse_u16("65535"), Some(65535));
    assert_eq!(parse_u16("65536"), None);
    assert_eq!(parse_u16("+123"), Some(123));
    assert_eq!(parse_u16(""), None);
    assert_eq!(parse_u16("+"), None);
    assert_eq!(parse_u16("12a"), None);
    assert_eq!(parse_u16("-1"), None);
}

#[test]
fn test_u32_to_dec() {
    assert_eq!(u32_to_dec(0), "0");
    assert_eq!(u32_to_dec(7), "7");
    assert_eq!(u32_to_dec(100), "100");
    assert_eq!(u32_to_dec(31536000), "31536000");
}

#[test]
fn test_split_commas_edges() {
    assert_eq!(split_commas(""), vec![""]);
    assert_eq!(split_commas(","), vec!["", ""]);
    assert_eq!(split_commas("a,b,c"), vec!["a", "b", "c"]);
    assert_eq!(split_commas(",x,"), vec!["", "x", ""]);
}

#[test]
fn test_replace_all_no_rescan() {
    // replaced output is not rescanned: leftmost, non-overlapping
    assert_eq!(replace_all("aaa", "aa", "b"), "ba");
    assert_eq!(replace_all("abcabc", "b", "bb"), "abbcabbc");
    assert_eq!(replace_all("xyz", "q", "r"), "xyz");
}
