//! The laws of the library on concrete values, and edge cases.

use multiway::config::{
    Backend, BackendProtocol, Filter, HeaderValue, InlineCertificate, PathMatch, PathMatchType,
    PathModifier, ProxyConfig, ProxyConfigBuilder, RouteConfigBuilder, RouteMatch,
    RouteRuleBuilder, Seconds, TimeoutConfig, TlsConfig, TlsMode,
};
use multiway::filter::{
    apply_request_headers, collect_filters, compute_redirect, compute_rewrite, replace_prefix,
    AppliedFilter, MirrorTarget, RewriteResult,
};
use multiway::pipeline::balance::{pick_backend, select_backend, sum_of_weights};
use multiway::pipeline::dispatch::{route_and_filter, Dispatch, PipelineRequest};
use multiway::pipeline::meta::{extract_request_meta, host_without_port, RequestHead};
use multiway::pipeline::response::{
    body_payload, fits_in_header, not_found_response, redirect_response, text_response_to_wire,
    Payload,
};
use multiway::pipeline::session::{step_session, SessionAction, SessionEvent, SessionState};
use multiway::pipeline::stream::PrefixedStream;
use multiway::pipeline::upstream::{
    apply_response_filters, backend_timeout, begin_forward, build_h2_request,
    build_upstream_request, choose_mirrors, classify_codec_failure, clone_request_for_mirror,
    ends_with_head, fault_response, is_mirrored, keep_mirrors, request_timeout,
    step_forward, ExchangeEnd, Fault, ForwardAction, ForwardEvent, ForwardStart, ForwardState,
};
use multiway::pipeline::websocket::{
    begin_upgrade, is_raw_websocket_upgrade, is_upgrade_accepted, route_upgrade, step_upgrade,
    upgrade_meta, HeadProgress, HeadReader, UpgradeAction, UpgradeEvent, UpgradeRoute,
    UpgradeStart, UpgradeState,
};
use multiway::routing::{
    path_condition_holds, pattern_matches, precedence_beats, route, strip_port,
    value_condition_holds, MatchPrecedence, RequestMeta, RoutingDecision,
};
use multiway::text;
use multiway::tls::{build_tls_acceptor, present, Presented, ServerCertificates};

fn head(method: &str, uri: &str, headers: &[(&str, &str)]) -> RequestHead {
    let mut head = RequestHead::new(method, uri).unwrap();
    for (name, value) in headers {
        head = head.with_header(name, value).unwrap();
    }
    head
}

fn value(head: &RequestHead, name: &str) -> Option<String> {
    head.headers.get(name).map(|v| String::from_utf8(v.clone()).unwrap())
}

fn pair(name: &str, value: &str) -> HeaderValue {
    HeaderValue { name: name.to_string(), value: value.to_string() }
}

// -- Text --------------------------------------------------------------------

#[test]
fn text_helpers() {
    assert_eq!(text::to_lower("AbZ\u{c9}"), "abz\u{c9}");
    assert_eq!(text::trimmed(" \t x y \u{a0}\r"), "x y");
    assert_eq!(text::text_words("  a  b\tc "), vec!["a", "b", "c"]);
    assert_eq!(text::text_words(""), Vec::<String>::new());
    assert_eq!(text::text_lines("a\r\nb\n\nc\r"), vec!["a", "b", "", "c\r"]);
    assert_eq!(text::text_lines(""), Vec::<String>::new());
    assert_eq!(text::text_lines("\r\r\n"), vec!["\r"]);
    assert_eq!(text::split_on("a,,b", ','), vec!["a", "", "b"]);
    assert_eq!(text::split_once("k=v=w", '='), Some(("k".to_string(), "v=w".to_string())));
    assert_eq!(text::rsplit_once("a:b:c", ':'), Some(("a:b".to_string(), "c".to_string())));
    assert_eq!(text::to_decimal(0), "0");
    assert_eq!(text::to_decimal(u64::MAX), u64::MAX.to_string());
    assert_eq!(text::to_decimal_int(i64::MIN), i64::MIN.to_string());
    assert!(text::contains("HTTP/1.1 101", "101"));
    assert!(!text::contains("10", "101"));
}

// -- Routing -----------------------------------------------------------------

fn rank(kind: u8, length: usize, method: bool, headers: usize, params: usize) -> MatchPrecedence {
    MatchPrecedence {
        path_kind: kind,
        path_length: length,
        has_method: method,
        header_count: headers,
        query_param_count: params,
    }
}

#[test]
fn ranks_are_ordered() {
    let order = [
        rank(0, 9, true, 9, 9),
        rank(1, 1, true, 9, 9),
        rank(1, 2, false, 9, 9),
        rank(1, 2, true, 0, 9),
        rank(1, 2, true, 1, 0),
        rank(1, 2, true, 1, 1),
        rank(2, 0, false, 0, 0),
    ];
    for i in 0..order.len() {
        for j in 0..order.len() {
            assert_eq!(precedence_beats(&order[i], &order[j]), i > j);
        }
    }
}

#[test]
fn wildcards_take_one_label() {
    assert!(pattern_matches("*.Example.com", "FOO.example.COM"));
    assert!(!pattern_matches("*.example.com", "example.com"));
    assert!(!pattern_matches("*.example.com", "a.b.example.com"));
    assert!(!pattern_matches("*.example.com", ".example.com"));
    assert!(!pattern_matches("*.example.com", "fooexample.com"));
    assert!(pattern_matches("*", "*"));
    assert!(!pattern_matches("*", "a"));
}

#[test]
fn ports_are_cut_at_the_last_colon() {
    assert_eq!(strip_port("a:b:80"), "a:b");
    assert_eq!(strip_port(":80"), "");
    assert_eq!(strip_port(""), "");
    assert_eq!(host_without_port("example.com:"), "example.com");
    assert_eq!(host_without_port("example.com:x"), "example.com:x");
    assert_eq!(host_without_port("[::1]:80"), "[::1]");
}

#[test]
fn conditions_by_what_was_found() {
    assert!(path_condition_holds(PathMatchType::RegularExpression, "x", "y", Some(true)));
    assert!(!path_condition_holds(PathMatchType::RegularExpression, "x", "x", Some(false)));
    assert!(!path_condition_holds(PathMatchType::RegularExpression, "(", "(", None));
    assert!(path_condition_holds(PathMatchType::Exact, "/a", "/a", None));
    assert!(value_condition_holds(true, "a", "a", None));
    assert!(!value_condition_holds(true, "a", "A", Some(true)));
    assert!(value_condition_holds(false, "a", "b", Some(true)));
}

fn with_rules(rules: Vec<(RouteMatch, &str)>) -> ProxyConfig {
    let mut builder = RouteConfigBuilder::new("default", "r").attached_to("http");
    for (m, name) in rules {
        builder = builder.with_rule(
            RouteRuleBuilder::new()
                .with_match(m)
                .with_backend(Backend::new("default", name, 80))
                .build(),
        );
    }
    ProxyConfigBuilder::new("default", "gw")
        .with_http_listener("http", 80, None)
        .with_route(builder.build())
        .build()
}

fn path_match(match_type: PathMatchType, value: &str) -> RouteMatch {
    RouteMatch {
        path: Some(PathMatch { match_type, value: value.to_string() }),
        ..Default::default()
    }
}

fn served_by(config: &ProxyConfig, path: &str) -> Option<String> {
    let request =
        RequestMeta { host: None, path, method: "GET", headers: &[], query_params: &[] };
    match route(config, "http", &request) {
        RoutingDecision::Forward { backends, .. } => Some(backends[0].name.clone()),
        _ => None,
    }
}

#[test]
fn the_first_of_equal_rank_wins() {
    let config = with_rules(vec![
        (path_match(PathMatchType::PathPrefix, "/a"), "first"),
        (path_match(PathMatchType::PathPrefix, "/a"), "second"),
        (path_match(PathMatchType::RegularExpression, "^/a"), "regex"),
    ]);
    assert_eq!(served_by(&config, "/a/b").as_deref(), Some("first"));
    assert_eq!(served_by(&config, "/ab").as_deref(), Some("regex"));
    assert_eq!(served_by(&config, "/b"), None);
}

#[test]
fn invalid_expressions_match_nothing() {
    let config = with_rules(vec![(path_match(PathMatchType::RegularExpression, "("), "x")]);
    assert_eq!(served_by(&config, "("), None);
}

#[test]
fn prefix_length_is_in_bytes() {
    // Both stand in front of the path; the umlaut counts two bytes.
    let config = with_rules(vec![
        (path_match(PathMatchType::PathPrefix, "/\u{fc}"), "short"),
        (path_match(PathMatchType::PathPrefix, "/\u{fc}/x"), "long"),
    ]);
    assert_eq!(served_by(&config, "/\u{fc}/x/y").as_deref(), Some("long"));
}

// -- Filters -----------------------------------------------------------------

#[test]
fn seams_have_one_slash() {
    assert_eq!(replace_prefix("/a/b", "/a", "/x/"), "/x/b");
    assert_eq!(replace_prefix("/a/b", "/a/", "/x"), "/x/b");
    assert_eq!(replace_prefix("/a/b", "/a/", "/x/"), "/x/b");
    assert_eq!(replace_prefix("/a", "/a", "/x/"), "/x/");
    assert_eq!(replace_prefix("/\u{fc}/b", "/\u{fc}", "/x"), "/x/b");
}

#[test]
fn effects_follow_each_other() {
    let filters = vec![
        Filter::request_header_add(vec![pair("A", "1")]),
        Filter::redirect(301),
        Filter::URLRewrite { hostname: Some("one".to_string()), path: None },
        Filter::request_header_add(vec![pair("B", "2")]),
        Filter::URLRewrite { hostname: Some("two".to_string()), path: None },
    ];
    let applied = collect_filters(&filters);
    assert_eq!(applied.request_header_add, vec![pair("A", "1"), pair("B", "2")]);
    assert_eq!(
        applied.rewrite,
        Some(RewriteResult { hostname: Some("two".to_string()), path: None })
    );
    assert_eq!(applied.timeout, None);
}

#[test]
fn setting_twice_is_setting_once() {
    let applied = AppliedFilter { request_header_set: vec![pair("X", "1")], ..Default::default() };
    let mut headers = vec![("x".to_string(), "0".to_string()), ("y".to_string(), "2".to_string())];
    apply_request_headers(&mut headers, &applied);
    let once = headers.clone();
    apply_request_headers(&mut headers, &applied);
    assert_eq!(headers, once);
    assert_eq!(headers[0], ("x".to_string(), "1".to_string()));
    let mut untouched = once.clone();
    apply_request_headers(&mut untouched, &AppliedFilter::default());
    assert_eq!(untouched, once);
}

#[test]
fn changing_twice_is_changing_once() {
    let applied = AppliedFilter {
        request_header_remove: vec!["Gone".to_string()],
        request_header_set: vec![pair("X", "1"), pair("New", "2"), pair("x", "3")],
        ..Default::default()
    };
    let mut headers = vec![
        ("x".to_string(), "0".to_string()),
        ("gone".to_string(), "g".to_string()),
        ("y".to_string(), "2".to_string()),
        ("X".to_string(), "9".to_string()),
    ];
    apply_request_headers(&mut headers, &applied);
    let once = headers.clone();
    let expected = [("x", "3"), ("y", "2"), ("X", "3"), ("New", "2")];
    let expected: Vec<(String, String)> =
        expected.iter().map(|(n, v)| (n.to_string(), v.to_string())).collect();
    assert_eq!(once, expected);
    apply_request_headers(&mut headers, &applied);
    assert_eq!(headers, once);
    let copy = applied.clone();
    assert_eq!(copy, applied);
}

#[test]
fn redirects_and_rewrites_default_to_the_root_prefix() {
    let path = || Some(PathModifier::ReplacePrefixMatch { value: "/new".to_string() });
    let redirect = Filter::RequestRedirect {
        scheme: None,
        hostname: None,
        port: None,
        path: path(),
        status_code: None,
    };
    assert_eq!(compute_redirect(&redirect, "/x?q", "h", None).location, "http://h/new/x?q");
    let rewrite = Filter::URLRewrite { hostname: None, path: path() };
    assert_eq!(compute_rewrite(&rewrite, "/x", None).path.as_deref(), Some("/new/x"));
}

// -- Selection ---------------------------------------------------------------

#[test]
fn each_backend_gets_its_share() {
    let backends = vec![
        Backend::new("n", "a", 1).with_weight(2),
        Backend::new("n", "b", 1).with_weight(0),
        Backend::new("n", "c", 1).with_weight(3),
    ];
    assert_eq!(sum_of_weights(&backends), 5);
    let names: Vec<&str> =
        (0..5).map(|pick| pick_backend(&backends, pick).name.as_str()).collect();
    assert_eq!(names, vec!["a", "a", "c", "c", "c"]);
    let heavy = vec![
        Backend::new("n", "a", 1).with_weight(u32::MAX),
        Backend::new("n", "b", 1).with_weight(1),
        Backend::new("n", "c", 1).with_weight(u32::MAX),
    ];
    assert_eq!(sum_of_weights(&heavy), 8589934591);
    assert_eq!(pick_backend(&heavy, 4294967294).name, "a");
    assert_eq!(pick_backend(&heavy, 4294967295).name, "b");
    assert_eq!(pick_backend(&heavy, 4294967296).name, "c");
    assert_eq!(pick_backend(&heavy, 8589934590).name, "c");
    assert!(select_backend(&heavy).is_some());
    assert!(matches!(begin_forward(&heavy), ForwardStart::Resolve(_)));
    assert!(select_backend(&backends[1..2]).is_none());
    assert!(matches!(begin_forward(&[]), ForwardStart::Answer(Fault::Unavailable)));
    assert!(matches!(begin_forward(&backends[..2]), ForwardStart::Resolve(b) if b.name == "a"));
}

#[test]
fn mirrors_follow_their_percentage() {
    let mirror = |percent| MirrorTarget { backend: Backend::new("n", "m", 1), percent };
    let mirrors = vec![mirror(0), mirror(30), mirror(100), mirror(250)];
    let kept = |rolls: Vec<u32>| {
        keep_mirrors(&mirrors, &rolls).iter().map(|m| m.percent).collect::<Vec<_>>()
    };
    assert_eq!(kept(vec![0, 29, 99, 99]), vec![30, 100, 250]);
    assert_eq!(kept(vec![0, 30, 99, 99]), vec![100, 250]);
    for _ in 0..50 {
        let chosen = choose_mirrors(&mirrors);
        assert!(chosen.iter().all(|m| m.percent > 0));
        assert!(chosen.len() >= 2);
    }
    assert_eq!((0..100).filter(|&roll| is_mirrored(42, roll)).count(), 42);
}

#[test]
fn only_requests_without_a_body_end_with_their_headers() {
    assert!(ends_with_head(&[]));
    assert!(!ends_with_head(b"x"));
}

// -- Requests and responses --------------------------------------------------

#[test]
fn metadata_of_odd_requests() {
    let h = head("GET", "/p?a=1&b&=c&d=e=f", &[("host", "one:80"), ("host", "two")]);
    let meta = extract_request_meta(&h);
    assert_eq!(meta.host.as_deref(), Some("one"));
    let params: Vec<(&str, &str)> =
        meta.query_params.iter().map(|(a, b)| (a.as_str(), b.as_str())).collect();
    assert_eq!(params, vec![("a", "1"), ("b", ""), ("", "c"), ("d", "e=f")]);
    // A value that is not visible ASCII shows as empty, and names no host.
    let h = head("GET", "/p?", &[("host", "\u{fc}"), ("x", "\u{fc}")]);
    let meta = extract_request_meta(&h);
    assert_eq!(meta.host, None);
    assert_eq!(meta.headers[1], ("x".to_string(), "".to_string()));
    assert_eq!(meta.query_params, vec![("".to_string(), "".to_string())]);
    assert!(RequestHead::new("GET", "not a uri").is_none());
    assert!(RequestHead::new("GET", "/").unwrap().with_header("bad name", "x").is_none());
    assert!(RequestHead::new("GET", "/").unwrap().with_header("x", "a\nb").is_none());
}

#[test]
fn headers_can_be_full() {
    let mut head = RequestHead::new("GET", "/").unwrap();
    let mut count = 0;
    while count < 40000 {
        match head.with_header(&format!("x-{count}"), "v") {
            Some(more) => head = more,
            None => break,
        }
        count += 1;
    }
    assert!(count > 6553 && count < 40000);
}

#[test]
fn responses_for_the_wire() {
    let wire = text_response_to_wire(not_found_response()).unwrap();
    assert_eq!(wire.status, 404);
    assert_eq!(wire.headers.get("content-length").unwrap(), b"13");
    assert_eq!(wire.headers.get("content-type").unwrap(), b"text/plain");
    assert_eq!(wire.payload, Payload::Fixed(b"404 Not Found".to_vec()));
    let wire = text_response_to_wire(redirect_response(99, "/x")).unwrap();
    assert_eq!(wire.status, 302);
    assert!(wire.headers.get("content-length").is_none());
    assert_eq!(wire.payload, Payload::Nothing);
    assert_eq!(redirect_response(999, "/x").status, 999);
    assert_eq!(body_payload(vec![]), Payload::Nothing);
    assert!(fits_in_header("/ok?\t\u{fc}"));
    assert!(!fits_in_header("a\r\nb"));
    assert_eq!(fault_response(Fault::Timeout).status, 504);
    assert_eq!(fault_response(Fault::BadGateway).body, "502 Bad Gateway");
    assert_eq!(fault_response(Fault::Unavailable).status, 503);
}

#[test]
fn upstream_requests_are_filtered() {
    let h = head("PUT", "/old?q=1", &[("Host", "a.com"), ("X-A", "1"), ("X-B", "2")]);
    let meta = extract_request_meta(&h);
    let applied = AppliedFilter {
        request_header_remove: vec!["x-b".to_string(), "bad name".to_string()],
        request_header_set: vec![pair("X-A", "new"), pair("x-c", "a\nb")],
        request_header_add: vec![pair("x-a", "more")],
        rewrite: Some(RewriteResult {
            hostname: Some("b.com".to_string()),
            path: Some("/new".to_string()),
        }),
        ..Default::default()
    };
    let up = build_upstream_request(h, &meta, &applied).unwrap();
    assert_eq!(up.method, "PUT");
    assert_eq!(up.uri.path, "/new");
    assert_eq!(up.uri.query, None);
    assert_eq!(value(&up, "host").as_deref(), Some("b.com"));
    let values: Vec<&Vec<u8>> = up.headers.get_all("x-a").iter().collect();
    assert_eq!(values, vec![&b"new".to_vec(), &b"more".to_vec()]);
    assert!(up.headers.get("x-b").is_none());
    assert!(up.headers.get("x-c").is_none());

    let copy = clone_request_for_mirror(&up);
    assert_eq!(copy.method, up.method);
    assert_eq!(copy.uri, up.uri);
    assert_eq!(copy.headers, up.headers);
}

#[test]
fn upstream_requests_keep_a_host() {
    let h = head("GET", "/", &[("host", "a.com:81")]);
    let meta = extract_request_meta(&h);
    let applied = AppliedFilter {
        request_header_remove: vec!["Host".to_string()],
        rewrite: Some(RewriteResult { hostname: None, path: Some("not a uri".to_string()) }),
        ..Default::default()
    };
    let up = build_upstream_request(h, &meta, &applied).unwrap();
    assert_eq!(value(&up, "host").as_deref(), Some("a.com"));
    assert_eq!(up.uri.text, "/");
}

#[test]
fn response_filters_apply() {
    let map = head("GET", "/", &[("server", "x"), ("cache-control", "public")]).headers;
    let applied = AppliedFilter {
        response_header_remove: vec!["Server".to_string()],
        response_header_set: vec![pair("Cache-Control", "no-store")],
        response_header_add: vec![pair("X-Custom", "yes")],
        ..Default::default()
    };
    let map = apply_response_filters(map, &applied).unwrap();
    assert!(map.get("server").is_none());
    assert_eq!(map.get("cache-control").unwrap(), b"no-store");
    assert_eq!(map.get("x-custom").unwrap(), b"yes");
}

#[test]
fn h2_requests_carry_the_host_in_the_uri() {
    let h = head(
        "GET",
        "/p?q=1",
        &[("host", "svc:90"), ("connection", "close"), ("transfer-encoding", "chunked"), ("x", "1")],
    );
    let r = build_h2_request(h);
    assert_eq!(r.uri.text, "http://svc:90/p?q=1");
    assert_eq!(r.uri.path, "/p");
    assert_eq!(r.headers.len(), 1);
    assert_eq!(value(&r, "x").as_deref(), Some("1"));
    // Without a usable host the URI stays.
    assert_eq!(build_h2_request(head("GET", "/p", &[])).uri.text, "/p");
    assert_eq!(build_h2_request(head("GET", "/p", &[("host", "a b")])).uri.text, "/p");
}

#[test]
fn timeouts_must_be_positive() {
    let with = |request: f64, backend: f64| AppliedFilter {
        timeout: Some(TimeoutConfig {
            request: Some(Seconds { bits: request.to_bits() }),
            backend_request: Some(Seconds { bits: backend.to_bits() }),
        }),
        ..Default::default()
    };
    let applied = with(1.5, 0.0);
    assert_eq!(request_timeout(&applied), Some(Seconds { bits: 1.5f64.to_bits() }));
    assert_eq!(backend_timeout(&applied), None);
    for bad in [0.0, -0.0, -1.0, f64::NAN, f64::NEG_INFINITY] {
        assert_eq!(request_timeout(&with(bad, bad)), None);
        assert!(!(bad > 0.0));
    }
    for good in [f64::MIN_POSITIVE, 5e-324, 1e300, f64::INFINITY] {
        assert!(backend_timeout(&with(good, good)).is_some());
    }
    assert_eq!(request_timeout(&AppliedFilter::default()), None);
}

#[test]
fn forwarding_ends_with_one_response() {
    let start = ForwardState::Resolving(BackendProtocol::Http1);
    let (s, a) = step_forward(start, ForwardEvent::Resolved(Some(vec![1u8, 2])));
    assert!(matches!(a, ForwardAction::Connect(1)));
    let (s, a) = step_forward(s, ForwardEvent::<u8>::Connected(true));
    assert!(matches!(a, ForwardAction::ExchangeHttp1));
    let (_, a) = step_forward(s, ForwardEvent::<u8>::Exchanged(ExchangeEnd::Response));
    assert!(matches!(a, ForwardAction::Deliver));
    let (_, a) = step_forward(s, ForwardEvent::<u8>::Exchanged(ExchangeEnd::TimedOut));
    assert!(matches!(a, ForwardAction::Answer(Fault::Timeout)));
    let (_, a) = step_forward(s, ForwardEvent::<u8>::Exchanged(ExchangeEnd::Failed));
    assert!(matches!(a, ForwardAction::Answer(Fault::BadGateway)));
    let h2 = ForwardState::Resolving(BackendProtocol::H2c);
    let (s, a) = step_forward(h2, ForwardEvent::Resolved(Some(vec![3u8])));
    assert!(matches!(a, ForwardAction::ExchangeH2(3)));
    assert_eq!(s, ForwardState::Exchanging);
    for nothing in [None, Some(vec![])] {
        let (_, a) = step_forward(h2, ForwardEvent::<u8>::Resolved(nothing));
        assert!(matches!(a, ForwardAction::Answer(Fault::BadGateway)));
    }
    let (_, a) = step_forward(ForwardState::Connecting, ForwardEvent::<u8>::Connected(false));
    assert!(matches!(a, ForwardAction::Answer(Fault::BadGateway)));
    assert_eq!(classify_codec_failure("read timeout"), ExchangeEnd::TimedOut);
    assert_eq!(classify_codec_failure("broken"), ExchangeEnd::Failed);
}

// -- Dispatch ----------------------------------------------------------------

fn dispatch_one(filters: Vec<Filter>, path: &str) -> Dispatch {
    let mut rule = RouteRuleBuilder::new()
        .with_path_prefix("/")
        .with_backend(Backend::new("default", "svc", 80))
        .with_timeout(TimeoutConfig {
            request: Some(Seconds { bits: 2.0f64.to_bits() }),
            backend_request: None,
        });
    for f in filters {
        rule = rule.with_filter(f);
    }
    let config = ProxyConfigBuilder::new("default", "gw")
        .with_http_listener("http", 80, None)
        .with_route(
            RouteConfigBuilder::new("default", "r")
                .attached_to("http")
                .with_hostname("example.com")
                .with_rule(rule.build())
                .build(),
        )
        .build();
    let request = head("GET", path, &[("host", "example.com")]);
    let meta = extract_request_meta(&request);
    route_and_filter(
        &config,
        PipelineRequest { request, meta, listener_name: "http".to_string() },
    )
}

#[test]
fn requests_are_forwarded_with_their_effects() {
    let filters = vec![
        Filter::URLRewrite {
            hostname: None,
            path: Some(PathModifier::ReplaceFullPath { value: "/n".to_string() }),
        },
        Filter::request_header_add(vec![pair("A", "1")]),
    ];
    match dispatch_one(filters, "/x") {
        Dispatch::Forward(forward, limit) => {
            assert_eq!(limit, Some(Seconds { bits: 2.0f64.to_bits() }));
            assert_eq!(forward.backends[0].name, "svc");
            assert_eq!(forward.applied_filter.rewrite.unwrap().path.as_deref(), Some("/n"));
            assert_eq!(forward.applied_filter.request_header_add.len(), 1);
            assert!(forward.applied_filter.timeout.is_some());
            assert_eq!(forward.meta.path, "/x");
        }
        _ => panic!("expected a forward"),
    }
}

#[test]
fn redirects_are_answered_at_once() {
    match dispatch_one(vec![Filter::redirect(307)], "/x?q=1") {
        Dispatch::Answer(answer) => {
            assert_eq!(answer.status, 307);
            assert_eq!(answer.headers.get("location").unwrap(), b"http://example.com/x");
        }
        _ => panic!("expected an answer"),
    }
    let bad = Filter::RequestRedirect {
        scheme: None,
        hostname: Some("a\nb".to_string()),
        port: None,
        path: None,
        status_code: None,
    };
    assert!(matches!(dispatch_one(vec![bad], "/x"), Dispatch::BadLocation));
    let prefix = Filter::URLRewrite {
        hostname: None,
        path: Some(PathModifier::ReplacePrefixMatch { value: "/n".to_string() }),
    };
    assert!(matches!(dispatch_one(vec![prefix], "/x"), Dispatch::PrefixRewrite));
}

#[test]
fn unmatched_requests_are_not_found() {
    let config = ProxyConfig::default();
    let request = head("GET", "/", &[]);
    let meta = extract_request_meta(&request);
    let request = PipelineRequest { request, meta, listener_name: "http".to_string() };
    match route_and_filter(&config, request) {
        Dispatch::Answer(answer) => assert_eq!(answer.status, 404),
        _ => panic!("expected an answer"),
    }
}

// -- Connections -------------------------------------------------------------

#[test]
fn prefixes_are_read_before_the_stream() {
    let mut stream = PrefixedStream::new("inner", b"abcdef".to_vec());
    assert_eq!(stream.prefix_remaining(), 6);
    assert_eq!(stream.read_prefix(4), Some(b"abcd".to_vec()));
    assert_eq!(stream.read_prefix(0), Some(vec![]));
    assert_eq!(stream.read_prefix(4), Some(b"ef".to_vec()));
    assert_eq!(stream.read_prefix(4), None);
    assert_eq!(*stream.inner_mut(), "inner");
}

#[test]
fn heads_end_with_a_blank_line() {
    let mut reader = HeadReader::new();
    assert_eq!(reader.feed(b"GET / HTTP/1.1\r\n\r"), HeadProgress::More);
    assert_eq!(reader.feed(b"\nrest"), HeadProgress::Complete);
    assert_eq!(reader.buf, b"GET / HTTP/1.1\r\n\r\nrest".to_vec());
    let mut closed = HeadReader::new();
    assert_eq!(closed.feed(b""), HeadProgress::Closed);
    let mut large = HeadReader::new();
    assert_eq!(large.feed(&vec![b'a'; 65536]), HeadProgress::More);
    assert_eq!(large.feed(b"a"), HeadProgress::TooLarge);
    // However long it is, a whole head is taken.
    let mut whole = HeadReader::new();
    let mut bytes = vec![b'a'; 70000];
    bytes.extend_from_slice(b"\r\n\r\n");
    assert_eq!(whole.feed(&bytes), HeadProgress::Complete);
}

const UPGRADE: &[u8] = b"GET /ws?room=1 HTTP/1.1\r\nHost: chat.example.com:80\r\nConnection: keep-alive, Upgrade\r\nUpgrade: websocket\r\nSec-WebSocket-Version: 13\r\nSec-WebSocket-Key: abc\r\n\r\n";

#[test]
fn sessions_upgrade_or_serve() {
    let opening = || SessionState::Opening;
    let (s, a) = step_session(opening(), SessionEvent::Head(Some(UPGRADE.to_vec())));
    assert_eq!(s, SessionState::Finished);
    assert!(matches!(a, SessionAction::Upgrade(raw) if raw == UPGRADE));
    let plain = b"GET / HTTP/1.1\r\n\r\n".to_vec();
    let (s, a) = step_session(opening(), SessionEvent::Head(Some(plain.clone())));
    assert!(matches!(a, SessionAction::Serve(raw) if raw == plain));
    let (s, a) = step_session(s, SessionEvent::Request);
    assert!(matches!(a, SessionAction::Handle));
    let (s, a) = step_session(s, SessionEvent::Handled);
    assert!(matches!(a, SessionAction::Send));
    let (s2, a) = step_session(s, SessionEvent::Sent(true));
    assert!(matches!(a, SessionAction::ReadRequest));
    assert!(matches!(step_session(s2, SessionEvent::Closed).1, SessionAction::Close));
    assert!(matches!(step_session(s2, SessionEvent::Malformed).1, SessionAction::FailInvalid));
    assert!(matches!(step_session(s, SessionEvent::Sent(false)).1, SessionAction::FailBroken));
    assert!(matches!(
        step_session(opening(), SessionEvent::Head(None)).1,
        SessionAction::FailReading
    ));
}

#[test]
fn the_last_header_of_a_name_counts() {
    let raw = b"GET / HTTP/1.1\r\nConnection: upgrade\r\nConnection: close\r\nUpgrade: websocket\r\nSec-WebSocket-Version: 13\r\nSec-WebSocket-Key: k\r\n\r\n";
    assert!(!is_raw_websocket_upgrade(raw));
    let late = b"GET / HTTP/1.1\r\nConnection: upgrade\r\nUpgrade: websocket\r\nSec-WebSocket-Version: 13\r\n\r\nSec-WebSocket-Key: k\r\n";
    assert!(!is_raw_websocket_upgrade(late));
    assert!(!is_raw_websocket_upgrade(&[0xff, 0xfe]));
    assert!(is_raw_websocket_upgrade(UPGRADE));
}

fn chat_config(backends: Vec<Backend>) -> ProxyConfig {
    let mut rule = RouteRuleBuilder::new().with_path_prefix("/ws");
    for b in backends {
        rule = rule.with_backend(b);
    }
    ProxyConfigBuilder::new("default", "gw")
        .with_http_listener("http", 80, None)
        .with_route(
            RouteConfigBuilder::new("default", "r")
                .attached_to("http")
                .with_hostname("chat.example.com")
                .with_rule(rule.build())
                .build(),
        )
        .build()
}

#[test]
fn upgrades_are_routed() {
    let config = chat_config(vec![Backend::new("default", "chat", 80)]);
    assert!(matches!(
        begin_upgrade(route_upgrade(UPGRADE, &config, "http")),
        UpgradeStart::Resolve(b) if b.name == "chat"
    ));
    match begin_upgrade(route_upgrade(UPGRADE, &config, "other")) {
        UpgradeStart::Answer(bytes) => assert_eq!(
            bytes,
            b"HTTP/1.1 502 Bad Gateway\r\ncontent-length: 15\r\n\r\n502 Bad Gateway".to_vec()
        ),
        _ => panic!("expected an answer"),
    }
    let idle = chat_config(vec![Backend::new("default", "chat", 80).with_weight(0)]);
    match begin_upgrade(route_upgrade(UPGRADE, &idle, "http")) {
        UpgradeStart::Answer(bytes) => assert_eq!(
            bytes,
            b"HTTP/1.1 503 Service Unavailable\r\ncontent-length: 23\r\n\r\n503 Service Unavailable"
                .to_vec()
        ),
        _ => panic!("expected an answer"),
    }
    assert!(matches!(route_upgrade(&[0xff], &config, "http"), UpgradeRoute::NotText));
    assert!(matches!(
        route_upgrade(b"GET http://[ HTTP/1.1\r\n\r\n", &config, "http"),
        UpgradeRoute::BadUri
    ));
}

#[test]
fn upgrade_requests_are_read() {
    let uri = RequestHead::new("GET", "/ws?room=1&x").unwrap().uri;
    let meta = upgrade_meta(
        "PUT /ws HTTP/1.1\r\nHOST : a.com:8080\r\nX-\u{212a}: 1\r\nnonsense\r\nhost: b.com\r\n\r\nz: 1",
        &uri,
    );
    assert_eq!(meta.method, "PUT");
    assert_eq!(meta.path, "/ws");
    assert_eq!(meta.host.as_deref(), Some("b.com"));
    let names: Vec<&str> = meta.headers.iter().map(|(n, _)| n.as_str()).collect();
    // The Kelvin sign is a k in lower case.
    assert_eq!(names, vec!["host", "x-k", "host"]);
    assert_eq!(meta.headers[0].1, "a.com:8080");
    assert_eq!(meta.query_params.len(), 2);
    assert_eq!(upgrade_meta("", &uri).method, "GET");
}

#[test]
fn upgrades_are_carried_out() {
    let (s, a) =
        step_upgrade(UpgradeState::Resolving, UpgradeEvent::Resolved(Some(vec![9u8, 8])));
    assert!(matches!(a, UpgradeAction::Connect(9)));
    let (s, a) = step_upgrade(s, UpgradeEvent::<u8>::Connected(true));
    assert!(matches!(a, UpgradeAction::SendRequest));
    let (s, a) = step_upgrade(s, UpgradeEvent::<u8>::Sent(true));
    assert!(matches!(a, UpgradeAction::ReadReply));
    let yes = b"HTTP/1.1 101 Switching Protocols\r\n\r\n".to_vec();
    let (_, a) = step_upgrade(s, UpgradeEvent::<u8>::Replied(Some(yes.clone())));
    assert!(matches!(a, UpgradeAction::Tunnel(reply) if reply == yes));
    let no = b"HTTP/1.1 403 Forbidden\r\nx: 101\r\n\r\n".to_vec();
    let (_, a) = step_upgrade(s, UpgradeEvent::<u8>::Replied(Some(no.clone())));
    assert!(matches!(a, UpgradeAction::Answer(reply) if reply == no));
    let (_, a) = step_upgrade(s, UpgradeEvent::<u8>::Replied(None));
    assert!(matches!(a, UpgradeAction::Fail));
    let (_, a) = step_upgrade(UpgradeState::Resolving, UpgradeEvent::<u8>::Resolved(None));
    assert!(matches!(a, UpgradeAction::Answer(_)));
    let (_, a) = step_upgrade(UpgradeState::Connecting, UpgradeEvent::<u8>::Connected(false));
    assert!(matches!(a, UpgradeAction::Answer(_)));
    let (_, a) = step_upgrade(UpgradeState::Sending, UpgradeEvent::<u8>::Sent(false));
    assert!(matches!(a, UpgradeAction::Fail));
    assert!(!is_upgrade_accepted(&[0xff]));
}

// -- TLS ---------------------------------------------------------------------

fn certificate(names: &[&str], hostnames: &[&str]) -> InlineCertificate {
    let key = rcgen::KeyPair::generate().unwrap();
    let names: Vec<String> = names.iter().map(|n| n.to_string()).collect();
    let cert = rcgen::CertificateParams::new(names).unwrap().self_signed(&key).unwrap();
    InlineCertificate {
        cert_pem: cert.pem(),
        key_pem: key.serialize_pem(),
        hostnames: hostnames.iter().map(|n| n.to_string()).collect(),
    }
}

fn terminate(certs: Vec<InlineCertificate>) -> TlsConfig {
    TlsConfig { mode: TlsMode::Terminate, certificates: vec![], inline_certificates: certs }
}

#[test]
fn certificates_by_name() {
    let single = build_tls_acceptor(&terminate(vec![certificate(&["a.com"], &[])])).unwrap();
    assert!(matches!(single, Some(ServerCertificates::Single(_))));
    let several = build_tls_acceptor(&terminate(vec![
        certificate(&["a.com"], &["A.com"]),
        certificate(&["b.com"], &[]),
    ]));
    match several.unwrap() {
        Some(ServerCertificates::BySni(table)) => {
            assert_eq!(table.first.cert.len(), 1);
            assert!(table.fallback.is_some());
            assert!(table.fallback.unwrap().cert != table.first.cert);
        }
        _ => panic!("expected a table"),
    }
}

#[test]
fn names_must_fit_their_certificate() {
    let wrong = terminate(vec![
        certificate(&["a.com"], &["a.com"]),
        certificate(&["b.com"], &["c.com"]),
    ]);
    match build_tls_acceptor(&wrong) {
        Err(e) => assert!(e.message().starts_with("SNI resolver error: c.com: ")),
        Ok(_) => panic!("expected an error"),
    }
    let mut mixed = certificate(&["a.com"], &["a.com"]);
    mixed.key_pem = certificate(&["b.com"], &[]).key_pem;
    match build_tls_acceptor(&terminate(vec![mixed])) {
        Err(e) => assert_eq!(
            e.message(),
            "rustls error: keys may not be consistent: KeyMismatch"
        ),
        Ok(_) => panic!("expected an error"),
    }
}

#[test]
fn the_first_certificate_out_of_order_is_reported() {
    let no_name = certificate(&["a.com"], &["a.com", "no host name"]);
    let mut bad_key = certificate(&["b.com"], &["b.com"]);
    bad_key.key_pem = String::new();
    match build_tls_acceptor(&terminate(vec![no_name, bad_key.clone()])) {
        Err(e) => assert_eq!(
            e.message(),
            "SNI resolver error: no host name: unexpected error: Bad DNS name"
        ),
        Ok(_) => panic!("expected an error"),
    }
    let mut mixed = certificate(&["a.com"], &["no host name"]);
    mixed.key_pem = certificate(&["b.com"], &[]).key_pem;
    match build_tls_acceptor(&terminate(vec![mixed, bad_key])) {
        Err(e) => assert_eq!(
            e.message(),
            "rustls error: keys may not be consistent: KeyMismatch"
        ),
        Ok(_) => panic!("expected an error"),
    }
}

#[test]
fn a_single_certificate_serves_whatever_its_names() {
    let single = terminate(vec![certificate(&["a.com"], &["no host name"])]);
    assert!(matches!(build_tls_acceptor(&single), Ok(Some(ServerCertificates::Single(_)))));
}

#[test]
fn the_first_unreadable_certificate_is_reported() {
    let mut bad_key = certificate(&["a.com"], &[]);
    bad_key.key_pem = String::new();
    let mut bad_cert = certificate(&["b.com"], &[]);
    bad_cert.cert_pem = String::new();
    match build_tls_acceptor(&terminate(vec![bad_key, bad_cert])) {
        Err(e) => assert_eq!(
            e.message(),
            "private key parse error: no private key found in PEM data"
        ),
        Ok(_) => panic!("expected an error"),
    }
}

#[test]
fn clients_without_a_name_get_the_first_certificate() {
    assert_eq!(present(false, false, true), Presented::First);
    assert_eq!(present(true, true, true), Presented::Matched);
    assert_eq!(present(true, false, true), Presented::Fallback);
    assert_eq!(present(true, false, false), Presented::Nothing);
}
