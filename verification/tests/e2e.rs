//! Whole exchanges, with backends that answer in place.

use multiway::config::{
    Backend, Filter, HeaderMatch, HeaderMatchType, HeaderValue, PathMatch, PathMatchType,
    PathModifier, ProxyConfig, ProxyConfigBuilder, RouteConfigBuilder, RouteMatch,
    RouteRuleBuilder,
};
use multiway::headers::Headers;
use multiway::pipeline::dispatch::{route_and_filter, Dispatch, PipelineRequest};
use multiway::pipeline::meta::{extract_request_meta, RequestHead};
use multiway::pipeline::response::{text_response_to_wire, Payload, TextResponse};
use multiway::pipeline::session::{step_session, SessionAction, SessionEvent, SessionState};
use multiway::pipeline::upstream::{
    apply_response_filters, begin_forward, build_upstream_request, fault_response, step_forward,
    ExchangeEnd, ForwardAction, ForwardEvent, ForwardRequest, ForwardStart, ForwardState,
};
use std::cell::Cell;

/// A backend at a port of the local host, and what it answers to a request.
struct Server<'a> {
    port: u16,
    answer: &'a dyn Fn(&str) -> String,
}

fn text_of(headers: &Headers) -> String {
    let mut text = String::new();
    for (name, value) in headers {
        let value = String::from_utf8(value.clone()).unwrap();
        text.push_str(&format!("{name}: {value}\r\n"));
    }
    text
}

fn response_text(resp: TextResponse) -> String {
    let wire = text_response_to_wire(resp).unwrap();
    let body = match wire.payload {
        Payload::Nothing => String::new(),
        Payload::Fixed(bytes) => String::from_utf8(bytes).unwrap(),
    };
    format!("HTTP/1.1 {}\r\n{}\r\n{}", wire.status, text_of(&wire.headers), body)
}

fn parse_head(raw: &str) -> RequestHead {
    let (head, _) = raw.split_once("\r\n\r\n").unwrap();
    let mut lines = head.split("\r\n");
    let mut words = lines.next().unwrap().split(' ');
    let method = words.next().unwrap();
    let mut request = RequestHead::new(method, words.next().unwrap()).unwrap();
    for line in lines {
        let (name, value) = line.split_once(": ").unwrap();
        request = request.with_header(name, value).unwrap();
    }
    request
}

/// Sends the request to the backend at that port. `None` where nothing listens.
fn exchange(servers: &[Server], port: u16, head: &RequestHead) -> Option<(String, Headers, String)> {
    let server = servers.iter().find(|s| s.port == port)?;
    let request =
        format!("{} {} HTTP/1.1\r\n{}\r\n", head.method, head.uri.text, text_of(&head.headers));
    let answer = (server.answer)(&request);
    let (resp, body) = answer.split_once("\r\n\r\n").unwrap();
    let mut lines = resp.split("\r\n");
    let status = lines.next().unwrap().to_string();
    let mut headers = Headers::with_capacity(0);
    for line in lines {
        let (name, value) = line.split_once(": ").unwrap();
        headers.append(name.parse::<http::HeaderName>().unwrap(), value.as_bytes().to_vec());
    }
    Some((status, headers, body.to_string()))
}

fn forward(servers: &[Server], request: ForwardRequest) -> String {
    let ForwardRequest { request, meta, backends, applied_filter } = request;
    let backend = match begin_forward(&backends) {
        ForwardStart::Answer(fault) => return response_text(fault_response(fault)),
        ForwardStart::Resolve(backend) => backend,
    };
    assert_eq!(backend.name, "127.0.0.1");
    let head = build_upstream_request(request, &meta, &applied_filter).unwrap();
    let mut response = None;
    let mut connected = 0;
    let (mut state, mut action) = step_forward(
        ForwardState::Resolving(backend.protocol),
        ForwardEvent::Resolved(Some(vec![backend.port])),
    );
    loop {
        let event = match action {
            ForwardAction::Connect(port) => {
                connected = port;
                ForwardEvent::Connected(servers.iter().any(|s| s.port == port))
            }
            ForwardAction::ExchangeHttp1 => {
                response = exchange(servers, connected, &head);
                ForwardEvent::Exchanged(ExchangeEnd::Response)
            }
            ForwardAction::ExchangeH2(_) => panic!("no backend speaks HTTP/2"),
            ForwardAction::Deliver => {
                let (status, headers, body) = response.unwrap();
                let headers = apply_response_filters(headers, &applied_filter).unwrap();
                return format!("{status}\r\n{}\r\n{body}", text_of(&headers));
            }
            ForwardAction::Answer(fault) => return response_text(fault_response(fault)),
        };
        (state, action) = step_forward(state, event);
    }
}

/// Sends requests over one connection to a listener, and gives the responses.
fn converse(
    config: &ProxyConfig,
    listener: &str,
    servers: &[Server],
    requests: &[&str],
) -> Vec<String> {
    let raw = requests[0].as_bytes().to_vec();
    let (mut state, mut action) =
        step_session(SessionState::Opening, SessionEvent::Head(Some(raw)));
    let mut sent = 0;
    let mut pending = None;
    let mut responses = Vec::new();
    loop {
        let event = match action {
            SessionAction::Serve(_) | SessionAction::ReadRequest => {
                if sent < requests.len() {
                    pending = Some(parse_head(requests[sent]));
                    sent += 1;
                    SessionEvent::Request
                } else {
                    SessionEvent::Closed
                }
            }
            SessionAction::Handle => {
                let request = pending.take().unwrap();
                let meta = extract_request_meta(&request);
                let listener_name = listener.to_string();
                let request = PipelineRequest { request, meta, listener_name };
                responses.push(match route_and_filter(config, request) {
                    Dispatch::Answer(resp) => response_text(resp),
                    Dispatch::Forward(request, _) => forward(servers, request),
                    _ => panic!("the request cannot be served"),
                });
                SessionEvent::Handled
            }
            SessionAction::Send => SessionEvent::Sent(true),
            SessionAction::Close => return responses,
            _ => panic!("the connection broke"),
        };
        (state, action) = step_session(state, event);
    }
}

fn send_raw(config: &ProxyConfig, listener: &str, servers: &[Server], request: &str) -> String {
    converse(config, listener, servers, &[request]).remove(0)
}

fn send(
    config: &ProxyConfig,
    listener: &str,
    servers: &[Server],
    host: &str,
    path: &str,
) -> String {
    let request = format!("GET {path} HTTP/1.1\r\nHost: {host}\r\nConnection: close\r\n\r\n");
    send_raw(config, listener, servers, &request)
}

fn ok(body: &str) -> String {
    format!(
        "HTTP/1.1 200 OK\r\ncontent-length: {}\r\nconnection: close\r\n\r\n{body}",
        body.len()
    )
}

fn backend(port: u16) -> Backend {
    Backend::new("default", "127.0.0.1", port)
}

fn http_gateway() -> ProxyConfigBuilder {
    ProxyConfigBuilder::new("default", "gw").with_http_listener("http", 8080, None)
}

// -- Errors ------------------------------------------------------------------

#[test]
fn backend_unreachable_returns_502() {
    let rule = RouteRuleBuilder::new().with_path_prefix("/").with_backend(backend(1)).build();
    let config = http_gateway()
        .with_route(
            RouteConfigBuilder::new("default", "route").attached_to("http").with_rule(rule).build(),
        )
        .build();
    assert!(send(&config, "http", &[], "127.0.0.1", "/test").contains("502"));
}

#[test]
fn route_with_no_backends_returns_503() {
    let rule = RouteRuleBuilder::new().with_path_prefix("/").build();
    let config = http_gateway()
        .with_route(
            RouteConfigBuilder::new("default", "route").attached_to("http").with_rule(rule).build(),
        )
        .build();
    assert!(send(&config, "http", &[], "127.0.0.1", "/test").contains("503"));
}

// -- Connections -------------------------------------------------------------

#[test]
fn keepalive_two_sequential_requests() {
    let answer = |_: &str| {
        let body = "keepalive-ok";
        format!("HTTP/1.1 200 OK\r\ncontent-length: {}\r\n\r\n{body}", body.len())
    };
    let servers = [Server { port: 9001, answer: &answer }];
    let rule = RouteRuleBuilder::new().with_path_prefix("/").with_backend(backend(9001)).build();
    let config = http_gateway()
        .with_route(
            RouteConfigBuilder::new("default", "route").attached_to("http").with_rule(rule).build(),
        )
        .build();
    let responses = converse(
        &config,
        "http",
        &servers,
        &[
            "GET /first HTTP/1.1\r\nHost: 127.0.0.1\r\n\r\n",
            "GET /second HTTP/1.1\r\nHost: 127.0.0.1\r\nConnection: close\r\n\r\n",
        ],
    );
    assert_eq!(responses.len(), 2);
    assert!(responses[0].contains("200"));
    assert!(responses[0].contains("keepalive-ok"));
    assert!(responses[1].contains("200"));
    assert!(responses[1].contains("keepalive-ok"));
}

// -- Filters -----------------------------------------------------------------

#[test]
fn request_header_add_set_remove() {
    let echo = |request: &str| ok(request);
    let servers = [Server { port: 9001, answer: &echo }];
    let rule = RouteRuleBuilder::new()
        .with_path_prefix("/")
        .with_filter(Filter::RequestHeaderModifier {
            add: vec![HeaderValue { name: "X-Added".to_string(), value: "yes".to_string() }],
            set: vec![HeaderValue { name: "X-Set".to_string(), value: "overwritten".to_string() }],
            remove: vec!["X-Remove".to_string()],
        })
        .with_backend(backend(9001))
        .build();
    let config = http_gateway()
        .with_route(
            RouteConfigBuilder::new("default", "route").attached_to("http").with_rule(rule).build(),
        )
        .build();
    let resp = send_raw(
        &config,
        "http",
        &servers,
        "GET /test HTTP/1.1\r\nHost: 127.0.0.1\r\nX-Remove: should-be-gone\r\nX-Set: old-value\r\nConnection: close\r\n\r\n",
    );
    assert!(resp.contains("200"));
    assert!(resp.to_lowercase().contains("x-added"));
    let (_, body) = resp.split_once("\r\n\r\n").unwrap();
    let body = body.to_lowercase();
    assert!(!body.contains("x-remove: should-be-gone"));
    assert!(body.contains("x-added: yes"));
    assert!(body.contains("x-set: overwritten"));
    assert!(!body.contains("old-value"));
}

#[test]
fn response_header_add_set_remove() {
    let answer = |_: &str| {
        "HTTP/1.1 200 OK\r\ncontent-length: 2\r\nx-original: yes\r\nx-to-set: old\r\nconnection: close\r\n\r\nok".to_string()
    };
    let servers = [Server { port: 9001, answer: &answer }];
    let rule = RouteRuleBuilder::new()
        .with_path_prefix("/")
        .with_filter(Filter::ResponseHeaderModifier {
            add: vec![HeaderValue { name: "X-Proxy".to_string(), value: "multiway".to_string() }],
            set: vec![HeaderValue { name: "X-To-Set".to_string(), value: "new-value".to_string() }],
            remove: vec!["X-Original".to_string()],
        })
        .with_backend(backend(9001))
        .build();
    let config = http_gateway()
        .with_route(
            RouteConfigBuilder::new("default", "route").attached_to("http").with_rule(rule).build(),
        )
        .build();
    let resp = send(&config, "http", &servers, "127.0.0.1", "/test");
    assert!(resp.contains("200"));
    let resp = resp.to_lowercase();
    assert!(resp.contains("x-proxy: multiway"));
    assert!(!resp.contains("x-original"));
    assert!(resp.contains("x-to-set: new-value"));
}

#[test]
fn url_hostname_rewrite() {
    let echo = |request: &str| ok(request);
    let servers = [Server { port: 9001, answer: &echo }];
    let rule = RouteRuleBuilder::new()
        .with_path_prefix("/")
        .with_filter(Filter::URLRewrite {
            hostname: Some("rewritten.internal".to_string()),
            path: None,
        })
        .with_backend(backend(9001))
        .build();
    let config = http_gateway()
        .with_route(
            RouteConfigBuilder::new("default", "route").attached_to("http").with_rule(rule).build(),
        )
        .build();
    let resp = send(&config, "http", &servers, "original.example.com", "/test");
    assert!(resp.contains("200"));
    assert!(resp.to_lowercase().contains("rewritten.internal"));
    assert!(!resp.contains("original.example.com"));
}

#[test]
fn url_full_path_rewrite() {
    let echo = |request: &str| ok(request);
    let servers = [Server { port: 9001, answer: &echo }];
    let rule = RouteRuleBuilder::new()
        .with_path_prefix("/")
        .with_filter(Filter::URLRewrite {
            hostname: None,
            path: Some(PathModifier::ReplaceFullPath { value: "/new-path".to_string() }),
        })
        .with_backend(backend(9001))
        .build();
    let config = http_gateway()
        .with_route(
            RouteConfigBuilder::new("default", "route").attached_to("http").with_rule(rule).build(),
        )
        .build();
    let resp = send(&config, "http", &servers, "127.0.0.1", "/old-path");
    assert!(resp.contains("200"));
    assert!(resp.contains("/new-path"));
}

#[test]
fn url_hostname_and_full_path_rewrite_combined() {
    let echo = |request: &str| ok(request);
    let servers = [Server { port: 9001, answer: &echo }];
    let rule = RouteRuleBuilder::new()
        .with_path_prefix("/")
        .with_filter(Filter::URLRewrite {
            hostname: Some("rewritten.internal".to_string()),
            path: Some(PathModifier::ReplaceFullPath { value: "/v2/data".to_string() }),
        })
        .with_backend(backend(9001))
        .build();
    let config = http_gateway()
        .with_route(
            RouteConfigBuilder::new("default", "route").attached_to("http").with_rule(rule).build(),
        )
        .build();
    let resp = send(&config, "http", &servers, "original.example.com", "/old/path");
    assert!(resp.contains("200"));
    assert!(resp.contains("/v2/data"));
    assert!(resp.to_lowercase().contains("rewritten.internal"));
}

#[test]
fn redirect_hostname_302() {
    let rule = RouteRuleBuilder::new()
        .with_path_prefix("/old")
        .with_filter(Filter::RequestRedirect {
            scheme: Some("https".to_string()),
            hostname: Some("redirected.example.com".to_string()),
            port: None,
            path: None,
            status_code: Some(302),
        })
        .build();
    let config = http_gateway()
        .with_route(
            RouteConfigBuilder::new("default", "redirect-route")
                .attached_to("http")
                .with_rule(rule)
                .build(),
        )
        .build();
    let resp = send(&config, "http", &[], "original.com", "/old/page");
    assert!(resp.contains("302"));
    let resp = resp.to_lowercase();
    assert!(resp.contains("location:"));
    assert!(resp.contains("redirected.example.com"));
}

#[test]
fn redirect_with_path_replacement() {
    let rule = RouteRuleBuilder::new()
        .with_path_prefix("/")
        .with_filter(Filter::RequestRedirect {
            scheme: None,
            hostname: None,
            port: None,
            path: Some(PathModifier::ReplaceFullPath { value: "/new-location".to_string() }),
            status_code: Some(301),
        })
        .build();
    let config = http_gateway()
        .with_route(
            RouteConfigBuilder::new("default", "redirect-route")
                .attached_to("http")
                .with_rule(rule)
                .build(),
        )
        .build();
    let resp = send(&config, "http", &[], "example.com", "/old-path");
    assert!(resp.contains("301"));
    assert!(resp.to_lowercase().contains("/new-location"));
}

#[test]
fn redirect_does_not_contact_backend() {
    let contacted = Cell::new(false);
    let answer = |_: &str| {
        contacted.set(true);
        ok("should-not-see-this")
    };
    let servers = [Server { port: 9001, answer: &answer }];
    let rule = RouteRuleBuilder::new()
        .with_path_prefix("/")
        .with_filter(Filter::RequestRedirect {
            scheme: Some("https".to_string()),
            hostname: Some("elsewhere.com".to_string()),
            port: None,
            path: None,
            status_code: Some(302),
        })
        .with_backend(backend(9001))
        .build();
    let config = http_gateway()
        .with_route(
            RouteConfigBuilder::new("default", "redirect-route")
                .attached_to("http")
                .with_rule(rule)
                .build(),
        )
        .build();
    let resp = send(&config, "http", &servers, "original.com", "/test");
    assert!(resp.contains("302"));
    assert!(!contacted.get());
}

// -- Routing -----------------------------------------------------------------

#[test]
fn exact_path_match_routes_to_correct_backend() {
    let hit = |_: &str| ok("exact-hit");
    let servers = [Server { port: 9001, answer: &hit }];
    let rule =
        RouteRuleBuilder::new().with_exact_path("/exact").with_backend(backend(9001)).build();
    let config = http_gateway()
        .with_route(
            RouteConfigBuilder::new("default", "exact-route")
                .attached_to("http")
                .with_rule(rule)
                .build(),
        )
        .build();
    let resp = send(&config, "http", &servers, "127.0.0.1", "/exact");
    assert!(resp.contains("200"));
    assert!(resp.contains("exact-hit"));
    assert!(send(&config, "http", &servers, "127.0.0.1", "/exact/sub").contains("404"));
}

#[test]
fn prefix_path_match_routes_to_correct_backend() {
    let hit = |_: &str| ok("prefix-hit");
    let servers = [Server { port: 9001, answer: &hit }];
    let rule =
        RouteRuleBuilder::new().with_path_prefix("/api").with_backend(backend(9001)).build();
    let config = http_gateway()
        .with_route(
            RouteConfigBuilder::new("default", "prefix-route")
                .attached_to("http")
                .with_rule(rule)
                .build(),
        )
        .build();
    let resp = send(&config, "http", &servers, "127.0.0.1", "/api/users");
    assert!(resp.contains("200"));
    assert!(resp.contains("prefix-hit"));
    assert!(send(&config, "http", &servers, "127.0.0.1", "/apiversion").contains("404"));
}

#[test]
fn longer_prefix_wins_over_shorter_prefix() {
    let short = |_: &str| ok("short-prefix");
    let long = |_: &str| ok("long-prefix");
    let servers = [Server { port: 9001, answer: &short }, Server { port: 9002, answer: &long }];
    let config = http_gateway()
        .with_route(
            RouteConfigBuilder::new("default", "short-route")
                .attached_to("http")
                .with_rule(
                    RouteRuleBuilder::new()
                        .with_path_prefix("/api")
                        .with_backend(backend(9001))
                        .build(),
                )
                .build(),
        )
        .with_route(
            RouteConfigBuilder::new("default", "long-route")
                .attached_to("http")
                .with_rule(
                    RouteRuleBuilder::new()
                        .with_path_prefix("/api/users")
                        .with_backend(backend(9002))
                        .build(),
                )
                .build(),
        )
        .build();
    let resp = send(&config, "http", &servers, "127.0.0.1", "/api/users/123");
    assert!(resp.contains("200"));
    assert!(resp.contains("long-prefix"));
    let resp = send(&config, "http", &servers, "127.0.0.1", "/api/other");
    assert!(resp.contains("200"));
    assert!(resp.contains("short-prefix"));
}

#[test]
fn exact_match_wins_over_prefix_match() {
    let prefix = |_: &str| ok("prefix-backend");
    let exact = |_: &str| ok("exact-backend");
    let servers = [Server { port: 9001, answer: &prefix }, Server { port: 9002, answer: &exact }];
    let config = http_gateway()
        .with_route(
            RouteConfigBuilder::new("default", "prefix-route")
                .attached_to("http")
                .with_rule(
                    RouteRuleBuilder::new()
                        .with_path_prefix("/api")
                        .with_backend(backend(9001))
                        .build(),
                )
                .build(),
        )
        .with_route(
            RouteConfigBuilder::new("default", "exact-route")
                .attached_to("http")
                .with_rule(
                    RouteRuleBuilder::new()
                        .with_exact_path("/api")
                        .with_backend(backend(9002))
                        .build(),
                )
                .build(),
        )
        .build();
    let resp = send(&config, "http", &servers, "127.0.0.1", "/api");
    assert!(resp.contains("200"));
    assert!(resp.contains("exact-backend"));
    let resp = send(&config, "http", &servers, "127.0.0.1", "/api/sub");
    assert!(resp.contains("200"));
    assert!(resp.contains("prefix-backend"));
}

#[test]
fn hostname_exact_match_routes_correctly() {
    let hit = |_: &str| ok("host-match");
    let servers = [Server { port: 9001, answer: &hit }];
    let rule = RouteRuleBuilder::new().with_path_prefix("/").with_backend(backend(9001)).build();
    let config = http_gateway()
        .with_route(
            RouteConfigBuilder::new("default", "host-route")
                .attached_to("http")
                .with_hostname("example.com")
                .with_rule(rule)
                .build(),
        )
        .build();
    let resp = send(&config, "http", &servers, "example.com", "/test");
    assert!(resp.contains("200"));
    assert!(resp.contains("host-match"));
    assert!(send(&config, "http", &servers, "other.com", "/test").contains("404"));
}

#[test]
fn hostname_wildcard_match() {
    let hit = |_: &str| ok("wildcard-match");
    let servers = [Server { port: 9001, answer: &hit }];
    let rule = RouteRuleBuilder::new().with_path_prefix("/").with_backend(backend(9001)).build();
    let config = http_gateway()
        .with_route(
            RouteConfigBuilder::new("default", "wildcard-route")
                .attached_to("http")
                .with_hostname("*.example.com")
                .with_rule(rule)
                .build(),
        )
        .build();
    assert!(send(&config, "http", &servers, "foo.example.com", "/test").contains("200"));
    assert!(send(&config, "http", &servers, "example.com", "/test").contains("404"));
    assert!(send(&config, "http", &servers, "foo.bar.example.com", "/test").contains("404"));
}

#[test]
fn header_based_routing() {
    let hit = |_: &str| ok("header-route-hit");
    let servers = [Server { port: 9001, answer: &hit }];
    let rule = RouteRuleBuilder::new()
        .with_match(RouteMatch {
            path: Some(PathMatch {
                match_type: PathMatchType::PathPrefix,
                value: "/".to_string(),
            }),
            headers: vec![HeaderMatch {
                name: "X-Version".to_string(),
                match_type: HeaderMatchType::Exact,
                value: "v2".to_string(),
            }],
            query_params: vec![],
            method: None,
        })
        .with_backend(backend(9001))
        .build();
    let config = http_gateway()
        .with_route(
            RouteConfigBuilder::new("default", "header-route")
                .attached_to("http")
                .with_rule(rule)
                .build(),
        )
        .build();
    let resp = send_raw(
        &config,
        "http",
        &servers,
        "GET /test HTTP/1.1\r\nHost: 127.0.0.1\r\nX-Version: v2\r\nConnection: close\r\n\r\n",
    );
    assert!(resp.contains("200"));
    assert!(send(&config, "http", &servers, "127.0.0.1", "/test").contains("404"));
}

#[test]
fn multiple_routes_to_different_backends() {
    let api = |_: &str| ok("api-backend");
    let web = |_: &str| ok("web-backend");
    let servers = [Server { port: 9001, answer: &api }, Server { port: 9002, answer: &web }];
    let config = http_gateway()
        .with_route(
            RouteConfigBuilder::new("default", "api-route")
                .attached_to("http")
                .with_rule(
                    RouteRuleBuilder::new()
                        .with_path_prefix("/api")
                        .with_backend(backend(9001))
                        .build(),
                )
                .build(),
        )
        .with_route(
            RouteConfigBuilder::new("default", "web-route")
                .attached_to("http")
                .with_rule(
                    RouteRuleBuilder::new()
                        .with_path_prefix("/web")
                        .with_backend(backend(9002))
                        .build(),
                )
                .build(),
        )
        .build();
    assert!(send(&config, "http", &servers, "127.0.0.1", "/api/data").contains("api-backend"));
    assert!(send(&config, "http", &servers, "127.0.0.1", "/web/page").contains("web-backend"));
}

#[test]
fn no_matching_route_returns_404() {
    let config = http_gateway().build();
    assert!(send(&config, "http", &[], "127.0.0.1", "/anything").contains("404"));
}

#[test]
fn multiple_listeners_route_independently() {
    let api = |_: &str| ok("api-listener");
    let web = |_: &str| ok("web-listener");
    let servers = [Server { port: 9001, answer: &api }, Server { port: 9002, answer: &web }];
    let config = ProxyConfigBuilder::new("default", "gw")
        .with_http_listener("api-listener", 8081, None)
        .with_http_listener("web-listener", 8082, None)
        .with_route(
            RouteConfigBuilder::new("default", "api-route")
                .attached_to("api-listener")
                .with_rule(
                    RouteRuleBuilder::new()
                        .with_path_prefix("/")
                        .with_backend(backend(9001))
                        .build(),
                )
                .build(),
        )
        .with_route(
            RouteConfigBuilder::new("default", "web-route")
                .attached_to("web-listener")
                .with_rule(
                    RouteRuleBuilder::new()
                        .with_path_prefix("/")
                        .with_backend(backend(9002))
                        .build(),
                )
                .build(),
        )
        .build();
    let resp = send(&config, "api-listener", &servers, "127.0.0.1", "/test");
    assert!(resp.contains("api-listener"));
    let resp = send(&config, "web-listener", &servers, "127.0.0.1", "/test");
    assert!(resp.contains("web-listener"));
}

#[test]
fn multiple_listeners_different_ports() {
    let dual = |_: &str| ok("dual-listener");
    let servers = [Server { port: 9001, answer: &dual }];
    let config = ProxyConfigBuilder::new("default", "gw")
        .with_http_listener("http1", 8081, None)
        .with_http_listener("http2", 8082, None)
        .with_route(
            RouteConfigBuilder::new("default", "route-1")
                .attached_to("http1")
                .attached_to("http2")
                .with_rule(
                    RouteRuleBuilder::new()
                        .with_path_prefix("/")
                        .with_backend(backend(9001))
                        .build(),
                )
                .build(),
        )
        .build();
    let resp = send(&config, "http1", &servers, "127.0.0.1", "/test1");
    assert!(resp.contains("200"));
    assert!(resp.contains("dual-listener"));
    let resp = send(&config, "http2", &servers, "127.0.0.1", "/test2");
    assert!(resp.contains("200"));
    assert!(resp.contains("dual-listener"));
}
