use multiway::config::{
    Backend, Filter, HeaderMatch, HeaderMatchType, HeaderValue, PathMatch, PathMatchType,
    ProxyConfig, ProxyConfigBuilder, QueryParamMatch, QueryParamMatchType, RouteConfigBuilder,
    RouteMatch, RouteRule, RouteRuleBuilder, Seconds, TimeoutConfig,
};
use multiway::routing::{prefix_path_matches, route, strip_port, RequestMeta, RoutingDecision};

fn seconds(s: f64) -> Option<Seconds> {
    Some(Seconds { bits: s.to_bits() })
}

// Helper to create a basic request.
fn request<'a>(host: Option<&'a str>, path: &'a str) -> RequestMeta<'a> {
    RequestMeta {
        host,
        path,
        method: "GET",
        headers: &[],
        query_params: &[],
    }
}

// Helper to create a basic config with one HTTP listener and one route.
fn simple_config(
    path_type: PathMatchType,
    path_value: &str,
    hostnames: &[&str],
) -> ProxyConfig {
    let mut builder = RouteConfigBuilder::new("default", "route-1").attached_to("http");
    for h in hostnames {
        builder = builder.with_hostname(h);
    }
    builder = builder.with_rule(
        RouteRuleBuilder::new()
            .with_match(RouteMatch {
                path: Some(PathMatch {
                    match_type: path_type,
                    value: path_value.to_string(),
                }),
                ..Default::default()
            })
            .with_backend(Backend::new("default", "svc", 8080))
            .build(),
    );

    ProxyConfigBuilder::new("default", "gw")
        .with_http_listener("http", 80, None)
        .with_route(builder.build())
        .build()
}

// -- Exact path matching -------------------------------------------------

#[test]
fn exact_path_matches_identical() {
    let config = simple_config(PathMatchType::Exact, "/one", &[]);
    let req = request(None, "/one");
    assert!(matches!(
        route(&config, "http", &req),
        RoutingDecision::Forward { .. }
    ));
}

#[test]
fn exact_path_does_not_match_trailing_slash() {
    let config = simple_config(PathMatchType::Exact, "/one", &[]);
    let req = request(None, "/one/");
    assert!(matches!(
        route(&config, "http", &req),
        RoutingDecision::NotFound
    ));
}

#[test]
fn exact_path_is_case_sensitive() {
    let config = simple_config(PathMatchType::Exact, "/one", &[]);
    let req = request(None, "/One");
    assert!(matches!(
        route(&config, "http", &req),
        RoutingDecision::NotFound
    ));
}

#[test]
fn exact_path_does_not_match_subpath() {
    let config = simple_config(PathMatchType::Exact, "/one", &[]);
    let req = request(None, "/one/example");
    assert!(matches!(
        route(&config, "http", &req),
        RoutingDecision::NotFound
    ));
}

// -- PathPrefix matching -------------------------------------------------

#[test]
fn path_prefix_matches_exact() {
    let config = simple_config(PathMatchType::PathPrefix, "/api", &[]);
    let req = request(None, "/api");
    assert!(matches!(
        route(&config, "http", &req),
        RoutingDecision::Forward { .. }
    ));
}

#[test]
fn path_prefix_matches_subpath() {
    let config = simple_config(PathMatchType::PathPrefix, "/api", &[]);
    let req = request(None, "/api/users");
    assert!(matches!(
        route(&config, "http", &req),
        RoutingDecision::Forward { .. }
    ));
}

#[test]
fn path_prefix_segment_boundary_no_partial_match() {
    let config = simple_config(PathMatchType::PathPrefix, "/api", &[]);
    let req = request(None, "/apiversion");
    assert!(matches!(
        route(&config, "http", &req),
        RoutingDecision::NotFound
    ));
}

#[test]
fn path_prefix_root_matches_everything() {
    let config = simple_config(PathMatchType::PathPrefix, "/", &[]);
    let req = request(None, "/anything/at/all");
    assert!(matches!(
        route(&config, "http", &req),
        RoutingDecision::Forward { .. }
    ));
}

// -- Regex path matching -------------------------------------------------

#[test]
fn regex_path_matches() {
    let config = simple_config(PathMatchType::RegularExpression, r"^/api/v\d+/.*", &[]);
    let req = request(None, "/api/v2/users");
    assert!(matches!(
        route(&config, "http", &req),
        RoutingDecision::Forward { .. }
    ));
}

#[test]
fn regex_path_does_not_match() {
    let config = simple_config(PathMatchType::RegularExpression, r"^/api/v\d+/.*", &[]);
    let req = request(None, "/api/latest/users");
    assert!(matches!(
        route(&config, "http", &req),
        RoutingDecision::NotFound
    ));
}

// -- Path precedence: exact > prefix; longer prefix > shorter ------------

#[test]
fn exact_path_beats_prefix() {
    let config = ProxyConfigBuilder::new("default", "gw")
        .with_http_listener("http", 80, None)
        .with_route(
            RouteConfigBuilder::new("default", "prefix-route")
                .attached_to("http")
                .with_rule(
                    RouteRuleBuilder::new()
                        .with_path_prefix("/api")
                        .with_backend(Backend::new("default", "prefix-svc", 8080))
                        .build(),
                )
                .build(),
        )
        .with_route(
            RouteConfigBuilder::new("default", "exact-route")
                .attached_to("http")
                .with_rule(
                    RouteRuleBuilder::new()
                        .with_exact_path("/api")
                        .with_backend(Backend::new("default", "exact-svc", 9090))
                        .build(),
                )
                .build(),
        )
        .build();

    let req = request(None, "/api");
    match route(&config, "http", &req) {
        RoutingDecision::Forward { backends, .. } => {
            assert_eq!(backends[0].name, "exact-svc");
        }
        other => panic!("Expected Forward, got {other:?}"),
    }
}

#[test]
fn longer_prefix_beats_shorter() {
    let config = ProxyConfigBuilder::new("default", "gw")
        .with_http_listener("http", 80, None)
        .with_route(
            RouteConfigBuilder::new("default", "short-route")
                .attached_to("http")
                .with_rule(
                    RouteRuleBuilder::new()
                        .with_path_prefix("/api")
                        .with_backend(Backend::new("default", "short-svc", 8080))
                        .build(),
                )
                .build(),
        )
        .with_route(
            RouteConfigBuilder::new("default", "long-route")
                .attached_to("http")
                .with_rule(
                    RouteRuleBuilder::new()
                        .with_path_prefix("/api/users")
                        .with_backend(Backend::new("default", "long-svc", 9090))
                        .build(),
                )
                .build(),
        )
        .build();

    let req = request(None, "/api/users/123");
    match route(&config, "http", &req) {
        RoutingDecision::Forward { backends, .. } => {
            assert_eq!(backends[0].name, "long-svc");
        }
        other => panic!("Expected Forward, got {other:?}"),
    }
}

// -- Hostname matching ---------------------------------------------------

#[test]
fn exact_hostname_matches() {
    let config = simple_config(PathMatchType::PathPrefix, "/", &["example.com"]);
    let req = request(Some("example.com"), "/");
    assert!(matches!(
        route(&config, "http", &req),
        RoutingDecision::Forward { .. }
    ));
}

#[test]
fn exact_hostname_case_insensitive() {
    let config = simple_config(PathMatchType::PathPrefix, "/", &["Example.COM"]);
    let req = request(Some("example.com"), "/");
    assert!(matches!(
        route(&config, "http", &req),
        RoutingDecision::Forward { .. }
    ));
}

#[test]
fn exact_hostname_no_match() {
    let config = simple_config(PathMatchType::PathPrefix, "/", &["other.com"]);
    let req = request(Some("example.com"), "/");
    assert!(matches!(
        route(&config, "http", &req),
        RoutingDecision::NotFound
    ));
}

#[test]
fn wildcard_hostname_matches_subdomain() {
    let config = simple_config(PathMatchType::PathPrefix, "/", &["*.example.com"]);
    let req = request(Some("foo.example.com"), "/");
    assert!(matches!(
        route(&config, "http", &req),
        RoutingDecision::Forward { .. }
    ));
}

#[test]
fn wildcard_hostname_does_not_match_bare_domain() {
    let config = simple_config(PathMatchType::PathPrefix, "/", &["*.example.com"]);
    let req = request(Some("example.com"), "/");
    assert!(matches!(
        route(&config, "http", &req),
        RoutingDecision::NotFound
    ));
}

#[test]
fn wildcard_hostname_does_not_match_nested_subdomain() {
    let config = simple_config(PathMatchType::PathPrefix, "/", &["*.example.com"]);
    let req = request(Some("foo.bar.example.com"), "/");
    assert!(matches!(
        route(&config, "http", &req),
        RoutingDecision::NotFound
    ));
}

#[test]
fn hostname_port_stripping() {
    let config = simple_config(PathMatchType::PathPrefix, "/", &["example.com"]);
    let req = request(Some("example.com:8080"), "/");
    assert!(matches!(
        route(&config, "http", &req),
        RoutingDecision::Forward { .. }
    ));
}

#[test]
fn empty_hostname_list_matches_all() {
    let config = simple_config(PathMatchType::PathPrefix, "/", &[]);
    let req = request(Some("anything.example.com"), "/");
    assert!(matches!(
        route(&config, "http", &req),
        RoutingDecision::Forward { .. }
    ));
}

#[test]
fn no_host_header_with_hostnames_is_not_found() {
    let config = simple_config(PathMatchType::PathPrefix, "/", &["example.com"]);
    let req = request(None, "/");
    assert!(matches!(
        route(&config, "http", &req),
        RoutingDecision::NotFound
    ));
}

// -- Header matching -----------------------------------------------------

#[test]
fn header_exact_match() {
    let config = ProxyConfigBuilder::new("default", "gw")
        .with_http_listener("http", 80, None)
        .with_route(
            RouteConfigBuilder::new("default", "route")
                .attached_to("http")
                .with_rule(
                    RouteRuleBuilder::new()
                        .with_match(RouteMatch {
                            path: Some(PathMatch::default()),
                            headers: vec![HeaderMatch {
                                name: "X-Version".to_string(),
                                match_type: HeaderMatchType::Exact,
                                value: "v2".to_string(),
                            }],
                            ..Default::default()
                        })
                        .with_backend(Backend::new("default", "svc", 8080))
                        .build(),
                )
                .build(),
        )
        .build();

    let headers = [("X-Version", "v2")];
    let req = RequestMeta {
        host: None,
        path: "/",
        method: "GET",
        headers: &headers,
        query_params: &[],
    };
    assert!(matches!(
        route(&config, "http", &req),
        RoutingDecision::Forward { .. }
    ));
}

#[test]
fn header_name_case_insensitive() {
    let config = ProxyConfigBuilder::new("default", "gw")
        .with_http_listener("http", 80, None)
        .with_route(
            RouteConfigBuilder::new("default", "route")
                .attached_to("http")
                .with_rule(
                    RouteRuleBuilder::new()
                        .with_match(RouteMatch {
                            path: Some(PathMatch::default()),
                            headers: vec![HeaderMatch {
                                name: "X-Version".to_string(),
                                match_type: HeaderMatchType::Exact,
                                value: "v2".to_string(),
                            }],
                            ..Default::default()
                        })
                        .with_backend(Backend::new("default", "svc", 8080))
                        .build(),
                )
                .build(),
        )
        .build();

    let headers = [("x-version", "v2")];
    let req = RequestMeta {
        host: None,
        path: "/",
        method: "GET",
        headers: &headers,
        query_params: &[],
    };
    assert!(matches!(
        route(&config, "http", &req),
        RoutingDecision::Forward { .. }
    ));
}

#[test]
fn header_value_is_case_sensitive() {
    let config = ProxyConfigBuilder::new("default", "gw")
        .with_http_listener("http", 80, None)
        .with_route(
            RouteConfigBuilder::new("default", "route")
                .attached_to("http")
                .with_rule(
                    RouteRuleBuilder::new()
                        .with_match(RouteMatch {
                            path: Some(PathMatch::default()),
                            headers: vec![HeaderMatch {
                                name: "X-Version".to_string(),
                                match_type: HeaderMatchType::Exact,
                                value: "v2".to_string(),
                            }],
                            ..Default::default()
                        })
                        .with_backend(Backend::new("default", "svc", 8080))
                        .build(),
                )
                .build(),
        )
        .build();

    let headers = [("X-Version", "V2")];
    let req = RequestMeta {
        host: None,
        path: "/",
        method: "GET",
        headers: &headers,
        query_params: &[],
    };
    assert!(matches!(
        route(&config, "http", &req),
        RoutingDecision::NotFound
    ));
}

#[test]
fn header_and_semantics_all_must_match() {
    let config = ProxyConfigBuilder::new("default", "gw")
        .with_http_listener("http", 80, None)
        .with_route(
            RouteConfigBuilder::new("default", "route")
                .attached_to("http")
                .with_rule(
                    RouteRuleBuilder::new()
                        .with_match(RouteMatch {
                            path: Some(PathMatch::default()),
                            headers: vec![
                                HeaderMatch {
                                    name: "X-A".to_string(),
                                    match_type: HeaderMatchType::Exact,
                                    value: "1".to_string(),
                                },
                                HeaderMatch {
                                    name: "X-B".to_string(),
                                    match_type: HeaderMatchType::Exact,
                                    value: "2".to_string(),
                                },
                            ],
                            ..Default::default()
                        })
                        .with_backend(Backend::new("default", "svc", 8080))
                        .build(),
                )
                .build(),
        )
        .build();

    // Only one of two required headers is present.
    let headers = [("X-A", "1")];
    let req = RequestMeta {
        host: None,
        path: "/",
        method: "GET",
        headers: &headers,
        query_params: &[],
    };
    assert!(matches!(
        route(&config, "http", &req),
        RoutingDecision::NotFound
    ));

    // Both headers present.
    let headers = [("X-A", "1"), ("X-B", "2")];
    let req = RequestMeta {
        host: None,
        path: "/",
        method: "GET",
        headers: &headers,
        query_params: &[],
    };
    assert!(matches!(
        route(&config, "http", &req),
        RoutingDecision::Forward { .. }
    ));
}

// -- Query parameter matching --------------------------------------------

#[test]
fn query_param_exact_match() {
    let config = ProxyConfigBuilder::new("default", "gw")
        .with_http_listener("http", 80, None)
        .with_route(
            RouteConfigBuilder::new("default", "route")
                .attached_to("http")
                .with_rule(
                    RouteRuleBuilder::new()
                        .with_match(RouteMatch {
                            path: Some(PathMatch::default()),
                            query_params: vec![QueryParamMatch {
                                name: "page".to_string(),
                                match_type: QueryParamMatchType::Exact,
                                value: "1".to_string(),
                            }],
                            ..Default::default()
                        })
                        .with_backend(Backend::new("default", "svc", 8080))
                        .build(),
                )
                .build(),
        )
        .build();

    let qp = [("page", "1")];
    let req = RequestMeta {
        host: None,
        path: "/",
        method: "GET",
        headers: &[],
        query_params: &qp,
    };
    assert!(matches!(
        route(&config, "http", &req),
        RoutingDecision::Forward { .. }
    ));
}

#[test]
fn query_param_case_sensitive() {
    let config = ProxyConfigBuilder::new("default", "gw")
        .with_http_listener("http", 80, None)
        .with_route(
            RouteConfigBuilder::new("default", "route")
                .attached_to("http")
                .with_rule(
                    RouteRuleBuilder::new()
                        .with_match(RouteMatch {
                            path: Some(PathMatch::default()),
                            query_params: vec![QueryParamMatch {
                                name: "Page".to_string(),
                                match_type: QueryParamMatchType::Exact,
                                value: "1".to_string(),
                            }],
                            ..Default::default()
                        })
                        .with_backend(Backend::new("default", "svc", 8080))
                        .build(),
                )
                .build(),
        )
        .build();

    // Name is case-sensitive: "page" != "Page".
    let qp = [("page", "1")];
    let req = RequestMeta {
        host: None,
        path: "/",
        method: "GET",
        headers: &[],
        query_params: &qp,
    };
    assert!(matches!(
        route(&config, "http", &req),
        RoutingDecision::NotFound
    ));
}

#[test]
fn query_param_and_semantics() {
    let config = ProxyConfigBuilder::new("default", "gw")
        .with_http_listener("http", 80, None)
        .with_route(
            RouteConfigBuilder::new("default", "route")
                .attached_to("http")
                .with_rule(
                    RouteRuleBuilder::new()
                        .with_match(RouteMatch {
                            path: Some(PathMatch::default()),
                            query_params: vec![
                                QueryParamMatch {
                                    name: "a".to_string(),
                                    match_type: QueryParamMatchType::Exact,
                                    value: "1".to_string(),
                                },
                                QueryParamMatch {
                                    name: "b".to_string(),
                                    match_type: QueryParamMatchType::Exact,
                                    value: "2".to_string(),
                                },
                            ],
                            ..Default::default()
                        })
                        .with_backend(Backend::new("default", "svc", 8080))
                        .build(),
                )
                .build(),
        )
        .build();

    // Only one of two required params.
    let qp = [("a", "1")];
    let req = RequestMeta {
        host: None,
        path: "/",
        method: "GET",
        headers: &[],
        query_params: &qp,
    };
    assert!(matches!(
        route(&config, "http", &req),
        RoutingDecision::NotFound
    ));

    // Both present.
    let qp = [("a", "1"), ("b", "2")];
    let req = RequestMeta {
        host: None,
        path: "/",
        method: "GET",
        headers: &[],
        query_params: &qp,
    };
    assert!(matches!(
        route(&config, "http", &req),
        RoutingDecision::Forward { .. }
    ));
}

// -- Method matching -----------------------------------------------------

#[test]
fn method_matching_case_insensitive() {
    let config = ProxyConfigBuilder::new("default", "gw")
        .with_http_listener("http", 80, None)
        .with_route(
            RouteConfigBuilder::new("default", "route")
                .attached_to("http")
                .with_rule(
                    RouteRuleBuilder::new()
                        .with_match(RouteMatch {
                            path: Some(PathMatch::default()),
                            method: Some("POST".to_string()),
                            ..Default::default()
                        })
                        .with_backend(Backend::new("default", "svc", 8080))
                        .build(),
                )
                .build(),
        )
        .build();

    let req = RequestMeta {
        host: None,
        path: "/",
        method: "post",
        headers: &[],
        query_params: &[],
    };
    assert!(matches!(
        route(&config, "http", &req),
        RoutingDecision::Forward { .. }
    ));

    // Wrong method.
    let req = RequestMeta {
        host: None,
        path: "/",
        method: "GET",
        headers: &[],
        query_params: &[],
    };
    assert!(matches!(
        route(&config, "http", &req),
        RoutingDecision::NotFound
    ));
}

// -- Listener attachment -------------------------------------------------

#[test]
fn unattached_route_is_not_found() {
    let config = ProxyConfigBuilder::new("default", "gw")
        .with_http_listener("http", 80, None)
        .with_http_listener("internal", 8080, None)
        .with_route(
            RouteConfigBuilder::new("default", "route")
                .attached_to("internal")
                .with_rule(
                    RouteRuleBuilder::new()
                        .with_path_prefix("/")
                        .with_backend(Backend::new("default", "svc", 8080))
                        .build(),
                )
                .build(),
        )
        .build();

    let req = request(None, "/anything");
    // Route is attached to "internal", not "http".
    assert!(matches!(
        route(&config, "http", &req),
        RoutingDecision::NotFound
    ));
    // But it matches on "internal".
    assert!(matches!(
        route(&config, "internal", &req),
        RoutingDecision::Forward { .. }
    ));
}

// -- Multiple matches in a rule (OR semantics) ---------------------------

#[test]
fn multiple_matches_or_semantics() {
    let config = ProxyConfigBuilder::new("default", "gw")
        .with_http_listener("http", 80, None)
        .with_route(
            RouteConfigBuilder::new("default", "route")
                .attached_to("http")
                .with_rule(
                    RouteRuleBuilder::new()
                        .with_match(RouteMatch {
                            path: Some(PathMatch {
                                match_type: PathMatchType::Exact,
                                value: "/a".to_string(),
                            }),
                            ..Default::default()
                        })
                        .with_match(RouteMatch {
                            path: Some(PathMatch {
                                match_type: PathMatchType::Exact,
                                value: "/b".to_string(),
                            }),
                            ..Default::default()
                        })
                        .with_backend(Backend::new("default", "svc", 8080))
                        .build(),
                )
                .build(),
        )
        .build();

    assert!(matches!(
        route(&config, "http", &request(None, "/a")),
        RoutingDecision::Forward { .. }
    ));
    assert!(matches!(
        route(&config, "http", &request(None, "/b")),
        RoutingDecision::Forward { .. }
    ));
    assert!(matches!(
        route(&config, "http", &request(None, "/c")),
        RoutingDecision::NotFound
    ));
}

// -- Multiple conditions in a match (AND semantics) ----------------------

#[test]
fn multiple_conditions_and_semantics() {
    let config = ProxyConfigBuilder::new("default", "gw")
        .with_http_listener("http", 80, None)
        .with_route(
            RouteConfigBuilder::new("default", "route")
                .attached_to("http")
                .with_rule(
                    RouteRuleBuilder::new()
                        .with_match(RouteMatch {
                            path: Some(PathMatch {
                                match_type: PathMatchType::PathPrefix,
                                value: "/api".to_string(),
                            }),
                            method: Some("POST".to_string()),
                            headers: vec![HeaderMatch {
                                name: "Content-Type".to_string(),
                                match_type: HeaderMatchType::Exact,
                                value: "application/json".to_string(),
                            }],
                            ..Default::default()
                        })
                        .with_backend(Backend::new("default", "svc", 8080))
                        .build(),
                )
                .build(),
        )
        .build();

    // All conditions met.
    let headers = [("Content-Type", "application/json")];
    let req = RequestMeta {
        host: None,
        path: "/api/data",
        method: "POST",
        headers: &headers,
        query_params: &[],
    };
    assert!(matches!(
        route(&config, "http", &req),
        RoutingDecision::Forward { .. }
    ));

    // Wrong method.
    let req = RequestMeta {
        host: None,
        path: "/api/data",
        method: "GET",
        headers: &headers,
        query_params: &[],
    };
    assert!(matches!(
        route(&config, "http", &req),
        RoutingDecision::NotFound
    ));

    // Wrong path.
    let req = RequestMeta {
        host: None,
        path: "/other",
        method: "POST",
        headers: &headers,
        query_params: &[],
    };
    assert!(matches!(
        route(&config, "http", &req),
        RoutingDecision::NotFound
    ));

    // Missing header.
    let req = RequestMeta {
        host: None,
        path: "/api/data",
        method: "POST",
        headers: &[],
        query_params: &[],
    };
    assert!(matches!(
        route(&config, "http", &req),
        RoutingDecision::NotFound
    ));
}

// -- No routes → NotFound ------------------------------------------------

#[test]
fn no_routes_returns_not_found() {
    let config = ProxyConfigBuilder::new("default", "gw")
        .with_http_listener("http", 80, None)
        .build();

    let req = request(None, "/anything");
    assert!(matches!(
        route(&config, "http", &req),
        RoutingDecision::NotFound
    ));
}

// -- Empty matches → matches all -----------------------------------------

#[test]
fn empty_matches_matches_all() {
    let config = ProxyConfigBuilder::new("default", "gw")
        .with_http_listener("http", 80, None)
        .with_route(
            RouteConfigBuilder::new("default", "route")
                .attached_to("http")
                .with_rule(RouteRule {
                    name: None,
                    matches: Vec::new(),
                    filters: Vec::new(),
                    backends: vec![Backend::new("default", "svc", 8080)],
                    timeout: None,
                })
                .build(),
        )
        .build();

    let req = request(Some("any.host"), "/any/path");
    assert!(matches!(
        route(&config, "http", &req),
        RoutingDecision::Forward { .. }
    ));
}

// -- Redirect filter -----------------------------------------------------

#[test]
fn redirect_filter_returns_redirect() {
    let config = ProxyConfigBuilder::new("default", "gw")
        .with_http_listener("http", 80, None)
        .with_route(
            RouteConfigBuilder::new("default", "route")
                .attached_to("http")
                .with_rule(
                    RouteRuleBuilder::new()
                        .with_path_prefix("/old")
                        .with_filter(Filter::RequestRedirect {
                            scheme: Some("https".to_string()),
                            hostname: Some("new.example.com".to_string()),
                            port: Some(443),
                            path: None,
                            status_code: Some(301),
                        })
                        .build(),
                )
                .build(),
        )
        .build();

    let req = request(Some("old.example.com"), "/old/page");
    match route(&config, "http", &req) {
        RoutingDecision::Redirect(redir) => {
            assert_eq!(redir.status_code, 301);
            assert_eq!(redir.location, "https://new.example.com:443/old/page");
        }
        other => panic!("Expected Redirect, got {other:?}"),
    }
}

// -- Forward returns correct data ----------------------------------------

#[test]
fn forward_returns_backends_filters_timeout() {
    let config = ProxyConfigBuilder::new("default", "gw")
        .with_http_listener("http", 80, None)
        .with_route(
            RouteConfigBuilder::new("default", "route")
                .attached_to("http")
                .with_rule(
                    RouteRuleBuilder::new()
                        .with_path_prefix("/")
                        .with_backend(Backend::new("default", "svc-a", 8080))
                        .with_backend(Backend::new("default", "svc-b", 9090).with_weight(3))
                        .with_filter(Filter::request_header_add(vec![
                            HeaderValue {
                                name: "X-Proxy".to_string(),
                                value: "multiway".to_string(),
                            },
                        ]))
                        .with_timeout(TimeoutConfig {
                            request: seconds(30.0),
                            backend_request: seconds(10.0),
                        })
                        .build(),
                )
                .build(),
        )
        .build();

    let req = request(None, "/anything");
    match route(&config, "http", &req) {
        RoutingDecision::Forward {
            backends,
            filters,
            timeout,
        } => {
            assert_eq!(backends.len(), 2);
            assert_eq!(backends[0].name, "svc-a");
            assert_eq!(backends[1].name, "svc-b");
            assert_eq!(backends[1].weight, 3);
            assert_eq!(filters.len(), 1);
            let t = timeout.unwrap();
            assert_eq!(t.request, seconds(30.0));
            assert_eq!(t.backend_request, seconds(10.0));
        }
        other => panic!("Expected Forward, got {other:?}"),
    }
}

// -- Header regex matching -----------------------------------------------

#[test]
fn header_regex_match() {
    let config = ProxyConfigBuilder::new("default", "gw")
        .with_http_listener("http", 80, None)
        .with_route(
            RouteConfigBuilder::new("default", "route")
                .attached_to("http")
                .with_rule(
                    RouteRuleBuilder::new()
                        .with_match(RouteMatch {
                            path: Some(PathMatch::default()),
                            headers: vec![HeaderMatch {
                                name: "Authorization".to_string(),
                                match_type: HeaderMatchType::RegularExpression,
                                value: r"^Bearer .+".to_string(),
                            }],
                            ..Default::default()
                        })
                        .with_backend(Backend::new("default", "svc", 8080))
                        .build(),
                )
                .build(),
        )
        .build();

    let headers = [("Authorization", "Bearer abc123")];
    let req = RequestMeta {
        host: None,
        path: "/",
        method: "GET",
        headers: &headers,
        query_params: &[],
    };
    assert!(matches!(
        route(&config, "http", &req),
        RoutingDecision::Forward { .. }
    ));

    let headers = [("Authorization", "Basic abc123")];
    let req = RequestMeta {
        host: None,
        path: "/",
        method: "GET",
        headers: &headers,
        query_params: &[],
    };
    assert!(matches!(
        route(&config, "http", &req),
        RoutingDecision::NotFound
    ));
}

// -- Query param regex matching ------------------------------------------

#[test]
fn query_param_regex_match() {
    let config = ProxyConfigBuilder::new("default", "gw")
        .with_http_listener("http", 80, None)
        .with_route(
            RouteConfigBuilder::new("default", "route")
                .attached_to("http")
                .with_rule(
                    RouteRuleBuilder::new()
                        .with_match(RouteMatch {
                            path: Some(PathMatch::default()),
                            query_params: vec![QueryParamMatch {
                                name: "id".to_string(),
                                match_type: QueryParamMatchType::RegularExpression,
                                value: r"^\d+$".to_string(),
                            }],
                            ..Default::default()
                        })
                        .with_backend(Backend::new("default", "svc", 8080))
                        .build(),
                )
                .build(),
        )
        .build();

    let qp = [("id", "42")];
    let req = RequestMeta {
        host: None,
        path: "/",
        method: "GET",
        headers: &[],
        query_params: &qp,
    };
    assert!(matches!(
        route(&config, "http", &req),
        RoutingDecision::Forward { .. }
    ));

    let qp = [("id", "abc")];
    let req = RequestMeta {
        host: None,
        path: "/",
        method: "GET",
        headers: &[],
        query_params: &qp,
    };
    assert!(matches!(
        route(&config, "http", &req),
        RoutingDecision::NotFound
    ));
}

// -- prefix_path_matches unit tests --------------------------------------

#[test]
fn prefix_path_unit_tests() {
    // Exact match
    assert!(prefix_path_matches("/api", "/api"));
    // Subpath
    assert!(prefix_path_matches("/api", "/api/users"));
    // No partial segment match
    assert!(!prefix_path_matches("/api", "/apiversion"));
    // Root matches everything
    assert!(prefix_path_matches("/", "/"));
    assert!(prefix_path_matches("/", "/anything"));
    // Deeper paths
    assert!(prefix_path_matches("/a/b", "/a/b/c"));
    assert!(!prefix_path_matches("/a/b", "/a/bc"));
}

// -- strip_port unit tests -----------------------------------------------

#[test]
fn strip_port_unit_tests() {
    assert_eq!(strip_port("example.com:8080"), "example.com");
    assert_eq!(strip_port("example.com"), "example.com");
    assert_eq!(strip_port("[::1]:8080"), "[::1]:8080"); // IPv6 not stripped
}
