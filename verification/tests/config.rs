use multiway::config::{
    Backend, BackendProtocol, CertificateRef, Filter, HeaderValue, PathMatchType,
    ProxyConfigBuilder, RouteConfigBuilder, RouteRule, RouteRuleBuilder, Seconds, TimeoutConfig,
    TlsConfig, TlsMode,
};

fn seconds(s: f64) -> Option<Seconds> {
    Some(Seconds { bits: s.to_bits() })
}

#[test]
fn backend_default_protocol_is_http1() {
    let b = Backend::new("ns", "svc", 80);
    assert_eq!(b.protocol, BackendProtocol::Http1);
}

#[test]
fn builder_constructs_complete_config() {
    let config = ProxyConfigBuilder::new("prod", "main-gw")
        .with_http_listener("http", 80, None)
        .with_https_listener(
            "https",
            443,
            Some("*.example.com".to_string()),
            TlsConfig {
                mode: TlsMode::Terminate,
                certificates: vec![CertificateRef {
                    namespace: "prod".to_string(),
                    name: "wildcard-cert".to_string(),
                }],
                inline_certificates: Vec::new(),
            },
        )
        .with_route(
            RouteConfigBuilder::new("prod", "api-route")
                .with_hostname("api.example.com")
                .attached_to("http")
                .attached_to("https")
                .with_rule(
                    RouteRuleBuilder::new()
                        .with_name("api-v1")
                        .with_path_prefix("/v1")
                        .with_filter(Filter::request_header_add(vec![HeaderValue {
                            name: "X-Version".to_string(),
                            value: "1".to_string(),
                        }]))
                        .with_backend(Backend::new("prod", "api-svc", 8080))
                        .with_timeout(TimeoutConfig {
                            request: seconds(60.0),
                            backend_request: seconds(30.0),
                        })
                        .build(),
                )
                .with_rule(
                    RouteRuleBuilder::new()
                        .with_exact_path("/healthz")
                        .with_backend(Backend::new("prod", "health-svc", 8081))
                        .build(),
                )
                .build(),
        )
        .build();

    assert_eq!(config.version, "v1");
    assert_eq!(config.gateway.namespace, "prod");
    assert_eq!(config.gateway.name, "main-gw");
    assert_eq!(config.listeners.len(), 2);
    assert_eq!(config.routes.len(), 1);

    let route = &config.routes[0];
    assert_eq!(route.attached_listeners.len(), 2);
    assert_eq!(route.rules.len(), 2);
    assert_eq!(route.rules[0].name.as_deref(), Some("api-v1"));
    assert_eq!(route.rules[0].backends[0].name, "api-svc");
    assert!(route.rules[0].timeout.is_some());
    assert_eq!(
        route.rules[1].matches[0].path.as_ref().unwrap().match_type,
        PathMatchType::Exact
    );
}

#[test]
fn routes_for_listener_filters_correctly() {
    let config = ProxyConfigBuilder::new("default", "gw")
        .with_http_listener("http", 80, None)
        .with_http_listener("internal", 8080, None)
        .with_route(
            RouteConfigBuilder::new("default", "public")
                .attached_to("http")
                .with_rule(RouteRule::default())
                .build(),
        )
        .with_route(
            RouteConfigBuilder::new("default", "internal")
                .attached_to("internal")
                .with_rule(RouteRule::default())
                .build(),
        )
        .with_route(
            RouteConfigBuilder::new("default", "both")
                .attached_to("http")
                .attached_to("internal")
                .with_rule(RouteRule::default())
                .build(),
        )
        .build();

    let http_routes = config.routes_for_listener("http");
    assert_eq!(http_routes.len(), 2);
    assert_eq!(http_routes[0].name, "public");
    assert_eq!(http_routes[1].name, "both");

    let internal_routes = config.routes_for_listener("internal");
    assert_eq!(internal_routes.len(), 2);
    assert_eq!(internal_routes[0].name, "internal");
    assert_eq!(internal_routes[1].name, "both");

    let none_routes = config.routes_for_listener("nonexistent");
    assert!(none_routes.is_empty());
}

#[test]
fn default_backend_weight_is_one() {
    let b = Backend::new("ns", "svc", 80);
    assert_eq!(b.weight, 1);
}

#[test]
fn filter_convenience_constructors() {
    let add = Filter::request_header_add(vec![HeaderValue {
        name: "X-Foo".to_string(),
        value: "bar".to_string(),
    }]);
    match &add {
        Filter::RequestHeaderModifier { add, set, remove } => {
            assert_eq!(add.len(), 1);
            assert!(set.is_empty());
            assert!(remove.is_empty());
        }
        _ => panic!("Expected RequestHeaderModifier"),
    }

    let rm = Filter::request_header_remove(vec!["X-Bad".to_string()]);
    match &rm {
        Filter::RequestHeaderModifier { add, set, remove } => {
            assert!(add.is_empty());
            assert!(set.is_empty());
            assert_eq!(remove.len(), 1);
        }
        _ => panic!("Expected RequestHeaderModifier"),
    }

    let redir = Filter::redirect(302);
    match &redir {
        Filter::RequestRedirect { status_code, .. } => {
            assert_eq!(*status_code, Some(302));
        }
        _ => panic!("Expected RequestRedirect"),
    }
}

#[test]
fn seconds_are_equal_as_numbers() {
    let values =
        [0.0, -0.0, 1.5, -1.5, f64::MIN_POSITIVE, f64::INFINITY, f64::NEG_INFINITY, f64::NAN];
    for a in values {
        for b in values {
            assert_eq!(seconds(a) == seconds(b), a == b);
            let timeouts = |s| TimeoutConfig { request: seconds(s), backend_request: None };
            assert_eq!(timeouts(a) == timeouts(b), a == b);
        }
    }
}
