use multiway::config::{
    BackendProtocol, Filter, HeaderMatchType, PathMatchType, PathModifier, Protocol,
    QueryParamMatchType, RouteConfig, Seconds,
};
use multiway::controller::api::{
    Gateway, GatewayListeners, GatewayListenersAllowedRoutes,
    GatewayListenersAllowedRoutesNamespaces, GatewayListenersAllowedRoutesNamespacesFrom,
    GatewayListenersAllowedRoutesNamespacesSelector, GatewayListenersTls, HTTPRoute, HttpHeader,
    HttpHeaderModifier, HttpPathModifier, HttpPathModifierType, HttpRouteParentRefs,
    HttpRouteRules, HttpRouteRulesBackendRefs, HttpRouteRulesFilters,
    HttpRouteRulesFiltersRequestMirror, HttpRouteRulesFiltersRequestRedirect,
    HttpRouteRulesFiltersRequestRedirectScheme, HttpRouteRulesFiltersType,
    HttpRouteRulesFiltersUrlRewrite, HttpRouteRulesMatches, HttpRouteRulesMatchesHeaders,
    HttpRouteRulesMatchesHeadersType, HttpRouteRulesMatchesMethod, HttpRouteRulesMatchesPath,
    HttpRouteRulesMatchesPathType, HttpRouteRulesMatchesQueryParams, HttpRouteRulesTimeouts,
    MirrorBackendRef, ReferenceGrant, ReferenceGrantFrom, ReferenceGrantTo, RouteDuration,
    Timestamp,
};
use multiway::controller::attachment::{
    check_reference_grant, config_text, create_parent_status, find_matching_listeners,
    is_namespace_allowed, merge_route, updated_config, ParentDecision, ServiceLookup,
};
use multiway::controller::config::{
    find_label, is_own_class, reconciler_name, ControllerConfig, DataPlaneNames, GatewayConfig,
    GatewayController, GatewayControllerBuilder, GATEWAY_NAME_LABEL, MANAGED_BY_LABEL,
    MANAGED_BY_VALUE,
};
use multiway::controller::error::ControllerError;
use multiway::controller::gateway::{
    build_configmap, build_deployment, build_gateway_config, build_gateway_status, build_service,
    ensure_action, error_policy, failed_lookup, get_allowed_route_namespaces, service_addresses,
    step_gateway, validate_listeners, AllowedNamespaces, Ensure, GatewayAction, GatewayEvent,
    GatewayState, Lookup, Report,
};
use multiway::controller::httproute::{
    convert_backend, convert_filter, convert_httproute_to_config, convert_match, convert_method,
    convert_rule, split_duration, DurationUnit,
};
use multiway::controller::parent::{
    attached_names, begin_parent, begin_route, config_write, step_parent, step_route, ClassCheck,
    ConfigUpdate, ConfigWrite, GatewayFetch, ParentAction, ParentEvent, ParentState, RouteAction,
    RouteEvent, RouteState,
};

fn listener(name: &str, port: i32, protocol: &str) -> GatewayListeners {
    GatewayListeners {
        name: name.to_string(),
        port,
        protocol: protocol.to_string(),
        hostname: None,
        allowed_routes: None,
        tls: None,
    }
}

fn gateway(listeners: Vec<GatewayListeners>) -> Gateway {
    Gateway {
        name: "gw".to_string(),
        namespace: Some("infra".to_string()),
        uid: Some("uid-1".to_string()),
        generation: Some(7),
        gateway_class_name: "multiway".to_string(),
        listeners,
    }
}

fn backend_ref(name: &str) -> HttpRouteRulesBackendRefs {
    HttpRouteRulesBackendRefs {
        group: None,
        kind: None,
        name: name.to_string(),
        namespace: None,
        port: Some(8080),
        weight: None,
    }
}

fn rule(backends: Vec<HttpRouteRulesBackendRefs>) -> HttpRouteRules {
    HttpRouteRules {
        name: None,
        matches: None,
        filters: None,
        backend_refs: Some(backends),
        timeouts: None,
    }
}

fn parent(name: &str) -> HttpRouteParentRefs {
    HttpRouteParentRefs {
        group: None,
        kind: None,
        name: name.to_string(),
        namespace: Some("infra".to_string()),
        port: None,
        section_name: None,
    }
}

fn route(namespace: &str, rules: Vec<HttpRouteRules>) -> HTTPRoute {
    HTTPRoute {
        name: "route".to_string(),
        namespace: Some(namespace.to_string()),
        parent_refs: Some(vec![parent("gw")]),
        hostnames: Some(vec!["example.com".to_string()]),
        rules: Some(rules),
    }
}

fn filter(type_: HttpRouteRulesFiltersType) -> HttpRouteRulesFilters {
    HttpRouteRulesFilters {
        type_,
        request_header_modifier: None,
        response_header_modifier: None,
        request_redirect: None,
        url_rewrite: None,
        request_mirror: None,
    }
}

const NOW: Timestamp = Timestamp { seconds: 1_700_000_000, nanos: 5 };

// -- Listeners ---------------------------------------------------------------

#[test]
fn test_validate_listeners_http() {
    let listeners = vec![GatewayListeners {
        name: "http".to_string(),
        port: 80,
        protocol: "HTTP".to_string(),
        hostname: None,
        allowed_routes: None,
        tls: None,
    }];

    let (valid, statuses) = validate_listeners(&listeners);
    assert!(valid);
    assert_eq!(statuses.len(), 1);
    assert!(statuses[0].valid);
}

#[test]
fn test_validate_listeners_invalid_protocol() {
    let listeners = vec![GatewayListeners {
        name: "invalid".to_string(),
        port: 80,
        protocol: "INVALID".to_string(),
        hostname: None,
        allowed_routes: None,
        tls: None,
    }];

    let (valid, statuses) = validate_listeners(&listeners);
    assert!(!valid);
    assert!(!statuses[0].valid);
    assert_eq!(statuses[0].reason, "UnsupportedProtocol");
}

#[test]
fn listener_findings() {
    let mut tls_on_http = listener("a", 80, "http");
    tls_on_http.tls = Some(GatewayListenersTls { certificate_refs: vec![] });
    let https_without_tls = listener("b", 443, "Https");
    let bad_port = listener("c", 70000, "TCP");
    let negative = listener("d", -5, "HTTP");
    let good = listener("e", 8080, "hTTp");
    let (valid, found) =
        validate_listeners(&vec![tls_on_http, https_without_tls, bad_port, negative, good]);
    assert!(!valid);
    assert_eq!(found[0].reason, "InvalidTLS");
    assert_eq!(found[0].message, "HTTP listeners should not have TLS configuration");
    assert_eq!(found[1].reason, "InvalidTLS");
    assert_eq!(found[1].message, "HTTPS listeners require TLS configuration");
    assert_eq!(found[2].reason, "InvalidPort");
    assert_eq!(found[2].message, "Port 70000 is out of valid range (1-65535)");
    assert_eq!(found[3].message, "Port -5 is out of valid range (1-65535)");
    assert_eq!(found[4].reason, "Accepted");
    assert_eq!(found[4].message, "");
    assert!(found[4].valid);
}

#[test]
fn upper_case_goes_beyond_ascii() {
    // The long s is an S in upper case.
    let (valid, _) = validate_listeners(&vec![listener("l", 80, "http\u{17f}")]);
    assert!(!valid);
    assert_eq!(Protocol::from_str("http\u{17f}"), Some(Protocol::Https));
    assert_eq!(Protocol::from_str("https"), Some(Protocol::Https));
    assert_eq!(Protocol::from_str("tcp"), None);
}

#[test]
fn gateway_configuration_has_the_listeners() {
    let mut gw = gateway(vec![listener("web", 80, "http"), listener("odd", 65537, "tcp")]);
    gw.listeners[0].hostname = Some("example.com".to_string());
    let config = build_gateway_config(&gw, "infra");
    assert_eq!(config.version, "v1");
    assert_eq!(config.gateway.namespace, "infra");
    assert_eq!(config.gateway.name, "gw");
    assert!(config.routes.is_empty());
    assert_eq!(config.listeners.len(), 2);
    assert_eq!(config.listeners[0].hostname.as_deref(), Some("example.com"));
    assert_eq!(config.listeners[0].port, 80);
    assert_eq!(config.listeners[1].port, 1);
    assert_eq!(config.listeners[1].protocol, Protocol::Http);
}

// -- Names and settings ------------------------------------------------------

#[test]
fn test_data_plane_names() {
    let names = DataPlaneNames::new("default", "my-gateway");
    assert_eq!(names.deployment_name(), "multiway-dp-my-gateway");
    assert_eq!(names.configmap_name(), "multiway-config-my-gateway");

    let labels = names.labels();
    assert_eq!(
        find_label(&labels, MANAGED_BY_LABEL),
        Some(MANAGED_BY_VALUE)
    );
    assert_eq!(
        find_label(&labels, GATEWAY_NAME_LABEL),
        Some("my-gateway")
    );
    assert_eq!(find_label(&labels, "other"), None);
    assert_eq!(names.selector_labels(), labels);
    assert_eq!(names.namespace(), "default");
}

#[test]
fn test_builder_defaults() {
    let builder = GatewayControllerBuilder::<()>::new();
    assert_eq!(
        builder.config.dataplane_image,
        "ghcr.io/wack/multiway-dataplane:latest"
    );
    assert_eq!(builder.config.default_replicas, 1);
}

#[test]
fn test_builder_custom_config() {
    let builder = GatewayControllerBuilder::<()>::new()
        .dataplane_image("custom-image:v1")
        .default_replicas(3)
        .requeue_after_secs(600);

    assert_eq!(builder.config.dataplane_image, "custom-image:v1");
    assert_eq!(builder.config.default_replicas, 3);
    assert_eq!(builder.config.requeue_after_secs, 600);
}

#[test]
fn builder_prefers_its_own_client() {
    assert!(GatewayControllerBuilder::<u8>::new().build(None).is_none());
    let made = GatewayControllerBuilder::new().build(Some(2u8)).unwrap();
    assert_eq!(made.context().client, 2);
    let own = GatewayControllerBuilder::new()
        .with_client(1u8)
        .image_pull_policy("Always")
        .error_requeue_secs(9)
        .watch_namespace(Some("ns".to_string()))
        .build(Some(2))
        .unwrap();
    assert_eq!(own.context().client, 1);
    assert_eq!(own.context().config.image_pull_policy, "Always");
    assert_eq!(own.context().config.watch_namespace.as_deref(), Some("ns"));
    assert_eq!(error_policy(&own.context().config), 9);
    let direct = GatewayController::with_client(3u8, ControllerConfig::default());
    assert_eq!(direct.context().client, 3);
}

#[test]
fn reconciler_names() {
    assert_eq!(reconciler_name(0), "GatewayClass");
    assert_eq!(reconciler_name(1), "Gateway");
    assert_eq!(reconciler_name(2), "HTTPRoute");
    assert_eq!(reconciler_name(3), "Unknown");
}

// -- Resources ---------------------------------------------------------------

#[test]
fn resources_belong_to_the_gateway() {
    let gw = gateway(vec![listener("web", 80, "HTTP"), listener("alt", 8080, "HTTP")]);
    let names = DataPlaneNames::new("infra", "gw");
    let config = ControllerConfig::default();

    let map = build_configmap(&gw, &names, "{\"a\":1}".to_string());
    assert_eq!(map.meta.name, "multiway-config-gw");
    assert_eq!(map.data, vec![("config.json".to_string(), "{\"a\":1}".to_string())]);
    assert_eq!(map.meta.owner.api_version, "gateway.networking.k8s.io/v1");
    assert_eq!(map.meta.owner.kind, "Gateway");
    assert_eq!(map.meta.owner.uid, "uid-1");
    assert!(map.meta.owner.controller && map.meta.owner.block_owner_deletion);

    let service = build_service(&gw, &names);
    assert_eq!(service.service_type, "ClusterIP");
    assert_eq!(service.ports.len(), 2);
    assert_eq!(service.ports[1].name, "alt");
    assert_eq!(service.ports[1].port, 8080);
    assert_eq!(service.ports[1].protocol, "TCP");

    let deployment = build_deployment(&gw, &names, &config);
    assert_eq!(deployment.meta.name, "multiway-dp-gw");
    assert_eq!(deployment.replicas, 1);
    assert_eq!(deployment.container.name, "dataplane");
    assert_eq!(deployment.container.image, config.dataplane_image);
    assert_eq!(
        deployment.container.env,
        vec![
            ("GATEWAY_NAME".to_string(), "gw".to_string()),
            ("GATEWAY_NAMESPACE".to_string(), "infra".to_string()),
            ("CONFIG_PATH".to_string(), "/config/config.json".to_string()),
        ]
    );
    assert_eq!(deployment.container.mount.mount_path, "/config");
    assert!(deployment.container.mount.read_only);
    assert_eq!(deployment.container.requests[0], ("cpu".to_string(), "100m".to_string()));
    assert_eq!(deployment.container.limits[1], ("memory".to_string(), "256Mi".to_string()));
    assert_eq!(deployment.volume.config_map, "multiway-config-gw");
    assert_eq!(deployment.selector, deployment.pod_labels);
}

#[test]
fn missing_resources_are_created() {
    assert_eq!(failed_lookup(Some(404)), Lookup::Missing);
    assert_eq!(failed_lookup(Some(500)), Lookup::Failed);
    assert_eq!(failed_lookup(None), Lookup::Failed);
    assert_eq!(ensure_action(Lookup::Found), Ensure::Patch);
    assert_eq!(ensure_action(Lookup::Missing), Ensure::Create);
    assert_eq!(ensure_action(Lookup::Failed), Ensure::Fail);
}

#[test]
fn gateway_status() {
    let gw = gateway(vec![listener("web", 80, "http"), listener("raw", 81, "tcp")]);
    let refused = Report::ListenersNotValid;
    let status = build_gateway_status(
        &gw,
        refused.accepted(),
        refused.reason(),
        refused.message(),
        None,
        NOW,
    );
    assert_eq!(status.accepted.status, "False");
    assert_eq!(status.accepted.reason, "ListenersNotValid");
    assert_eq!(status.accepted.observed_generation, Some(7));
    assert_eq!(status.programmed.reason, "Invalid");
    assert_eq!(status.programmed.message, status.accepted.message);
    assert!(status.listeners[0].takes_http_routes);
    assert!(!status.listeners[1].takes_http_routes);
    assert_eq!(status.listeners[1].condition, status.accepted);

    let good = Report::Accepted;
    let addresses = service_addresses(Some("10.0.0.1".to_string()));
    let status =
        build_gateway_status(&gw, good.accepted(), good.reason(), good.message(), addresses, NOW);
    assert_eq!(status.accepted.status, "True");
    assert_eq!(status.programmed.type_, "Programmed");
    assert_eq!(status.programmed.reason, "Programmed");
    assert_eq!(status.programmed.message, "Data plane is programmed");
    assert_eq!(status.programmed.last_transition_time, NOW);
    let address = &status.addresses.unwrap()[0];
    assert_eq!(address.type_, "IPAddress");
    assert_eq!(address.value, "10.0.0.1");
    assert!(service_addresses(None).is_none());
    assert_eq!(Report::ClassNotAccepted.reason(), "Invalid");
}

#[test]
fn gateway_is_provisioned_step_by_step() {
    let gw = gateway(vec![listener("web", 80, "HTTP")]);
    let config = ControllerConfig::default();
    let step = |s, e| step_gateway(&gw, &config, s, e);
    let (s, a) = step(GatewayState::CheckingClass, GatewayEvent::ClassChecked(Some(true)));
    assert!(matches!(a, GatewayAction::EnsureConfigMap));
    let (s, a) = step(s, GatewayEvent::Ensured(true));
    assert!(matches!(a, GatewayAction::EnsureService));
    let (s, a) = step(s, GatewayEvent::ServiceEnsured(Some("10.0.0.1".to_string())));
    assert!(matches!(a, GatewayAction::EnsureDeployment));
    let (s, a) = step(s, GatewayEvent::Ensured(true));
    match a {
        GatewayAction::Report(Report::Accepted, Some(ip)) => assert_eq!(ip, "10.0.0.1"),
        other => panic!("{other:?}"),
    }
    let (s, a) = step(s, GatewayEvent::Reported(true));
    assert!(matches!(a, GatewayAction::Requeue(300)));
    assert!(matches!(s, GatewayState::Finished));
}

#[test]
fn gateways_that_are_not_in_order_are_refused() {
    let config = ControllerConfig::default();
    let good = gateway(vec![listener("web", 80, "HTTP")]);
    let bad = gateway(vec![listener("web", 0, "HTTP")]);
    let start = || GatewayState::CheckingClass;
    let (s, a) =
        step_gateway(&good, &config, start(), GatewayEvent::ClassChecked(Some(false)));
    assert!(matches!(a, GatewayAction::Report(Report::ClassNotAccepted, None)));
    let (_, a) = step_gateway(&good, &config, s, GatewayEvent::Reported(true));
    assert!(matches!(a, GatewayAction::Requeue(30)));
    let (_, a) = step_gateway(&bad, &config, start(), GatewayEvent::ClassChecked(Some(true)));
    assert!(matches!(a, GatewayAction::Report(Report::ListenersNotValid, None)));
    let (_, a) = step_gateway(&good, &config, start(), GatewayEvent::ClassChecked(None));
    assert!(matches!(a, GatewayAction::Fail));
    let (_, a) =
        step_gateway(&good, &config, GatewayState::EnsuringConfigMap, GatewayEvent::Ensured(false));
    assert!(matches!(a, GatewayAction::Fail));
}

// -- Namespaces --------------------------------------------------------------

#[test]
fn test_is_namespace_allowed() {
    assert!(is_namespace_allowed(&AllowedNamespaces::All, "any-ns"));
    assert!(is_namespace_allowed(
        &AllowedNamespaces::Same("default".to_string()),
        "default"
    ));
    assert!(!is_namespace_allowed(
        &AllowedNamespaces::Same("default".to_string()),
        "other"
    ));
}

fn allowing(
    from: Option<GatewayListenersAllowedRoutesNamespacesFrom>,
    labels: Option<Option<Vec<(String, String)>>>,
) -> GatewayListeners {
    let mut l = listener("web", 80, "HTTP");
    l.allowed_routes = Some(GatewayListenersAllowedRoutes {
        namespaces: Some(GatewayListenersAllowedRoutesNamespaces {
            from,
            selector: labels
                .map(|match_labels| GatewayListenersAllowedRoutesNamespacesSelector { match_labels }),
        }),
    });
    l
}

#[test]
fn listeners_say_which_namespaces_they_take() {
    let same = |a: AllowedNamespaces| matches!(a, AllowedNamespaces::Same(ns) if ns == "infra");
    assert!(same(get_allowed_route_namespaces(&listener("l", 80, "HTTP"), "infra")));
    assert!(same(get_allowed_route_namespaces(&allowing(None, None), "infra")));
    assert!(same(get_allowed_route_namespaces(&allowing(Some(GatewayListenersAllowedRoutesNamespacesFrom::Same), None), "infra")));
    assert!(same(get_allowed_route_namespaces(&allowing(Some(GatewayListenersAllowedRoutesNamespacesFrom::Selector), None), "infra")));
    assert!(matches!(
        get_allowed_route_namespaces(&allowing(Some(GatewayListenersAllowedRoutesNamespacesFrom::All), None), "infra"),
        AllowedNamespaces::All
    ));
    let labels = vec![("team".to_string(), "a".to_string())];
    let chosen = get_allowed_route_namespaces(
        &allowing(Some(GatewayListenersAllowedRoutesNamespacesFrom::Selector), Some(Some(labels.clone()))),
        "infra",
    );
    match &chosen {
        AllowedNamespaces::Selector { match_labels } => assert_eq!(*match_labels, labels),
        other => panic!("{other:?}"),
    }
    assert!(is_namespace_allowed(&chosen, "anything"));
    let empty = get_allowed_route_namespaces(&allowing(Some(GatewayListenersAllowedRoutesNamespacesFrom::Selector), Some(None)), "infra");
    assert!(!is_namespace_allowed(&empty, "infra"));
}

#[test]
fn listeners_are_found_by_name_port_and_protocol() {
    let gw = gateway(vec![
        listener("web", 80, "http"),
        listener("secure", 443, "HTTPS"),
        listener("raw", 80, "TCP"),
    ]);
    let names = |section, port| {
        find_matching_listeners(&gw, section, port)
            .iter()
            .map(|l| l.name.clone())
            .collect::<Vec<_>>()
    };
    assert_eq!(names(None, None), vec!["web", "secure"]);
    assert_eq!(names(None, Some(80)), vec!["web"]);
    assert_eq!(names(Some("secure"), None), vec!["secure"]);
    assert_eq!(names(Some("secure"), Some(80)), Vec::<String>::new());
    assert_eq!(names(Some("raw"), None), Vec::<String>::new());
}

fn grant(group: &str, kind: &str, namespace: &str, to_kind: &str) -> ReferenceGrant {
    ReferenceGrant {
        from: vec![ReferenceGrantFrom {
            group: group.to_string(),
            kind: kind.to_string(),
            namespace: namespace.to_string(),
        }],
        to: vec![ReferenceGrantTo {
            group: "gateway.networking.k8s.io".to_string(),
            kind: to_kind.to_string(),
        }],
    }
}

#[test]
fn grants_need_both_sides() {
    let api = "gateway.networking.k8s.io";
    let good = || grant(api, "HTTPRoute", "apps", "Gateway");
    assert!(check_reference_grant(&vec![good()], "apps"));
    assert!(!check_reference_grant(&vec![good()], "other"));
    assert!(!check_reference_grant(&vec![], "apps"));
    assert!(!check_reference_grant(&vec![grant("x", "HTTPRoute", "apps", "Gateway")], "apps"));
    assert!(!check_reference_grant(&vec![grant(api, "TLSRoute", "apps", "Gateway")], "apps"));
    // The two sides may not come from two grants.
    let to_secrets = grant(api, "HTTPRoute", "apps", "Secret");
    let from_others = grant(api, "HTTPRoute", "else", "Gateway");
    assert!(!check_reference_grant(&vec![to_secrets, from_others], "apps"));
}

// -- Conversion --------------------------------------------------------------

#[test]
fn test_convert_method() {
    assert_eq!(convert_method(HttpRouteRulesMatchesMethod::Get), "GET");
    assert_eq!(convert_method(HttpRouteRulesMatchesMethod::Post), "POST");
}

/// The seconds of a duration.
fn parse_duration(duration: &str) -> Option<f64> {
    let (number, unit) = split_duration(duration);
    number.parse::<f64>().ok().map(|n| n * unit.seconds() as f64)
}

#[test]
fn test_parse_duration() {
    assert_eq!(parse_duration("10s"), Some(10.0));
    assert_eq!(parse_duration("1m"), Some(60.0));
    assert_eq!(parse_duration("1h"), Some(3600.0));
    assert_eq!(parse_duration("30"), Some(30.0));
    assert_eq!(parse_duration("invalid"), None);
}

#[test]
fn durations_are_split_at_the_unit() {
    assert_eq!(split_duration("5m"), ("5".to_string(), DurationUnit::Minutes));
    assert_eq!(split_duration(""), ("".to_string(), DurationUnit::Seconds));
    assert_eq!(split_duration("s"), ("".to_string(), DurationUnit::Seconds));
    assert_eq!(split_duration("10ms"), ("10m".to_string(), DurationUnit::Seconds));
}

#[test]
fn matches_are_converted() {
    let m = HttpRouteRulesMatches {
        path: Some(HttpRouteRulesMatchesPath { type_: None, value: None }),
        headers: Some(vec![HttpRouteRulesMatchesHeaders {
            name: "X-A".to_string(),
            type_: Some(HttpRouteRulesMatchesHeadersType::RegularExpression),
            value: "^a$".to_string(),
        }]),
        query_params: Some(vec![HttpRouteRulesMatchesQueryParams {
            name: "q".to_string(),
            type_: None,
            value: "1".to_string(),
        }]),
        method: Some(HttpRouteRulesMatchesMethod::Delete),
    };
    let r = convert_match(&m);
    let path = r.path.unwrap();
    assert_eq!(path.match_type, PathMatchType::PathPrefix);
    assert_eq!(path.value, "/");
    assert_eq!(r.headers[0].match_type, HeaderMatchType::RegularExpression);
    assert_eq!(r.headers[0].value, "^a$");
    assert_eq!(r.query_params[0].match_type, QueryParamMatchType::Exact);
    assert_eq!(r.method.as_deref(), Some("DELETE"));
}

#[test]
fn header_filters_are_converted() {
    let modifier = || HttpHeaderModifier {
        add: Some(vec![HttpHeader { name: "A".to_string(), value: "1".to_string() }]),
        set: None,
        remove: Some(vec!["B".to_string()]),
    };
    let mut f = filter(HttpRouteRulesFiltersType::RequestHeaderModifier);
    f.request_header_modifier = Some(modifier());
    match convert_filter(&f) {
        Some(Filter::RequestHeaderModifier { add, set, remove }) => {
            assert_eq!(add[0].name, "A");
            assert!(set.is_empty());
            assert_eq!(remove, vec!["B".to_string()]);
        }
        other => panic!("{other:?}"),
    }
    // Only the settings of the filter's own type count.
    let mut f = filter(HttpRouteRulesFiltersType::ResponseHeaderModifier);
    f.request_header_modifier = Some(modifier());
    match convert_filter(&f) {
        Some(Filter::ResponseHeaderModifier { add, set, remove }) => {
            assert!(add.is_empty() && set.is_empty() && remove.is_empty());
        }
        other => panic!("{other:?}"),
    }
}

#[test]
fn redirects_rewrites_and_mirrors_are_converted() {
    let mut f = filter(HttpRouteRulesFiltersType::RequestRedirect);
    assert_eq!(convert_filter(&f), None);
    f.request_redirect = Some(HttpRouteRulesFiltersRequestRedirect {
        scheme: Some(HttpRouteRulesFiltersRequestRedirectScheme::Https),
        hostname: Some("h".to_string()),
        port: Some(8443),
        path: Some(HttpPathModifier {
            type_: HttpPathModifierType::ReplacePrefixMatch,
            replace_full_path: Some("/unused".to_string()),
            replace_prefix_match: None,
        }),
        status_code: Some(301),
    });
    assert_eq!(
        convert_filter(&f),
        Some(Filter::RequestRedirect {
            scheme: Some("https".to_string()),
            hostname: Some("h".to_string()),
            port: Some(8443),
            path: Some(PathModifier::ReplacePrefixMatch { value: String::new() }),
            status_code: Some(301),
        })
    );

    let mut f = filter(HttpRouteRulesFiltersType::UrlRewrite);
    assert_eq!(convert_filter(&f), None);
    f.url_rewrite = Some(HttpRouteRulesFiltersUrlRewrite {
        hostname: None,
        path: Some(HttpPathModifier {
            type_: HttpPathModifierType::ReplaceFullPath,
            replace_full_path: Some("/new".to_string()),
            replace_prefix_match: None,
        }),
    });
    assert_eq!(
        convert_filter(&f),
        Some(Filter::URLRewrite {
            hostname: None,
            path: Some(PathModifier::ReplaceFullPath { value: "/new".to_string() }),
        })
    );

    let mut f = filter(HttpRouteRulesFiltersType::RequestMirror);
    assert_eq!(convert_filter(&f), None);
    f.request_mirror = Some(HttpRouteRulesFiltersRequestMirror {
        backend_ref: MirrorBackendRef { name: "m".to_string(), namespace: None, port: None },
        percent: Some(10),
    });
    match convert_filter(&f) {
        Some(Filter::RequestMirror { backend, percent }) => {
            assert_eq!(backend.namespace, "");
            assert_eq!(backend.port, 80);
            assert_eq!(percent, Some(10));
        }
        other => panic!("{other:?}"),
    }
    assert_eq!(convert_filter(&filter(HttpRouteRulesFiltersType::ExtensionRef)), None);
}

#[test]
fn backends_are_converted() {
    let mut b = backend_ref("svc");
    let plain = convert_backend(&b, "apps");
    assert_eq!(plain.namespace, "apps");
    assert_eq!(plain.weight, 1);
    assert_eq!(plain.protocol, BackendProtocol::Http1);
    b.namespace = Some("other".to_string());
    b.port = None;
    b.weight = Some(5);
    let set = convert_backend(&b, "apps");
    assert_eq!(set.namespace, "other");
    assert_eq!(set.port, 80);
    assert_eq!(set.weight, 5);
}

#[test]
fn rules_are_converted() {
    let mut r = rule(vec![backend_ref("a"), backend_ref("b")]);
    r.name = Some("n".to_string());
    let mut mirror_without_settings = filter(HttpRouteRulesFiltersType::RequestMirror);
    mirror_without_settings.request_mirror = None;
    r.filters = Some(vec![
        mirror_without_settings,
        filter(HttpRouteRulesFiltersType::RequestHeaderModifier),
        filter(HttpRouteRulesFiltersType::ExtensionRef),
    ]);
    r.timeouts = Some(HttpRouteRulesTimeouts {
        request: Some(RouteDuration {
            text: "5s".to_string(),
            seconds: Some(Seconds { bits: 5.0f64.to_bits() }),
        }),
        backend_request: Some(RouteDuration { text: "soon".to_string(), seconds: None }),
    });
    let c = convert_rule(&r, "apps");
    assert_eq!(c.name.as_deref(), Some("n"));
    assert_eq!(c.matches.len(), 1);
    assert!(c.matches[0].path.is_none() && c.matches[0].method.is_none());
    assert_eq!(c.filters.len(), 1);
    assert_eq!(c.backends[1].name, "b");
    let timeout = c.timeout.unwrap();
    assert_eq!(timeout.request, Some(Seconds { bits: 5.0f64.to_bits() }));
    assert_eq!(timeout.backend_request, None);

    let mut with_path = rule(vec![]);
    with_path.matches = Some(vec![HttpRouteRulesMatches {
        path: Some(HttpRouteRulesMatchesPath {
            type_: Some(HttpRouteRulesMatchesPathType::Exact),
            value: Some("/x".to_string()),
        }),
        headers: None,
        query_params: None,
        method: None,
    }]);
    let c = convert_rule(&with_path, "apps");
    assert_eq!(c.matches[0].path.as_ref().unwrap().value, "/x");
}

// -- The Gateway's configuration ---------------------------------------------

#[test]
fn routes_replace_their_older_selves() {
    let mut config = GatewayConfig::new("infra", "gw");
    config.routes.push(RouteConfig::new("apps", "route"));
    config.routes.push(RouteConfig::new("apps", "other"));
    config.routes.push(RouteConfig::new("apps", "route"));
    let r = route("apps", vec![rule(vec![backend_ref("a")])]);
    let converted = convert_httproute_to_config(&r, &vec!["web", "alt"]);
    assert_eq!(converted.hostnames, vec!["example.com".to_string()]);
    assert_eq!(converted.attached_listeners, vec!["web".to_string(), "alt".to_string()]);
    merge_route(&mut config, converted);
    assert_eq!(config.routes.len(), 2);
    assert_eq!(config.routes[0].name, "other");
    assert_eq!(config.routes[1].name, "route");
    assert_eq!(config.routes[1].rules.len(), 1);
    // Merging again changes nothing.
    merge_route(&mut config, convert_httproute_to_config(&r, &vec!["web", "alt"]));
    assert_eq!(config.routes.len(), 2);
    assert_eq!(config.routes[1].attached_listeners.len(), 2);
}

#[test]
fn unreadable_configurations_start_anew() {
    let gw = gateway(vec![listener("web", 80, "HTTP")]);
    let r = route("apps", vec![]);
    let fresh = updated_config(None, &gw, &r, &vec!["web"]);
    assert_eq!(fresh.gateway.namespace, "infra");
    assert_eq!(fresh.gateway.name, "gw");
    assert!(fresh.listeners.is_empty());
    assert_eq!(fresh.routes.len(), 1);
    let again = updated_config(Some(fresh), &gw, &r, &vec!["web"]);
    assert_eq!(again.routes.len(), 1);
}

#[test]
fn the_configuration_stands_under_its_key() {
    let data = vec![
        ("other".to_string(), "x".to_string()),
        ("config.json".to_string(), "{\"version\":\"v1\"}".to_string()),
    ];
    assert_eq!(config_text(&Some(data)), "{\"version\":\"v1\"}");
    assert_eq!(config_text(&Some(vec![])), "{}");
    assert_eq!(config_text(&None), "{}");
}

// -- Parents -----------------------------------------------------------------

fn decision(action: ParentAction) -> ParentDecision {
    match action {
        ParentAction::Decide(d) => d,
        other => panic!("expected a decision, got {other:?}"),
    }
}

#[test]
fn parents_must_be_gateways() {
    let mut p = parent("gw");
    p.kind = Some("Service".to_string());
    let (s, a) = begin_parent(&p, "apps");
    assert!(matches!(s, ParentState::Finished));
    let d = decision(a);
    assert!(!d.accepted);
    assert_eq!(d.reason, "InvalidParentRef");
    assert_eq!(d.message, "Unsupported parent type: gateway.networking.k8s.io/Service");
}

#[test]
fn routes_are_accepted_when_all_is_in_order() {
    let r = route("infra", vec![rule(vec![backend_ref("a"), backend_ref("b")])]);
    let p = parent("gw");
    let step = |s, e| step_parent(&r, &p, "infra", s, e);
    let (s, a) = begin_parent(&p, "infra");
    match a {
        ParentAction::FetchGateway(ns, n) => assert_eq!((ns.as_str(), n.as_str()), ("infra", "gw")),
        other => panic!("{other:?}"),
    }
    let gw = gateway(vec![listener("web", 80, "HTTP")]);
    let (s, a) = step(s, ParentEvent::GatewayFetched(GatewayFetch::Found(gw)));
    assert!(matches!(a, ParentAction::CheckClass(c) if c == "multiway"));
    let (s, a) = step(s, ParentEvent::ClassChecked(ClassCheck::Accepted));
    assert!(matches!(a, ParentAction::FetchService(ns, n) if ns == "infra" && n == "a"));
    let (s, a) = step(s, ParentEvent::ServiceFetched(ServiceLookup::Found));
    assert!(matches!(a, ParentAction::FetchService(_, n) if n == "b"));
    let (s, a) = step(s, ParentEvent::ServiceFetched(ServiceLookup::Found));
    assert!(matches!(a, ParentAction::UpdateConfig));
    let (s, a) = step(s, ParentEvent::ConfigUpdated(ConfigUpdate::Done));
    assert!(matches!(s, ParentState::Finished));
    let d = decision(a);
    assert!(d.accepted);
    assert_eq!(d.reason, "Accepted");
    assert_eq!(d.message, "Route is accepted by Gateway");

    let status = create_parent_status(&p, &d, NOW);
    assert_eq!(status.controller_name, "io.multiway/gateway-controller");
    assert_eq!(status.parent_ref.name, "gw");
    assert_eq!(status.accepted.status, "True");
    assert_eq!(status.resolved_refs.reason, "ResolvedRefs");
}

#[test]
fn each_check_can_refuse_the_route() {
    let r = route("apps", vec![rule(vec![backend_ref("a")])]);
    let p = parent("gw");
    let step = |s, e| step_parent(&r, &p, "apps", s, e);
    let fetched = || {
        let gw = gateway(vec![listener("web", 80, "HTTP")]);
        step(ParentState::FetchingGateway, ParentEvent::GatewayFetched(GatewayFetch::Found(gw))).0
    };
    let reason = |a| {
        let d = decision(a);
        assert!(!d.accepted);
        (d.reason, d.message)
    };
    let pair = |a: &str, b: &str| (a.to_string(), b.to_string());

    let (_, a) = step(
        ParentState::FetchingGateway,
        ParentEvent::GatewayFetched(GatewayFetch::Missing),
    );
    assert_eq!(reason(a), pair("NoMatchingParent", "Gateway infra/gw not found"));
    let (_, a) = step(
        ParentState::FetchingGateway,
        ParentEvent::GatewayFetched(GatewayFetch::Failed("boom".to_string())),
    );
    assert_eq!(reason(a), pair("InternalError", "Error fetching Gateway: boom"));
    let (_, a) = step(fetched(), ParentEvent::ClassChecked(ClassCheck::NotAccepted));
    assert_eq!(
        reason(a),
        pair(
            "NotAllowedByGateway",
            "Gateway's GatewayClass is not managed by this controller"
        )
    );
    let (_, a) =
        step(fetched(), ParentEvent::ClassChecked(ClassCheck::Failed("boom".to_string())));
    assert_eq!(reason(a), pair("InternalError", "Error checking GatewayClass: boom"));

    // Another namespace needs a grant.
    let (s, a) = step(fetched(), ParentEvent::ClassChecked(ClassCheck::Accepted));
    assert!(matches!(a, ParentAction::CheckGrant(ns) if ns == "infra"));
    let (_, a) = step(s, ParentEvent::GrantChecked(false));
    assert_eq!(
        reason(a),
        pair(
            "RefNotPermitted",
            "Route namespace apps is not allowed by Gateway listener policies"
        )
    );
    let granted = || {
        let (s, _) = step(fetched(), ParentEvent::ClassChecked(ClassCheck::Accepted));
        step(s, ParentEvent::GrantChecked(true))
    };
    let (s, a) = granted();
    assert!(matches!(a, ParentAction::FetchService(ns, n) if ns == "apps" && n == "a"));
    let (_, a) = step(s, ParentEvent::ServiceFetched(ServiceLookup::Missing));
    assert_eq!(reason(a), pair("BackendNotFound", "Backend service 'apps/a' not found"));
    let (s, _) = granted();
    let (_, a) =
        step(s, ParentEvent::ServiceFetched(ServiceLookup::Failed("boom".to_string())));
    assert_eq!(reason(a), pair("BackendNotFound", "Kubernetes API error: boom"));
    let (s, _) = granted();
    let (s, _) = step(s, ParentEvent::ServiceFetched(ServiceLookup::Found));
    let (_, a) =
        step(s, ParentEvent::ConfigUpdated(ConfigUpdate::Failed("boom".to_string())));
    assert_eq!(
        reason(a),
        pair("InternalError", "Failed to update Gateway configuration: boom")
    );
}

#[test]
fn references_must_mean_a_listener() {
    let r = route("infra", vec![]);
    let mut p = parent("gw");
    p.section_name = Some("nope".to_string());
    let gw = gateway(vec![listener("web", 80, "HTTP")]);
    let (s, _) = step_parent(
        &r,
        &p,
        "infra",
        ParentState::FetchingGateway,
        ParentEvent::GatewayFetched(GatewayFetch::Found(gw)),
    );
    let (_, a) =
        step_parent(&r, &p, "infra", s, ParentEvent::ClassChecked(ClassCheck::Accepted));
    let d = decision(a);
    assert_eq!(d.reason, "NoMatchingListenerHostname");
    assert_eq!(d.message, "No matching listener found on Gateway");
}

#[test]
fn backends_must_be_services() {
    let mut bad = backend_ref("bucket");
    bad.group = Some("storage".to_string());
    bad.kind = Some("Bucket".to_string());
    let r = route("infra", vec![rule(vec![]), rule(vec![bad])]);
    let p = parent("gw");
    let gw = gateway(vec![listener("web", 80, "HTTP")]);
    let (s, _) = step_parent(
        &r,
        &p,
        "infra",
        ParentState::FetchingGateway,
        ParentEvent::GatewayFetched(GatewayFetch::Found(gw)),
    );
    let (_, a) =
        step_parent(&r, &p, "infra", s, ParentEvent::ClassChecked(ClassCheck::Accepted));
    let d = decision(a);
    assert_eq!(d.reason, "BackendNotFound");
    assert_eq!(
        d.message,
        "Invalid HTTPRoute configuration: Unsupported backend type: storage/Bucket"
    );
    let status = create_parent_status(&p, &d, NOW);
    assert_eq!(status.accepted.status, "False");
    assert_eq!(status.resolved_refs.reason, "BackendNotFound");
}

#[test]
fn all_parents_are_checked_before_the_report() {
    let config = ControllerConfig::default();
    let mut r = route("apps", vec![]);
    r.parent_refs = Some(vec![parent("a"), parent("b")]);
    let (s, a) = begin_route(&r, &config);
    assert_eq!(a, RouteAction::Check(0));
    let (s, a) = step_route(&r, &config, s, RouteEvent::Checked);
    assert_eq!(a, RouteAction::Check(1));
    let (s, a) = step_route(&r, &config, s, RouteEvent::Checked);
    assert_eq!(a, RouteAction::Report);
    assert_eq!(s, RouteState::Reporting);
    assert_eq!(
        step_route(&r, &config, s, RouteEvent::Reported(true)).1,
        RouteAction::Requeue(300)
    );
    assert_eq!(step_route(&r, &config, s, RouteEvent::Reported(false)).1, RouteAction::Fail);
    r.parent_refs = None;
    assert_eq!(begin_route(&r, &config).1, RouteAction::Requeue(300));
}

// -- Errors ------------------------------------------------------------------

#[test]
fn errors_in_words() {
    let cases = vec![
        (
            ControllerError::KubernetesError("k".to_string()),
            "Kubernetes API error: k",
            "multiway::kubernetes_error",
        ),
        (
            ControllerError::JsonError("j".to_string()),
            "JSON serialization error: j",
            "multiway::json_error",
        ),
        (
            ControllerError::gateway_class_not_found("c"),
            "GatewayClass 'c' not found",
            "multiway::gateway_class_not_found",
        ),
        (
            ControllerError::gateway_class_not_accepted("c"),
            "GatewayClass 'c' is not accepted by this controller",
            "multiway::gateway_class_not_accepted",
        ),
        (
            ControllerError::gateway_not_found("ns", "n"),
            "Gateway 'ns/n' not found",
            "multiway::gateway_not_found",
        ),
        (
            ControllerError::invalid_gateway_config("m"),
            "Invalid Gateway configuration: m",
            "multiway::invalid_gateway_config",
        ),
        (
            ControllerError::invalid_httproute_config("m"),
            "Invalid HTTPRoute configuration: m",
            "multiway::invalid_httproute_config",
        ),
        (
            ControllerError::backend_not_found("ns", "n"),
            "Backend service 'ns/n' not found",
            "multiway::backend_not_found",
        ),
        (
            ControllerError::reference_grant_required("a", "b", "c"),
            "Cross-namespace reference from a to b/c requires a ReferenceGrant",
            "multiway::reference_grant_required",
        ),
        (
            ControllerError::unsupported_protocol("TCP"),
            "Listener protocol 'TCP' is not supported",
            "multiway::unsupported_protocol",
        ),
        (
            ControllerError::tls_config_error("m"),
            "TLS configuration error: m",
            "multiway::tls_config_error",
        ),
        (
            ControllerError::secret_not_found("ns", "n"),
            "Secret 'ns/n' not found",
            "multiway::secret_not_found",
        ),
        (
            ControllerError::invalid_secret_format("ns", "n", "m"),
            "Secret 'ns/n' has invalid format: m",
            "multiway::invalid_secret_format",
        ),
        (
            ControllerError::resource_conflict("m"),
            "Resource conflict: m",
            "multiway::resource_conflict",
        ),
        (
            ControllerError::internal_error("m"),
            "Internal error: m",
            "multiway::internal_error",
        ),
        (
            ControllerError::ConfigParseError { message: "m".to_string() },
            "Configuration parsing error: m",
            "multiway::config_parse_error",
        ),
    ];
    for (error, message, code) in &cases {
        assert_eq!(error.message(), *message);
        assert_eq!(error.code(), *code);
    }
    assert_eq!(cases[0].0.help(), None);
    assert_eq!(cases[9].0.help(), Some("Supported protocols: HTTP, HTTPS"));
}

#[test]
fn classes_are_told_apart_by_their_controller() {
    assert!(is_own_class("io.multiway/gateway-controller"));
    assert!(!is_own_class("io.multiway/gateway-controller2"));
    assert!(!is_own_class(""));
}

#[test]
fn routes_are_attached_to_the_listeners_they_mean() {
    let gateway = gateway(vec![
        listener("web", 80, "HTTP"),
        listener("admin", 8080, "HTTP"),
        listener("alt", 80, "HTTP"),
    ]);
    let mut p = parent("gw");
    assert_eq!(attached_names(&gateway, &p), vec!["web", "admin", "alt"]);
    p.port = Some(80);
    assert_eq!(attached_names(&gateway, &p), vec!["web", "alt"]);
    p.section_name = Some("alt".to_string());
    assert_eq!(attached_names(&gateway, &p), vec!["alt"]);
    p.port = Some(8080);
    assert!(attached_names(&gateway, &p).is_empty());
}

#[test]
fn a_missing_configmap_is_passed_over() {
    assert_eq!(config_write(Lookup::Found), ConfigWrite::Write);
    assert_eq!(config_write(Lookup::Missing), ConfigWrite::Skip);
    assert_eq!(config_write(Lookup::Failed), ConfigWrite::Fail);
}
