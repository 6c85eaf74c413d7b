//! The configuration of a proxy: listeners, routes, rules and backends.
//!
//! The control plane writes these types as JSON into a ConfigMap and the data
//! plane reads them from there.

use vstd::prelude::*;

use crate::text;

verus! {

/// The version that every configuration carries.
pub const SCHEMA_VERSION: &'static str = "v1";

// ---------------------------------------------------------------------------
// Top level
// ---------------------------------------------------------------------------

/// The listeners and routes of one proxy.
#[derive(Debug, Clone, PartialEq)]
pub struct ProxyConfig {
    /// Schema version, `"v1"`.
    pub version: String,
    /// The Gateway resource that this configuration comes from.
    pub gateway: GatewayRef,
    /// Listeners that accept inbound connections.
    pub listeners: Vec<ListenerConfig>,
    /// Routes that say how to match and forward requests.
    pub routes: Vec<RouteConfig>,
}

/// The name of a Gateway resource.
#[derive(Debug, Clone, PartialEq)]
pub struct GatewayRef {
    pub namespace: String,
    pub name: String,
}

impl Default for GatewayRef {
    fn default() -> (r: Self)
        ensures
            r.namespace@ == Seq::<char>::empty(),
            r.name@ == Seq::<char>::empty(),
    {
        GatewayRef { namespace: String::new(), name: String::new() }
    }
}

impl Default for ProxyConfig {
    fn default() -> (r: Self)
        ensures
            r.version@ == SCHEMA_VERSION@,
            r.gateway.namespace@ == Seq::<char>::empty(),
            r.gateway.name@ == Seq::<char>::empty(),
            r.listeners@ == Seq::<ListenerConfig>::empty(),
            r.routes@ == Seq::<RouteConfig>::empty(),
    {
        ProxyConfig {
            version: SCHEMA_VERSION.to_string(),
            gateway: GatewayRef::default(),
            listeners: Vec::new(),
            routes: Vec::new(),
        }
    }
}

/// Whether some string of `names` is `name`.
pub open spec fn names_contain(names: Seq<String>, name: Seq<char>) -> bool {
    exists|i: int| 0 <= i < names.len() && #[trigger] names[i]@ == name
}

/// Whether some string of `names` is `name`.
pub fn contains_name(names: &Vec<String>, name: &str) -> (r: bool)
    ensures
        r == names_contain(names@, name@),
{
    let mut i: usize = 0;
    while i < names.len()
        invariant
            i <= names@.len(),
            forall|j: int| 0 <= j < i ==> names@[j]@ != name@,
        decreases names.len() - i,
    {
        if text::same(names[i].as_str(), name) {
            return true;
        }
        i += 1;
    }
    false
}

/// The routes of `routes` that are attached to the listener, in their order.
pub open spec fn attached_routes(routes: Seq<RouteConfig>, listener: Seq<char>) -> Seq<RouteConfig>
    decreases routes.len(),
{
    if routes.len() == 0 {
        Seq::empty()
    } else {
        let before = attached_routes(routes.drop_last(), listener);
        if routes.last().is_attached_to(listener) {
            before.push(routes.last())
        } else {
            before
        }
    }
}

impl ProxyConfig {
    /// All routes attached to the listener of that name, in their order.
    pub fn routes_for_listener(&self, listener_name: &str) -> (r: Vec<&RouteConfig>)
        ensures
            r@.map_values(|x: &RouteConfig| *x) == attached_routes(self.routes@, listener_name@),
    {
        let mut r: Vec<&RouteConfig> = Vec::new();
        let mut i: usize = 0;
        assert(r@.map_values(|x: &RouteConfig| *x) =~= attached_routes(
            self.routes@.take(0),
            listener_name@,
        ));
        while i < self.routes.len()
            invariant
                i <= self.routes@.len(),
                r@.map_values(|x: &RouteConfig| *x) == attached_routes(
                    self.routes@.take(i as int),
                    listener_name@,
                ),
            decreases self.routes.len() - i,
        {
            assert(self.routes@.take(i + 1).drop_last() =~= self.routes@.take(i as int));
            let ghost before = r@.map_values(|x: &RouteConfig| *x);
            if contains_name(&self.routes[i].attached_listeners, listener_name) {
                r.push(&self.routes[i]);
                assert(r@.map_values(|x: &RouteConfig| *x) =~= before.push(self.routes@[i as int]));
            }
            i += 1;
        }
        assert(self.routes@.take(i as int) =~= self.routes@);
        r
    }
}

// ---------------------------------------------------------------------------
// Listeners
// ---------------------------------------------------------------------------

/// A listener that accepts inbound connections.
#[derive(Debug, Clone, PartialEq)]
pub struct ListenerConfig {
    /// Listener name, from the Gateway.
    pub name: String,
    /// Port to listen on.
    pub port: u16,
    /// Protocol of this listener.
    pub protocol: Protocol,
    /// Hostname restriction. `None` means all hosts.
    pub hostname: Option<String>,
    /// TLS settings. An HTTPS listener needs them.
    pub tls: Option<TlsConfig>,
}

impl ListenerConfig {
    /// A plain HTTP listener.
    pub fn http(name: &str, port: u16, hostname: Option<String>) -> (r: Self)
        ensures
            r.name@ == name@,
            r.port == port,
            r.protocol == Protocol::Http,
            r.hostname == hostname,
            r.tls is None,
    {
        ListenerConfig {
            name: name.to_string(),
            port,
            protocol: Protocol::Http,
            hostname,
            tls: None,
        }
    }

    /// An HTTPS listener with its TLS settings.
    pub fn https(name: &str, port: u16, hostname: Option<String>, tls: TlsConfig) -> (r: Self)
        ensures
            r.name@ == name@,
            r.port == port,
            r.protocol == Protocol::Https,
            r.hostname == hostname,
            r.tls == Some(tls),
    {
        ListenerConfig {
            name: name.to_string(),
            port,
            protocol: Protocol::Https,
            hostname,
            tls: Some(tls),
        }
    }
}

/// Protocol of a listener.
#[derive(Debug, Clone, Copy, PartialEq, Eq, Structural)]
pub enum Protocol {
    Http,
    Https,
}

// ---------------------------------------------------------------------------
// TLS
// ---------------------------------------------------------------------------

/// TLS settings of an HTTPS listener.
#[derive(Debug, Clone, PartialEq)]
pub struct TlsConfig {
    /// Termination mode.
    pub mode: TlsMode,
    /// Kubernetes Secrets that hold certificates.
    pub certificates: Vec<CertificateRef>,
    /// Certificates with their PEM data, filled in by the control plane from
    /// the Secrets.
    pub inline_certificates: Vec<InlineCertificate>,
}

/// TLS termination mode.
#[derive(Debug, Clone, Copy, PartialEq, Eq, Structural)]
pub enum TlsMode {
    Terminate,
    Passthrough,
}

/// The name of a Kubernetes Secret that holds a certificate.
#[derive(Debug, Clone, PartialEq)]
pub struct CertificateRef {
    pub namespace: String,
    pub name: String,
}

/// A certificate with its PEM data.
#[derive(Debug, Clone, PartialEq)]
pub struct InlineCertificate {
    /// PEM certificate chain, leaf first.
    pub cert_pem: String,
    /// PEM private key (PKCS#1, PKCS#8 or SEC1).
    pub key_pem: String,
    /// Hostnames that this certificate covers, for selection by SNI.
    pub hostnames: Vec<String>,
}

// ---------------------------------------------------------------------------
// Routes
// ---------------------------------------------------------------------------

/// An HTTP route.
#[derive(Debug, Clone, PartialEq)]
pub struct RouteConfig {
    /// Name of the HTTPRoute resource.
    pub name: String,
    /// Namespace of the HTTPRoute resource.
    pub namespace: String,
    /// Hostnames this route matches.
    pub hostnames: Vec<String>,
    /// Names of the listeners this route is attached to.
    pub attached_listeners: Vec<String>,
    /// Routing rules, in order.
    pub rules: Vec<RouteRule>,
}

impl RouteConfig {
    /// A route without hostnames, listeners or rules.
    pub fn new(namespace: &str, name: &str) -> (r: Self)
        ensures
            r.namespace@ == namespace@,
            r.name@ == name@,
            r.hostnames@ == Seq::<String>::empty(),
            r.attached_listeners@ == Seq::<String>::empty(),
            r.rules@ == Seq::<RouteRule>::empty(),
    {
        RouteConfig {
            namespace: namespace.to_string(),
            name: name.to_string(),
            hostnames: Vec::new(),
            attached_listeners: Vec::new(),
            rules: Vec::new(),
        }
    }

    /// Whether this route is attached to the listener of that name.
    pub open spec fn is_attached_to(self, listener: Seq<char>) -> bool {
        names_contain(self.attached_listeners@, listener)
    }
}

/// A routing rule: matches, filters and backends.
#[derive(Debug, Clone, PartialEq)]
pub struct RouteRule {
    /// Rule name, if it has one.
    pub name: Option<String>,
    /// Match conditions; one that holds is enough.
    pub matches: Vec<RouteMatch>,
    /// Filters to apply to matched requests.
    pub filters: Vec<Filter>,
    /// Backends to forward to.
    pub backends: Vec<Backend>,
    /// Timeouts of this rule.
    pub timeout: Option<TimeoutConfig>,
}

impl Default for RouteRule {
    fn default() -> (r: Self)
        ensures
            r.name is None,
            r.matches@.len() == 1,
            r.matches@[0].is_empty(),
            r.filters@ == Seq::<Filter>::empty(),
            r.backends@ == Seq::<Backend>::empty(),
            r.timeout is None,
    {
        let mut matches: Vec<RouteMatch> = Vec::new();
        matches.push(RouteMatch::default());
        RouteRule { name: None, matches, filters: Vec::new(), backends: Vec::new(), timeout: None }
    }
}

/// One match condition: all that it names must hold.
#[derive(Debug, Clone, PartialEq)]
pub struct RouteMatch {
    /// Path condition.
    pub path: Option<PathMatch>,
    /// Header conditions.
    pub headers: Vec<HeaderMatch>,
    /// Query parameter conditions.
    pub query_params: Vec<QueryParamMatch>,
    /// HTTP method.
    pub method: Option<String>,
}

impl RouteMatch {
    /// Whether this match names no condition.
    pub open spec fn is_empty(self) -> bool {
        &&& self.path is None
        &&& self.headers@.len() == 0
        &&& self.query_params@.len() == 0
        &&& self.method is None
    }
}

impl Default for RouteMatch {
    fn default() -> (r: Self)
        ensures
            r.is_empty(),
    {
        RouteMatch { path: None, headers: Vec::new(), query_params: Vec::new(), method: None }
    }
}

/// A path condition.
#[derive(Debug, Clone, PartialEq)]
pub struct PathMatch {
    /// How `value` is compared with the path.
    pub match_type: PathMatchType,
    /// What the path is compared with.
    pub value: String,
}

impl Default for PathMatch {
    fn default() -> (r: Self)
        ensures
            r.match_type == PathMatchType::PathPrefix,
            r.value@ == "/"@,
    {
        PathMatch { match_type: PathMatchType::PathPrefix, value: "/".to_string() }
    }
}

/// How a path is compared.
#[derive(Debug, Clone, Copy, PartialEq, Eq, Structural)]
pub enum PathMatchType {
    Exact,
    PathPrefix,
    RegularExpression,
}

/// A header condition.
#[derive(Debug, Clone, PartialEq)]
pub struct HeaderMatch {
    /// Header name.
    pub name: String,
    /// How `value` is compared with the header's value.
    pub match_type: HeaderMatchType,
    /// What the header's value is compared with.
    pub value: String,
}

/// How a header value is compared.
#[derive(Debug, Clone, Copy, PartialEq, Eq, Structural)]
pub enum HeaderMatchType {
    Exact,
    RegularExpression,
}

/// A query parameter condition.
#[derive(Debug, Clone, PartialEq)]
pub struct QueryParamMatch {
    /// Parameter name.
    pub name: String,
    /// How `value` is compared with the parameter's value.
    pub match_type: QueryParamMatchType,
    /// What the parameter's value is compared with.
    pub value: String,
}

/// How a query parameter is compared.
#[derive(Debug, Clone, Copy, PartialEq, Eq, Structural)]
pub enum QueryParamMatchType {
    Exact,
    RegularExpression,
}

// ---------------------------------------------------------------------------
// Filters
// ---------------------------------------------------------------------------

/// A filter on matched requests or on their responses.
#[derive(Debug, Clone, PartialEq)]
pub enum Filter {
    /// Changes request headers before forwarding.
    RequestHeaderModifier {
        add: Vec<HeaderValue>,
        set: Vec<HeaderValue>,
        remove: Vec<String>,
    },
    /// Changes response headers before they go back to the client.
    ResponseHeaderModifier {
        add: Vec<HeaderValue>,
        set: Vec<HeaderValue>,
        remove: Vec<String>,
    },
    /// Redirects the request instead of forwarding it.
    RequestRedirect {
        scheme: Option<String>,
        hostname: Option<String>,
        port: Option<u16>,
        path: Option<PathModifier>,
        status_code: Option<u16>,
    },
    /// Rewrites the request URL before forwarding.
    URLRewrite { hostname: Option<String>, path: Option<PathModifier> },
    /// Sends a copy of the request to another backend.
    RequestMirror { backend: Backend, percent: Option<u32> },
}

impl Filter {
    /// A filter that adds request headers.
    pub fn request_header_add(headers: Vec<HeaderValue>) -> (r: Self)
        ensures
            r matches Filter::RequestHeaderModifier { add, set, remove } && add == headers && set@
                == Seq::<HeaderValue>::empty() && remove@ == Seq::<String>::empty(),
    {
        Filter::RequestHeaderModifier { add: headers, set: Vec::new(), remove: Vec::new() }
    }

    /// A filter that removes request headers.
    pub fn request_header_remove(names: Vec<String>) -> (r: Self)
        ensures
            r matches Filter::RequestHeaderModifier { add, set, remove } && add@ == Seq::<
                HeaderValue,
            >::empty() && set@ == Seq::<HeaderValue>::empty() && remove == names,
    {
        Filter::RequestHeaderModifier { add: Vec::new(), set: Vec::new(), remove: names }
    }

    /// A redirect with that status code and no other change.
    pub fn redirect(status_code: u16) -> (r: Self)
        ensures
            r == (Filter::RequestRedirect {
                scheme: None,
                hostname: None,
                port: None,
                path: None,
                status_code: Some(status_code),
            }),
    {
        Filter::RequestRedirect {
            scheme: None,
            hostname: None,
            port: None,
            path: None,
            status_code: Some(status_code),
        }
    }
}

/// A header name and its value, in a header filter.
#[derive(Debug, PartialEq)]
pub struct HeaderValue {
    pub name: String,
    pub value: String,
}

impl Clone for HeaderValue {
    fn clone(&self) -> (r: Self)
        ensures
            r == *self,
    {
        HeaderValue { name: self.name.clone(), value: self.value.clone() }
    }
}

/// What a redirect or a rewrite does to the path.
#[derive(Debug, Clone, PartialEq)]
pub enum PathModifier {
    ReplaceFullPath { value: String },
    ReplacePrefixMatch { value: String },
}

// ---------------------------------------------------------------------------
// Backends
// ---------------------------------------------------------------------------

/// Protocol spoken with a backend.
#[derive(Debug, Clone, Copy, PartialEq, Eq, Structural)]
pub enum BackendProtocol {
    /// HTTP/1.1.
    Http1,
    /// HTTP/2 in clear text, by prior knowledge.
    H2c,
}

impl Default for BackendProtocol {
    fn default() -> (r: Self)
        ensures
            r == BackendProtocol::Http1,
    {
        BackendProtocol::Http1
    }
}

/// A backend that requests are forwarded to.
#[derive(Debug, PartialEq)]
pub struct Backend {
    /// Namespace of the Service.
    pub namespace: String,
    /// Name of the Service.
    pub name: String,
    /// Port of the Service.
    pub port: u16,
    /// Relative weight in load balancing.
    pub weight: u32,
    /// Protocol to speak with this backend.
    pub protocol: BackendProtocol,
}

/// The weight of a backend that names none.
pub fn default_weight() -> (r: u32)
    ensures
        r == 1,
{
    1
}

impl Clone for Backend {
    fn clone(&self) -> (r: Self)
        ensures
            r == *self,
    {
        Backend {
            namespace: self.namespace.clone(),
            name: self.name.clone(),
            port: self.port,
            weight: self.weight,
            protocol: self.protocol,
        }
    }
}

impl Backend {
    /// A backend of weight 1 that speaks HTTP/1.1.
    pub fn new(namespace: &str, name: &str, port: u16) -> (r: Self)
        ensures
            r.namespace@ == namespace@,
            r.name@ == name@,
            r.port == port,
            r.weight == 1,
            r.protocol == BackendProtocol::Http1,
    {
        Backend {
            namespace: namespace.to_string(),
            name: name.to_string(),
            port,
            weight: default_weight(),
            protocol: BackendProtocol::default(),
        }
    }

    /// This backend with that weight.
    pub fn with_weight(self, weight: u32) -> (r: Self)
        ensures
            r == (Backend { weight, ..self }),
    {
        Backend {
            namespace: self.namespace,
            name: self.name,
            port: self.port,
            weight,
            protocol: self.protocol,
        }
    }

    /// This backend with that protocol.
    pub fn with_protocol(self, protocol: BackendProtocol) -> (r: Self)
        ensures
            r == (Backend { protocol, ..self }),
    {
        Backend {
            namespace: self.namespace,
            name: self.name,
            port: self.port,
            weight: self.weight,
            protocol,
        }
    }
}

// ---------------------------------------------------------------------------
// Timeouts
// ---------------------------------------------------------------------------

/// A number of seconds: an IEEE 754 double, held as its bits.
#[derive(Debug, Clone, Copy)]
pub struct Seconds {
    pub bits: u64,
}

impl Seconds {
    /// Whether the bits are zero, positive or negative.
    pub open spec fn zero(self) -> bool {
        self.bits == 0 || self.bits == 0x8000_0000_0000_0000
    }

    /// Whether the bits are a number: up to infinity, with or without a sign.
    pub open spec fn number(self) -> bool {
        ||| self.bits <= 0x7ff0_0000_0000_0000
        ||| 0x8000_0000_0000_0000 <= self.bits <= 0xfff0_0000_0000_0000
    }

    /// Whether two doubles are equal as numbers: the zeros are, and what is no
    /// number equals nothing.
    pub open spec fn same_number(self, other: Self) -> bool {
        (self.number() && self.bits == other.bits) || (self.zero() && other.zero())
    }

    /// Whether the number is above zero. The positive doubles, infinity last,
    /// are the bit patterns from 1 to `0x7ff0_0000_0000_0000`; zero, the
    /// negative numbers and the patterns that are no number lie outside.
    pub open spec fn positive(self) -> bool {
        0 < self.bits <= 0x7ff0_0000_0000_0000
    }

    pub fn is_positive(self) -> (r: bool)
        ensures
            r == self.positive(),
    {
        0 < self.bits && self.bits <= 0x7ff0_0000_0000_0000
    }
}

impl PartialEq for Seconds {
    fn eq(&self, other: &Self) -> (r: bool) {
        let a: u64 = self.bits;
        let b: u64 = other.bits;
        let zeros = (a == 0 || a == 0x8000_0000_0000_0000) && (b == 0 || b
            == 0x8000_0000_0000_0000);
        let number = a <= 0x7ff0_0000_0000_0000 || (0x8000_0000_0000_0000 <= a && a
            <= 0xfff0_0000_0000_0000);
        (number && a == b) || zeros
    }
}

impl vstd::std_specs::cmp::PartialEqSpecImpl for Seconds {
    open spec fn obeys_eq_spec() -> bool {
        true
    }

    open spec fn eq_spec(&self, other: &Self) -> bool {
        self.same_number(*other)
    }
}

/// Timeouts of a rule.
#[derive(Debug, Clone, Copy, PartialEq)]
pub struct TimeoutConfig {
    /// Limit for the whole request.
    pub request: Option<Seconds>,
    /// Limit for the request to the backend.
    pub backend_request: Option<Seconds>,
}

// ---------------------------------------------------------------------------
// Builders
// ---------------------------------------------------------------------------

/// Builds a `ProxyConfig` step by step.
pub struct ProxyConfigBuilder {
    config: ProxyConfig,
}

impl ProxyConfigBuilder {
    /// What has been built so far.
    pub closed spec fn so_far(self) -> ProxyConfig {
        self.config
    }

    /// A configuration of that Gateway, without listeners and routes.
    pub fn new(gateway_namespace: &str, gateway_name: &str) -> (r: Self)
        ensures
            r.so_far().version@ == SCHEMA_VERSION@,
            r.so_far().gateway.namespace@ == gateway_namespace@,
            r.so_far().gateway.name@ == gateway_name@,
            r.so_far().listeners@ == Seq::<ListenerConfig>::empty(),
            r.so_far().routes@ == Seq::<RouteConfig>::empty(),
    {
        ProxyConfigBuilder {
            config: ProxyConfig {
                version: SCHEMA_VERSION.to_string(),
                gateway: GatewayRef {
                    namespace: gateway_namespace.to_string(),
                    name: gateway_name.to_string(),
                },
                listeners: Vec::new(),
                routes: Vec::new(),
            },
        }
    }

    /// One HTTP listener more.
    pub fn with_http_listener(self, name: &str, port: u16, hostname: Option<String>) -> (r: Self)
        ensures
            r.so_far().version == self.so_far().version,
            r.so_far().gateway == self.so_far().gateway,
            r.so_far().routes == self.so_far().routes,
            r.so_far().listeners@.len() == self.so_far().listeners@.len() + 1,
            r.so_far().listeners@.drop_last() == self.so_far().listeners@,
            r.so_far().listeners@.last().name@ == name@,
            r.so_far().listeners@.last().port == port,
            r.so_far().listeners@.last().protocol == Protocol::Http,
            r.so_far().listeners@.last().hostname == hostname,
            r.so_far().listeners@.last().tls is None,
    {
        let mut config = self.config;
        config.listeners.push(ListenerConfig::http(name, port, hostname));
        assert(config.listeners@.drop_last() =~= self.config.listeners@);
        ProxyConfigBuilder { config }
    }

    /// One HTTPS listener more.
    pub fn with_https_listener(
        self,
        name: &str,
        port: u16,
        hostname: Option<String>,
        tls: TlsConfig,
    ) -> (r: Self)
        ensures
            r.so_far().version == self.so_far().version,
            r.so_far().gateway == self.so_far().gateway,
            r.so_far().routes == self.so_far().routes,
            r.so_far().listeners@.len() == self.so_far().listeners@.len() + 1,
            r.so_far().listeners@.drop_last() == self.so_far().listeners@,
            r.so_far().listeners@.last().name@ == name@,
            r.so_far().listeners@.last().port == port,
            r.so_far().listeners@.last().protocol == Protocol::Https,
            r.so_far().listeners@.last().hostname == hostname,
            r.so_far().listeners@.last().tls == Some(tls),
    {
        let mut config = self.config;
        config.listeners.push(ListenerConfig::https(name, port, hostname, tls));
        assert(config.listeners@.drop_last() =~= self.config.listeners@);
        ProxyConfigBuilder { config }
    }

    /// One route more.
    pub fn with_route(self, route: RouteConfig) -> (r: Self)
        ensures
            r.so_far().version == self.so_far().version,
            r.so_far().gateway == self.so_far().gateway,
            r.so_far().listeners == self.so_far().listeners,
            r.so_far().routes@ == self.so_far().routes@.push(route),
    {
        let mut config = self.config;
        config.routes.push(route);
        ProxyConfigBuilder { config }
    }

    pub fn build(self) -> (r: ProxyConfig)
        ensures
            r == self.so_far(),
    {
        self.config
    }
}

/// Builds a `RouteConfig` step by step.
pub struct RouteConfigBuilder {
    route: RouteConfig,
}

impl RouteConfigBuilder {
    /// What has been built so far.
    pub closed spec fn so_far(self) -> RouteConfig {
        self.route
    }

    /// A route without hostnames, listeners and rules.
    pub fn new(namespace: &str, name: &str) -> (r: Self)
        ensures
            r.so_far().namespace@ == namespace@,
            r.so_far().name@ == name@,
            r.so_far().hostnames@ == Seq::<String>::empty(),
            r.so_far().attached_listeners@ == Seq::<String>::empty(),
            r.so_far().rules@ == Seq::<RouteRule>::empty(),
    {
        RouteConfigBuilder { route: RouteConfig::new(namespace, name) }
    }

    /// One hostname more.
    pub fn with_hostname(self, hostname: &str) -> (r: Self)
        ensures
            text::views(r.so_far().hostnames@) == text::views(self.so_far().hostnames@).push(
                hostname@,
            ),
            r.so_far() == (RouteConfig { hostnames: r.so_far().hostnames, ..self.so_far() }),
    {
        let mut route = self.route;
        route.hostnames.push(hostname.to_string());
        assert(text::views(route.hostnames@) =~= text::views(self.route.hostnames@).push(
            hostname@,
        ));
        RouteConfigBuilder { route }
    }

    /// One listener more.
    pub fn attached_to(self, listener: &str) -> (r: Self)
        ensures
            text::views(r.so_far().attached_listeners@) == text::views(
                self.so_far().attached_listeners@,
            ).push(listener@),
            r.so_far() == (RouteConfig {
                attached_listeners: r.so_far().attached_listeners,
                ..self.so_far()
            }),
    {
        let mut route = self.route;
        route.attached_listeners.push(listener.to_string());
        assert(text::views(route.attached_listeners@) =~= text::views(
            self.route.attached_listeners@,
        ).push(listener@));
        RouteConfigBuilder { route }
    }

    /// One rule more.
    pub fn with_rule(self, rule: RouteRule) -> (r: Self)
        ensures
            r.so_far().rules@ == self.so_far().rules@.push(rule),
            r.so_far() == (RouteConfig { rules: r.so_far().rules, ..self.so_far() }),
    {
        let mut route = self.route;
        route.rules.push(rule);
        RouteConfigBuilder { route }
    }

    pub fn build(self) -> (r: RouteConfig)
        ensures
            r == self.so_far(),
    {
        self.route
    }
}

/// Builds a `RouteRule` step by step.
pub struct RouteRuleBuilder {
    rule: RouteRule,
}

/// Whether a match has a path condition of that kind and value, and no other
/// condition.
pub open spec fn matches_path_alone(m: RouteMatch, match_type: PathMatchType, value: Seq<char>) -> bool {
    &&& m.path matches Some(p) && p.match_type == match_type && p.value@ == value
    &&& m.headers@.len() == 0
    &&& m.query_params@.len() == 0
    &&& m.method is None
}

impl RouteRuleBuilder {
    /// What has been built so far.
    pub closed spec fn so_far(self) -> RouteRule {
        self.rule
    }

    /// A rule without matches, filters and backends.
    pub fn new() -> (r: Self)
        ensures
            r.so_far().name is None,
            r.so_far().matches@ == Seq::<RouteMatch>::empty(),
            r.so_far().filters@ == Seq::<Filter>::empty(),
            r.so_far().backends@ == Seq::<Backend>::empty(),
            r.so_far().timeout is None,
    {
        RouteRuleBuilder {
            rule: RouteRule {
                name: None,
                matches: Vec::new(),
                filters: Vec::new(),
                backends: Vec::new(),
                timeout: None,
            },
        }
    }

    /// The rule with that name.
    pub fn with_name(self, name: &str) -> (r: Self)
        ensures
            text::opt_owned(r.so_far().name) == Some(name@),
            r.so_far() == (RouteRule { name: r.so_far().name, ..self.so_far() }),
    {
        let mut rule = self.rule;
        rule.name = Some(name.to_string());
        RouteRuleBuilder { rule }
    }

    fn with_path(self, match_type: PathMatchType, value: &str) -> (r: Self)
        ensures
            r.so_far().matches@.len() == self.so_far().matches@.len() + 1,
            r.so_far().matches@.drop_last() == self.so_far().matches@,
            matches_path_alone(r.so_far().matches@.last(), match_type, value@),
            r.so_far() == (RouteRule { matches: r.so_far().matches, ..self.so_far() }),
    {
        let mut rule = self.rule;
        rule.matches.push(
            RouteMatch {
                path: Some(PathMatch { match_type, value: value.to_string() }),
                headers: Vec::new(),
                query_params: Vec::new(),
                method: None,
            },
        );
        assert(rule.matches@.drop_last() =~= self.rule.matches@);
        RouteRuleBuilder { rule }
    }

    /// One match by path prefix more.
    pub fn with_path_prefix(self, prefix: &str) -> (r: Self)
        ensures
            r.so_far().matches@.len() == self.so_far().matches@.len() + 1,
            r.so_far().matches@.drop_last() == self.so_far().matches@,
            matches_path_alone(r.so_far().matches@.last(), PathMatchType::PathPrefix, prefix@),
            r.so_far() == (RouteRule { matches: r.so_far().matches, ..self.so_far() }),
    {
        self.with_path(PathMatchType::PathPrefix, prefix)
    }

    /// One match by exact path more.
    pub fn with_exact_path(self, path: &str) -> (r: Self)
        ensures
            r.so_far().matches@.len() == self.so_far().matches@.len() + 1,
            r.so_far().matches@.drop_last() == self.so_far().matches@,
            matches_path_alone(r.so_far().matches@.last(), PathMatchType::Exact, path@),
            r.so_far() == (RouteRule { matches: r.so_far().matches, ..self.so_far() }),
    {
        self.with_path(PathMatchType::Exact, path)
    }

    /// One match more.
    pub fn with_match(self, route_match: RouteMatch) -> (r: Self)
        ensures
            r.so_far().matches@ == self.so_far().matches@.push(route_match),
            r.so_far() == (RouteRule { matches: r.so_far().matches, ..self.so_far() }),
    {
        let mut rule = self.rule;
        rule.matches.push(route_match);
        RouteRuleBuilder { rule }
    }

    /// One filter more.
    pub fn with_filter(self, filter: Filter) -> (r: Self)
        ensures
            r.so_far().filters@ == self.so_far().filters@.push(filter),
            r.so_far() == (RouteRule { filters: r.so_far().filters, ..self.so_far() }),
    {
        let mut rule = self.rule;
        rule.filters.push(filter);
        RouteRuleBuilder { rule }
    }

    /// One backend more.
    pub fn with_backend(self, backend: Backend) -> (r: Self)
        ensures
            r.so_far().backends@ == self.so_far().backends@.push(backend),
            r.so_far() == (RouteRule { backends: r.so_far().backends, ..self.so_far() }),
    {
        let mut rule = self.rule;
        rule.backends.push(backend);
        RouteRuleBuilder { rule }
    }

    /// The rule with those timeouts.
    pub fn with_timeout(self, timeout: TimeoutConfig) -> (r: Self)
        ensures
            r.so_far() == (RouteRule { timeout: Some(timeout), ..self.so_far() }),
    {
        let mut rule = self.rule;
        rule.timeout = Some(timeout);
        RouteRuleBuilder { rule }
    }

    pub fn build(self) -> (r: RouteRule)
        ensures
            r == self.so_far(),
    {
        self.rule
    }
}

impl Default for RouteRuleBuilder {
    fn default() -> (r: Self)
        ensures
            r.so_far().name is None,
            r.so_far().matches@ == Seq::<RouteMatch>::empty(),
            r.so_far().filters@ == Seq::<Filter>::empty(),
            r.so_far().backends@ == Seq::<Backend>::empty(),
            r.so_far().timeout is None,
    {
        RouteRuleBuilder::new()
    }
}

// ---------------------------------------------------------------------------
// Laws
// ---------------------------------------------------------------------------

/// The routes of a listener are exactly the attached ones: each of them is
/// attached, each attached route is among them, and there are no more than the
/// configuration has.
pub proof fn law_listener_gets_its_routes(routes: Seq<RouteConfig>, listener: Seq<char>)
    ensures
        forall|i: int|
            0 <= i < attached_routes(routes, listener).len() ==> (#[trigger] attached_routes(
                routes,
                listener,
            )[i]).is_attached_to(listener),
        forall|i: int|
            0 <= i < routes.len() && (#[trigger] routes[i]).is_attached_to(listener)
                ==> attached_routes(routes, listener).contains(routes[i]),
        attached_routes(routes, listener).len() <= routes.len(),
    decreases routes.len(),
{
    if routes.len() > 0 {
        let front = routes.drop_last();
        law_listener_gets_its_routes(front, listener);
        let before = attached_routes(front, listener);
        let after = attached_routes(routes, listener);
        assert forall|i: int| 0 <= i < after.len() implies (#[trigger] after[i]).is_attached_to(
            listener,
        ) by {
            if i < before.len() {
                assert(after[i] == before[i]);
            }
        }
        assert forall|i: int|
            0 <= i < routes.len() && (#[trigger] routes[i]).is_attached_to(listener) implies after.contains(
            routes[i],
        ) by {
            if i < front.len() {
                assert(front[i] == routes[i]);
                let k = before.index_of(routes[i]);
                assert(after[k] == routes[i]);
            } else {
                assert(after[after.len() - 1] == routes[i]);
            }
        }
    }
}

/// The routes of a listener are those that name it, in their order.
pub proof fn law_routes_name_their_listeners(
    routes: Seq<RouteConfig>,
    route: RouteConfig,
    listener: Seq<char>,
)
    ensures
        attached_routes(routes.push(route), listener) == if exists|i: int|
            0 <= i < route.attached_listeners@.len() && (
            #[trigger] route.attached_listeners@[i])@ == listener {
            attached_routes(routes, listener).push(route)
        } else {
            attached_routes(routes, listener)
        },
        attached_routes(Seq::empty(), listener).len() == 0,
{
    assert(routes.push(route).drop_last() =~= routes);
    assert(route.is_attached_to(listener) <==> exists|i: int|
        0 <= i < route.attached_listeners@.len() && (#[trigger] route.attached_listeners@[i])@
            == listener);
}

} // verus!
