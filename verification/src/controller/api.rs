//! The Gateway API resources, as far as the controller reads them.

use vstd::prelude::*;

use crate::config::Seconds;

verus! {

/// A label or an annotation: its key and its value.
pub type Label = (String, String);

// ---------------------------------------------------------------------------
// Gateways
// ---------------------------------------------------------------------------

/// A Gateway.
#[derive(Debug)]
pub struct Gateway {
    /// Name of the resource.
    pub name: String,
    /// Namespace of the resource.
    pub namespace: Option<String>,
    /// Identifier that the API server gave it.
    pub uid: Option<String>,
    /// Generation of its specification.
    pub generation: Option<i64>,
    /// Name of its GatewayClass.
    pub gateway_class_name: String,
    /// Its listeners.
    pub listeners: Vec<GatewayListeners>,
}

/// A listener of a Gateway.
#[derive(Debug)]
pub struct GatewayListeners {
    pub name: String,
    pub port: i32,
    pub protocol: String,
    pub hostname: Option<String>,
    pub allowed_routes: Option<GatewayListenersAllowedRoutes>,
    pub tls: Option<GatewayListenersTls>,
}

/// TLS settings of a listener.
#[derive(Debug)]
pub struct GatewayListenersTls {
    /// Names of the certificates.
    pub certificate_refs: Vec<String>,
}

/// Which routes a listener takes.
#[derive(Debug)]
pub struct GatewayListenersAllowedRoutes {
    pub namespaces: Option<GatewayListenersAllowedRoutesNamespaces>,
}

/// The namespaces whose routes a listener takes.
#[derive(Debug)]
pub struct GatewayListenersAllowedRoutesNamespaces {
    pub from: Option<GatewayListenersAllowedRoutesNamespacesFrom>,
    pub selector: Option<GatewayListenersAllowedRoutesNamespacesSelector>,
}

/// How namespaces are chosen.
#[derive(Debug, Clone, Copy, PartialEq, Eq, Structural)]
pub enum GatewayListenersAllowedRoutesNamespacesFrom {
    All,
    Selector,
    Same,
}

/// A choice of namespaces by label.
#[derive(Debug)]
pub struct GatewayListenersAllowedRoutesNamespacesSelector {
    pub match_labels: Option<Vec<Label>>,
}

// ---------------------------------------------------------------------------
// HTTPRoutes
// ---------------------------------------------------------------------------

/// An HTTPRoute.
#[derive(Debug)]
pub struct HTTPRoute {
    /// Name of the resource.
    pub name: String,
    /// Namespace of the resource.
    pub namespace: Option<String>,
    /// The Gateways that it wants to attach to.
    pub parent_refs: Option<Vec<HttpRouteParentRefs>>,
    /// The host names that it serves.
    pub hostnames: Option<Vec<String>>,
    /// Its rules.
    pub rules: Option<Vec<HttpRouteRules>>,
}

/// A reference to a parent.
#[derive(Debug)]
pub struct HttpRouteParentRefs {
    pub group: Option<String>,
    pub kind: Option<String>,
    pub name: String,
    pub namespace: Option<String>,
    pub port: Option<i32>,
    pub section_name: Option<String>,
}

impl Clone for HttpRouteParentRefs {
    fn clone(&self) -> (r: Self)
        ensures
            r == *self,
    {
        HttpRouteParentRefs {
            group: self.group.clone(),
            kind: self.kind.clone(),
            name: self.name.clone(),
            namespace: self.namespace.clone(),
            port: self.port,
            section_name: self.section_name.clone(),
        }
    }
}

/// A rule of a route.
#[derive(Debug)]
pub struct HttpRouteRules {
    pub name: Option<String>,
    pub matches: Option<Vec<HttpRouteRulesMatches>>,
    pub filters: Option<Vec<HttpRouteRulesFilters>>,
    pub backend_refs: Option<Vec<HttpRouteRulesBackendRefs>>,
    pub timeouts: Option<HttpRouteRulesTimeouts>,
}

/// A match of a rule.
#[derive(Debug)]
pub struct HttpRouteRulesMatches {
    pub path: Option<HttpRouteRulesMatchesPath>,
    pub headers: Option<Vec<HttpRouteRulesMatchesHeaders>>,
    pub query_params: Option<Vec<HttpRouteRulesMatchesQueryParams>>,
    pub method: Option<HttpRouteRulesMatchesMethod>,
}

#[derive(Debug)]
pub struct HttpRouteRulesMatchesPath {
    pub type_: Option<HttpRouteRulesMatchesPathType>,
    pub value: Option<String>,
}

#[derive(Debug, Clone, Copy, PartialEq, Eq, Structural)]
pub enum HttpRouteRulesMatchesPathType {
    Exact,
    PathPrefix,
    RegularExpression,
}

#[derive(Debug)]
pub struct HttpRouteRulesMatchesHeaders {
    pub name: String,
    pub type_: Option<HttpRouteRulesMatchesHeadersType>,
    pub value: String,
}

#[derive(Debug, Clone, Copy, PartialEq, Eq, Structural)]
pub enum HttpRouteRulesMatchesHeadersType {
    Exact,
    RegularExpression,
}

#[derive(Debug)]
pub struct HttpRouteRulesMatchesQueryParams {
    pub name: String,
    pub type_: Option<HttpRouteRulesMatchesQueryParamsType>,
    pub value: String,
}

#[derive(Debug, Clone, Copy, PartialEq, Eq, Structural)]
pub enum HttpRouteRulesMatchesQueryParamsType {
    Exact,
    RegularExpression,
}

#[derive(Debug, Clone, Copy, PartialEq, Eq, Structural)]
pub enum HttpRouteRulesMatchesMethod {
    Get,
    Head,
    Post,
    Put,
    Delete,
    Connect,
    Options,
    Trace,
    Patch,
}

/// A filter of a rule. Only the settings of its type count.
#[derive(Debug)]
pub struct HttpRouteRulesFilters {
    pub type_: HttpRouteRulesFiltersType,
    pub request_header_modifier: Option<HttpHeaderModifier>,
    pub response_header_modifier: Option<HttpHeaderModifier>,
    pub request_redirect: Option<HttpRouteRulesFiltersRequestRedirect>,
    pub url_rewrite: Option<HttpRouteRulesFiltersUrlRewrite>,
    pub request_mirror: Option<HttpRouteRulesFiltersRequestMirror>,
}

#[derive(Debug, Clone, Copy, PartialEq, Eq, Structural)]
pub enum HttpRouteRulesFiltersType {
    RequestHeaderModifier,
    ResponseHeaderModifier,
    RequestMirror,
    RequestRedirect,
    UrlRewrite,
    ExtensionRef,
}

/// Changes to headers.
#[derive(Debug)]
pub struct HttpHeaderModifier {
    pub add: Option<Vec<HttpHeader>>,
    pub set: Option<Vec<HttpHeader>>,
    pub remove: Option<Vec<String>>,
}

/// A header.
#[derive(Debug)]
pub struct HttpHeader {
    pub name: String,
    pub value: String,
}

#[derive(Debug)]
pub struct HttpRouteRulesFiltersRequestRedirect {
    pub scheme: Option<HttpRouteRulesFiltersRequestRedirectScheme>,
    pub hostname: Option<String>,
    pub port: Option<i32>,
    pub path: Option<HttpPathModifier>,
    pub status_code: Option<i64>,
}

#[derive(Debug, Clone, Copy, PartialEq, Eq, Structural)]
pub enum HttpRouteRulesFiltersRequestRedirectScheme {
    Http,
    Https,
}

/// A change to the path.
#[derive(Debug)]
pub struct HttpPathModifier {
    pub type_: HttpPathModifierType,
    pub replace_full_path: Option<String>,
    pub replace_prefix_match: Option<String>,
}

#[derive(Debug, Clone, Copy, PartialEq, Eq, Structural)]
pub enum HttpPathModifierType {
    ReplaceFullPath,
    ReplacePrefixMatch,
}

#[derive(Debug)]
pub struct HttpRouteRulesFiltersUrlRewrite {
    pub hostname: Option<String>,
    pub path: Option<HttpPathModifier>,
}

#[derive(Debug)]
pub struct HttpRouteRulesFiltersRequestMirror {
    pub backend_ref: MirrorBackendRef,
    pub percent: Option<i32>,
}

#[derive(Debug)]
pub struct MirrorBackendRef {
    pub name: String,
    pub namespace: Option<String>,
    pub port: Option<i32>,
}

/// A reference to a backend.
#[derive(Debug)]
pub struct HttpRouteRulesBackendRefs {
    pub group: Option<String>,
    pub kind: Option<String>,
    pub name: String,
    pub namespace: Option<String>,
    pub port: Option<i32>,
    pub weight: Option<i32>,
}

/// Timeouts of a rule.
#[derive(Debug)]
pub struct HttpRouteRulesTimeouts {
    pub request: Option<RouteDuration>,
    pub backend_request: Option<RouteDuration>,
}

/// A duration as the resource writes it, and the seconds that it stands for,
/// where it can be read.
#[derive(Debug)]
pub struct RouteDuration {
    pub text: String,
    pub seconds: Option<Seconds>,
}

// ---------------------------------------------------------------------------
// ReferenceGrants
// ---------------------------------------------------------------------------

/// A ReferenceGrant.
#[derive(Debug)]
pub struct ReferenceGrant {
    pub from: Vec<ReferenceGrantFrom>,
    pub to: Vec<ReferenceGrantTo>,
}

#[derive(Debug)]
pub struct ReferenceGrantFrom {
    pub group: String,
    pub kind: String,
    pub namespace: String,
}

#[derive(Debug)]
pub struct ReferenceGrantTo {
    pub group: String,
    pub kind: String,
}

// ---------------------------------------------------------------------------
// Status
// ---------------------------------------------------------------------------

/// A point in time: seconds since the epoch and nanoseconds.
#[derive(Debug, Clone, Copy, PartialEq, Eq, Structural)]
pub struct Timestamp {
    pub seconds: i64,
    pub nanos: u32,
}

/// A condition in the status of a resource.
#[derive(Debug, PartialEq)]
pub struct Condition {
    pub type_: String,
    pub status: String,
    pub observed_generation: Option<i64>,
    pub last_transition_time: Timestamp,
    pub reason: String,
    pub message: String,
}

/// A condition as mathematical values.
pub struct ConditionModel {
    pub type_: Seq<char>,
    pub status: Seq<char>,
    pub observed_generation: Option<i64>,
    pub last_transition_time: Timestamp,
    pub reason: Seq<char>,
    pub message: Seq<char>,
}

impl View for Condition {
    type V = ConditionModel;

    open spec fn view(&self) -> ConditionModel {
        ConditionModel {
            type_: self.type_@,
            status: self.status@,
            observed_generation: self.observed_generation,
            last_transition_time: self.last_transition_time,
            reason: self.reason@,
            message: self.message@,
        }
    }
}

/// The status word of a condition.
pub open spec fn status_word(holds: bool) -> Seq<char> {
    if holds {
        "True"@
    } else {
        "False"@
    }
}

/// A condition of that type.
pub fn condition(
    type_: &str,
    holds: bool,
    observed_generation: Option<i64>,
    now: Timestamp,
    reason: &str,
    message: &str,
) -> (r: Condition)
    ensures
        r@ == (ConditionModel {
            type_: type_@,
            status: status_word(holds),
            observed_generation,
            last_transition_time: now,
            reason: reason@,
            message: message@,
        }),
{
    let status = if holds {
        "True".to_string()
    } else {
        "False".to_string()
    };
    Condition {
        type_: type_.to_string(),
        status,
        observed_generation,
        last_transition_time: now,
        reason: reason.to_string(),
        message: message.to_string(),
    }
}

/// The group of the Gateway API.
pub const GATEWAY_GROUP: &'static str = "gateway.networking.k8s.io";

/// A condition that holds is `True`, one that does not is `False`.
pub proof fn law_conditions_are_true_or_false(holds: bool)
    ensures
        status_word(holds) == if holds {
            seq!['T', 'r', 'u', 'e']
        } else {
            seq!['F', 'a', 'l', 's', 'e']
        },
{
    reveal_strlit("True");
    reveal_strlit("False");
    assert("True"@ =~= seq!['T', 'r', 'u', 'e']);
    assert("False"@ =~= seq!['F', 'a', 'l', 's', 'e']);
}

} // verus!
