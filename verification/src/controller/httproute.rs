//! Reconciling HTTPRoutes.
//!
//! A route names the Gateways that it wants to attach to. Each of these is
//! checked in turn; where the route is accepted it becomes a part of the
//! Gateway's configuration. Its status tells how each check ended.

use vstd::prelude::*;

use crate::config::{
    Backend, BackendProtocol, Filter, HeaderMatch, HeaderMatchType, HeaderValue, PathMatch,
    PathMatchType, PathModifier, QueryParamMatch, QueryParamMatchType, RouteConfig, RouteMatch,
    RouteRule, Seconds, TimeoutConfig,
};
use crate::controller::api::{
    HTTPRoute, HttpHeader, HttpHeaderModifier, HttpPathModifier, HttpPathModifierType,
    HttpRouteRules, HttpRouteRulesBackendRefs, HttpRouteRulesFilters,
    HttpRouteRulesFiltersRequestRedirectScheme, HttpRouteRulesFiltersType, HttpRouteRulesMatches,
    HttpRouteRulesMatchesHeaders, HttpRouteRulesMatchesHeadersType, HttpRouteRulesMatchesMethod,
    HttpRouteRulesMatchesPath, HttpRouteRulesMatchesPathType, HttpRouteRulesMatchesQueryParams,
    HttpRouteRulesMatchesQueryParamsType, HttpRouteRulesTimeouts, RouteDuration,
};
use crate::filter;
use crate::routing;
use crate::text;

verus! {

// ---------------------------------------------------------------------------
// Converting matches
// ---------------------------------------------------------------------------

/// The kind of path condition; by default a prefix.
pub open spec fn path_type(t: Option<HttpRouteRulesMatchesPathType>) -> PathMatchType {
    match t {
        Some(HttpRouteRulesMatchesPathType::Exact) => PathMatchType::Exact,
        Some(HttpRouteRulesMatchesPathType::RegularExpression) => PathMatchType::RegularExpression,
        _ => PathMatchType::PathPrefix,
    }
}

/// Whether `r` is the path condition; its value is `/` by default.
pub open spec fn converts_path(r: PathMatch, path: HttpRouteRulesMatchesPath) -> bool {
    &&& r.match_type == path_type(path.type_)
    &&& r.value@ == match path.value {
        Some(v) => v@,
        None => "/"@,
    }
}

pub fn convert_path_match(path: &HttpRouteRulesMatchesPath) -> (r: PathMatch)
    ensures
        converts_path(r, *path),
{
    let match_type = match path.type_ {
        Some(HttpRouteRulesMatchesPathType::Exact) => PathMatchType::Exact,
        Some(HttpRouteRulesMatchesPathType::RegularExpression) => PathMatchType::RegularExpression,
        _ => PathMatchType::PathPrefix,
    };
    let value = match &path.value {
        Some(v) => v.clone(),
        None => "/".to_string(),
    };
    PathMatch { match_type, value }
}

/// The header condition; by default the value is compared as it is.
pub open spec fn header_match_of(header: HttpRouteRulesMatchesHeaders) -> HeaderMatch {
    HeaderMatch {
        name: header.name,
        match_type: match header.type_ {
            Some(HttpRouteRulesMatchesHeadersType::RegularExpression) =>
                HeaderMatchType::RegularExpression,
            _ => HeaderMatchType::Exact,
        },
        value: header.value,
    }
}

pub fn convert_header_match(header: &HttpRouteRulesMatchesHeaders) -> (r: HeaderMatch)
    ensures
        r == header_match_of(*header),
{
    let match_type = match header.type_ {
        Some(HttpRouteRulesMatchesHeadersType::RegularExpression) =>
            HeaderMatchType::RegularExpression,
        _ => HeaderMatchType::Exact,
    };
    HeaderMatch { name: header.name.clone(), match_type, value: header.value.clone() }
}

/// The query parameter condition; by default the value is compared as it is.
pub open spec fn query_match_of(param: HttpRouteRulesMatchesQueryParams) -> QueryParamMatch {
    QueryParamMatch {
        name: param.name,
        match_type: match param.type_ {
            Some(HttpRouteRulesMatchesQueryParamsType::RegularExpression) =>
                QueryParamMatchType::RegularExpression,
            _ => QueryParamMatchType::Exact,
        },
        value: param.value,
    }
}

pub fn convert_query_param_match(param: &HttpRouteRulesMatchesQueryParams) -> (r: QueryParamMatch)
    ensures
        r == query_match_of(*param),
{
    let match_type = match param.type_ {
        Some(HttpRouteRulesMatchesQueryParamsType::RegularExpression) =>
            QueryParamMatchType::RegularExpression,
        _ => QueryParamMatchType::Exact,
    };
    QueryParamMatch { name: param.name.clone(), match_type, value: param.value.clone() }
}

/// The word of a method.
pub open spec fn method_word(method: HttpRouteRulesMatchesMethod) -> Seq<char> {
    match method {
        HttpRouteRulesMatchesMethod::Get => "GET"@,
        HttpRouteRulesMatchesMethod::Head => "HEAD"@,
        HttpRouteRulesMatchesMethod::Post => "POST"@,
        HttpRouteRulesMatchesMethod::Put => "PUT"@,
        HttpRouteRulesMatchesMethod::Delete => "DELETE"@,
        HttpRouteRulesMatchesMethod::Connect => "CONNECT"@,
        HttpRouteRulesMatchesMethod::Options => "OPTIONS"@,
        HttpRouteRulesMatchesMethod::Trace => "TRACE"@,
        HttpRouteRulesMatchesMethod::Patch => "PATCH"@,
    }
}

pub fn convert_method(method: HttpRouteRulesMatchesMethod) -> (r: String)
    ensures
        r@ == method_word(method),
{
    match method {
        HttpRouteRulesMatchesMethod::Get => "GET".to_string(),
        HttpRouteRulesMatchesMethod::Head => "HEAD".to_string(),
        HttpRouteRulesMatchesMethod::Post => "POST".to_string(),
        HttpRouteRulesMatchesMethod::Put => "PUT".to_string(),
        HttpRouteRulesMatchesMethod::Delete => "DELETE".to_string(),
        HttpRouteRulesMatchesMethod::Connect => "CONNECT".to_string(),
        HttpRouteRulesMatchesMethod::Options => "OPTIONS".to_string(),
        HttpRouteRulesMatchesMethod::Trace => "TRACE".to_string(),
        HttpRouteRulesMatchesMethod::Patch => "PATCH".to_string(),
    }
}

/// The items of a list that may be missing.
pub open spec fn items<T>(list: Option<Vec<T>>) -> Seq<T> {
    match list {
        Some(v) => v@,
        None => Seq::empty(),
    }
}

/// Whether `r` is the match.
pub open spec fn converts_match(r: RouteMatch, m: HttpRouteRulesMatches) -> bool {
    &&& match (r.path, m.path) {
        (Some(p), Some(q)) => converts_path(p, q),
        (None, None) => true,
        _ => false,
    }
    &&& r.headers@ == items(m.headers).map_values(
        |h: HttpRouteRulesMatchesHeaders| header_match_of(h),
    )
    &&& r.query_params@ == items(m.query_params).map_values(
        |p: HttpRouteRulesMatchesQueryParams| query_match_of(p),
    )
    &&& text::opt_owned(r.method) == match m.method {
        Some(method) => Some(method_word(method)),
        None => None,
    }
}

pub fn convert_match(m: &HttpRouteRulesMatches) -> (r: RouteMatch)
    ensures
        converts_match(r, *m),
{
    let path = match &m.path {
        Some(p) => Some(convert_path_match(p)),
        None => None,
    };
    let mut headers: Vec<HeaderMatch> = Vec::new();
    if let Some(list) = &m.headers {
        let mut i: usize = 0;
        while i < list.len()
            invariant
                i <= list@.len(),
                headers@.len() == i,
                forall|k: int| 0 <= k < i ==> #[trigger] headers@[k] == header_match_of(list@[k]),
            decreases list.len() - i,
        {
            headers.push(convert_header_match(&list[i]));
            i += 1;
        }
    }
    assert(headers@ =~= items(m.headers).map_values(
        |h: HttpRouteRulesMatchesHeaders| header_match_of(h),
    ));
    let mut query_params: Vec<QueryParamMatch> = Vec::new();
    if let Some(list) = &m.query_params {
        let mut i: usize = 0;
        while i < list.len()
            invariant
                i <= list@.len(),
                query_params@.len() == i,
                forall|k: int|
                    0 <= k < i ==> #[trigger] query_params@[k] == query_match_of(list@[k]),
            decreases list.len() - i,
        {
            query_params.push(convert_query_param_match(&list[i]));
            i += 1;
        }
    }
    assert(query_params@ =~= items(m.query_params).map_values(
        |p: HttpRouteRulesMatchesQueryParams| query_match_of(p),
    ));
    let method = match m.method {
        Some(word) => Some(convert_method(word)),
        None => None,
    };
    RouteMatch { path, headers, query_params, method }
}

// ---------------------------------------------------------------------------
// Converting filters
// ---------------------------------------------------------------------------

/// The headers of a filter.
pub open spec fn filter_headers(list: Option<Vec<HttpHeader>>) -> Seq<HeaderValue> {
    items(list).map_values(|h: HttpHeader| HeaderValue { name: h.name, value: h.value })
}

fn convert_headers(list: &Option<Vec<HttpHeader>>) -> (r: Vec<HeaderValue>)
    ensures
        r@ == filter_headers(*list),
{
    let mut r: Vec<HeaderValue> = Vec::new();
    if let Some(v) = list {
        let mut i: usize = 0;
        while i < v.len()
            invariant
                i <= v@.len(),
                r@.len() == i,
                forall|k: int|
                    0 <= k < i ==> #[trigger] r@[k] == (HeaderValue {
                        name: v@[k].name,
                        value: v@[k].value,
                    }),
            decreases v.len() - i,
        {
            r.push(HeaderValue { name: v[i].name.clone(), value: v[i].value.clone() });
            i += 1;
        }
    }
    assert(r@ =~= filter_headers(*list));
    r
}

fn clone_names(list: &Option<Vec<String>>) -> (r: Vec<String>)
    ensures
        r@ == items(*list),
{
    let mut r: Vec<String> = Vec::new();
    if let Some(v) = list {
        let mut i: usize = 0;
        while i < v.len()
            invariant
                i <= v@.len(),
                r@ == v@.take(i as int),
            decreases v.len() - i,
        {
            r.push(v[i].clone());
            i += 1;
            assert(r@ =~= v@.take(i as int));
        }
        assert(v@.take(i as int) =~= v@);
    }
    assert(r@ =~= items(*list));
    r
}

/// What a header filter adds, sets and removes.
pub open spec fn modifier_parts(modifier: Option<HttpHeaderModifier>) -> (
    Seq<HeaderValue>,
    Seq<HeaderValue>,
    Seq<String>,
) {
    match modifier {
        Some(m) => (filter_headers(m.add), filter_headers(m.set), items(m.remove)),
        None => (Seq::empty(), Seq::empty(), Seq::empty()),
    }
}

fn convert_modifier(modifier: &Option<HttpHeaderModifier>) -> (r: (
    Vec<HeaderValue>,
    Vec<HeaderValue>,
    Vec<String>,
))
    ensures
        (r.0@, r.1@, r.2@) == modifier_parts(*modifier),
{
    match modifier {
        Some(m) => (convert_headers(&m.add), convert_headers(&m.set), clone_names(&m.remove)),
        None => (Vec::new(), Vec::new(), Vec::new()),
    }
}

/// Whether `r` is the change of the path. Without a value it is empty.
pub open spec fn converts_modifier(r: PathModifier, p: HttpPathModifier) -> bool {
    match p.type_ {
        HttpPathModifierType::ReplaceFullPath => r matches PathModifier::ReplaceFullPath { value }
            && value@ == or_empty(p.replace_full_path),
        HttpPathModifierType::ReplacePrefixMatch => r matches PathModifier::ReplacePrefixMatch {
            value,
        } && value@ == or_empty(p.replace_prefix_match),
    }
}

/// A text that may be missing, or nothing.
pub open spec fn or_empty(s: Option<String>) -> Seq<char> {
    match s {
        Some(t) => t@,
        None => Seq::empty(),
    }
}

/// A path change that may be missing.
pub open spec fn converts_path_change(r: Option<PathModifier>, p: Option<HttpPathModifier>) -> bool {
    match (r, p) {
        (Some(x), Some(y)) => converts_modifier(x, y),
        (None, None) => true,
        _ => false,
    }
}

fn text_or_empty(s: &Option<String>) -> (r: String)
    ensures
        r@ == or_empty(*s),
{
    match s {
        Some(t) => t.clone(),
        None => String::new(),
    }
}

fn convert_path_change(path: &Option<HttpPathModifier>) -> (r: Option<PathModifier>)
    ensures
        converts_path_change(r, *path),
{
    match path {
        Some(p) => match p.type_ {
            HttpPathModifierType::ReplaceFullPath => Some(
                PathModifier::ReplaceFullPath { value: text_or_empty(&p.replace_full_path) },
            ),
            HttpPathModifierType::ReplacePrefixMatch => Some(
                PathModifier::ReplacePrefixMatch { value: text_or_empty(&p.replace_prefix_match) },
            ),
        },
        None => None,
    }
}

/// The word of a scheme.
pub open spec fn scheme_word(s: HttpRouteRulesFiltersRequestRedirectScheme) -> Seq<char> {
    match s {
        HttpRouteRulesFiltersRequestRedirectScheme::Http => "http"@,
        HttpRouteRulesFiltersRequestRedirectScheme::Https => "https"@,
    }
}

/// The port of a backend: 80 by default, cut to 16 bits.
pub open spec fn backend_port(port: Option<i32>) -> u16 {
    match port {
        Some(p) => p as u16,
        None => 80,
    }
}

/// Whether `r` is what becomes of a filter. A redirect, a rewrite or a mirror
/// without settings, and an extension, become nothing.
pub open spec fn converts_filter(r: Option<Filter>, f: HttpRouteRulesFilters) -> bool {
    match f.type_ {
        HttpRouteRulesFiltersType::RequestHeaderModifier => {
            &&& r matches Some(Filter::RequestHeaderModifier { add, set, remove })
            &&& (add@, set@, remove@) == modifier_parts(f.request_header_modifier)
        },
        HttpRouteRulesFiltersType::ResponseHeaderModifier => {
            &&& r matches Some(Filter::ResponseHeaderModifier { add, set, remove })
            &&& (add@, set@, remove@) == modifier_parts(f.response_header_modifier)
        },
        HttpRouteRulesFiltersType::RequestRedirect => match f.request_redirect {
            Some(redirect) => {
                &&& r matches Some(
                    Filter::RequestRedirect { scheme, hostname, port, path, status_code },
                )
                &&& text::opt_owned(scheme) == match redirect.scheme {
                    Some(s) => Some(scheme_word(s)),
                    None => None,
                }
                &&& hostname == redirect.hostname
                &&& port == match redirect.port {
                    Some(p) => Some(p as u16),
                    None => None,
                }
                &&& converts_path_change(path, redirect.path)
                &&& status_code == match redirect.status_code {
                    Some(c) => Some(c as u16),
                    None => None,
                }
            },
            None => r is None,
        },
        HttpRouteRulesFiltersType::UrlRewrite => match f.url_rewrite {
            Some(rewrite) => {
                &&& r matches Some(Filter::URLRewrite { hostname, path })
                &&& hostname == rewrite.hostname
                &&& converts_path_change(path, rewrite.path)
            },
            None => r is None,
        },
        HttpRouteRulesFiltersType::RequestMirror => match f.request_mirror {
            Some(mirror) => {
                &&& r matches Some(Filter::RequestMirror { backend, percent })
                &&& backend.namespace@ == or_empty(mirror.backend_ref.namespace)
                &&& backend.name@ == mirror.backend_ref.name@
                &&& backend.port == backend_port(mirror.backend_ref.port)
                &&& backend.weight == 1
                &&& backend.protocol == BackendProtocol::Http1
                &&& percent == match mirror.percent {
                    Some(p) => Some(p as u32),
                    None => None,
                }
            },
            None => r is None,
        },
        HttpRouteRulesFiltersType::ExtensionRef => r is None,
    }
}

pub fn convert_filter(filter: &HttpRouteRulesFilters) -> (r: Option<Filter>)
    ensures
        converts_filter(r, *filter),
{
    match filter.type_ {
        HttpRouteRulesFiltersType::RequestHeaderModifier => {
            let (add, set, remove) = convert_modifier(&filter.request_header_modifier);
            Some(Filter::RequestHeaderModifier { add, set, remove })
        },
        HttpRouteRulesFiltersType::ResponseHeaderModifier => {
            let (add, set, remove) = convert_modifier(&filter.response_header_modifier);
            Some(Filter::ResponseHeaderModifier { add, set, remove })
        },
        HttpRouteRulesFiltersType::RequestRedirect => match &filter.request_redirect {
            Some(redirect) => {
                let scheme = match redirect.scheme {
                    Some(HttpRouteRulesFiltersRequestRedirectScheme::Http) => Some(
                        "http".to_string(),
                    ),
                    Some(HttpRouteRulesFiltersRequestRedirectScheme::Https) => Some(
                        "https".to_string(),
                    ),
                    None => None,
                };
                let port: Option<u16> = match redirect.port {
                    Some(p) => Some(p as u16),
                    None => None,
                };
                let status_code: Option<u16> = match redirect.status_code {
                    Some(c) => Some(c as u16),
                    None => None,
                };
                Some(
                    Filter::RequestRedirect {
                        scheme,
                        hostname: redirect.hostname.clone(),
                        port,
                        path: convert_path_change(&redirect.path),
                        status_code,
                    },
                )
            },
            None => None,
        },
        HttpRouteRulesFiltersType::UrlRewrite => match &filter.url_rewrite {
            Some(rewrite) => Some(
                Filter::URLRewrite {
                    hostname: rewrite.hostname.clone(),
                    path: convert_path_change(&rewrite.path),
                },
            ),
            None => None,
        },
        HttpRouteRulesFiltersType::RequestMirror => match &filter.request_mirror {
            Some(mirror) => {
                let namespace = text_or_empty(&mirror.backend_ref.namespace);
                let port: u16 = match mirror.backend_ref.port {
                    Some(p) => p as u16,
                    None => 80,
                };
                let percent: Option<u32> = match mirror.percent {
                    Some(p) => Some(p as u32),
                    None => None,
                };
                Some(
                    Filter::RequestMirror {
                        backend: Backend::new(
                            namespace.as_str(),
                            mirror.backend_ref.name.as_str(),
                            port,
                        ),
                        percent,
                    },
                )
            },
            None => None,
        },
        HttpRouteRulesFiltersType::ExtensionRef => None,
    }
}

// ---------------------------------------------------------------------------
// Converting backends and timeouts
// ---------------------------------------------------------------------------

/// A text that may be missing, or a default.
pub open spec fn or_default(s: Option<String>, default: Seq<char>) -> Seq<char> {
    match s {
        Some(t) => t@,
        None => default,
    }
}

/// Whether `r` is the backend: in the route's namespace, on port 80 and of
/// weight 1 by default. Port and weight are cut to their size.
pub open spec fn converts_backend(r: Backend, b: HttpRouteRulesBackendRefs, route_namespace: Seq<char>) -> bool {
    &&& r.namespace@ == or_default(b.namespace, route_namespace)
    &&& r.name@ == b.name@
    &&& r.port == backend_port(b.port)
    &&& r.weight == match b.weight {
        Some(w) => w as u32,
        None => 1,
    }
    &&& r.protocol == BackendProtocol::Http1
}

pub fn convert_backend(backend: &HttpRouteRulesBackendRefs, route_namespace: &str) -> (r: Backend)
    ensures
        converts_backend(r, *backend, route_namespace@),
{
    let namespace: &str = match &backend.namespace {
        Some(ns) => ns.as_str(),
        None => route_namespace,
    };
    let port: u16 = match backend.port {
        Some(p) => p as u16,
        None => 80,
    };
    let weight: u32 = match backend.weight {
        Some(w) => w as u32,
        None => 1,
    };
    Backend::new(namespace, backend.name.as_str(), port).with_weight(weight)
}

/// The unit of a duration.
#[derive(Debug, Clone, Copy, PartialEq, Eq, Structural)]
pub enum DurationUnit {
    Seconds,
    Minutes,
    Hours,
}

impl DurationUnit {
    /// The seconds of one unit.
    pub fn seconds(self) -> (r: u32)
        ensures
            r == match self {
                DurationUnit::Seconds => 1u32,
                DurationUnit::Minutes => 60u32,
                DurationUnit::Hours => 3600u32,
            },
    {
        match self {
            DurationUnit::Seconds => 1,
            DurationUnit::Minutes => 60,
            DurationUnit::Hours => 3600,
        }
    }
}

/// The unit that the last letter of a duration names, where it names one.
pub open spec fn unit_letter(text: Seq<char>) -> Option<DurationUnit> {
    if text.len() == 0 {
        None
    } else if text.last() == 's' {
        Some(DurationUnit::Seconds)
    } else if text.last() == 'm' {
        Some(DurationUnit::Minutes)
    } else if text.last() == 'h' {
        Some(DurationUnit::Hours)
    } else {
        None
    }
}

/// The number of a duration, as it is written, and its unit. Without a unit
/// the number is of seconds.
pub fn split_duration(duration: &str) -> (r: (String, DurationUnit))
    ensures
        match unit_letter(duration@) {
            Some(unit) => r.0@ == duration@.drop_last() && r.1 == unit,
            None => r.0@ == duration@ && r.1 == DurationUnit::Seconds,
        },
{
    let cs = text::chars_of(duration);
    let n = cs.len();
    if n == 0 {
        return (duration.to_string(), DurationUnit::Seconds);
    }
    let unit = match cs[n - 1] {
        's' => DurationUnit::Seconds,
        'm' => DurationUnit::Minutes,
        'h' => DurationUnit::Hours,
        _ => return (duration.to_string(), DurationUnit::Seconds),
    };
    let number = text::slice_text(&cs, 0, n - 1);
    assert(number@ =~= duration@.drop_last());
    (number, unit)
}

/// The seconds of a duration that may be missing or unreadable.
pub open spec fn seconds_of(d: Option<RouteDuration>) -> Option<Seconds> {
    match d {
        Some(duration) => duration.seconds,
        None => None,
    }
}

/// The timeouts of a rule.
pub open spec fn timeout_of(t: Option<HttpRouteRulesTimeouts>) -> Option<TimeoutConfig> {
    match t {
        Some(timeouts) => Some(
            TimeoutConfig {
                request: seconds_of(timeouts.request),
                backend_request: seconds_of(timeouts.backend_request),
            },
        ),
        None => None,
    }
}

fn convert_duration(d: &Option<RouteDuration>) -> (r: Option<Seconds>)
    ensures
        r == seconds_of(*d),
{
    match d {
        Some(duration) => duration.seconds,
        None => None,
    }
}

// ---------------------------------------------------------------------------
// Converting rules and routes
// ---------------------------------------------------------------------------

/// Whether `r` are what becomes of some filters: those that become something,
/// in their order.
pub open spec fn converts_filters(r: Seq<Filter>, f: Seq<HttpRouteRulesFilters>) -> bool
    decreases f.len(),
{
    if f.len() == 0 {
        r.len() == 0
    } else if r.len() > 0 && converts_filter(Some(r.last()), f.last()) {
        converts_filters(r.drop_last(), f.drop_last())
    } else {
        converts_filter(None, f.last()) && converts_filters(r, f.drop_last())
    }
}

/// Whether `r` is what becomes of a rule. A rule without matches gets one that
/// every request meets.
pub open spec fn converts_rule(r: RouteRule, rule: HttpRouteRules, route_namespace: Seq<char>) -> bool {
    &&& r.name == rule.name
    &&& if items(rule.matches).len() == 0 {
        r.matches@.len() == 1 && r.matches@[0].is_empty()
    } else {
        &&& r.matches@.len() == items(rule.matches).len()
        &&& forall|i: int|
            0 <= i < r.matches@.len() ==> converts_match(
                #[trigger] r.matches@[i],
                items(rule.matches)[i],
            )
    }
    &&& converts_filters(r.filters@, items(rule.filters))
    &&& r.backends@.len() == items(rule.backend_refs).len()
    &&& forall|i: int|
        0 <= i < r.backends@.len() ==> converts_backend(
            #[trigger] r.backends@[i],
            items(rule.backend_refs)[i],
            route_namespace,
        )
    &&& r.timeout == timeout_of(rule.timeouts)
}

/// A converted filter is not both something and nothing.
proof fn lemma_filter_is_one(f: HttpRouteRulesFilters, x: Filter)
    ensures
        !(converts_filter(None, f) && converts_filter(Some(x), f)),
{
}

fn convert_matches(list: &Option<Vec<HttpRouteRulesMatches>>) -> (r: Vec<RouteMatch>)
    ensures
        if items(*list).len() == 0 {
            r@.len() == 1 && r@[0].is_empty()
        } else {
            &&& r@.len() == items(*list).len()
            &&& forall|i: int|
                0 <= i < r@.len() ==> converts_match(#[trigger] r@[i], items(*list)[i])
        },
{
    let mut r: Vec<RouteMatch> = Vec::new();
    if let Some(v) = list {
        let mut i: usize = 0;
        while i < v.len()
            invariant
                i <= v@.len(),
                r@.len() == i,
                forall|k: int| 0 <= k < i ==> converts_match(#[trigger] r@[k], v@[k]),
            decreases v.len() - i,
        {
            r.push(convert_match(&v[i]));
            i += 1;
        }
    }
    if r.len() == 0 {
        r.push(RouteMatch::default());
    }
    r
}

fn convert_filters(list: &Option<Vec<HttpRouteRulesFilters>>) -> (r: Vec<Filter>)
    ensures
        converts_filters(r@, items(*list)),
{
    let mut r: Vec<Filter> = Vec::new();
    if let Some(v) = list {
        let mut i: usize = 0;
        assert(v@.take(0) =~= Seq::empty());
        while i < v.len()
            invariant
                i <= v@.len(),
                converts_filters(r@, v@.take(i as int)),
            decreases v.len() - i,
        {
            assert(v@.take(i + 1).drop_last() =~= v@.take(i as int));
            let ghost before = r@;
            match convert_filter(&v[i]) {
                Some(filter) => {
                    r.push(filter);
                    assert(r@.drop_last() =~= before);
                },
                None => {
                    proof {
                        if before.len() > 0 {
                            lemma_filter_is_one(v@[i as int], before.last());
                        }
                    }
                },
            }
            i += 1;
        }
        assert(v@.take(i as int) =~= v@);
    }
    r
}

pub fn convert_rule(rule: &HttpRouteRules, route_namespace: &str) -> (r: RouteRule)
    ensures
        converts_rule(r, *rule, route_namespace@),
{
    let mut backends: Vec<Backend> = Vec::new();
    if let Some(v) = &rule.backend_refs {
        let mut i: usize = 0;
        while i < v.len()
            invariant
                i <= v@.len(),
                backends@.len() == i,
                forall|k: int|
                    0 <= k < i ==> converts_backend(
                        #[trigger] backends@[k],
                        v@[k],
                        route_namespace@,
                    ),
            decreases v.len() - i,
        {
            backends.push(convert_backend(&v[i], route_namespace));
            i += 1;
        }
    }
    let timeout = match &rule.timeouts {
        Some(t) => Some(
            TimeoutConfig {
                request: convert_duration(&t.request),
                backend_request: convert_duration(&t.backend_request),
            },
        ),
        None => None,
    };
    RouteRule {
        name: rule.name.clone(),
        matches: convert_matches(&rule.matches),
        filters: convert_filters(&rule.filters),
        backends,
        timeout,
    }
}

/// The namespace of a route.
pub open spec fn route_namespace(route: HTTPRoute) -> Seq<char> {
    or_empty(route.namespace)
}

/// Whether `r` is the configuration of a route that is attached to these
/// listeners.
pub open spec fn converts_route(r: RouteConfig, route: HTTPRoute, listeners: Seq<Seq<char>>) -> bool {
    &&& r.namespace@ == route_namespace(route)
    &&& r.name@ == route.name@
    &&& r.hostnames@ == items(route.hostnames)
    &&& text::views(r.attached_listeners@) == listeners
    &&& r.rules@.len() == items(route.rules).len()
    &&& forall|i: int|
        0 <= i < r.rules@.len() ==> converts_rule(
            #[trigger] r.rules@[i],
            items(route.rules)[i],
            route_namespace(route),
        )
}

/// The configuration of the route, attached to these listeners.
pub fn convert_httproute_to_config(httproute: &HTTPRoute, attached_listeners: &Vec<&str>) -> (r:
    RouteConfig)
    ensures
        converts_route(r, *httproute, attached_listeners@.map_values(|s: &str| s@)),
{
    let namespace = text_or_empty(&httproute.namespace);
    let mut attached: Vec<String> = Vec::new();
    let mut i: usize = 0;
    while i < attached_listeners.len()
        invariant
            i <= attached_listeners@.len(),
            attached@.len() == i,
            forall|k: int| 0 <= k < i ==> (#[trigger] attached@[k])@ == attached_listeners@[k]@,
        decreases attached_listeners.len() - i,
    {
        attached.push(attached_listeners[i].to_string());
        i += 1;
    }
    assert(text::views(attached@) =~= attached_listeners@.map_values(|s: &str| s@));
    let mut rules: Vec<RouteRule> = Vec::new();
    if let Some(v) = &httproute.rules {
        let mut j: usize = 0;
        while j < v.len()
            invariant
                j <= v@.len(),
                namespace@ == route_namespace(*httproute),
                rules@.len() == j,
                forall|k: int|
                    0 <= k < j ==> converts_rule(
                        #[trigger] rules@[k],
                        v@[k],
                        route_namespace(*httproute),
                    ),
            decreases v.len() - j,
        {
            rules.push(convert_rule(&v[j], namespace.as_str()));
            j += 1;
        }
    }
    RouteConfig {
        name: httproute.name.clone(),
        namespace,
        hostnames: clone_names(&httproute.hostnames),
        attached_listeners: attached,
        rules,
    }
}

// ---------------------------------------------------------------------------
// Laws
// ---------------------------------------------------------------------------

/// A converted path condition is met by the paths that the resource means: an
/// exact one by its value alone, a regular expression where it is found, and
/// any other by its value and what follows it behind a slash. Without a value
/// it stands for the root.
pub proof fn law_converted_paths_take_what_is_meant(
    r: PathMatch,
    path: HttpRouteRulesMatchesPath,
    p: Seq<char>,
)
    requires
        converts_path(r, path),
    ensures
        ({
            let value = match path.value {
                Some(v) => v@,
                None => seq!['/'],
            };
            let met = routing::path_covers(r.match_type, r.value@, p);
            match path.type_ {
                Some(HttpRouteRulesMatchesPathType::Exact) => met <==> p == value,
                Some(HttpRouteRulesMatchesPathType::RegularExpression) => met
                    <==> routing::regex_search(value, p) == Some(true),
                _ => met <==> value == seq!['/'] || p == value || (value + seq![
                    '/',
                ]).is_prefix_of(p),
            }
        }),
{
    reveal_strlit("/");
    assert("/"@ =~= seq!['/']);
    assert(r.value@.push('/') =~= r.value@ + seq!['/']);
}

/// The three types of path conditions stay apart; one without a type is a
/// prefix.
pub proof fn law_path_types_stay_apart(
    a: HttpRouteRulesMatchesPathType,
    b: HttpRouteRulesMatchesPathType,
)
    ensures
        path_type(Some(a)) == path_type(Some(b)) <==> a == b,
        path_type(None) == path_type(Some(HttpRouteRulesMatchesPathType::PathPrefix)),
{
}

/// An exact path of the resource outranks every path of another type once both
/// are converted.
pub proof fn law_exact_paths_keep_their_rank(
    exact: RouteMatch,
    other: RouteMatch,
    a: HttpRouteRulesMatches,
    b: HttpRouteRulesMatches,
)
    requires
        converts_match(exact, a),
        converts_match(other, b),
        a.path matches Some(p) && p.type_ == Some(HttpRouteRulesMatchesPathType::Exact),
        b.path matches Some(p) ==> p.type_ != Some(HttpRouteRulesMatchesPathType::Exact),
    ensures
        routing::outranks(routing::rank_of(exact), routing::rank_of(other)),
{
}

/// A converted header condition is met by headers of its name, in any case,
/// that have its value; one with a regular expression by those in whose value
/// it is found.
pub proof fn law_converted_headers_take_what_is_meant(
    condition: HttpRouteRulesMatchesHeaders,
    name: Seq<char>,
    value: Seq<char>,
)
    ensures
        routing::header_covers(header_match_of(condition), (name, value)) <==> text::lower(name)
            == text::lower(condition.name@) && if condition.type_ == Some(
            HttpRouteRulesMatchesHeadersType::RegularExpression,
        ) {
            routing::regex_search(condition.value@, value) == Some(true)
        } else {
            value == condition.value@
        },
{
}

/// A converted query parameter condition is met by parameters of its name that
/// have its value; one with a regular expression by those in whose value it is
/// found.
pub proof fn law_converted_query_params_take_what_is_meant(
    condition: HttpRouteRulesMatchesQueryParams,
    name: Seq<char>,
    value: Seq<char>,
)
    ensures
        routing::query_param_covers(query_match_of(condition), (name, value)) <==> name
            == condition.name@ && if condition.type_ == Some(
            HttpRouteRulesMatchesQueryParamsType::RegularExpression,
        ) {
            routing::regex_search(condition.value@, value) == Some(true)
        } else {
            value == condition.value@
        },
{
}

/// The words of the methods, letter by letter.
pub proof fn law_methods_are_spelled_out(method: HttpRouteRulesMatchesMethod)
    ensures
        method_word(method) == match method {
            HttpRouteRulesMatchesMethod::Get => seq!['G', 'E', 'T'],
            HttpRouteRulesMatchesMethod::Head => seq!['H', 'E', 'A', 'D'],
            HttpRouteRulesMatchesMethod::Post => seq!['P', 'O', 'S', 'T'],
            HttpRouteRulesMatchesMethod::Put => seq!['P', 'U', 'T'],
            HttpRouteRulesMatchesMethod::Delete => seq!['D', 'E', 'L', 'E', 'T', 'E'],
            HttpRouteRulesMatchesMethod::Connect => seq!['C', 'O', 'N', 'N', 'E', 'C', 'T'],
            HttpRouteRulesMatchesMethod::Options => seq!['O', 'P', 'T', 'I', 'O', 'N', 'S'],
            HttpRouteRulesMatchesMethod::Trace => seq!['T', 'R', 'A', 'C', 'E'],
            HttpRouteRulesMatchesMethod::Patch => seq!['P', 'A', 'T', 'C', 'H'],
        },
{
    reveal_strlit("GET");
    reveal_strlit("HEAD");
    reveal_strlit("POST");
    reveal_strlit("PUT");
    reveal_strlit("DELETE");
    reveal_strlit("CONNECT");
    reveal_strlit("OPTIONS");
    reveal_strlit("TRACE");
    reveal_strlit("PATCH");
    assert("GET"@ =~= seq!['G', 'E', 'T']);
    assert("HEAD"@ =~= seq!['H', 'E', 'A', 'D']);
    assert("POST"@ =~= seq!['P', 'O', 'S', 'T']);
    assert("PUT"@ =~= seq!['P', 'U', 'T']);
    assert("DELETE"@ =~= seq!['D', 'E', 'L', 'E', 'T', 'E']);
    assert("CONNECT"@ =~= seq!['C', 'O', 'N', 'N', 'E', 'C', 'T']);
    assert("OPTIONS"@ =~= seq!['O', 'P', 'T', 'I', 'O', 'N', 'S']);
    assert("TRACE"@ =~= seq!['T', 'R', 'A', 'C', 'E']);
    assert("PATCH"@ =~= seq!['P', 'A', 'T', 'C', 'H']);
}

/// A converted match holds exactly for the requests that meet every condition
/// of the resource: its path, its method and each of its headers and query
/// parameters.
pub proof fn law_converted_matches_hold_where_they_should(
    r: RouteMatch,
    m: HttpRouteRulesMatches,
    request: routing::RequestModel,
)
    requires
        converts_match(r, m),
    ensures
        routing::match_holds(r, request) <==> {
            &&& m.path is Some ==> routing::path_covers(
                r.path->0.match_type,
                r.path->0.value@,
                request.path,
            )
            &&& m.method matches Some(method) ==> text::lower(request.method) == text::lower(
                method_word(method),
            )
            &&& m.headers matches Some(list) ==> forall|k: int|
                0 <= k < list@.len() ==> exists|i: int|
                    0 <= i < request.headers.len() && #[trigger] routing::header_covers(
                        header_match_of(#[trigger] list@[k]),
                        request.headers[i],
                    )
            &&& m.query_params matches Some(list) ==> forall|k: int|
                0 <= k < list@.len() ==> exists|i: int|
                    0 <= i < request.query_params.len() && #[trigger] routing::query_param_covers(
                        query_match_of(#[trigger] list@[k]),
                        request.query_params[i],
                    )
        },
        r.path is Some <==> m.path is Some,
        r.method is Some <==> m.method is Some,
        r.headers@.len() == (match m.headers {
            Some(list) => list@.len(),
            None => 0,
        }),
        r.query_params@.len() == (match m.query_params {
            Some(list) => list@.len(),
            None => 0,
        }),
{
    if let Some(list) = m.headers {
        assert(forall|k: int| 0 <= k < list@.len() ==> #[trigger] r.headers@[k] == header_match_of(
            list@[k],
        ));
        assert forall|k: int| 0 <= k < list@.len() implies (routing::header_condition_met(
            #[trigger] r.headers@[k],
            request,
        ) <==> exists|i: int|
            0 <= i < request.headers.len() && #[trigger] routing::header_covers(
                header_match_of(list@[k]),
                request.headers[i],
            )) by {}
        if routing::match_holds(r, request) {
            assert forall|k: int| 0 <= k < list@.len() implies exists|i: int|
                0 <= i < request.headers.len() && #[trigger] routing::header_covers(
                    header_match_of(#[trigger] list@[k]),
                    request.headers[i],
                ) by {
                assert(routing::header_condition_met(r.headers@[k], request));
            }
        }
        assert(forall|k: int| 0 <= k < list@.len() ==> header_match_of(#[trigger] list@[k])
            == r.headers@[k]);
    }
    if let Some(list) = m.query_params {
        assert(forall|k: int|
            0 <= k < list@.len() ==> #[trigger] r.query_params@[k] == query_match_of(list@[k]));
        assert forall|k: int| 0 <= k < list@.len() implies (routing::query_condition_met(
            #[trigger] r.query_params@[k],
            request,
        ) <==> exists|i: int|
            0 <= i < request.query_params.len() && #[trigger] routing::query_param_covers(
                query_match_of(list@[k]),
                request.query_params[i],
            )) by {}
        if routing::match_holds(r, request) {
            assert forall|k: int| 0 <= k < list@.len() implies exists|i: int|
                0 <= i < request.query_params.len() && #[trigger] routing::query_param_covers(
                    query_match_of(#[trigger] list@[k]),
                    request.query_params[i],
                ) by {
                assert(routing::query_condition_met(r.query_params@[k], request));
            }
        }
        assert(forall|k: int| 0 <= k < list@.len() ==> query_match_of(#[trigger] list@[k])
            == r.query_params@[k]);
    }
}

/// A header filter adds, sets and removes what the settings of its own type
/// say, name by name and value by value; without settings it does nothing.
pub proof fn law_header_filters_do_what_they_say(r: Filter, f: HttpRouteRulesFilters)
    requires
        converts_filter(Some(r), f),
        f.type_ == HttpRouteRulesFiltersType::RequestHeaderModifier || f.type_
            == HttpRouteRulesFiltersType::ResponseHeaderModifier,
    ensures
        ({
            let request = f.type_ == HttpRouteRulesFiltersType::RequestHeaderModifier;
            let settings = if request {
                f.request_header_modifier
            } else {
                f.response_header_modifier
            };
            let (add, set, remove) = match r {
                Filter::RequestHeaderModifier { add, set, remove } => (add@, set@, remove@),
                Filter::ResponseHeaderModifier { add, set, remove } => (add@, set@, remove@),
                _ => arbitrary(),
            };
            &&& request <==> r is RequestHeaderModifier
            &&& !request <==> r is ResponseHeaderModifier
            &&& match settings {
                None => add.len() == 0 && set.len() == 0 && remove.len() == 0,
                Some(m) => {
                    &&& m.add is None ==> add.len() == 0
                    &&& m.set is None ==> set.len() == 0
                    &&& m.remove is None ==> remove.len() == 0
                    &&& m.add matches Some(list) ==> same_headers(add, list@)
                    &&& m.set matches Some(list) ==> same_headers(set, list@)
                    &&& m.remove matches Some(list) ==> remove == list@
                },
            }
        }),
{
}

/// Whether headers are those of a list, in their order.
pub open spec fn same_headers(headers: Seq<HeaderValue>, list: Seq<HttpHeader>) -> bool {
    &&& headers.len() == list.len()
    &&& forall|k: int|
        0 <= k < list.len() ==> (#[trigger] headers[k]).name@ == list[k].name@ && headers[k].value@
            == list[k].value@
}

/// A redirect, a rewrite and a mirror become what they are, with the settings
/// of their own type; without settings they, and extensions, become nothing.
/// Only header filters become something in any case.
pub proof fn law_filters_keep_their_type(r: Option<Filter>, f: HttpRouteRulesFilters)
    requires
        converts_filter(r, f),
    ensures
        r matches Some(x) && x is RequestRedirect <==> f.type_
            == HttpRouteRulesFiltersType::RequestRedirect && f.request_redirect is Some,
        r matches Some(x) && x is URLRewrite <==> f.type_ == HttpRouteRulesFiltersType::UrlRewrite
            && f.url_rewrite is Some,
        r matches Some(x) && x is RequestMirror <==> f.type_
            == HttpRouteRulesFiltersType::RequestMirror && f.request_mirror is Some,
        f.type_ == HttpRouteRulesFiltersType::ExtensionRef ==> r is None,
        f.type_ == HttpRouteRulesFiltersType::RequestHeaderModifier ==> r is Some,
        f.type_ == HttpRouteRulesFiltersType::ResponseHeaderModifier ==> r is Some,
{
}

/// A converted redirect names the scheme, host, port, path and status that the
/// resource names, and none that it does not.
pub proof fn law_converted_redirects_point_where_they_should(r: Filter, f: HttpRouteRulesFilters)
    requires
        converts_filter(Some(r), f),
        f.type_ == HttpRouteRulesFiltersType::RequestRedirect,
        f.request_redirect is Some,
    ensures
        ({
            let given = f.request_redirect->0;
            let scheme = text::opt_owned(r->RequestRedirect_scheme);
            let hostname = text::opt_owned(r->RequestRedirect_hostname);
            let port = r->RequestRedirect_port;
            let status = r->RequestRedirect_status_code;
            &&& given.scheme is None ==> scheme is None
            &&& given.scheme == Some(HttpRouteRulesFiltersRequestRedirectScheme::Http) ==> scheme
                == Some(seq!['h', 't', 't', 'p'])
            &&& given.scheme == Some(HttpRouteRulesFiltersRequestRedirectScheme::Https) ==> scheme
                == Some(seq!['h', 't', 't', 'p', 's'])
            &&& given.hostname is None ==> hostname is None
            &&& given.hostname matches Some(h) ==> hostname == Some(h@)
            &&& given.port is None ==> port is None
            &&& given.port matches Some(p) ==> port is Some && (0 <= p <= 65535 ==> port->0 == p)
            &&& given.status_code is None ==> status is None
            &&& given.status_code matches Some(c) ==> status is Some && (0 <= c <= 65535
                ==> status->0 == c)
            &&& r->RequestRedirect_path is Some <==> given.path is Some
            &&& given.path matches Some(p) ==> replaces_as_given(r->RequestRedirect_path->0, p)
        }),
{
    reveal_strlit("http");
    reveal_strlit("https");
    assert("http"@ =~= seq!['h', 't', 't', 'p']);
    assert("https"@ =~= seq!['h', 't', 't', 'p', 's']);
}

/// Whether a path change is of the kind that the resource names and puts the
/// text in place that it gives for that kind.
pub open spec fn replaces_as_given(r: PathModifier, p: HttpPathModifier) -> bool {
    &&& r is ReplaceFullPath <==> p.type_ == HttpPathModifierType::ReplaceFullPath
    &&& r is ReplacePrefixMatch <==> p.type_ == HttpPathModifierType::ReplacePrefixMatch
    &&& r is ReplaceFullPath ==> (p.replace_full_path matches Some(v)
        ==> r->ReplaceFullPath_value@ == v@)
    &&& r is ReplacePrefixMatch ==> (p.replace_prefix_match matches Some(v)
        ==> r->ReplacePrefixMatch_value@ == v@)
}

/// A converted mirror copies requests to the service that the resource names,
/// on port 80 where it names none, over HTTP/1.1, and as often as it says.
pub proof fn law_converted_mirrors_copy_where_they_should(r: Filter, f: HttpRouteRulesFilters)
    requires
        converts_filter(Some(r), f),
        f.type_ == HttpRouteRulesFiltersType::RequestMirror,
        f.request_mirror is Some,
    ensures
        ({
            let given = f.request_mirror->0;
            let target = r->RequestMirror_backend;
            &&& target.name@ == given.backend_ref.name@
            &&& given.backend_ref.namespace matches Some(ns) ==> target.namespace@ == ns@
            &&& given.backend_ref.port matches Some(p) ==> (0 <= p <= 65535 ==> target.port == p)
            &&& given.backend_ref.port is None ==> target.port == 80
            &&& target.protocol == BackendProtocol::Http1
            &&& given.percent is None ==> r->RequestMirror_percent is None
            &&& given.percent matches Some(p) ==> (p >= 0 ==> r->RequestMirror_percent == Some(
                p as u32,
            ) && p as u32 == p)
        }),
{
}

/// A converted rewrite changes the host and the path that the resource names,
/// and nothing else.
pub proof fn law_converted_rewrites_change_what_they_should(
    r: Filter,
    f: HttpRouteRulesFilters,
    path: Seq<char>,
    matched: Option<Seq<char>>,
)
    requires
        converts_filter(Some(r), f),
        f.type_ == HttpRouteRulesFiltersType::UrlRewrite,
        f.url_rewrite is Some,
    ensures
        ({
            let given = f.url_rewrite->0;
            let change = filter::rewrite_of(r, path, matched);
            &&& change.hostname is Some <==> given.hostname is Some
            &&& given.hostname matches Some(h) ==> change.hostname == Some(h@)
            &&& change.path is Some <==> given.path is Some
            &&& given.path matches Some(p) ==> {
                &&& p.type_ == HttpPathModifierType::ReplaceFullPath ==> {
                    p.replace_full_path matches Some(v) ==> change.path == Some(v@)
                }
                &&& p.type_ == HttpPathModifierType::ReplacePrefixMatch ==> {
                    p.replace_prefix_match matches Some(v) ==> v@.is_prefix_of(change.path->0)
                }
            }
        }),
{
    if let Some(PathModifier::ReplacePrefixMatch { value }) = r->URLRewrite_path {
        let changed = filter::rewrite_of(r, path, matched).path->0;
        assert(changed.take(value@.len() as int) =~= value@);
    }
}

/// A converted backend is the service that the resource names, at its port and
/// with its weight; by default in the namespace of the route, at port 80 and
/// with weight 1. It speaks HTTP/1.1.
pub proof fn law_converted_backends_are_the_services_named(
    r: Backend,
    b: HttpRouteRulesBackendRefs,
    namespace: Seq<char>,
)
    requires
        converts_backend(r, b, namespace),
    ensures
        r.name@ == b.name@,
        b.namespace matches Some(ns) ==> r.namespace@ == ns@,
        b.namespace is None ==> r.namespace@ == namespace,
        b.port matches Some(p) ==> (0 <= p <= 65535 ==> r.port == p),
        b.port is None ==> r.port == 80,
        b.weight matches Some(w) ==> (w >= 0 ==> r.weight == w),
        b.weight is None ==> r.weight == 1,
        r.protocol == BackendProtocol::Http1,
{
}

/// The unit of a duration is its last letter; the number is all before it.
pub proof fn law_durations_end_with_their_unit(number: Seq<char>, letter: char)
    ensures
        unit_letter(number.push(letter)) == (if letter == 's' {
            Some(DurationUnit::Seconds)
        } else if letter == 'm' {
            Some(DurationUnit::Minutes)
        } else if letter == 'h' {
            Some(DurationUnit::Hours)
        } else {
            None
        }),
        unit_letter(Seq::empty()) is None,
{
}

/// Filters that all become something keep their number and their order.
pub proof fn law_filters_keep_their_order(r: Seq<Filter>, f: Seq<HttpRouteRulesFilters>)
    requires
        converts_filters(r, f),
        forall|i: int| 0 <= i < f.len() ==> !converts_filter(None, #[trigger] f[i]),
    ensures
        r.len() == f.len(),
        forall|i: int| 0 <= i < f.len() ==> converts_filter(Some(#[trigger] r[i]), f[i]),
    decreases f.len(),
{
    if f.len() > 0 {
        let last = f.len() - 1;
        assert(!converts_filter(None, f[last]));
        let front = f.drop_last();
        assert forall|i: int| 0 <= i < front.len() implies !converts_filter(
            None,
            #[trigger] front[i],
        ) by {
            assert(front[i] == f[i]);
        }
        law_filters_keep_their_order(r.drop_last(), front);
        assert forall|i: int| 0 <= i < f.len() implies converts_filter(
            Some(#[trigger] r[i]),
            f[i],
        ) by {
            if i < last {
                assert(r[i] == r.drop_last()[i] && f[i] == front[i]);
            }
        }
    }
}

/// A filter that becomes nothing leaves no trace: what becomes of filters with
/// it at the end is what becomes of them without it.
pub proof fn law_filters_without_settings_are_left_out(
    r: Seq<Filter>,
    f: Seq<HttpRouteRulesFilters>,
    nothing: HttpRouteRulesFilters,
)
    requires
        converts_filter(None, nothing),
    ensures
        converts_filters(r, f.push(nothing)) <==> converts_filters(r, f),
{
    assert(f.push(nothing).drop_last() =~= f);
    if r.len() > 0 {
        lemma_filter_is_one(nothing, r.last());
    }
}

/// A rule without matches takes every request once it is converted; one with
/// matches takes those that meet one of them.
pub proof fn law_converted_rules_take_what_is_meant(
    r: RouteRule,
    rule: HttpRouteRules,
    namespace: Seq<char>,
    request: routing::RequestModel,
)
    requires
        converts_rule(r, rule, namespace),
    ensures
        rule.matches is None ==> routing::rule_rank(r, request) is Some,
        rule.matches matches Some(list) ==> (list@.len() == 0 ==> routing::rule_rank(
            r,
            request,
        ) is Some),
        rule.matches matches Some(list) ==> (list@.len() > 0 ==> {
            &&& r.matches@.len() == list@.len()
            &&& forall|k: int|
                0 <= k < list@.len() ==> converts_match(#[trigger] r.matches@[k], list@[k])
            &&& routing::rule_rank(r, request) is Some <==> exists|k: int|
                0 <= k < list@.len() && routing::match_holds(#[trigger] r.matches@[k], request)
        }),
{
    if r.matches@.len() > 0 {
        routing::law_one_match_is_enough(r, request);
    }
    if items(rule.matches).len() == 0 {
        assert(routing::match_holds(r.matches@[0], request));
    }
}

/// A converted rule has the backends of the resource, all of them and in their
/// order, and its two timeouts in their places.
pub proof fn law_converted_rules_keep_backends_and_timeouts(
    r: RouteRule,
    rule: HttpRouteRules,
    namespace: Seq<char>,
)
    requires
        converts_rule(r, rule, namespace),
    ensures
        rule.backend_refs is None ==> r.backends@.len() == 0,
        rule.backend_refs matches Some(list) ==> {
            &&& r.backends@.len() == list@.len()
            &&& forall|k: int|
                0 <= k < list@.len() ==> (#[trigger] r.backends@[k]).name@ == list@[k].name@
                    && converts_backend(r.backends@[k], list@[k], namespace)
        },
        rule.timeouts is None ==> r.timeout is None,
        rule.timeouts matches Some(t) ==> r.timeout matches Some(c) && {
            &&& c.request == (match t.request {
                Some(d) => d.seconds,
                None => None,
            })
            &&& c.backend_request == (match t.backend_request {
                Some(d) => d.seconds,
                None => None,
            })
        },
{
}

/// A converted route is known by the name and the namespace of the resource,
/// takes its host names, is reached at the listeners that it is attached to and
/// at no others, and has its rules in their order.
pub proof fn law_converted_routes_are_reached_where_they_should(
    r: RouteConfig,
    route: HTTPRoute,
    listeners: Seq<Seq<char>>,
    listener: Seq<char>,
    host: Option<Seq<char>>,
)
    requires
        converts_route(r, route, listeners),
    ensures
        r.name@ == route.name@,
        route.namespace matches Some(ns) ==> r.namespace@ == ns@,
        route.namespace is None ==> r.namespace@.len() == 0,
        r.is_attached_to(listener) <==> listeners.contains(listener),
        route.hostnames is None ==> routing::hostnames_cover(r.hostnames@, host),
        route.hostnames matches Some(list) ==> routing::hostnames_cover(r.hostnames@, host)
            == routing::hostnames_cover(list@, host),
        route.rules is None ==> r.rules@.len() == 0,
        route.rules matches Some(list) ==> {
            &&& r.rules@.len() == list@.len()
            &&& forall|k: int|
                0 <= k < list@.len() ==> converts_rule(
                    #[trigger] r.rules@[k],
                    list@[k],
                    r.namespace@,
                )
        },
{
    if r.is_attached_to(listener) {
        let i = choose|i: int|
            0 <= i < r.attached_listeners@.len() && (#[trigger] r.attached_listeners@[i])@
                == listener;
        assert(listeners[i] == listener);
    }
    if listeners.contains(listener) {
        let i = listeners.index_of(listener);
        assert(text::views(r.attached_listeners@)[i] == listener);
        assert(r.attached_listeners@[i]@ == listener);
    }
}

} // verus!
