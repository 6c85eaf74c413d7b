//! Attaching HTTPRoutes to Gateways.

use vstd::prelude::*;

use crate::config::RouteConfig;
use crate::controller::api::{
    condition, status_word, Condition, ConditionModel, Gateway, GatewayListeners,
    GatewayListenersAllowedRoutesNamespacesFrom, HTTPRoute, HttpRouteParentRefs, HttpRouteRules,
    HttpRouteRulesBackendRefs, ReferenceGrant, Timestamp, GATEWAY_GROUP,
};
use crate::controller::config::{
    protocol_named, GatewayConfig, CONFIG_KEY, CONTROLLER_NAME,
};
use crate::controller::error::ControllerError;
use crate::controller::gateway::{
    allows, get_allowed_route_namespaces, policy_of, selector_of, AllowedNamespaces,
};
use crate::controller::httproute::{
    convert_httproute_to_config, converts_route, items, or_default, or_empty, route_namespace,
};
use crate::text::{self, join3};

verus! {

// ---------------------------------------------------------------------------
// Listeners and namespaces
// ---------------------------------------------------------------------------

/// Whether a parent reference means a listener: by name and port where it
/// gives them, and only where the listener speaks HTTP or HTTPS.
pub open spec fn listener_meant(listener: GatewayListeners, section: Option<Seq<char>>, port: Option<i32>) -> bool {
    &&& section matches Some(name) ==> listener.name@ == name
    &&& port matches Some(p) ==> listener.port == p
    &&& protocol_named(text::unicode_upper(listener.protocol@)) is Some
}

/// The listeners that a parent reference means, in their order.
pub open spec fn listeners_meant(
    listeners: Seq<GatewayListeners>,
    section: Option<Seq<char>>,
    port: Option<i32>,
) -> Seq<GatewayListeners>
    decreases listeners.len(),
{
    if listeners.len() == 0 {
        Seq::empty()
    } else {
        let before = listeners_meant(listeners.drop_last(), section, port);
        if listener_meant(listeners.last(), section, port) {
            before.push(listeners.last())
        } else {
            before
        }
    }
}

/// Some references as the values that they refer to.
pub open spec fn deref<T>(v: Seq<&T>) -> Seq<T> {
    v.map_values(|x: &T| *x)
}

/// The listeners of the Gateway that the reference means.
pub fn find_matching_listeners<'a>(
    gateway: &'a Gateway,
    section_name: Option<&str>,
    port: Option<i32>,
) -> (r: Vec<&'a GatewayListeners>)
    ensures
        deref(r@) == listeners_meant(gateway.listeners@, text::opt(section_name), port),
{
    let mut r: Vec<&'a GatewayListeners> = Vec::new();
    let ghost section = text::opt(section_name);
    let mut i: usize = 0;
    assert(gateway.listeners@.take(0) =~= Seq::empty());
    assert(deref(r@) =~= Seq::empty());
    while i < gateway.listeners.len()
        invariant
            i <= gateway.listeners@.len(),
            section == text::opt(section_name),
            deref(r@) == listeners_meant(gateway.listeners@.take(i as int), section, port),
        decreases gateway.listeners.len() - i,
    {
        let listener = &gateway.listeners[i];
        assert(gateway.listeners@.take(i + 1).drop_last() =~= gateway.listeners@.take(i as int));
        let named = match section_name {
            Some(name) => text::same(listener.name.as_str(), name),
            None => true,
        };
        let on_port = match port {
            Some(p) => listener.port == p,
            None => true,
        };
        let speaks_http = crate::config::Protocol::from_str(listener.protocol.as_str()).is_some();
        let ghost before = r@;
        if named && on_port && speaks_http {
            r.push(listener);
            assert(deref(r@) =~= deref(before).push(*listener));
        }
        i += 1;
    }
    assert(gateway.listeners@.take(i as int) =~= gateway.listeners@);
    r
}

/// Whether routes of a namespace are allowed. A selector with labels lets all
/// namespaces in: their labels are not looked at.
pub open spec fn namespace_allowed(a: AllowedNamespaces, namespace: Seq<char>) -> bool {
    match a {
        AllowedNamespaces::All => true,
        AllowedNamespaces::Same(own) => namespace == own@,
        AllowedNamespaces::Selector { match_labels } => match_labels@.len() > 0,
    }
}

/// Whether routes of the namespace are allowed.
pub fn is_namespace_allowed(allowed: &AllowedNamespaces, namespace: &str) -> (r: bool)
    ensures
        r == namespace_allowed(*allowed, namespace@),
{
    match allowed {
        AllowedNamespaces::All => true,
        AllowedNamespaces::Same(own) => text::same(namespace, own.as_str()),
        AllowedNamespaces::Selector { match_labels } => match_labels.len() > 0,
    }
}

/// Whether a listener of a Gateway in `own` takes routes of `namespace`.
pub open spec fn takes_routes(listener: GatewayListeners, own: Seq<char>, namespace: Seq<char>) -> bool {
    match policy_of(listener) {
        Some(GatewayListenersAllowedRoutesNamespacesFrom::All) => true,
        Some(GatewayListenersAllowedRoutesNamespacesFrom::Selector) => match selector_of(listener) {
            Some(labels) => labels.len() > 0,
            None => namespace == own,
        },
        _ => namespace == own,
    }
}

/// Whether some listener takes routes of `namespace`.
pub open spec fn some_takes_routes(
    listeners: Seq<GatewayListeners>,
    own: Seq<char>,
    namespace: Seq<char>,
) -> bool {
    exists|i: int| 0 <= i < listeners.len() && takes_routes(#[trigger] listeners[i], own, namespace)
}

pub fn any_takes_routes(listeners: &Vec<&GatewayListeners>, own: &str, namespace: &str) -> (r: bool)
    ensures
        r == some_takes_routes(deref(listeners@), own@, namespace@),
{
    let ghost all = deref(listeners@);
    let mut i: usize = 0;
    while i < listeners.len()
        invariant
            i <= listeners@.len(),
            all == deref(listeners@),
            forall|k: int| 0 <= k < i ==> !takes_routes(#[trigger] all[k], own@, namespace@),
        decreases listeners.len() - i,
    {
        assert(all[i as int] == *listeners@[i as int]);
        let allowed = get_allowed_route_namespaces(listeners[i], own);
        if is_namespace_allowed(&allowed, namespace) {
            assert(takes_routes(all[i as int], own@, namespace@));
            return true;
        }
        i += 1;
    }
    false
}

/// Whether a grant lets routes of that namespace refer to Gateways.
pub open spec fn grants(grant: ReferenceGrant, from_namespace: Seq<char>) -> bool {
    &&& exists|i: int|
        0 <= i < grant.from@.len() && (#[trigger] grant.from@[i]).group@ == GATEWAY_GROUP@
            && grant.from@[i].kind@ == "HTTPRoute"@ && grant.from@[i].namespace@ == from_namespace
    &&& exists|i: int|
        0 <= i < grant.to@.len() && (#[trigger] grant.to@[i]).group@ == GATEWAY_GROUP@
            && grant.to@[i].kind@ == "Gateway"@
}

fn grant_applies(grant: &ReferenceGrant, from_namespace: &str) -> (r: bool)
    ensures
        r == grants(*grant, from_namespace@),
{
    let mut allows_from = false;
    let mut i: usize = 0;
    while i < grant.from.len()
        invariant
            i <= grant.from@.len(),
            allows_from == exists|k: int|
                0 <= k < i && (#[trigger] grant.from@[k]).group@ == GATEWAY_GROUP@
                    && grant.from@[k].kind@ == "HTTPRoute"@ && grant.from@[k].namespace@
                    == from_namespace@,
        decreases grant.from.len() - i,
    {
        let from = &grant.from[i];
        if text::same(from.group.as_str(), GATEWAY_GROUP) && text::same(
            from.kind.as_str(),
            "HTTPRoute",
        ) && text::same(from.namespace.as_str(), from_namespace) {
            assert(grant.from@[i as int].group@ == GATEWAY_GROUP@);
            allows_from = true;
        }
        i += 1;
    }
    let mut allows_to = false;
    let mut j: usize = 0;
    while j < grant.to.len()
        invariant
            j <= grant.to@.len(),
            allows_to == exists|k: int|
                0 <= k < j && (#[trigger] grant.to@[k]).group@ == GATEWAY_GROUP@
                    && grant.to@[k].kind@ == "Gateway"@,
        decreases grant.to.len() - j,
    {
        let to = &grant.to[j];
        if text::same(to.group.as_str(), GATEWAY_GROUP) && text::same(to.kind.as_str(), "Gateway") {
            assert(grant.to@[j as int].group@ == GATEWAY_GROUP@);
            allows_to = true;
        }
        j += 1;
    }
    allows_from && allows_to
}

/// Whether some grant lets routes of the namespace refer to Gateways.
pub fn check_reference_grant(list: &Vec<ReferenceGrant>, from_namespace: &str) -> (r: bool)
    ensures
        r == exists|i: int| 0 <= i < list@.len() && grants(#[trigger] list@[i], from_namespace@),
{
    let mut i: usize = 0;
    while i < list.len()
        invariant
            i <= list@.len(),
            forall|k: int| 0 <= k < i ==> !grants(#[trigger] list@[k], from_namespace@),
        decreases list.len() - i,
    {
        if grant_applies(&list[i], from_namespace) {
            return true;
        }
        i += 1;
    }
    false
}

// ---------------------------------------------------------------------------
// Backends
// ---------------------------------------------------------------------------

/// The backends of some rules, in their order.
pub open spec fn backends_of(rules: Seq<HttpRouteRules>) -> Seq<HttpRouteRulesBackendRefs>
    decreases rules.len(),
{
    if rules.len() == 0 {
        Seq::empty()
    } else {
        backends_of(rules.drop_last()) + items(rules.last().backend_refs)
    }
}

/// The backends of the route, in their order.
pub fn route_backends(route: &HTTPRoute) -> (r: Vec<&HttpRouteRulesBackendRefs>)
    ensures
        deref(r@) == backends_of(items(route.rules)),
{
    let mut r: Vec<&HttpRouteRulesBackendRefs> = Vec::new();
    assert(deref(r@) =~= Seq::empty());
    if let Some(rules) = &route.rules {
        let mut i: usize = 0;
        assert(rules@.take(0) =~= Seq::empty());
        while i < rules.len()
            invariant
                i <= rules@.len(),
                deref(r@) == backends_of(rules@.take(i as int)),
            decreases rules.len() - i,
        {
            assert(rules@.take(i + 1).drop_last() =~= rules@.take(i as int));
            let ghost start = deref(r@);
            match &rules[i].backend_refs {
                Some(list) => {
                    let mut j: usize = 0;
                    assert(start + list@.take(0) =~= start);
                    while j < list.len()
                        invariant
                            j <= list@.len(),
                            deref(r@) == start + list@.take(j as int),
                        decreases list.len() - j,
                    {
                        let ghost before = r@;
                        r.push(&list[j]);
                        assert(deref(r@) =~= deref(before).push(list@[j as int]));
                        j += 1;
                        assert(deref(r@) =~= start + list@.take(j as int));
                    }
                    assert(list@.take(j as int) =~= list@);
                },
                None => {
                    assert(start + Seq::<HttpRouteRulesBackendRefs>::empty() =~= start);
                },
            }
            i += 1;
        }
        assert(rules@.take(i as int) =~= rules@);
    }
    r
}

/// Whether a backend is a Service, the only kind there is.
pub open spec fn is_service(b: HttpRouteRulesBackendRefs) -> bool {
    or_default(b.group, Seq::empty()).len() == 0 && or_default(b.kind, "Service"@) == "Service"@
}

/// The error for a backend that is no Service.
pub open spec fn unsupported_backend(b: HttpRouteRulesBackendRefs) -> Seq<char> {
    "Invalid HTTPRoute configuration: "@ + ("Unsupported backend type: "@ + or_default(
        b.group,
        Seq::empty(),
    ) + "/"@ + or_default(b.kind, "Service"@))
}

/// Where to look a backend up, or the error if it is no Service.
pub fn backend_service(backend: &HttpRouteRulesBackendRefs, route_namespace: &str) -> (r: Result<
    (String, String),
    ControllerError,
>)
    ensures
        match r {
            Ok((namespace, name)) => {
                &&& is_service(*backend)
                &&& namespace@ == or_default(backend.namespace, route_namespace@)
                &&& name@ == backend.name@
            },
            Err(e) => !is_service(*backend) && e.message_text() == unsupported_backend(*backend),
        },
{
    let namespace: &str = match &backend.namespace {
        Some(ns) => ns.as_str(),
        None => route_namespace,
    };
    let kind: &str = match &backend.kind {
        Some(k) => k.as_str(),
        None => "Service",
    };
    let group: &str = match &backend.group {
        Some(g) => g.as_str(),
        None => "",
    };
    proof {
        reveal_strlit("");
        assert(""@ =~= Seq::<char>::empty());
    }
    if !group.is_empty() || !text::same(kind, "Service") {
        let mut message = join3("Unsupported backend type: ", group, "/");
        message.append(kind);
        return Err(ControllerError::invalid_httproute_config(message.as_str()));
    }
    Ok((namespace.to_string(), backend.name.clone()))
}

/// How looking a Service up went.
#[derive(Debug)]
pub enum ServiceLookup {
    Found,
    Missing,
    /// The API server failed, with this message.
    Failed(String),
}

/// The error for a backend whose Service was looked up, where there is one.
pub open spec fn service_error(
    b: HttpRouteRulesBackendRefs,
    route_namespace: Seq<char>,
    lookup: ServiceLookup,
) -> Option<Seq<char>> {
    match lookup {
        ServiceLookup::Found => None,
        ServiceLookup::Missing => Some(
            "Backend service '"@ + or_default(b.namespace, route_namespace) + "/"@ + b.name@
                + "' not found"@,
        ),
        ServiceLookup::Failed(m) => Some("Kubernetes API error: "@ + m@),
    }
}

/// What the look-up of the backend's Service means for the backend.
pub fn validate_backend(
    backend: &HttpRouteRulesBackendRefs,
    route_namespace: &str,
    lookup: ServiceLookup,
) -> (r: Result<(), ControllerError>)
    ensures
        match r {
            Ok(_) => service_error(*backend, route_namespace@, lookup) is None,
            Err(e) => service_error(*backend, route_namespace@, lookup) == Some(e.message_text()),
        },
{
    match lookup {
        ServiceLookup::Found => Ok(()),
        ServiceLookup::Missing => {
            let namespace: &str = match &backend.namespace {
                Some(ns) => ns.as_str(),
                None => route_namespace,
            };
            Err(ControllerError::backend_not_found(namespace, backend.name.as_str()))
        },
        ServiceLookup::Failed(m) => Err(ControllerError::KubernetesError(m)),
    }
}

// ---------------------------------------------------------------------------
// The Gateway's configuration
// ---------------------------------------------------------------------------

/// The key of a route in a configuration.
pub open spec fn route_key(namespace: Seq<char>, name: Seq<char>) -> Seq<char> {
    namespace + "/"@ + name
}

/// The routes without those of that key, in their order.
pub open spec fn routes_without(routes: Seq<RouteConfig>, key: Seq<char>) -> Seq<RouteConfig>
    decreases routes.len(),
{
    if routes.len() == 0 {
        Seq::empty()
    } else {
        let before = routes_without(routes.drop_last(), key);
        let last = routes.last();
        if route_key(last.namespace@, last.name@) == key {
            before
        } else {
            before.push(last)
        }
    }
}

fn remove_route(routes: &mut Vec<RouteConfig>, key: &str)
    ensures
        final(routes)@ == routes_without(old(routes)@, key@),
{
    let ghost all = routes@;
    let ghost mut seen: int = 0;
    let mut i: usize = 0;
    assert(all.take(0) =~= Seq::empty());
    assert(routes@ =~= routes_without(all.take(0), key@) + all.skip(0));
    while i < routes.len()
        invariant
            0 <= seen <= all.len(),
            all == old(routes)@,
            i == routes_without(all.take(seen), key@).len(),
            routes@ == routes_without(all.take(seen), key@) + all.skip(seen),
        decreases routes.len() - i,
    {
        let ghost kept = routes_without(all.take(seen), key@);
        assert(all.take(seen + 1).drop_last() =~= all.take(seen));
        assert(all.take(seen + 1).last() == all[seen]);
        assert(routes@[i as int] == all[seen]);
        let here = join3(routes[i].namespace.as_str(), "/", routes[i].name.as_str());
        if text::same(here.as_str(), key) {
            let ghost before = routes@;
            routes.remove(i);
            assert(routes@ =~= kept + all.skip(seen + 1));
        } else {
            i += 1;
            assert(routes@ =~= kept.push(all[seen]) + all.skip(seen + 1));
        }
        proof {
            seen = seen + 1;
        }
    }
    assert(all.take(seen) =~= all) by {
        assert(routes@.len() == i);
    }
    assert(routes@ =~= routes_without(all, key@));
}

/// Puts the route into the configuration, in place of what was there of it.
pub fn merge_route(config: &mut GatewayConfig, route: RouteConfig)
    ensures
        final(config).routes@ == routes_without(
            old(config).routes@,
            route_key(route.namespace@, route.name@),
        ).push(route),
        final(config).version == old(config).version,
        final(config).gateway == old(config).gateway,
        final(config).listeners == old(config).listeners,
{
    let key = join3(route.namespace.as_str(), "/", route.name.as_str());
    remove_route(&mut config.routes, key.as_str());
    config.routes.push(route);
}

/// The value under a key of a ConfigMap, where there is one.
pub open spec fn data_value(data: Seq<(String, String)>, key: Seq<char>) -> Option<Seq<char>> {
    crate::controller::config::label_value(data, key)
}

/// The configuration that a ConfigMap holds: an empty object by default.
pub fn config_text(data: &Option<Vec<(String, String)>>) -> (r: String)
    ensures
        r@ == match data_value(items(*data), CONFIG_KEY@) {
            Some(value) => value,
            None => "{}"@,
        },
{
    match data {
        Some(list) => match crate::controller::config::find_label(list, CONFIG_KEY) {
            Some(value) => value.to_string(),
            None => "{}".to_string(),
        },
        None => "{}".to_string(),
    }
}

/// The Gateway's configuration with the route in it. Where the configuration
/// could not be read it starts anew.
pub fn updated_config(
    parsed: Option<GatewayConfig>,
    gateway: &Gateway,
    httproute: &HTTPRoute,
    attached_listeners: &Vec<&str>,
) -> (r: GatewayConfig)
    ensures
        r.routes@.len() > 0,
        converts_route(
            r.routes@.last(),
            *httproute,
            attached_listeners@.map_values(|s: &str| s@),
        ),
        r.routes@.drop_last() == match parsed {
            Some(config) => routes_without(
                config.routes@,
                route_key(route_namespace(*httproute), httproute.name@),
            ),
            None => Seq::empty(),
        },
        match parsed {
            Some(config) => {
                &&& r.version == config.version
                &&& r.gateway == config.gateway
                &&& r.listeners == config.listeners
            },
            None => {
                &&& r.version@ == crate::config::SCHEMA_VERSION@
                &&& r.gateway.namespace@ == or_empty(gateway.namespace)
                &&& r.gateway.name@ == gateway.name@
                &&& r.listeners@.len() == 0
            },
        },
{
    let mut config = match parsed {
        Some(c) => c,
        None => {
            let namespace: &str = match &gateway.namespace {
                Some(ns) => ns.as_str(),
                None => "",
            };
            proof {
                reveal_strlit("");
                assert(""@ =~= Seq::<char>::empty());
            }
            GatewayConfig::new(namespace, gateway.name.as_str())
        },
    };
    let ghost before = config.routes@;
    let route = convert_httproute_to_config(httproute, attached_listeners);
    merge_route(&mut config, route);
    let ghost key = route_key(route_namespace(*httproute), httproute.name@);
    assert(config.routes@.drop_last() =~= routes_without(before, key));
    config
}

// ---------------------------------------------------------------------------
// Status
// ---------------------------------------------------------------------------

/// How the check of a parent ended, in words.
pub struct ParentVerdict {
    pub accepted: bool,
    pub reason: Seq<char>,
    pub message: Seq<char>,
}

/// How the check of a parent ended.
#[derive(Debug)]
pub struct ParentDecision {
    pub accepted: bool,
    pub reason: String,
    pub message: String,
}

impl View for ParentDecision {
    type V = ParentVerdict;

    open spec fn view(&self) -> ParentVerdict {
        ParentVerdict {
            accepted: self.accepted,
            reason: self.reason@,
            message: self.message@,
        }
    }
}

/// The status of a route under one parent.
#[derive(Debug)]
pub struct ParentStatus {
    pub controller_name: String,
    pub parent_ref: HttpRouteParentRefs,
    pub accepted: Condition,
    pub resolved_refs: Condition,
}

/// The condition `Accepted` of a route under a parent.
pub open spec fn route_accepted(v: ParentVerdict, now: Timestamp) -> ConditionModel {
    ConditionModel {
        type_: "Accepted"@,
        status: status_word(v.accepted),
        observed_generation: None,
        last_transition_time: now,
        reason: v.reason,
        message: v.message,
    }
}

/// The condition `ResolvedRefs` of a route under a parent.
pub open spec fn route_resolved(v: ParentVerdict, now: Timestamp) -> ConditionModel {
    ConditionModel {
        type_: "ResolvedRefs"@,
        status: status_word(v.accepted),
        observed_generation: None,
        last_transition_time: now,
        reason: if v.accepted {
            "ResolvedRefs"@
        } else {
            v.reason
        },
        message: v.message,
    }
}

/// The status of the route under the parent.
pub fn create_parent_status(parent_ref: &HttpRouteParentRefs, decision: &ParentDecision, now: Timestamp) -> (r:
    ParentStatus)
    ensures
        r.controller_name@ == CONTROLLER_NAME@,
        r.parent_ref == *parent_ref,
        r.accepted@ == route_accepted(decision@, now),
        r.resolved_refs@ == route_resolved(decision@, now),
{
    let resolved: &str = if decision.accepted {
        "ResolvedRefs"
    } else {
        decision.reason.as_str()
    };
    ParentStatus {
        controller_name: CONTROLLER_NAME.to_string(),
        parent_ref: parent_ref.clone(),
        accepted: condition(
            "Accepted",
            decision.accepted,
            None,
            now,
            decision.reason.as_str(),
            decision.message.as_str(),
        ),
        resolved_refs: condition(
            "ResolvedRefs",
            decision.accepted,
            None,
            now,
            resolved,
            decision.message.as_str(),
        ),
    }
}

// ---------------------------------------------------------------------------
// Laws
// ---------------------------------------------------------------------------

/// The key of a route.
pub open spec fn key_of_route(route: RouteConfig) -> Seq<char> {
    route_key(route.namespace@, route.name@)
}

/// What is left without a key is what does not have it: none of the routes
/// left has the key, and every route that does not have it is left.
pub proof fn law_only_that_route_is_taken_out(routes: Seq<RouteConfig>, key: Seq<char>)
    ensures
        forall|i: int|
            0 <= i < routes_without(routes, key).len() ==> key_of_route(
                #[trigger] routes_without(routes, key)[i],
            ) != key,
        forall|i: int|
            0 <= i < routes.len() && key_of_route(#[trigger] routes[i]) != key ==> routes_without(
                routes,
                key,
            ).contains(routes[i]),
    decreases routes.len(),
{
    if routes.len() > 0 {
        let front = routes.drop_last();
        law_only_that_route_is_taken_out(front, key);
        let before = routes_without(front, key);
        let after = routes_without(routes, key);
        assert forall|i: int| 0 <= i < after.len() implies key_of_route(#[trigger] after[i]) != key by {
            if i < before.len() {
                assert(after[i] == before[i]);
            }
        }
        assert forall|i: int|
            0 <= i < routes.len() && key_of_route(#[trigger] routes[i]) != key implies after.contains(
            routes[i],
        ) by {
            if i < front.len() {
                assert(front[i] == routes[i]);
                let k = before.index_of(routes[i]);
                assert(after[k] == routes[i]);
            } else {
                assert(after[after.len() - 1] == routes[i]);
            }
        }
    }
}

/// Merging a route leaves exactly one route of its key, at the end.
pub proof fn law_merged_route_is_the_only_one(routes: Seq<RouteConfig>, route: RouteConfig)
    ensures
        ({
            let merged = routes_without(routes, key_of_route(route)).push(route);
            &&& merged.last() == route
            &&& forall|i: int|
                0 <= i < merged.len() - 1 ==> key_of_route(#[trigger] merged[i]) != key_of_route(
                    route,
                )
        }),
{
    let key = key_of_route(route);
    law_only_that_route_is_taken_out(routes, key);
    let kept = routes_without(routes, key);
    let merged = kept.push(route);
    assert forall|i: int| 0 <= i < merged.len() - 1 implies key_of_route(#[trigger] merged[i])
        != key by {
        assert(merged[i] == kept[i]);
    }
}

/// Merging the same route again changes nothing.
pub proof fn law_merging_twice_is_merging_once(routes: Seq<RouteConfig>, route: RouteConfig)
    ensures
        ({
            let merged = routes_without(routes, key_of_route(route)).push(route);
            routes_without(merged, key_of_route(route)).push(route) == merged
        }),
{
    let key = key_of_route(route);
    let kept = routes_without(routes, key);
    let merged = kept.push(route);
    law_only_that_route_is_taken_out(routes, key);
    assert(merged.drop_last() =~= kept);
    lemma_nothing_to_take_out(kept, key);
}

proof fn lemma_nothing_to_take_out(routes: Seq<RouteConfig>, key: Seq<char>)
    requires
        forall|i: int| 0 <= i < routes.len() ==> key_of_route(#[trigger] routes[i]) != key,
    ensures
        routes_without(routes, key) == routes,
    decreases routes.len(),
{
    if routes.len() > 0 {
        assert(key_of_route(routes[routes.len() - 1]) != key);
        assert forall|i: int| 0 <= i < routes.drop_last().len() implies key_of_route(
            #[trigger] routes.drop_last()[i],
        ) != key by {
            assert(routes.drop_last()[i] == routes[i]);
        }
        lemma_nothing_to_take_out(routes.drop_last(), key);
        assert(routes =~= routes.drop_last().push(routes.last()));
    }
}

/// A listener takes the routes of its Gateway's own namespace, unless it
/// chooses namespaces by a selector without labels.
pub proof fn law_own_namespace_is_taken(listener: GatewayListeners, own: Seq<char>)
    requires
        policy_of(listener) == Some(GatewayListenersAllowedRoutesNamespacesFrom::Selector)
            && selector_of(listener) is Some ==> selector_of(listener)->0.len() > 0,
    ensures
        takes_routes(listener, own, own),
{
}

/// What a listener allows and whether it takes a route is the same question.
pub proof fn law_allowed_namespaces_decide(
    a: AllowedNamespaces,
    listener: GatewayListeners,
    own: Seq<char>,
    namespace: Seq<char>,
)
    requires
        allows(a, listener, own),
    ensures
        namespace_allowed(a, namespace) == takes_routes(listener, own, namespace),
{
}

/// `Accepted` and `ResolvedRefs` always say the same.
pub proof fn law_conditions_agree(v: ParentVerdict, now: Timestamp)
    ensures
        route_accepted(v, now).status == route_resolved(v, now).status,
        route_accepted(v, now).message == route_resolved(v, now).message,
{
}

/// A reference means the listeners of its section, where it names one, and of
/// its port, where it names one, that speak HTTP or HTTPS; in their order.
pub proof fn law_references_mean_their_listeners(
    listeners: Seq<GatewayListeners>,
    listener: GatewayListeners,
    section: Option<Seq<char>>,
    port: Option<i32>,
)
    ensures
        listeners_meant(listeners.push(listener), section, port) == if (section is Some
            ==> listener.name@ == section->0) && (port is Some ==> listener.port == port->0) && (
        text::unicode_upper(listener.protocol@) == "HTTP"@ || text::unicode_upper(
            listener.protocol@,
        ) == "HTTPS"@) {
            listeners_meant(listeners, section, port).push(listener)
        } else {
            listeners_meant(listeners, section, port)
        },
        listeners_meant(Seq::empty(), section, port).len() == 0,
{
    assert(listeners.push(listener).drop_last() =~= listeners);
}

/// Whether a listener takes routes of a namespace: from everywhere where it says
/// so, by a selector where that names a label, and else from its own alone.
pub proof fn law_namespaces_are_allowed_as_said(
    listener: GatewayListeners,
    own: Seq<char>,
    namespace: Seq<char>,
)
    ensures
        listener.allowed_routes is None ==> (takes_routes(listener, own, namespace) <==> namespace
            == own),
        listener.allowed_routes matches Some(allowed) ==> {
            &&& allowed.namespaces is None ==> (takes_routes(listener, own, namespace)
                <==> namespace == own)
            &&& allowed.namespaces matches Some(ns) ==> {
                &&& ns.from == Some(GatewayListenersAllowedRoutesNamespacesFrom::All)
                    ==> takes_routes(listener, own, namespace)
                &&& ns.from is None || ns.from == Some(
                    GatewayListenersAllowedRoutesNamespacesFrom::Same,
                ) ==> (takes_routes(listener, own, namespace) <==> namespace == own)
                &&& ns.from == Some(GatewayListenersAllowedRoutesNamespacesFrom::Selector)
                    && ns.selector is None ==> (takes_routes(listener, own, namespace)
                    <==> namespace == own)
                &&& ns.from == Some(GatewayListenersAllowedRoutesNamespacesFrom::Selector)
                    && ns.selector is Some ==> (takes_routes(listener, own, namespace)
                    <==> ns.selector->0.match_labels is Some
                    && ns.selector->0.match_labels->0@.len() > 0)
            }
        },
{
}

/// A grant lets a route refer to a Gateway exactly where it names HTTPRoutes of
/// the route's namespace on one side and Gateways on the other, both of the
/// group of the Gateway API.
pub proof fn law_grants_need_both_sides(grant: ReferenceGrant, from_namespace: Seq<char>)
    ensures
        grants(grant, from_namespace) <==> (exists|i: int|
            0 <= i < grant.from@.len() && (#[trigger] grant.from@[i]).group@
                == "gateway.networking.k8s.io"@ && grant.from@[i].kind@ == "HTTPRoute"@
                && grant.from@[i].namespace@ == from_namespace) && (exists|i: int|
            0 <= i < grant.to@.len() && (#[trigger] grant.to@[i]).group@
                == "gateway.networking.k8s.io"@ && grant.to@[i].kind@ == "Gateway"@),
        grant.from@.len() == 0 ==> !grants(grant, from_namespace),
        grant.to@.len() == 0 ==> !grants(grant, from_namespace),
{
}

/// The backends of a route are those of all its rules, in order.
pub proof fn law_backends_come_rule_by_rule(rules: Seq<HttpRouteRules>, rule: HttpRouteRules)
    ensures
        rule.backend_refs is None ==> backends_of(rules.push(rule)) == backends_of(rules),
        rule.backend_refs matches Some(list) ==> backends_of(rules.push(rule)) == backends_of(rules)
            + list@,
        backends_of(Seq::empty()).len() == 0,
{
    assert(rules.push(rule).drop_last() =~= rules);
    let before = backends_of(rules);
    assert(before + Seq::<HttpRouteRulesBackendRefs>::empty() =~= before);
}

/// A backend is a Service exactly where its group is empty or missing and its
/// kind is `Service` or missing.
pub proof fn law_only_services_are_backends(b: HttpRouteRulesBackendRefs)
    ensures
        is_service(b) <==> (b.group is None || b.group->0@.len() == 0) && (b.kind is None
            || b.kind->0@ == "Service"@),
        b.group is Some && b.kind is Some ==> unsupported_backend(b)
            == "Invalid HTTPRoute configuration: "@ + ("Unsupported backend type: "@ + b.group->0@
            + "/"@ + b.kind->0@),
{
}

/// A Service that is there is no error; one that is missing is named in full, in
/// the namespace of the route where the backend names none; and an error of the
/// API is passed on.
pub proof fn law_missing_services_are_named(
    b: HttpRouteRulesBackendRefs,
    route_namespace: Seq<char>,
    m: String,
)
    ensures
        service_error(b, route_namespace, ServiceLookup::Found) is None,
        b.namespace is None ==> service_error(b, route_namespace, ServiceLookup::Missing) == Some(
            "Backend service '"@ + route_namespace + "/"@ + b.name@ + "' not found"@,
        ),
        b.namespace matches Some(ns) ==> service_error(b, route_namespace, ServiceLookup::Missing)
            == Some("Backend service '"@ + ns@ + "/"@ + b.name@ + "' not found"@),
        service_error(b, route_namespace, ServiceLookup::Failed(m)) == Some(
            "Kubernetes API error: "@ + m@,
        ),
{
}

/// A route is taken out of a configuration by its namespace and its name; all
/// others stay, in their order.
pub proof fn law_routes_are_known_by_namespace_and_name(
    routes: Seq<RouteConfig>,
    route: RouteConfig,
    namespace: Seq<char>,
    name: Seq<char>,
)
    ensures
        route.namespace@ == namespace && route.name@ == name ==> routes_without(
            routes.push(route),
            namespace + seq!['/'] + name,
        ) == routes_without(routes, namespace + seq!['/'] + name),
        route.namespace@ + seq!['/'] + route.name@ != namespace + seq!['/'] + name
            ==> routes_without(routes.push(route), namespace + seq!['/'] + name) == routes_without(
            routes,
            namespace + seq!['/'] + name,
        ).push(route),
        routes_without(Seq::empty(), namespace + seq!['/'] + name).len() == 0,
        route_key(namespace, name) == namespace + seq!['/'] + name,
{
    reveal_strlit("/");
    assert("/"@ =~= seq!['/']);
    assert(routes.push(route).drop_last() =~= routes);
}

/// The conditions of a route say what was decided on the parent: `True` where it
/// is accepted and `False` where not, with the reason and the message.
pub proof fn law_route_conditions_say_what_was_decided(v: ParentVerdict, now: Timestamp)
    ensures
        ({
            let a = route_accepted(v, now);
            let r = route_resolved(v, now);
            let word = if v.accepted {
                "True"@
            } else {
                "False"@
            };
            &&& a.type_ == "Accepted"@ && r.type_ == "ResolvedRefs"@
            &&& a.status == word && r.status == word
            &&& a.reason == v.reason && a.message == v.message && r.message == v.message
            &&& v.accepted ==> r.reason == "ResolvedRefs"@
            &&& !v.accepted ==> r.reason == v.reason
            &&& a.last_transition_time == now && r.last_transition_time == now
        }),
{
}

} // verus!
