//! Checking a route against one of its parents.
//!
//! The check asks for one thing after the other and ends with a decision. The
//! first thing that is not in order decides against the route; where all are
//! in order the route is accepted.

use vstd::prelude::*;

use crate::controller::api::{
    Gateway, HTTPRoute, HttpRouteParentRefs, HttpRouteRulesBackendRefs, GATEWAY_GROUP,
};
use crate::controller::attachment::{
    any_takes_routes, backend_service, backends_of, deref, find_matching_listeners, is_service,
    listeners_meant, route_backends, service_error, some_takes_routes, unsupported_backend,
    validate_backend, ParentDecision, ParentVerdict, ServiceLookup,
};
use crate::controller::config::ControllerConfig;
use crate::controller::gateway::Lookup;
use crate::controller::httproute::{items, or_default, or_empty};
use crate::text::{self, join2, join3};

verus! {

/// How fetching the Gateway went.
#[derive(Debug)]
pub enum GatewayFetch {
    Found(Gateway),
    Missing,
    /// The API server failed, with this message.
    Failed(String),
}

/// How checking the GatewayClass went.
#[derive(Debug)]
pub enum ClassCheck {
    Accepted,
    NotAccepted,
    /// It could not be checked, with this message.
    Failed(String),
}

/// How updating the Gateway's configuration went.
#[derive(Debug)]
pub enum ConfigUpdate {
    Done,
    /// It failed, with this message.
    Failed(String),
}

/// Where a check stands: what it waits for.
#[derive(Debug)]
pub enum ParentState {
    /// For the Gateway.
    FetchingGateway,
    /// For word on the class of this Gateway.
    CheckingClass(Gateway),
    /// For word on grants in the namespace of this Gateway.
    CheckingGrant(Gateway),
    /// For the Service of the backend of that number.
    CheckingBackend(Gateway, usize),
    /// For the configuration of this Gateway to be updated.
    UpdatingConfig(Gateway),
    /// For nothing: the check has ended.
    Finished,
}

/// What has come of the last action.
#[derive(Debug)]
pub enum ParentEvent {
    GatewayFetched(GatewayFetch),
    ClassChecked(ClassCheck),
    /// Whether a grant lets the route refer to the Gateway.
    GrantChecked(bool),
    ServiceFetched(ServiceLookup),
    ConfigUpdated(ConfigUpdate),
}

/// What to do next.
#[derive(Debug)]
pub enum ParentAction {
    /// Fetch the Gateway of this namespace and name.
    FetchGateway(String, String),
    /// Check whether the class of this name is accepted.
    CheckClass(String),
    /// Look for a grant in this namespace.
    CheckGrant(String),
    /// Fetch the Service of this namespace and name.
    FetchService(String, String),
    /// Update the configuration of the Gateway.
    UpdateConfig,
    /// End the check with this decision.
    Decide(ParentDecision),
}

/// An action as mathematical values.
pub enum ParentActionModel {
    FetchGateway(Seq<char>, Seq<char>),
    CheckClass(Seq<char>),
    CheckGrant(Seq<char>),
    FetchService(Seq<char>, Seq<char>),
    UpdateConfig,
    Decide(ParentVerdict),
}

impl View for ParentAction {
    type V = ParentActionModel;

    open spec fn view(&self) -> ParentActionModel {
        match self {
            ParentAction::FetchGateway(ns, n) => ParentActionModel::FetchGateway(ns@, n@),
            ParentAction::CheckClass(n) => ParentActionModel::CheckClass(n@),
            ParentAction::CheckGrant(ns) => ParentActionModel::CheckGrant(ns@),
            ParentAction::FetchService(ns, n) => ParentActionModel::FetchService(ns@, n@),
            ParentAction::UpdateConfig => ParentActionModel::UpdateConfig,
            ParentAction::Decide(d) => ParentActionModel::Decide(d@),
        }
    }
}

/// A decision against the route.
pub open spec fn refusal(reason: Seq<char>, message: Seq<char>) -> ParentVerdict {
    ParentVerdict { accepted: false, reason, message }
}

/// The decision for the route.
pub open spec fn acceptance() -> ParentVerdict {
    ParentVerdict {
        accepted: true,
        reason: "Accepted"@,
        message: "Route is accepted by Gateway"@,
    }
}

/// The end of a check.
pub open spec fn ends_with(v: ParentVerdict) -> (ParentState, ParentActionModel) {
    (ParentState::Finished, ParentActionModel::Decide(v))
}

/// The group of a parent; by default that of the Gateway API.
pub open spec fn parent_group(parent: HttpRouteParentRefs) -> Seq<char> {
    or_default(parent.group, GATEWAY_GROUP@)
}

/// The kind of a parent; by default a Gateway.
pub open spec fn parent_kind(parent: HttpRouteParentRefs) -> Seq<char> {
    or_default(parent.kind, "Gateway"@)
}

/// Whether a parent is a Gateway.
pub open spec fn is_gateway(parent: HttpRouteParentRefs) -> bool {
    parent_group(parent) == GATEWAY_GROUP@ && parent_kind(parent) == "Gateway"@
}

/// The namespace of a parent; by default that of the route.
pub open spec fn parent_namespace(parent: HttpRouteParentRefs, namespace: Seq<char>) -> Seq<char> {
    or_default(parent.namespace, namespace)
}

/// What is decided about a parent that is no Gateway.
pub open spec fn not_a_gateway(parent: HttpRouteParentRefs) -> ParentVerdict {
    refusal(
        "InvalidParentRef"@,
        "Unsupported parent type: "@ + parent_group(parent) + "/"@ + parent_kind(parent),
    )
}

/// What is decided where there is no such Gateway.
pub open spec fn gateway_missing(parent: HttpRouteParentRefs, namespace: Seq<char>) -> ParentVerdict {
    refusal(
        "NoMatchingParent"@,
        "Gateway "@ + parent_namespace(parent, namespace) + "/"@ + parent.name@ + " not found"@,
    )
}

/// What is decided where something failed.
pub open spec fn failure(what: Seq<char>, message: Seq<char>) -> ParentVerdict {
    refusal("InternalError"@, what + message)
}

/// What is decided where the class is not accepted.
pub open spec fn class_not_accepted() -> ParentVerdict {
    refusal(
        "NotAllowedByGateway"@,
        "Gateway's GatewayClass is not managed by this controller"@,
    )
}

/// What is decided where the parent reference means no listener.
pub open spec fn no_listener() -> ParentVerdict {
    refusal("NoMatchingListenerHostname"@, "No matching listener found on Gateway"@)
}

/// What is decided where the route's namespace is not allowed.
pub open spec fn not_permitted(namespace: Seq<char>) -> ParentVerdict {
    refusal(
        "RefNotPermitted"@,
        "Route namespace "@ + namespace + " is not allowed by Gateway listener policies"@,
    )
}

/// What is decided where a backend is not in order.
pub open spec fn bad_backend(message: Seq<char>) -> ParentVerdict {
    refusal("BackendNotFound"@, message)
}

/// The listeners of the Gateway that the parent reference means.
pub open spec fn meant(gateway: Gateway, parent: HttpRouteParentRefs) -> Seq<
    crate::controller::api::GatewayListeners,
> {
    listeners_meant(gateway.listeners@, text::opt_owned(parent.section_name), parent.port)
}

/// The names of the listeners that the route is attached to.
pub fn attached_names(gateway: &Gateway, parent: &HttpRouteParentRefs) -> (r: Vec<String>)
    ensures
        text::views(r@) == meant(*gateway, *parent).map_values(
            |l: crate::controller::api::GatewayListeners| l.name@,
        ),
{
    let section: Option<&str> = match &parent.section_name {
        Some(s) => Some(s.as_str()),
        None => None,
    };
    let listeners = find_matching_listeners(gateway, section, parent.port);
    let ghost all = meant(*gateway, *parent);
    assert(text::opt(section) == text::opt_owned(parent.section_name));
    assert(deref(listeners@) == all);
    let mut r: Vec<String> = Vec::new();
    let mut i: usize = 0;
    while i < listeners.len()
        invariant
            i <= listeners@.len(),
            deref(listeners@) == all,
            r@.len() == i,
            forall|k: int| 0 <= k < i ==> (#[trigger] r@[k])@ == all[k].name@,
        decreases listeners.len() - i,
    {
        assert(*listeners@[i as int] == deref(listeners@)[i as int]);
        r.push(listeners[i].name.clone());
        i += 1;
    }
    assert(text::views(r@) =~= all.map_values(
        |l: crate::controller::api::GatewayListeners| l.name@,
    ));
    r
}

/// What becomes of the ConfigMap of a Gateway when a route is attached.
#[derive(Debug, Clone, Copy, PartialEq, Eq, Structural)]
pub enum ConfigWrite {
    /// The configuration with the route is written.
    Write,
    /// Nothing is written, and that is in order: the Gateway has not been
    /// reconciled yet.
    Skip,
    /// The update fails with the error of the lookup.
    Fail,
}

/// What becomes of the ConfigMap, by how looking it up went.
pub fn config_write(lookup: Lookup) -> (r: ConfigWrite)
    ensures
        r == match lookup {
            Lookup::Found => ConfigWrite::Write,
            Lookup::Missing => ConfigWrite::Skip,
            Lookup::Failed => ConfigWrite::Fail,
        },
{
    match lookup {
        Lookup::Found => ConfigWrite::Write,
        Lookup::Missing => ConfigWrite::Skip,
        Lookup::Failed => ConfigWrite::Fail,
    }
}

/// Whether a grant is needed: no listener meant takes routes of the namespace,
/// which is not the Gateway's own.
pub open spec fn needs_grant(gateway: Gateway, parent: HttpRouteParentRefs, namespace: Seq<char>) -> bool {
    &&& !some_takes_routes(meant(gateway, parent), or_empty(gateway.namespace), namespace)
    &&& namespace != or_empty(gateway.namespace)
}

/// The backends of a route.
pub open spec fn all_backends(route: HTTPRoute) -> Seq<HttpRouteRulesBackendRefs> {
    backends_of(items(route.rules))
}

/// How a check begins.
pub open spec fn parent_start(parent: HttpRouteParentRefs, namespace: Seq<char>) -> (
    ParentState,
    ParentActionModel,
) {
    if is_gateway(parent) {
        (
            ParentState::FetchingGateway,
            ParentActionModel::FetchGateway(parent_namespace(parent, namespace), parent.name@),
        )
    } else {
        ends_with(not_a_gateway(parent))
    }
}

/// On to backend `i`, or to the configuration where there is none.
pub open spec fn at_backend(route: HTTPRoute, namespace: Seq<char>, gateway: Gateway, i: int) -> (
    ParentState,
    ParentActionModel,
) {
    if i < all_backends(route).len() {
        let b = all_backends(route)[i];
        if is_service(b) {
            (
                ParentState::CheckingBackend(gateway, i as usize),
                ParentActionModel::FetchService(or_default(b.namespace, namespace), b.name@),
            )
        } else {
            ends_with(bad_backend(unsupported_backend(b)))
        }
    } else {
        (ParentState::UpdatingConfig(gateway), ParentActionModel::UpdateConfig)
    }
}

/// What follows once the class is accepted.
pub open spec fn class_accepted(
    route: HTTPRoute,
    parent: HttpRouteParentRefs,
    namespace: Seq<char>,
    gateway: Gateway,
) -> (ParentState, ParentActionModel) {
    if meant(gateway, parent).len() == 0 {
        ends_with(no_listener())
    } else if needs_grant(gateway, parent, namespace) {
        (
            ParentState::CheckingGrant(gateway),
            ParentActionModel::CheckGrant(or_empty(gateway.namespace)),
        )
    } else {
        at_backend(route, namespace, gateway, 0)
    }
}

/// What an event leads to: the next state and what to do. An event that the
/// state does not wait for ends the check as a failure.
pub open spec fn parent_step(
    route: HTTPRoute,
    parent: HttpRouteParentRefs,
    namespace: Seq<char>,
    state: ParentState,
    event: ParentEvent,
) -> (ParentState, ParentActionModel) {
    match (state, event) {
        (ParentState::FetchingGateway, ParentEvent::GatewayFetched(GatewayFetch::Found(gw))) => {
            (
                ParentState::CheckingClass(gw),
                ParentActionModel::CheckClass(gw.gateway_class_name@),
            )
        },
        (ParentState::FetchingGateway, ParentEvent::GatewayFetched(GatewayFetch::Missing)) => {
            ends_with(gateway_missing(parent, namespace))
        },
        (ParentState::FetchingGateway, ParentEvent::GatewayFetched(GatewayFetch::Failed(m))) => {
            ends_with(failure("Error fetching Gateway: "@, m@))
        },
        (ParentState::CheckingClass(gw), ParentEvent::ClassChecked(ClassCheck::Accepted)) => {
            class_accepted(route, parent, namespace, gw)
        },
        (ParentState::CheckingClass(gw), ParentEvent::ClassChecked(ClassCheck::NotAccepted)) => {
            ends_with(class_not_accepted())
        },
        (ParentState::CheckingClass(gw), ParentEvent::ClassChecked(ClassCheck::Failed(m))) => {
            ends_with(failure("Error checking GatewayClass: "@, m@))
        },
        (ParentState::CheckingGrant(gw), ParentEvent::GrantChecked(granted)) => {
            if granted {
                at_backend(route, namespace, gw, 0)
            } else {
                ends_with(not_permitted(namespace))
            }
        },
        (ParentState::CheckingBackend(gw, i), ParentEvent::ServiceFetched(lookup)) => {
            if i < all_backends(route).len() {
                match service_error(all_backends(route)[i as int], namespace, lookup) {
                    Some(m) => ends_with(bad_backend(m)),
                    None => at_backend(route, namespace, gw, i + 1),
                }
            } else {
                ends_with(failure("Unexpected event"@, Seq::empty()))
            }
        },
        (ParentState::UpdatingConfig(gw), ParentEvent::ConfigUpdated(ConfigUpdate::Done)) => {
            ends_with(acceptance())
        },
        (ParentState::UpdatingConfig(gw), ParentEvent::ConfigUpdated(ConfigUpdate::Failed(m))) => {
            ends_with(failure("Failed to update Gateway configuration: "@, m@))
        },
        _ => ends_with(failure("Unexpected event"@, Seq::empty())),
    }
}

fn refuse(reason: &str, message: String) -> (r: (ParentState, ParentAction))
    ensures
        (r.0, r.1@) == ends_with(refusal(reason@, message@)),
{
    let decision = ParentDecision { accepted: false, reason: reason.to_string(), message };
    (ParentState::Finished, ParentAction::Decide(decision))
}

fn unexpected() -> (r: (ParentState, ParentAction))
    ensures
        (r.0, r.1@) == ends_with(failure("Unexpected event"@, Seq::empty())),
{
    assert("Unexpected event"@ + Seq::<char>::empty() =~= "Unexpected event"@);
    refuse("InternalError", "Unexpected event".to_string())
}

/// How the check begins.
pub fn begin_parent(parent: &HttpRouteParentRefs, namespace: &str) -> (r: (
    ParentState,
    ParentAction,
))
    ensures
        (r.0, r.1@) == parent_start(*parent, namespace@),
{
    let kind: &str = match &parent.kind {
        Some(k) => k.as_str(),
        None => "Gateway",
    };
    let group: &str = match &parent.group {
        Some(g) => g.as_str(),
        None => GATEWAY_GROUP,
    };
    if !text::same(group, GATEWAY_GROUP) || !text::same(kind, "Gateway") {
        let mut message = join3("Unsupported parent type: ", group, "/");
        message.append(kind);
        return refuse("InvalidParentRef", message);
    }
    let parent_ns: &str = match &parent.namespace {
        Some(ns) => ns.as_str(),
        None => namespace,
    };
    (
        ParentState::FetchingGateway,
        ParentAction::FetchGateway(parent_ns.to_string(), parent.name.clone()),
    )
}

fn go_to_backend(route: &HTTPRoute, namespace: &str, gateway: Gateway, i: usize) -> (r: (
    ParentState,
    ParentAction,
))
    ensures
        (r.0, r.1@) == at_backend(*route, namespace@, gateway, i as int),
{
    let backends = route_backends(route);
    let ghost all = all_backends(*route);
    assert(deref(backends@).len() == backends@.len());
    if i < backends.len() {
        assert(all[i as int] == *backends@[i as int]);
        match backend_service(backends[i], namespace) {
            Ok((ns, name)) => (
                ParentState::CheckingBackend(gateway, i),
                ParentAction::FetchService(ns, name),
            ),
            Err(e) => refuse("BackendNotFound", e.message()),
        }
    } else {
        (ParentState::UpdatingConfig(gateway), ParentAction::UpdateConfig)
    }
}

fn after_class(route: &HTTPRoute, parent: &HttpRouteParentRefs, namespace: &str, gateway: Gateway) -> (r: (
    ParentState,
    ParentAction,
))
    ensures
        (r.0, r.1@) == class_accepted(*route, *parent, namespace@, gateway),
{
    let section: Option<&str> = match &parent.section_name {
        Some(s) => Some(s.as_str()),
        None => None,
    };
    let own = match &gateway.namespace {
        Some(ns) => ns.clone(),
        None => String::new(),
    };
    let listeners = find_matching_listeners(&gateway, section, parent.port);
    assert(deref(listeners@).len() == listeners@.len());
    if listeners.len() == 0 {
        return refuse(
            "NoMatchingListenerHostname",
            "No matching listener found on Gateway".to_string(),
        );
    }
    let allowed = any_takes_routes(&listeners, own.as_str(), namespace);
    if !allowed && !text::same(namespace, own.as_str()) {
        return (ParentState::CheckingGrant(gateway), ParentAction::CheckGrant(own));
    }
    go_to_backend(route, namespace, gateway, 0)
}

/// The next state of the check of the route against the parent, and what to
/// do.
pub fn step_parent(
    route: &HTTPRoute,
    parent: &HttpRouteParentRefs,
    namespace: &str,
    state: ParentState,
    event: ParentEvent,
) -> (r: (ParentState, ParentAction))
    ensures
        (r.0, r.1@) == parent_step(*route, *parent, namespace@, state, event),
{
    match (state, event) {
        (ParentState::FetchingGateway, ParentEvent::GatewayFetched(GatewayFetch::Found(gw))) => {
            let class = gw.gateway_class_name.clone();
            (ParentState::CheckingClass(gw), ParentAction::CheckClass(class))
        },
        (ParentState::FetchingGateway, ParentEvent::GatewayFetched(GatewayFetch::Missing)) => {
            let parent_ns: &str = match &parent.namespace {
                Some(ns) => ns.as_str(),
                None => namespace,
            };
            let message = text::join5(
                "Gateway ",
                parent_ns,
                "/",
                parent.name.as_str(),
                " not found",
            );
            refuse("NoMatchingParent", message)
        },
        (ParentState::FetchingGateway, ParentEvent::GatewayFetched(GatewayFetch::Failed(m))) => {
            refuse("InternalError", join2("Error fetching Gateway: ", m.as_str()))
        },
        (ParentState::CheckingClass(gw), ParentEvent::ClassChecked(ClassCheck::Accepted)) => {
            after_class(route, parent, namespace, gw)
        },
        (ParentState::CheckingClass(gw), ParentEvent::ClassChecked(ClassCheck::NotAccepted)) => {
            refuse(
                "NotAllowedByGateway",
                "Gateway's GatewayClass is not managed by this controller".to_string(),
            )
        },
        (ParentState::CheckingClass(gw), ParentEvent::ClassChecked(ClassCheck::Failed(m))) => {
            refuse("InternalError", join2("Error checking GatewayClass: ", m.as_str()))
        },
        (ParentState::CheckingGrant(gw), ParentEvent::GrantChecked(granted)) => {
            if granted {
                go_to_backend(route, namespace, gw, 0)
            } else {
                let message = join3(
                    "Route namespace ",
                    namespace,
                    " is not allowed by Gateway listener policies",
                );
                refuse("RefNotPermitted", message)
            }
        },
        (ParentState::CheckingBackend(gw, i), ParentEvent::ServiceFetched(lookup)) => {
            let backends = route_backends(route);
            assert(deref(backends@).len() == backends@.len());
            if i < backends.len() {
                assert(all_backends(*route)[i as int] == *backends@[i as int]);
                match validate_backend(backends[i], namespace, lookup) {
                    Ok(_) => go_to_backend(route, namespace, gw, i + 1),
                    Err(e) => refuse("BackendNotFound", e.message()),
                }
            } else {
                unexpected()
            }
        },
        (ParentState::UpdatingConfig(gw), ParentEvent::ConfigUpdated(ConfigUpdate::Done)) => {
            let decision = ParentDecision {
                accepted: true,
                reason: "Accepted".to_string(),
                message: "Route is accepted by Gateway".to_string(),
            };
            (ParentState::Finished, ParentAction::Decide(decision))
        },
        (ParentState::UpdatingConfig(gw), ParentEvent::ConfigUpdated(ConfigUpdate::Failed(m))) => {
            refuse(
                "InternalError",
                join2("Failed to update Gateway configuration: ", m.as_str()),
            )
        },
        _ => unexpected(),
    }
}

// ---------------------------------------------------------------------------
// Reconciling a route
// ---------------------------------------------------------------------------

/// Where reconciling a route stands: what it waits for.
#[derive(Debug, Clone, Copy, PartialEq, Eq, Structural)]
pub enum RouteState {
    /// For the check against the parent of that number.
    Checking(usize),
    /// For the status to be written.
    Reporting,
    /// For nothing.
    Finished,
}

/// What has come of the last action.
#[derive(Debug, Clone, Copy, PartialEq, Eq, Structural)]
pub enum RouteEvent {
    /// The check has ended.
    Checked,
    /// Whether the status is written.
    Reported(bool),
}

/// What to do next.
#[derive(Debug, Clone, Copy, PartialEq, Eq, Structural)]
pub enum RouteAction {
    /// Check the route against the parent of that number.
    Check(usize),
    /// Write the status, with one entry for each parent.
    Report,
    /// Look at the route again after so many seconds.
    Requeue(u64),
    /// Give up with the error of writing the status.
    Fail,
}

/// How reconciling a route begins: one without parents is left alone.
pub open spec fn route_start(route: HTTPRoute, config: ControllerConfig) -> (
    RouteState,
    RouteAction,
) {
    if items(route.parent_refs).len() == 0 {
        (RouteState::Finished, RouteAction::Requeue(config.requeue_after_secs))
    } else {
        (RouteState::Checking(0), RouteAction::Check(0))
    }
}

/// What an event leads to: the next state and what to do.
pub open spec fn route_step(
    route: HTTPRoute,
    config: ControllerConfig,
    state: RouteState,
    event: RouteEvent,
) -> (RouteState, RouteAction) {
    match (state, event) {
        (RouteState::Checking(i), RouteEvent::Checked) => {
            if i + 1 < items(route.parent_refs).len() {
                (RouteState::Checking((i + 1) as usize), RouteAction::Check((i + 1) as usize))
            } else {
                (RouteState::Reporting, RouteAction::Report)
            }
        },
        (RouteState::Reporting, RouteEvent::Reported(true)) => (
            RouteState::Finished,
            RouteAction::Requeue(config.requeue_after_secs),
        ),
        _ => (RouteState::Finished, RouteAction::Fail),
    }
}

fn parent_count(route: &HTTPRoute) -> (r: usize)
    ensures
        r == items(route.parent_refs).len(),
{
    match &route.parent_refs {
        Some(list) => list.len(),
        None => 0,
    }
}

/// How reconciling the route begins.
pub fn begin_route(route: &HTTPRoute, config: &ControllerConfig) -> (r: (RouteState, RouteAction))
    ensures
        r == route_start(*route, *config),
{
    if parent_count(route) == 0 {
        (RouteState::Finished, RouteAction::Requeue(config.requeue_after_secs))
    } else {
        (RouteState::Checking(0), RouteAction::Check(0))
    }
}

/// The next state of reconciling the route, and what to do.
pub fn step_route(
    route: &HTTPRoute,
    config: &ControllerConfig,
    state: RouteState,
    event: RouteEvent,
) -> (r: (RouteState, RouteAction))
    ensures
        r == route_step(*route, *config, state, event),
{
    match (state, event) {
        (RouteState::Checking(i), RouteEvent::Checked) => {
            let count = parent_count(route);
            if i < count && i + 1 < count {
                (RouteState::Checking(i + 1), RouteAction::Check(i + 1))
            } else {
                (RouteState::Reporting, RouteAction::Report)
            }
        },
        (RouteState::Reporting, RouteEvent::Reported(true)) => (
            RouteState::Finished,
            RouteAction::Requeue(config.requeue_after_secs),
        ),
        _ => (RouteState::Finished, RouteAction::Fail),
    }
}

// ---------------------------------------------------------------------------
// Laws
// ---------------------------------------------------------------------------

/// All that a check may ask for, answered beforehand.
pub struct ParentAnswers {
    pub gateway: GatewayFetch,
    pub class: ClassCheck,
    pub granted: bool,
    /// The answer for each backend of the route.
    pub services: Seq<ServiceLookup>,
    pub update: ConfigUpdate,
}

/// The error of a backend, where it has one.
pub open spec fn backend_error(
    b: HttpRouteRulesBackendRefs,
    namespace: Seq<char>,
    lookup: ServiceLookup,
) -> Option<Seq<char>> {
    if is_service(b) {
        service_error(b, namespace, lookup)
    } else {
        Some(unsupported_backend(b))
    }
}

/// The error of the first backend from number `i` on that has one.
pub open spec fn first_backend_error(
    route: HTTPRoute,
    namespace: Seq<char>,
    services: Seq<ServiceLookup>,
    i: int,
) -> Option<Seq<char>>
    decreases all_backends(route).len() - i,
{
    if 0 <= i < all_backends(route).len() {
        match backend_error(all_backends(route)[i], namespace, services[i]) {
            Some(m) => Some(m),
            None => first_backend_error(route, namespace, services, i + 1),
        }
    } else {
        None
    }
}

/// What is decided once backends before number `i` are in order.
pub open spec fn verdict_from_backend(
    route: HTTPRoute,
    namespace: Seq<char>,
    answers: ParentAnswers,
    i: int,
) -> ParentVerdict {
    match first_backend_error(route, namespace, answers.services, i) {
        Some(m) => bad_backend(m),
        None => verdict_on_update(answers),
    }
}

/// What is decided once all but the configuration is in order.
pub open spec fn verdict_on_update(answers: ParentAnswers) -> ParentVerdict {
    match answers.update {
        ConfigUpdate::Done => acceptance(),
        ConfigUpdate::Failed(m) => failure("Failed to update Gateway configuration: "@, m@),
    }
}

/// What is decided once the Gateway is there.
pub open spec fn verdict_on_class(
    route: HTTPRoute,
    parent: HttpRouteParentRefs,
    namespace: Seq<char>,
    answers: ParentAnswers,
    gateway: Gateway,
) -> ParentVerdict {
    match answers.class {
        ClassCheck::Failed(m) => failure("Error checking GatewayClass: "@, m@),
        ClassCheck::NotAccepted => class_not_accepted(),
        ClassCheck::Accepted => if meant(gateway, parent).len() == 0 {
            no_listener()
        } else if needs_grant(gateway, parent, namespace) && !answers.granted {
            not_permitted(namespace)
        } else {
            verdict_from_backend(route, namespace, answers, 0)
        },
    }
}

/// What is decided about a route under a parent where these are the answers.
pub open spec fn verdict(
    route: HTTPRoute,
    parent: HttpRouteParentRefs,
    namespace: Seq<char>,
    answers: ParentAnswers,
) -> ParentVerdict {
    if !is_gateway(parent) {
        not_a_gateway(parent)
    } else {
        match answers.gateway {
            GatewayFetch::Missing => gateway_missing(parent, namespace),
            GatewayFetch::Failed(m) => failure("Error fetching Gateway: "@, m@),
            GatewayFetch::Found(gw) => verdict_on_class(route, parent, namespace, answers, gw),
        }
    }
}

/// The answer that a check in that state gets.
pub open spec fn answer(answers: ParentAnswers, state: ParentState) -> ParentEvent {
    match state {
        ParentState::FetchingGateway => ParentEvent::GatewayFetched(answers.gateway),
        ParentState::CheckingClass(_) => ParentEvent::ClassChecked(answers.class),
        ParentState::CheckingGrant(_) => ParentEvent::GrantChecked(answers.granted),
        ParentState::CheckingBackend(_, i) => ParentEvent::ServiceFetched(
            answers.services[i as int],
        ),
        ParentState::UpdatingConfig(_) => ParentEvent::ConfigUpdated(answers.update),
        ParentState::Finished => arbitrary(),
    }
}

/// What a check in that state will decide.
pub open spec fn outlook(
    route: HTTPRoute,
    parent: HttpRouteParentRefs,
    namespace: Seq<char>,
    answers: ParentAnswers,
    state: ParentState,
) -> ParentVerdict {
    match state {
        ParentState::FetchingGateway => match answers.gateway {
            GatewayFetch::Missing => gateway_missing(parent, namespace),
            GatewayFetch::Failed(m) => failure("Error fetching Gateway: "@, m@),
            GatewayFetch::Found(gw) => verdict_on_class(route, parent, namespace, answers, gw),
        },
        ParentState::CheckingClass(gw) => verdict_on_class(route, parent, namespace, answers, gw),
        ParentState::CheckingGrant(gw) => if answers.granted {
            verdict_from_backend(route, namespace, answers, 0)
        } else {
            not_permitted(namespace)
        },
        ParentState::CheckingBackend(gw, i) => verdict_from_backend(
            route,
            namespace,
            answers,
            i as int,
        ),
        ParentState::UpdatingConfig(gw) => verdict_on_update(answers),
        ParentState::Finished => arbitrary(),
    }
}

/// Whether a check can be in that state: a backend it waits for is there and
/// is a Service.
pub open spec fn possible(route: HTTPRoute, state: ParentState) -> bool {
    state matches ParentState::CheckingBackend(_, i) ==> i < all_backends(route).len()
        && is_service(all_backends(route)[i as int])
}

proof fn lemma_backend_outlook(
    route: HTTPRoute,
    parent: HttpRouteParentRefs,
    namespace: Seq<char>,
    answers: ParentAnswers,
    gateway: Gateway,
    i: int,
)
    requires
        0 <= i <= all_backends(route).len() <= usize::MAX,
    ensures
        ({
            let (next, action) = at_backend(route, namespace, gateway, i);
            &&& possible(route, next)
            &&& match action {
                ParentActionModel::Decide(v) => next is Finished && v == verdict_from_backend(
                    route,
                    namespace,
                    answers,
                    i,
                ),
                _ => !(next is Finished) && outlook(route, parent, namespace, answers, next)
                    == verdict_from_backend(route, namespace, answers, i),
            }
        }),
{
}

/// A check decides what the answers add up to: it begins with that outlook or
/// that decision.
pub proof fn law_checks_begin_on_track(
    route: HTTPRoute,
    parent: HttpRouteParentRefs,
    namespace: Seq<char>,
    answers: ParentAnswers,
)
    ensures
        ({
            let (next, action) = parent_start(parent, namespace);
            &&& possible(route, next)
            &&& match action {
                ParentActionModel::Decide(v) => next is Finished && v == verdict(
                    route,
                    parent,
                    namespace,
                    answers,
                ),
                _ => !(next is Finished) && outlook(route, parent, namespace, answers, next)
                    == verdict(route, parent, namespace, answers),
            }
        }),
{
}

/// Every answer keeps a check on track: either it decides what was in sight,
/// or the same decision stays in sight.
pub proof fn law_answers_keep_checks_on_track(
    route: HTTPRoute,
    parent: HttpRouteParentRefs,
    namespace: Seq<char>,
    answers: ParentAnswers,
    state: ParentState,
)
    requires
        !(state is Finished),
        possible(route, state),
        all_backends(route).len() <= usize::MAX,
    ensures
        ({
            let (next, action) = parent_step(
                route,
                parent,
                namespace,
                state,
                answer(answers, state),
            );
            &&& possible(route, next)
            &&& match action {
                ParentActionModel::Decide(v) => next is Finished && v == outlook(
                    route,
                    parent,
                    namespace,
                    answers,
                    state,
                ),
                _ => !(next is Finished) && outlook(route, parent, namespace, answers, next)
                    == outlook(route, parent, namespace, answers, state),
            }
        }),
{
    match state {
        ParentState::CheckingClass(gw) => {
            lemma_backend_outlook(route, parent, namespace, answers, gw, 0);
        },
        ParentState::CheckingGrant(gw) => {
            lemma_backend_outlook(route, parent, namespace, answers, gw, 0);
        },
        ParentState::CheckingBackend(gw, i) => {
            lemma_backend_outlook(route, parent, namespace, answers, gw, i + 1);
        },
        _ => {},
    }
}

/// The number of steps that a check in that state can still take.
pub open spec fn parent_steps_left(route: HTTPRoute, state: ParentState) -> int {
    let n = all_backends(route).len() as int;
    match state {
        ParentState::FetchingGateway => n + 4,
        ParentState::CheckingClass(_) => n + 3,
        ParentState::CheckingGrant(_) => n + 2,
        ParentState::CheckingBackend(_, i) => n - i + 1,
        ParentState::UpdatingConfig(_) => 1,
        ParentState::Finished => 0,
    }
}

/// Every step brings a check nearer to its end.
pub proof fn law_checks_end(
    route: HTTPRoute,
    parent: HttpRouteParentRefs,
    namespace: Seq<char>,
    state: ParentState,
    event: ParentEvent,
)
    requires
        !(state is Finished),
        possible(route, state),
        all_backends(route).len() <= usize::MAX,
    ensures
        0 <= parent_steps_left(
            route,
            parent_step(route, parent, namespace, state, event).0,
        ) < parent_steps_left(route, state),
{
}

/// A route is accepted where the parent is a Gateway that is there, of an
/// accepted class, with a listener that the reference means, whose listeners
/// or a grant let the route in, where every backend is a Service that is
/// there, and where the configuration could be updated; and only there.
pub proof fn law_accepted_means_all_in_order(
    route: HTTPRoute,
    parent: HttpRouteParentRefs,
    namespace: Seq<char>,
    answers: ParentAnswers,
)
    ensures
        verdict(route, parent, namespace, answers).accepted <==> {
            &&& is_gateway(parent)
            &&& answers.gateway matches GatewayFetch::Found(gw) && {
                &&& answers.class is Accepted
                &&& meant(gw, parent).len() > 0
                &&& (!needs_grant(gw, parent, namespace) || answers.granted)
            }
            &&& forall|i: int|
                0 <= i < all_backends(route).len() ==> backend_error(
                    #[trigger] all_backends(route)[i],
                    namespace,
                    answers.services[i],
                ) is None
            &&& answers.update is Done
        },
{
    lemma_no_backend_error(route, namespace, answers.services, 0);
}

proof fn lemma_no_backend_error(
    route: HTTPRoute,
    namespace: Seq<char>,
    services: Seq<ServiceLookup>,
    i: int,
)
    requires
        0 <= i,
    ensures
        first_backend_error(route, namespace, services, i) is None <==> forall|k: int|
            i <= k < all_backends(route).len() ==> backend_error(
                #[trigger] all_backends(route)[k],
                namespace,
                services[k],
            ) is None,
    decreases all_backends(route).len() - i,
{
    if i < all_backends(route).len() {
        lemma_no_backend_error(route, namespace, services, i + 1);
    }
}

/// Every parent of a route is checked, in order, before the status is written.
pub proof fn law_all_parents_are_checked(route: HTTPRoute, config: ControllerConfig, i: usize)
    requires
        i < items(route.parent_refs).len() <= usize::MAX,
    ensures
        route_step(route, config, RouteState::Checking(i), RouteEvent::Checked) == if i + 1
            == items(route.parent_refs).len() {
            (RouteState::Reporting, RouteAction::Report)
        } else {
            (RouteState::Checking((i + 1) as usize), RouteAction::Check((i + 1) as usize))
        },
{
}

/// A parent is a Gateway exactly where its group, if it names one, is that of
/// the Gateway API, and its kind, if it names one, is `Gateway`. It is looked
/// for under its name, in its namespace or else in that of the route.
pub proof fn law_parents_are_gateways_of_their_namespace(
    parent: HttpRouteParentRefs,
    namespace: Seq<char>,
)
    ensures
        is_gateway(parent) <==> (parent.group is None || parent.group->0@
            == "gateway.networking.k8s.io"@) && (parent.kind is None || parent.kind->0@
            == "Gateway"@),
        is_gateway(parent) ==> parent_start(parent, namespace) == (
            ParentState::FetchingGateway,
            ParentActionModel::FetchGateway(
                if parent.namespace is Some {
                    parent.namespace->0@
                } else {
                    namespace
                },
                parent.name@,
            ),
        ),
        !is_gateway(parent) ==> parent_start(parent, namespace).1 is Decide && !(
        parent_start(parent, namespace).1->Decide_0.accepted),
{
}

/// A grant is needed exactly where the route comes from another namespace than
/// that of the Gateway and no listener that the reference means takes routes of
/// it.
pub proof fn law_grants_are_for_other_namespaces(
    gateway: Gateway,
    parent: HttpRouteParentRefs,
    namespace: Seq<char>,
    own: Seq<char>,
)
    requires
        gateway.namespace matches Some(ns) ==> own == ns@,
        gateway.namespace is None ==> own == Seq::<char>::empty(),
    ensures
        meant(gateway, parent) == listeners_meant(
            gateway.listeners@,
            if parent.section_name is Some {
                Some(parent.section_name->0@)
            } else {
                None
            },
            parent.port,
        ),
        needs_grant(gateway, parent, namespace) <==> namespace != own && forall|i: int|
            0 <= i < meant(gateway, parent).len() ==> !crate::controller::attachment::takes_routes(
                #[trigger] meant(gateway, parent)[i],
                own,
                namespace,
            ),
{
    assert(own == or_empty(gateway.namespace));
}

/// A refused route is told why: the first of these that is so. The parent is no
/// Gateway; the Gateway is missing or cannot be fetched; its class is not
/// accepted or cannot be checked; the reference means no listener; the namespace
/// is not permitted; a backend is not in order; the configuration cannot be
/// updated.
pub proof fn law_refusals_name_the_first_reason(
    route: HTTPRoute,
    parent: HttpRouteParentRefs,
    namespace: Seq<char>,
    answers: ParentAnswers,
)
    ensures
        ({
            let v = verdict(route, parent, namespace, answers);
            let gw = answers.gateway->Found_0;
            let found = is_gateway(parent) && answers.gateway is Found;
            let accepted = found && answers.class is Accepted;
            let listening = accepted && meant(gw, parent).len() > 0;
            let permitted = listening && (!needs_grant(gw, parent, namespace) || answers.granted);
            let backed = permitted && forall|i: int|
                0 <= i < all_backends(route).len() ==> backend_error(
                    #[trigger] all_backends(route)[i],
                    namespace,
                    answers.services[i],
                ) is None;
            &&& !is_gateway(parent) ==> v.reason == "InvalidParentRef"@ && v.message
                == "Unsupported parent type: "@ + (if parent.group is Some {
                parent.group->0@
            } else {
                "gateway.networking.k8s.io"@
            }) + "/"@ + (if parent.kind is Some {
                parent.kind->0@
            } else {
                "Gateway"@
            })
            &&& is_gateway(parent) && answers.gateway is Missing ==> v.reason
                == "NoMatchingParent"@ && v.message == "Gateway "@ + (if parent.namespace is Some {
                parent.namespace->0@
            } else {
                namespace
            }) + "/"@ + parent.name@ + " not found"@
            &&& is_gateway(parent) && answers.gateway is Failed ==> v.reason == "InternalError"@
                && v.message == "Error fetching Gateway: "@ + answers.gateway->Failed_0@
            &&& found && answers.class is NotAccepted ==> v.reason == "NotAllowedByGateway"@
                && v.message == "Gateway's GatewayClass is not managed by this controller"@
            &&& found && answers.class is Failed ==> v.reason == "InternalError"@ && v.message
                == "Error checking GatewayClass: "@ + answers.class->Failed_0@
            &&& accepted && meant(gw, parent).len() == 0 ==> v.reason
                == "NoMatchingListenerHostname"@ && v.message
                == "No matching listener found on Gateway"@
            &&& listening && !permitted ==> v.reason == "RefNotPermitted"@ && v.message
                == "Route namespace "@ + namespace
                + " is not allowed by Gateway listener policies"@
            &&& permitted && !backed ==> v.reason == "BackendNotFound"@ && Some(v.message)
                == first_backend_error(route, namespace, answers.services, 0)
            &&& backed && answers.update is Failed ==> v.reason == "InternalError"@ && v.message
                == "Failed to update Gateway configuration: "@ + answers.update->Failed_0@
            &&& backed && answers.update is Done ==> v.accepted && v.reason == "Accepted"@
                && v.message == "Route is accepted by Gateway"@
        }),
{
    lemma_no_backend_error(route, namespace, answers.services, 0);
}

/// The message about a backend is that of the first one that is not in order.
pub proof fn law_the_first_bad_backend_is_named(
    route: HTTPRoute,
    namespace: Seq<char>,
    services: Seq<ServiceLookup>,
    i: int,
    k: int,
)
    requires
        0 <= i <= k < all_backends(route).len(),
        backend_error(all_backends(route)[k], namespace, services[k]) is Some,
        forall|j: int|
            i <= j < k ==> backend_error(
                #[trigger] all_backends(route)[j],
                namespace,
                services[j],
            ) is None,
    ensures
        first_backend_error(route, namespace, services, i) == backend_error(
            all_backends(route)[k],
            namespace,
            services[k],
        ),
    decreases k - i,
{
    if i < k {
        assert(backend_error(all_backends(route)[i], namespace, services[i]) is None);
        law_the_first_bad_backend_is_named(route, namespace, services, i + 1, k);
    }
}

/// A check asks for what it needs: the class that the Gateway names, the grants
/// of the namespace of the Gateway, and each backend in the namespace that it
/// names or else in that of the route.
pub proof fn law_checks_ask_for_what_they_need(
    route: HTTPRoute,
    parent: HttpRouteParentRefs,
    namespace: Seq<char>,
    gateway: Gateway,
    i: int,
)
    ensures
        parent_step(
            route,
            parent,
            namespace,
            ParentState::FetchingGateway,
            ParentEvent::GatewayFetched(GatewayFetch::Found(gateway)),
        ) == (
            ParentState::CheckingClass(gateway),
            ParentActionModel::CheckClass(gateway.gateway_class_name@),
        ),
        meant(gateway, parent).len() > 0 && needs_grant(gateway, parent, namespace) ==> (
        gateway.namespace matches Some(ns) ==> class_accepted(
            route,
            parent,
            namespace,
            gateway,
        ) == (ParentState::CheckingGrant(gateway), ParentActionModel::CheckGrant(ns@))),
        0 <= i < all_backends(route).len() && is_service(all_backends(route)[i]) ==> at_backend(
            route,
            namespace,
            gateway,
            i,
        ).1 == ParentActionModel::FetchService(
            if all_backends(route)[i].namespace is Some {
                all_backends(route)[i].namespace->0@
            } else {
                namespace
            },
            all_backends(route)[i].name@,
        ),
        i >= all_backends(route).len() ==> at_backend(route, namespace, gateway, i).1
            == ParentActionModel::UpdateConfig,
{
}

/// A route without parents is looked at again later; one with parents is checked
/// from the first on, then its status is written, and it is looked at again
/// after the time of the settings. Where the status cannot be written it fails.
pub proof fn law_routes_are_looked_at_again(route: HTTPRoute, config: ControllerConfig)
    ensures
        route.parent_refs is None ==> route_start(route, config).1 == RouteAction::Requeue(
            config.requeue_after_secs,
        ),
        route.parent_refs matches Some(list) ==> (list@.len() == 0 ==> route_start(
            route,
            config,
        ).1 == RouteAction::Requeue(config.requeue_after_secs)),
        route.parent_refs matches Some(list) ==> (list@.len() > 0 ==> route_start(route, config)
            == (RouteState::Checking(0), RouteAction::Check(0))),
        route_step(route, config, RouteState::Reporting, RouteEvent::Reported(true)) == (
            RouteState::Finished,
            RouteAction::Requeue(config.requeue_after_secs),
        ),
        route_step(route, config, RouteState::Reporting, RouteEvent::Reported(false)).1 is Fail,
{
}

/// The backends of a route are those of its rules; a route without rules has
/// none.
pub proof fn law_routes_have_the_backends_of_their_rules(route: HTTPRoute)
    ensures
        route.rules is None ==> all_backends(route).len() == 0,
        route.rules matches Some(rules) ==> all_backends(route) == backends_of(rules@),
{
}

} // verus!
