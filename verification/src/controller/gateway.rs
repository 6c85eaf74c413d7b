//! Reconciling Gateways.
//!
//! A Gateway of an accepted class with valid listeners gets a data plane: a
//! ConfigMap with its configuration, a Service and a Deployment. Its status
//! says how that went.

use vstd::prelude::*;

use crate::config::{ListenerConfig, Protocol};
use crate::controller::api::{
    condition, status_word, Condition, ConditionModel, Gateway, GatewayListeners,
    GatewayListenersAllowedRoutesNamespacesFrom, Label, Timestamp,
};
use crate::controller::config::{
    label_views, labels_for, protocol_named, protocol_of_word, ControllerConfig, DataPlaneNames,
    GatewayConfig, CONFIG_KEY,
};
use crate::text::{self, join2, join3};

verus! {

// ---------------------------------------------------------------------------
// Listeners
// ---------------------------------------------------------------------------

/// What was found about a listener.
#[derive(Debug)]
pub struct ListenerValidation {
    pub name: String,
    pub valid: bool,
    pub reason: String,
    pub message: String,
}

/// A finding as mathematical values: the reason and the message.
pub struct Finding {
    pub reason: Seq<char>,
    pub message: Seq<char>,
}

/// Whether a port is one that a listener can have.
pub open spec fn port_in_range(port: i32) -> bool {
    0 < port <= 65535
}

/// What is found about a listener whose protocol in upper case is `word`. The
/// port is looked at last and its finding counts.
pub open spec fn finding(listener: GatewayListeners, word: Seq<char>) -> Finding {
    if !port_in_range(listener.port) {
        Finding {
            reason: "InvalidPort"@,
            message: "Port "@ + text::decimal_int(listener.port as int)
                + " is out of valid range (1-65535)"@,
        }
    } else {
        match protocol_named(word) {
            Some(Protocol::Http) => if listener.tls is Some {
                Finding {
                    reason: "InvalidTLS"@,
                    message: "HTTP listeners should not have TLS configuration"@,
                }
            } else {
                Finding { reason: "Accepted"@, message: Seq::empty() }
            },
            Some(Protocol::Https) => if listener.tls is None {
                Finding {
                    reason: "InvalidTLS"@,
                    message: "HTTPS listeners require TLS configuration"@,
                }
            } else {
                Finding { reason: "Accepted"@, message: Seq::empty() }
            },
            None => Finding {
                reason: "UnsupportedProtocol"@,
                message: "Protocol '"@ + listener.protocol@ + "' is not supported"@,
            },
        }
    }
}

/// Whether a listener whose protocol in upper case is `word` is valid: HTTP
/// without TLS or HTTPS with TLS, on a port in range.
pub open spec fn is_valid(listener: GatewayListeners, word: Seq<char>) -> bool {
    &&& port_in_range(listener.port)
    &&& match protocol_named(word) {
        Some(Protocol::Http) => listener.tls is None,
        Some(Protocol::Https) => listener.tls is Some,
        None => false,
    }
}

/// Whether `v` is what is found about a listener.
pub open spec fn validates(v: ListenerValidation, listener: GatewayListeners, word: Seq<char>) -> bool {
    &&& v.name == listener.name
    &&& v.valid == is_valid(listener, word)
    &&& v.reason@ == finding(listener, word).reason
    &&& v.message@ == finding(listener, word).message
}

/// What is found about the listener, whose protocol in upper case is `word`.
pub fn validate_listener(listener: &GatewayListeners, word: &str) -> (r: ListenerValidation)
    ensures
        validates(r, *listener, word@),
{
    let mut valid = true;
    let mut reason = "Accepted".to_string();
    let mut message = String::new();
    match protocol_of_word(word) {
        Some(Protocol::Http) => {
            if listener.tls.is_some() {
                valid = false;
                reason = "InvalidTLS".to_string();
                message = "HTTP listeners should not have TLS configuration".to_string();
            }
        },
        Some(Protocol::Https) => {
            if listener.tls.is_none() {
                valid = false;
                reason = "InvalidTLS".to_string();
                message = "HTTPS listeners require TLS configuration".to_string();
            }
        },
        None => {
            valid = false;
            reason = "UnsupportedProtocol".to_string();
            message = join3("Protocol '", listener.protocol.as_str(), "' is not supported");
        },
    }
    if listener.port <= 0 || listener.port > 65535 {
        valid = false;
        reason = "InvalidPort".to_string();
        let digits = text::to_decimal_int(listener.port as i64);
        message = join3("Port ", digits.as_str(), " is out of valid range (1-65535)");
    }
    ListenerValidation { name: listener.name.clone(), valid, reason, message }
}

/// Whether a listener is valid.
pub open spec fn listener_valid(listener: GatewayListeners) -> bool {
    is_valid(listener, text::unicode_upper(listener.protocol@))
}

/// What is found about the listeners, and whether all are valid.
pub fn validate_listeners(listeners: &Vec<GatewayListeners>) -> (r: (bool, Vec<ListenerValidation>))
    ensures
        r.0 == forall|i: int| 0 <= i < listeners@.len() ==> listener_valid(#[trigger] listeners@[i]),
        r.1@.len() == listeners@.len(),
        forall|i: int|
            0 <= i < listeners@.len() ==> validates(
                #[trigger] r.1@[i],
                listeners@[i],
                text::unicode_upper(listeners@[i].protocol@),
            ),
{
    let mut all_valid = true;
    let mut statuses: Vec<ListenerValidation> = Vec::new();
    let mut i: usize = 0;
    while i < listeners.len()
        invariant
            i <= listeners@.len(),
            statuses@.len() == i,
            all_valid == forall|k: int| 0 <= k < i ==> listener_valid(#[trigger] listeners@[k]),
            forall|k: int|
                0 <= k < i ==> validates(
                    #[trigger] statuses@[k],
                    listeners@[k],
                    text::unicode_upper(listeners@[k].protocol@),
                ),
        decreases listeners.len() - i,
    {
        let word = text::to_uppercase(listeners[i].protocol.as_str());
        let v = validate_listener(&listeners[i], word.as_str());
        assert(v.valid == listener_valid(listeners@[i as int]));
        if !v.valid {
            all_valid = false;
        }
        statuses.push(v);
        i += 1;
    }
    (all_valid, statuses)
}

/// Whether `c` is the configuration of a listener. Ports are cut to 16 bits;
/// an unknown protocol counts as HTTP.
pub open spec fn configures(c: ListenerConfig, listener: GatewayListeners) -> bool {
    &&& c.name == listener.name
    &&& c.port == listener.port as u16
    &&& c.protocol == match protocol_named(text::unicode_upper(listener.protocol@)) {
        Some(p) => p,
        None => Protocol::Http,
    }
    &&& c.hostname == listener.hostname
    &&& c.tls is None
}

/// The configuration of the Gateway's data plane, without routes.
pub fn build_gateway_config(gateway: &Gateway, namespace: &str) -> (r: GatewayConfig)
    ensures
        r.version@ == crate::config::SCHEMA_VERSION@,
        r.gateway.namespace@ == namespace@,
        r.gateway.name@ == gateway.name@,
        r.routes@.len() == 0,
        r.listeners@.len() == gateway.listeners@.len(),
        forall|i: int|
            0 <= i < gateway.listeners@.len() ==> configures(
                #[trigger] r.listeners@[i],
                gateway.listeners@[i],
            ),
{
    let mut config = GatewayConfig::new(namespace, gateway.name.as_str());
    let mut i: usize = 0;
    while i < gateway.listeners.len()
        invariant
            i <= gateway.listeners@.len(),
            config.version@ == crate::config::SCHEMA_VERSION@,
            config.gateway.namespace@ == namespace@,
            config.gateway.name@ == gateway.name@,
            config.routes@.len() == 0,
            config.listeners@.len() == i,
            forall|k: int|
                0 <= k < i ==> configures(#[trigger] config.listeners@[k], gateway.listeners@[k]),
        decreases gateway.listeners.len() - i,
    {
        let listener = &gateway.listeners[i];
        let protocol = match Protocol::from_str(listener.protocol.as_str()) {
            Some(p) => p,
            None => Protocol::Http,
        };
        let ghost before = config.listeners@;
        config.add_listener(
            ListenerConfig {
                name: listener.name.clone(),
                port: listener.port as u16,
                protocol,
                hostname: listener.hostname.clone(),
                tls: None,
            },
        );
        assert(forall|k: int| 0 <= k < i ==> config.listeners@[k] == before[k]);
        i += 1;
    }
    config
}

// ---------------------------------------------------------------------------
// Resources of the data plane
// ---------------------------------------------------------------------------

/// The owner of a resource.
#[derive(Debug)]
pub struct OwnerReference {
    pub api_version: String,
    pub kind: String,
    pub name: String,
    pub uid: String,
    pub controller: bool,
    pub block_owner_deletion: bool,
}

/// What all resources of a data plane carry.
#[derive(Debug)]
pub struct ResourceMeta {
    pub name: String,
    pub namespace: String,
    pub labels: Vec<Label>,
    pub owner: OwnerReference,
}

/// Whether `o` names the Gateway as owner.
pub open spec fn owns(o: OwnerReference, gateway: Gateway) -> bool {
    &&& o.api_version@ == "gateway.networking.k8s.io/v1"@
    &&& o.kind@ == "Gateway"@
    &&& o.name@ == gateway.name@
    &&& o.uid@ == match gateway.uid {
        Some(uid) => uid@,
        None => Seq::empty(),
    }
    &&& o.controller
    &&& o.block_owner_deletion
}

/// Whether `m` is that of a resource of this name in the data plane of the
/// Gateway.
pub open spec fn belongs(m: ResourceMeta, name: Seq<char>, names: DataPlaneNames, gateway: Gateway) -> bool {
    &&& m.name@ == name
    &&& m.namespace@ == names.gateway_namespace@
    &&& label_views(m.labels@) == labels_for(names.gateway_name@)
    &&& owns(m.owner, gateway)
}

/// The Gateway as owner.
pub fn owner_reference(gateway: &Gateway) -> (r: OwnerReference)
    ensures
        owns(r, *gateway),
{
    let uid = match &gateway.uid {
        Some(uid) => uid.clone(),
        None => String::new(),
    };
    OwnerReference {
        api_version: "gateway.networking.k8s.io/v1".to_string(),
        kind: "Gateway".to_string(),
        name: gateway.name.clone(),
        uid,
        controller: true,
        block_owner_deletion: true,
    }
}

fn resource_meta(name: String, names: &DataPlaneNames, gateway: &Gateway) -> (r: ResourceMeta)
    ensures
        belongs(r, name@, *names, *gateway),
{
    ResourceMeta {
        name,
        namespace: names.namespace().to_string(),
        labels: names.labels(),
        owner: owner_reference(gateway),
    }
}

/// A ConfigMap.
#[derive(Debug)]
pub struct ConfigMapResource {
    pub meta: ResourceMeta,
    pub data: Vec<(String, String)>,
}

/// The ConfigMap that holds the configuration.
pub fn build_configmap(gateway: &Gateway, names: &DataPlaneNames, config_json: String) -> (r:
    ConfigMapResource)
    ensures
        belongs(r.meta, "multiway-config-"@ + names.gateway_name@, *names, *gateway),
        r.data@.len() == 1,
        r.data@[0].0@ == CONFIG_KEY@,
        r.data@[0].1 == config_json,
{
    let mut data: Vec<(String, String)> = Vec::new();
    data.push((CONFIG_KEY.to_string(), config_json));
    ConfigMapResource { meta: resource_meta(names.configmap_name(), names, gateway), data }
}

/// A port of a Service or of a container.
#[derive(Debug)]
pub struct ResourcePort {
    pub name: String,
    pub port: i32,
    pub protocol: String,
}

/// Whether there is one TCP port for each listener, under its name.
pub open spec fn ports_for(ports: Seq<ResourcePort>, listeners: Seq<GatewayListeners>) -> bool {
    &&& ports.len() == listeners.len()
    &&& forall|i: int|
        0 <= i < listeners.len() ==> {
            &&& (#[trigger] ports[i]).name == listeners[i].name
            &&& ports[i].port == listeners[i].port
            &&& ports[i].protocol@ == "TCP"@
        }
}

fn listener_ports(gateway: &Gateway) -> (r: Vec<ResourcePort>)
    ensures
        ports_for(r@, gateway.listeners@),
{
    let mut ports: Vec<ResourcePort> = Vec::new();
    let mut i: usize = 0;
    while i < gateway.listeners.len()
        invariant
            i <= gateway.listeners@.len(),
            ports_for(ports@, gateway.listeners@.take(i as int)),
        decreases gateway.listeners.len() - i,
    {
        let listener = &gateway.listeners[i];
        ports.push(
            ResourcePort {
                name: listener.name.clone(),
                port: listener.port,
                protocol: "TCP".to_string(),
            },
        );
        i += 1;
    }
    assert(gateway.listeners@.take(i as int) =~= gateway.listeners@);
    ports
}

/// A Service.
#[derive(Debug)]
pub struct ServiceResource {
    pub meta: ResourceMeta,
    pub selector: Vec<Label>,
    /// Ports; the target port of each is the same number.
    pub ports: Vec<ResourcePort>,
    pub service_type: String,
}

/// The Service that exposes the data plane.
pub fn build_service(gateway: &Gateway, names: &DataPlaneNames) -> (r: ServiceResource)
    ensures
        belongs(r.meta, "multiway-svc-"@ + names.gateway_name@, *names, *gateway),
        label_views(r.selector@) == labels_for(names.gateway_name@),
        ports_for(r.ports@, gateway.listeners@),
        r.service_type@ == "ClusterIP"@,
{
    ServiceResource {
        meta: resource_meta(names.service_name(), names, gateway),
        selector: names.selector_labels(),
        ports: listener_ports(gateway),
        service_type: "ClusterIP".to_string(),
    }
}

/// A Deployment with one container.
#[derive(Debug)]
pub struct DeploymentResource {
    pub meta: ResourceMeta,
    pub replicas: i32,
    pub selector: Vec<Label>,
    pub pod_labels: Vec<Label>,
    pub container: ContainerResource,
    /// The volume that holds the configuration.
    pub volume: ConfigVolume,
}

/// A container.
#[derive(Debug)]
pub struct ContainerResource {
    pub name: String,
    pub image: String,
    pub image_pull_policy: String,
    pub ports: Vec<ResourcePort>,
    pub env: Vec<(String, String)>,
    pub mount: VolumeMountResource,
    pub requests: Vec<(String, String)>,
    pub limits: Vec<(String, String)>,
}

/// Where a volume stands in a container.
#[derive(Debug)]
pub struct VolumeMountResource {
    pub name: String,
    pub mount_path: String,
    pub read_only: bool,
}

/// A volume with the contents of a ConfigMap.
#[derive(Debug)]
pub struct ConfigVolume {
    pub name: String,
    pub config_map: String,
}

/// Pairs of texts as mathematical values.
pub open spec fn pairs(v: Seq<(String, String)>) -> Seq<(Seq<char>, Seq<char>)> {
    v.map_values(|p: (String, String)| (p.0@, p.1@))
}

/// Whether `c` is the container of the Gateway's data plane.
pub open spec fn runs_dataplane(
    c: ContainerResource,
    gateway: Gateway,
    names: DataPlaneNames,
    config: ControllerConfig,
) -> bool {
    &&& c.name@ == "dataplane"@
    &&& c.image == config.dataplane_image
    &&& c.image_pull_policy == config.image_pull_policy
    &&& ports_for(c.ports@, gateway.listeners@)
    &&& pairs(c.env@) == seq![
        ("GATEWAY_NAME"@, gateway.name@),
        ("GATEWAY_NAMESPACE"@, names.gateway_namespace@),
        ("CONFIG_PATH"@, "/config/"@ + CONFIG_KEY@),
    ]
    &&& c.mount.name@ == "config"@
    &&& c.mount.mount_path@ == "/config"@
    &&& c.mount.read_only
    &&& pairs(c.requests@) == seq![
        ("cpu"@, config.resource_requests.cpu@),
        ("memory"@, config.resource_requests.memory@),
    ]
    &&& pairs(c.limits@) == seq![
        ("cpu"@, config.resource_limits.cpu@),
        ("memory"@, config.resource_limits.memory@),
    ]
}

fn two_amounts(cpu: &String, memory: &String) -> (r: Vec<(String, String)>)
    ensures
        pairs(r@) == seq![("cpu"@, cpu@), ("memory"@, memory@)],
{
    let mut r: Vec<(String, String)> = Vec::new();
    r.push(("cpu".to_string(), cpu.clone()));
    r.push(("memory".to_string(), memory.clone()));
    assert(pairs(r@) =~= seq![("cpu"@, cpu@), ("memory"@, memory@)]);
    r
}

fn build_container(gateway: &Gateway, names: &DataPlaneNames, config: &ControllerConfig) -> (r:
    ContainerResource)
    ensures
        runs_dataplane(r, *gateway, *names, *config),
{
    let mut env: Vec<(String, String)> = Vec::new();
    env.push(("GATEWAY_NAME".to_string(), gateway.name.clone()));
    env.push(("GATEWAY_NAMESPACE".to_string(), names.namespace().to_string()));
    env.push(("CONFIG_PATH".to_string(), join2("/config/", CONFIG_KEY)));
    assert(pairs(env@) =~= seq![
        ("GATEWAY_NAME"@, gateway.name@),
        ("GATEWAY_NAMESPACE"@, names.gateway_namespace@),
        ("CONFIG_PATH"@, "/config/"@ + CONFIG_KEY@),
    ]);
    ContainerResource {
        name: "dataplane".to_string(),
        image: config.dataplane_image.clone(),
        image_pull_policy: config.image_pull_policy.clone(),
        ports: listener_ports(gateway),
        env,
        mount: VolumeMountResource {
            name: "config".to_string(),
            mount_path: "/config".to_string(),
            read_only: true,
        },
        requests: two_amounts(&config.resource_requests.cpu, &config.resource_requests.memory),
        limits: two_amounts(&config.resource_limits.cpu, &config.resource_limits.memory),
    }
}

/// The Deployment that runs the data plane.
pub fn build_deployment(gateway: &Gateway, names: &DataPlaneNames, config: &ControllerConfig) -> (r:
    DeploymentResource)
    ensures
        belongs(r.meta, "multiway-dp-"@ + names.gateway_name@, *names, *gateway),
        r.replicas == config.default_replicas,
        label_views(r.selector@) == labels_for(names.gateway_name@),
        label_views(r.pod_labels@) == labels_for(names.gateway_name@),
        runs_dataplane(r.container, *gateway, *names, *config),
        r.volume.name@ == "config"@,
        r.volume.config_map@ == "multiway-config-"@ + names.gateway_name@,
{
    DeploymentResource {
        meta: resource_meta(names.deployment_name(), names, gateway),
        replicas: config.default_replicas,
        selector: names.selector_labels(),
        pod_labels: names.labels(),
        container: build_container(gateway, names, config),
        volume: ConfigVolume { name: "config".to_string(), config_map: names.configmap_name() },
    }
}

/// How looking a resource up went.
#[derive(Debug, Clone, Copy, PartialEq, Eq, Structural)]
pub enum Lookup {
    /// It is there.
    Found,
    /// It is not there.
    Missing,
    /// That could not be found out.
    Failed,
}

/// How a look-up went that the API server answered with this error code, where
/// it answered at all.
pub fn failed_lookup(code: Option<u16>) -> (r: Lookup)
    ensures
        r == if code == Some(404u16) {
            Lookup::Missing
        } else {
            Lookup::Failed
        },
{
    match code {
        Some(404) => Lookup::Missing,
        _ => Lookup::Failed,
    }
}

/// What to do with a resource.
#[derive(Debug, Clone, Copy, PartialEq, Eq, Structural)]
pub enum Ensure {
    /// Bring it up to date.
    Patch,
    /// Create it.
    Create,
    /// Give up with the error of looking it up.
    Fail,
}

/// What to do with a resource, by how looking it up went.
pub fn ensure_action(lookup: Lookup) -> (r: Ensure)
    ensures
        r == match lookup {
            Lookup::Found => Ensure::Patch,
            Lookup::Missing => Ensure::Create,
            Lookup::Failed => Ensure::Fail,
        },
{
    match lookup {
        Lookup::Found => Ensure::Patch,
        Lookup::Missing => Ensure::Create,
        Lookup::Failed => Ensure::Fail,
    }
}

// ---------------------------------------------------------------------------
// Status
// ---------------------------------------------------------------------------

/// An address of a Gateway.
#[derive(Debug)]
pub struct GatewayAddress {
    pub type_: String,
    pub value: String,
}

/// The status of a listener.
#[derive(Debug)]
pub struct ListenerStatus {
    pub name: String,
    pub attached_routes: i32,
    /// Whether it takes HTTPRoutes; it takes no others.
    pub takes_http_routes: bool,
    pub condition: Condition,
}

/// The status of a Gateway.
#[derive(Debug)]
pub struct GatewayStatus {
    pub addresses: Option<Vec<GatewayAddress>>,
    pub accepted: Condition,
    pub programmed: Condition,
    pub listeners: Vec<ListenerStatus>,
}

/// What a Gateway's status says.
pub struct GatewayVerdict {
    pub accepted: bool,
    pub reason: Seq<char>,
    pub message: Seq<char>,
}

/// The condition `Accepted` of a Gateway or of one of its listeners.
pub open spec fn accepted_condition(v: GatewayVerdict, generation: Option<i64>, now: Timestamp) -> ConditionModel {
    ConditionModel {
        type_: "Accepted"@,
        status: status_word(v.accepted),
        observed_generation: generation,
        last_transition_time: now,
        reason: v.reason,
        message: v.message,
    }
}

/// The condition `Programmed` of a Gateway.
pub open spec fn programmed_condition(v: GatewayVerdict, generation: Option<i64>, now: Timestamp) -> ConditionModel {
    ConditionModel {
        type_: "Programmed"@,
        status: status_word(v.accepted),
        observed_generation: generation,
        last_transition_time: now,
        reason: if v.accepted {
            "Programmed"@
        } else {
            "Invalid"@
        },
        message: if v.accepted {
            "Data plane is programmed"@
        } else {
            v.message
        },
    }
}

/// Whether `s` is the status of a listener.
pub open spec fn reports_listener(
    s: ListenerStatus,
    listener: GatewayListeners,
    v: GatewayVerdict,
    generation: Option<i64>,
    now: Timestamp,
) -> bool {
    &&& s.name == listener.name
    &&& s.attached_routes == 0
    &&& s.takes_http_routes == (protocol_named(text::unicode_upper(listener.protocol@)) is Some)
    &&& s.condition@ == accepted_condition(v, generation, now)
}

/// The status of the Gateway for that verdict.
pub fn build_gateway_status(
    gateway: &Gateway,
    accepted: bool,
    reason: &str,
    message: &str,
    addresses: Option<Vec<GatewayAddress>>,
    now: Timestamp,
) -> (r: GatewayStatus)
    ensures
        ({
            let v = GatewayVerdict { accepted, reason: reason@, message: message@ };
            &&& r.addresses == addresses
            &&& r.accepted@ == accepted_condition(v, gateway.generation, now)
            &&& r.programmed@ == programmed_condition(v, gateway.generation, now)
            &&& r.listeners@.len() == gateway.listeners@.len()
            &&& forall|i: int|
                0 <= i < gateway.listeners@.len() ==> reports_listener(
                    #[trigger] r.listeners@[i],
                    gateway.listeners@[i],
                    v,
                    gateway.generation,
                    now,
                )
        }),
{
    let ghost v = GatewayVerdict { accepted, reason: reason@, message: message@ };
    let generation = gateway.generation;
    let mut listeners: Vec<ListenerStatus> = Vec::new();
    let mut i: usize = 0;
    while i < gateway.listeners.len()
        invariant
            i <= gateway.listeners@.len(),
            generation == gateway.generation,
            v == (GatewayVerdict { accepted, reason: reason@, message: message@ }),
            listeners@.len() == i,
            forall|k: int|
                0 <= k < i ==> reports_listener(
                    #[trigger] listeners@[k],
                    gateway.listeners@[k],
                    v,
                    gateway.generation,
                    now,
                ),
        decreases gateway.listeners.len() - i,
    {
        let listener = &gateway.listeners[i];
        listeners.push(
            ListenerStatus {
                name: listener.name.clone(),
                attached_routes: 0,
                takes_http_routes: Protocol::from_str(listener.protocol.as_str()).is_some(),
                condition: condition("Accepted", accepted, generation, now, reason, message),
            },
        );
        i += 1;
    }
    let programmed_reason = if accepted {
        "Programmed"
    } else {
        "Invalid"
    };
    let programmed_message = if accepted {
        "Data plane is programmed"
    } else {
        message
    };
    GatewayStatus {
        addresses,
        accepted: condition("Accepted", accepted, generation, now, reason, message),
        programmed: condition(
            "Programmed",
            accepted,
            generation,
            now,
            programmed_reason,
            programmed_message,
        ),
        listeners,
    }
}

/// The addresses of a Gateway whose Service has that IP.
pub fn service_addresses(ip: Option<String>) -> (r: Option<Vec<GatewayAddress>>)
    ensures
        match ip {
            None => r is None,
            Some(value) => r matches Some(list) && list@.len() == 1 && list@[0].type_@
                == "IPAddress"@ && list@[0].value == value,
        },
{
    match ip {
        None => None,
        Some(value) => {
            let mut list: Vec<GatewayAddress> = Vec::new();
            list.push(GatewayAddress { type_: "IPAddress".to_string(), value });
            Some(list)
        },
    }
}

// ---------------------------------------------------------------------------
// Which namespaces may attach routes
// ---------------------------------------------------------------------------

/// The namespaces whose routes a listener takes.
#[derive(Debug)]
pub enum AllowedNamespaces {
    /// All.
    All,
    /// This one.
    Same(String),
    /// Those with these labels.
    Selector { match_labels: Vec<Label> },
}

/// How a listener chooses namespaces, where it says so.
pub open spec fn policy_of(listener: GatewayListeners) -> Option<
    GatewayListenersAllowedRoutesNamespacesFrom,
> {
    match listener.allowed_routes {
        None => None,
        Some(allowed) => match allowed.namespaces {
            None => None,
            Some(ns) => ns.from,
        },
    }
}

/// The labels by which a listener chooses namespaces, where it has a
/// selector.
pub open spec fn selector_of(listener: GatewayListeners) -> Option<Seq<Label>> {
    match listener.allowed_routes {
        None => None,
        Some(allowed) => match allowed.namespaces {
            None => None,
            Some(ns) => match ns.selector {
                None => None,
                Some(selector) => match selector.match_labels {
                    Some(labels) => Some(labels@),
                    None => Some(Seq::empty()),
                },
            },
        },
    }
}

/// Whether `a` are the namespaces whose routes the listener takes: only the
/// Gateway's own, unless it says all or has a selector.
pub open spec fn allows(a: AllowedNamespaces, listener: GatewayListeners, gateway_namespace: Seq<char>) -> bool {
    match policy_of(listener) {
        Some(GatewayListenersAllowedRoutesNamespacesFrom::All) => a is All,
        Some(GatewayListenersAllowedRoutesNamespacesFrom::Selector) => match selector_of(listener) {
            Some(labels) => a matches AllowedNamespaces::Selector { match_labels }
                && match_labels@ == labels,
            None => a matches AllowedNamespaces::Same(ns) && ns@ == gateway_namespace,
        },
        _ => a matches AllowedNamespaces::Same(ns) && ns@ == gateway_namespace,
    }
}

fn clone_labels(labels: &Vec<Label>) -> (r: Vec<Label>)
    ensures
        r@ == labels@,
{
    let mut r: Vec<Label> = Vec::new();
    let mut i: usize = 0;
    while i < labels.len()
        invariant
            i <= labels@.len(),
            r@ == labels@.take(i as int),
        decreases labels.len() - i,
    {
        r.push((labels[i].0.clone(), labels[i].1.clone()));
        i += 1;
        assert(r@ =~= labels@.take(i as int));
    }
    assert(labels@.take(i as int) =~= labels@);
    r
}

/// The namespaces whose routes the listener takes.
pub fn get_allowed_route_namespaces(listener: &GatewayListeners, gateway_namespace: &str) -> (r:
    AllowedNamespaces)
    ensures
        allows(r, *listener, gateway_namespace@),
{
    match &listener.allowed_routes {
        None => AllowedNamespaces::Same(gateway_namespace.to_string()),
        Some(allowed) => match &allowed.namespaces {
            None => AllowedNamespaces::Same(gateway_namespace.to_string()),
            Some(ns) => match ns.from {
                None => AllowedNamespaces::Same(gateway_namespace.to_string()),
                Some(GatewayListenersAllowedRoutesNamespacesFrom::All) => AllowedNamespaces::All,
                Some(GatewayListenersAllowedRoutesNamespacesFrom::Same) => AllowedNamespaces::Same(
                    gateway_namespace.to_string(),
                ),
                Some(GatewayListenersAllowedRoutesNamespacesFrom::Selector) => match &ns.selector {
                    Some(selector) => match &selector.match_labels {
                        Some(labels) => AllowedNamespaces::Selector {
                            match_labels: clone_labels(labels),
                        },
                        None => AllowedNamespaces::Selector { match_labels: Vec::new() },
                    },
                    None => AllowedNamespaces::Same(gateway_namespace.to_string()),
                },
            },
        },
    }
}

// ---------------------------------------------------------------------------
// Reconciling
// ---------------------------------------------------------------------------

/// What a Gateway's status is set to.
#[derive(Debug, Clone, Copy, PartialEq, Eq, Structural)]
pub enum Report {
    /// Its class is not one of this controller.
    ClassNotAccepted,
    /// Some listener is not valid.
    ListenersNotValid,
    /// It is accepted and its data plane stands.
    Accepted,
}

impl Report {
    /// What the status says.
    pub open spec fn verdict(self) -> GatewayVerdict {
        match self {
            Report::ClassNotAccepted => GatewayVerdict {
                accepted: false,
                reason: "Invalid"@,
                message: "GatewayClass not found or not accepted by this controller"@,
            },
            Report::ListenersNotValid => GatewayVerdict {
                accepted: false,
                reason: "ListenersNotValid"@,
                message: "One or more listeners have invalid configuration"@,
            },
            Report::Accepted => GatewayVerdict {
                accepted: true,
                reason: "Accepted"@,
                message: "Gateway is accepted and data plane is provisioned"@,
            },
        }
    }

    /// Whether the Gateway is accepted.
    pub fn accepted(self) -> (r: bool)
        ensures
            r == self.verdict().accepted,
    {
        match self {
            Report::Accepted => true,
            _ => false,
        }
    }

    /// The reason in the status.
    pub fn reason(self) -> (r: &'static str)
        ensures
            r@ == self.verdict().reason,
    {
        match self {
            Report::ClassNotAccepted => "Invalid",
            Report::ListenersNotValid => "ListenersNotValid",
            Report::Accepted => "Accepted",
        }
    }

    /// The message in the status.
    pub fn message(self) -> (r: &'static str)
        ensures
            r@ == self.verdict().message,
    {
        match self {
            Report::ClassNotAccepted => "GatewayClass not found or not accepted by this controller",
            Report::ListenersNotValid => "One or more listeners have invalid configuration",
            Report::Accepted => "Gateway is accepted and data plane is provisioned",
        }
    }
}

/// Where reconciling a Gateway stands: what it waits for.
#[derive(Debug)]
pub enum GatewayState {
    /// For word on the GatewayClass.
    CheckingClass,
    /// For the status to be written: the Gateway is not accepted.
    Refusing,
    /// For the ConfigMap.
    EnsuringConfigMap,
    /// For the Service.
    EnsuringService,
    /// For the Deployment; the Service has this IP.
    EnsuringDeployment(Option<String>),
    /// For the status to be written: the Gateway is accepted.
    Accepting,
    /// For nothing.
    Finished,
}

/// What has come of the last action.
#[derive(Debug)]
pub enum GatewayEvent {
    /// Whether the class is accepted, or none if that could not be found out.
    ClassChecked(Option<bool>),
    /// Whether the resource is in place.
    Ensured(bool),
    /// The Service is in place, with its IP if it has one.
    ServiceEnsured(Option<String>),
    /// Whether the status is written.
    Reported(bool),
}

/// What to do next.
#[derive(Debug)]
pub enum GatewayAction {
    /// Write the status, with this IP as address if there is one.
    Report(Report, Option<String>),
    EnsureConfigMap,
    EnsureService,
    EnsureDeployment,
    /// Look at the Gateway again after so many seconds.
    Requeue(u64),
    /// Give up with the error that the event came with.
    Fail,
}

/// Seconds until a Gateway that is not accepted is looked at again.
pub const REFUSED_REQUEUE_SECS: u64 = 30;

/// Whether all listeners of a Gateway are valid.
pub open spec fn all_listeners_valid(gateway: Gateway) -> bool {
    forall|i: int|
        0 <= i < gateway.listeners@.len() ==> listener_valid(#[trigger] gateway.listeners@[i])
}

/// What an event leads to: the next state and what to do. An event that the
/// state does not wait for is an error.
pub open spec fn gateway_step(
    gateway: Gateway,
    config: ControllerConfig,
    state: GatewayState,
    event: GatewayEvent,
) -> (GatewayState, GatewayAction) {
    match (state, event) {
        (GatewayState::CheckingClass, GatewayEvent::ClassChecked(Some(true))) => {
            if all_listeners_valid(gateway) {
                (GatewayState::EnsuringConfigMap, GatewayAction::EnsureConfigMap)
            } else {
                (GatewayState::Refusing, GatewayAction::Report(Report::ListenersNotValid, None))
            }
        },
        (GatewayState::CheckingClass, GatewayEvent::ClassChecked(Some(false))) => (
            GatewayState::Refusing,
            GatewayAction::Report(Report::ClassNotAccepted, None),
        ),
        (GatewayState::Refusing, GatewayEvent::Reported(true)) => (
            GatewayState::Finished,
            GatewayAction::Requeue(REFUSED_REQUEUE_SECS),
        ),
        (GatewayState::EnsuringConfigMap, GatewayEvent::Ensured(true)) => (
            GatewayState::EnsuringService,
            GatewayAction::EnsureService,
        ),
        (GatewayState::EnsuringService, GatewayEvent::ServiceEnsured(ip)) => (
            GatewayState::EnsuringDeployment(ip),
            GatewayAction::EnsureDeployment,
        ),
        (GatewayState::EnsuringDeployment(ip), GatewayEvent::Ensured(true)) => (
            GatewayState::Accepting,
            GatewayAction::Report(Report::Accepted, ip),
        ),
        (GatewayState::Accepting, GatewayEvent::Reported(true)) => (
            GatewayState::Finished,
            GatewayAction::Requeue(config.requeue_after_secs),
        ),
        _ => (GatewayState::Finished, GatewayAction::Fail),
    }
}

/// The next state of reconciling the Gateway, and what to do.
pub fn step_gateway(
    gateway: &Gateway,
    config: &ControllerConfig,
    state: GatewayState,
    event: GatewayEvent,
) -> (r: (GatewayState, GatewayAction))
    ensures
        r == gateway_step(*gateway, *config, state, event),
{
    match (state, event) {
        (GatewayState::CheckingClass, GatewayEvent::ClassChecked(Some(true))) => {
            let (valid, _) = validate_listeners(&gateway.listeners);
            if valid {
                (GatewayState::EnsuringConfigMap, GatewayAction::EnsureConfigMap)
            } else {
                (GatewayState::Refusing, GatewayAction::Report(Report::ListenersNotValid, None))
            }
        },
        (GatewayState::CheckingClass, GatewayEvent::ClassChecked(Some(false))) => (
            GatewayState::Refusing,
            GatewayAction::Report(Report::ClassNotAccepted, None),
        ),
        (GatewayState::Refusing, GatewayEvent::Reported(true)) => (
            GatewayState::Finished,
            GatewayAction::Requeue(REFUSED_REQUEUE_SECS),
        ),
        (GatewayState::EnsuringConfigMap, GatewayEvent::Ensured(true)) => (
            GatewayState::EnsuringService,
            GatewayAction::EnsureService,
        ),
        (GatewayState::EnsuringService, GatewayEvent::ServiceEnsured(ip)) => (
            GatewayState::EnsuringDeployment(ip),
            GatewayAction::EnsureDeployment,
        ),
        (GatewayState::EnsuringDeployment(ip), GatewayEvent::Ensured(true)) => (
            GatewayState::Accepting,
            GatewayAction::Report(Report::Accepted, ip),
        ),
        (GatewayState::Accepting, GatewayEvent::Reported(true)) => (
            GatewayState::Finished,
            GatewayAction::Requeue(config.requeue_after_secs),
        ),
        _ => (GatewayState::Finished, GatewayAction::Fail),
    }
}

/// Seconds until a resource is looked at again after an error.
pub fn error_policy(config: &ControllerConfig) -> (r: u64)
    ensures
        r == config.error_requeue_secs,
{
    config.error_requeue_secs
}

// ---------------------------------------------------------------------------
// Laws
// ---------------------------------------------------------------------------

/// A listener is valid where its finding is `Accepted`, and only there.
pub proof fn law_findings_agree_with_validity(listener: GatewayListeners, word: Seq<char>)
    ensures
        is_valid(listener, word) <==> finding(listener, word).reason == "Accepted"@,
{
    reveal_strlit("Accepted");
    reveal_strlit("InvalidPort");
    reveal_strlit("InvalidTLS");
    reveal_strlit("UnsupportedProtocol");
    assert("Accepted"@.len() == 8);
    assert("InvalidPort"@.len() == 11);
    assert("InvalidTLS"@.len() == 10);
    assert("UnsupportedProtocol"@.len() == 19);
}

/// Nothing of a data plane is touched unless the class is accepted and every
/// listener is valid.
pub proof fn law_data_planes_need_a_valid_gateway(
    gateway: Gateway,
    config: ControllerConfig,
    state: GatewayState,
    event: GatewayEvent,
)
    requires
        gateway_step(gateway, config, state, event).1 is EnsureConfigMap,
    ensures
        event == GatewayEvent::ClassChecked(Some(true)),
        all_listeners_valid(gateway),
{
}

/// A Gateway is reported as accepted only when ConfigMap, Service and
/// Deployment are in place: the report comes from the state behind these, which
/// is entered one after the other.
pub proof fn law_acceptance_comes_last(
    gateway: Gateway,
    config: ControllerConfig,
    s0: GatewayState,
    e0: GatewayEvent,
    e1: GatewayEvent,
    e2: GatewayEvent,
)
    requires
        ({
            let (s1, a1) = gateway_step(gateway, config, s0, e0);
            let (s2, a2) = gateway_step(gateway, config, s1, e1);
            gateway_step(gateway, config, s2, e2).1 matches GatewayAction::Report(
                Report::Accepted,
                _,
            )
        }),
    ensures
        s0 == GatewayState::EnsuringConfigMap,
        e0 == GatewayEvent::Ensured(true),
        e1 is ServiceEnsured,
        e2 == GatewayEvent::Ensured(true),
{
}

/// The number of steps that reconciling in that state can still take.
pub open spec fn gateway_steps_left(state: GatewayState) -> nat {
    match state {
        GatewayState::CheckingClass => 5,
        GatewayState::EnsuringConfigMap => 4,
        GatewayState::EnsuringService => 3,
        GatewayState::EnsuringDeployment(_) => 2,
        GatewayState::Refusing | GatewayState::Accepting => 1,
        GatewayState::Finished => 0,
    }
}

/// Every step brings reconciling nearer to its end.
pub proof fn law_reconciling_a_gateway_ends(
    gateway: Gateway,
    config: ControllerConfig,
    state: GatewayState,
    event: GatewayEvent,
)
    requires
        !(state is Finished),
    ensures
        gateway_steps_left(gateway_step(gateway, config, state, event).0) < gateway_steps_left(
            state,
        ),
{
}

/// `Accepted` and `Programmed` always say the same.
pub proof fn law_accepted_and_programmed_agree(
    v: GatewayVerdict,
    generation: Option<i64>,
    now: Timestamp,
)
    ensures
        accepted_condition(v, generation, now).status == programmed_condition(
            v,
            generation,
            now,
        ).status,
{
}

/// A listener is valid exactly where its port is from 1 to 65535 and it speaks
/// HTTP without TLS or HTTPS with TLS.
pub proof fn law_listeners_are_http_or_https(listener: GatewayListeners, word: Seq<char>)
    ensures
        is_valid(listener, word) <==> listener.port >= 1 && listener.port <= 65535 && (word
            == "HTTP"@ && listener.tls is None || word == "HTTPS"@ && listener.tls is Some),
{
    reveal_strlit("HTTP");
    reveal_strlit("HTTPS");
    assert("HTTP"@.len() != "HTTPS"@.len());
}

/// What is wrong with a listener: a port out of range before all else, then a
/// protocol that is not supported, then TLS that is there or missing.
pub proof fn law_findings_name_what_is_wrong(listener: GatewayListeners, word: Seq<char>)
    ensures
        ({
            let f = finding(listener, word);
            let in_range = listener.port >= 1 && listener.port <= 65535;
            &&& !in_range ==> f.reason == "InvalidPort"@ && f.message == "Port "@
                + text::decimal_int(listener.port as int) + " is out of valid range (1-65535)"@
            &&& in_range && word != "HTTP"@ && word != "HTTPS"@ ==> f.reason
                == "UnsupportedProtocol"@ && f.message == "Protocol '"@ + listener.protocol@
                + "' is not supported"@
            &&& in_range && word == "HTTP"@ && listener.tls is Some ==> f.reason == "InvalidTLS"@
                && f.message == "HTTP listeners should not have TLS configuration"@
            &&& in_range && word == "HTTPS"@ && listener.tls is None ==> f.reason == "InvalidTLS"@
                && f.message == "HTTPS listeners require TLS configuration"@
            &&& is_valid(listener, word) ==> f.reason == "Accepted"@ && f.message.len() == 0
        }),
{
    reveal_strlit("HTTP");
    reveal_strlit("HTTPS");
    assert("HTTP"@.len() != "HTTPS"@.len());
}

/// The data plane listens where the Gateway says: under the same name, at the
/// same port, with the same protocol and for the same host.
pub proof fn law_the_data_plane_listens_as_told(c: ListenerConfig, listener: GatewayListeners)
    requires
        configures(c, listener),
    ensures
        c.name@ == listener.name@,
        0 <= listener.port <= 65535 ==> c.port == listener.port,
        text::unicode_upper(listener.protocol@) == "HTTPS"@ ==> c.protocol == Protocol::Https,
        text::unicode_upper(listener.protocol@) != "HTTPS"@ ==> c.protocol == Protocol::Http,
        c.hostname == listener.hostname,
{
    reveal_strlit("HTTP");
    reveal_strlit("HTTPS");
    assert("HTTP"@.len() != "HTTPS"@.len());
}

/// A resource of a data plane goes with its Gateway: it is in its namespace,
/// carries its name as a label, and is owned by it, so that it goes when the
/// Gateway does.
pub proof fn law_resources_go_with_their_gateway(
    m: ResourceMeta,
    name: Seq<char>,
    names: DataPlaneNames,
    gateway: Gateway,
)
    requires
        belongs(m, name, names, gateway),
    ensures
        m.name@ == name,
        m.namespace@ == names.gateway_namespace@,
        m.labels@.len() == 2,
        m.labels@[0].0@ == "app.kubernetes.io/managed-by"@ && m.labels@[0].1@
            == "multiway-controller"@,
        m.labels@[1].0@ == "gateway.networking.k8s.io/gateway-name"@ && m.labels@[1].1@
            == names.gateway_name@,
        m.owner.kind@ == "Gateway"@,
        m.owner.api_version@ == "gateway.networking.k8s.io/v1"@,
        m.owner.name@ == gateway.name@,
        gateway.uid matches Some(uid) ==> m.owner.uid@ == uid@,
        m.owner.controller && m.owner.block_owner_deletion,
{
    let views = label_views(m.labels@);
    assert(views.len() == 2);
    assert(views[0] == (m.labels@[0].0@, m.labels@[0].1@));
    assert(views[1] == (m.labels@[1].0@, m.labels@[1].1@));
}

/// The container of a data plane runs the image of the settings, opens every
/// port of the Gateway, is told the Gateway and the path of its configuration,
/// reads that from its mount, and gets the resources of the settings.
pub proof fn law_containers_run_the_data_plane(
    c: ContainerResource,
    gateway: Gateway,
    names: DataPlaneNames,
    config: ControllerConfig,
)
    requires
        runs_dataplane(c, gateway, names, config),
    ensures
        c.image@ == config.dataplane_image@,
        c.image_pull_policy@ == config.image_pull_policy@,
        c.ports@.len() == gateway.listeners@.len(),
        forall|i: int|
            0 <= i < gateway.listeners@.len() ==> (#[trigger] c.ports@[i]).port
                == gateway.listeners@[i].port && c.ports@[i].name@ == gateway.listeners@[i].name@
                && c.ports@[i].protocol@ == "TCP"@,
        c.env@.len() == 3,
        c.env@[0].0@ == "GATEWAY_NAME"@ && c.env@[0].1@ == gateway.name@,
        c.env@[1].0@ == "GATEWAY_NAMESPACE"@ && c.env@[1].1@ == names.gateway_namespace@,
        c.env@[2].0@ == "CONFIG_PATH"@ && c.env@[2].1@ == c.mount.mount_path@ + seq!['/']
            + "config.json"@,
        c.mount.read_only,
        c.requests@.len() == 2 && c.limits@.len() == 2,
        c.requests@[0].0@ == "cpu"@ && c.requests@[0].1@ == config.resource_requests.cpu@,
        c.requests@[1].0@ == "memory"@ && c.requests@[1].1@ == config.resource_requests.memory@,
        c.limits@[0].0@ == "cpu"@ && c.limits@[0].1@ == config.resource_limits.cpu@,
        c.limits@[1].0@ == "memory"@ && c.limits@[1].1@ == config.resource_limits.memory@,
{
    let env = pairs(c.env@);
    let requests = pairs(c.requests@);
    let limits = pairs(c.limits@);
    assert(env.len() == 3 && requests.len() == 2 && limits.len() == 2);
    assert(env[0] == (c.env@[0].0@, c.env@[0].1@));
    assert(env[1] == (c.env@[1].0@, c.env@[1].1@));
    assert(env[2] == (c.env@[2].0@, c.env@[2].1@));
    assert(requests[0] == (c.requests@[0].0@, c.requests@[0].1@));
    assert(requests[1] == (c.requests@[1].0@, c.requests@[1].1@));
    assert(limits[0] == (c.limits@[0].0@, c.limits@[0].1@));
    assert(limits[1] == (c.limits@[1].0@, c.limits@[1].1@));
    reveal_strlit("/config/");
    reveal_strlit("/config");
    assert("/config/"@ =~= "/config"@ + seq!['/']);
}

/// The conditions of a Gateway say what was decided: `True` where it is
/// accepted and `False` where not, with the reason, on the generation that was
/// looked at.
pub proof fn law_conditions_say_what_was_decided(
    v: GatewayVerdict,
    generation: Option<i64>,
    now: Timestamp,
)
    ensures
        ({
            let a = accepted_condition(v, generation, now);
            let p = programmed_condition(v, generation, now);
            let word = if v.accepted {
                "True"@
            } else {
                "False"@
            };
            &&& a.type_ == "Accepted"@ && p.type_ == "Programmed"@
            &&& a.status == word && p.status == word
            &&& a.reason == v.reason && a.message == v.message
            &&& v.accepted ==> p.reason == "Programmed"@ && p.message == "Data plane is programmed"@
            &&& !v.accepted ==> p.reason == "Invalid"@ && p.message == v.message
            &&& a.observed_generation == generation && p.observed_generation == generation
            &&& a.last_transition_time == now && p.last_transition_time == now
        }),
{
}

/// Only one report accepts a Gateway; each of the others has its own reason.
pub proof fn law_reports_have_their_reason(report: Report)
    ensures
        report.verdict().accepted <==> report == Report::Accepted,
        report == Report::Accepted ==> report.verdict().reason == "Accepted"@
            && report.verdict().message == "Gateway is accepted and data plane is provisioned"@,
        report == Report::ClassNotAccepted ==> report.verdict().reason == "Invalid"@
            && report.verdict().message
            == "GatewayClass not found or not accepted by this controller"@,
        report == Report::ListenersNotValid ==> report.verdict().reason == "ListenersNotValid"@
            && report.verdict().message == "One or more listeners have invalid configuration"@,
{
}

/// The status of a listener is that of its Gateway; only listeners of HTTP and
/// HTTPS take HTTPRoutes.
pub proof fn law_listeners_report_as_their_gateway(
    s: ListenerStatus,
    listener: GatewayListeners,
    v: GatewayVerdict,
    generation: Option<i64>,
    now: Timestamp,
)
    requires
        reports_listener(s, listener, v, generation, now),
    ensures
        s.name@ == listener.name@,
        s.attached_routes == 0,
        s.takes_http_routes <==> text::unicode_upper(listener.protocol@) == "HTTP"@
            || text::unicode_upper(listener.protocol@) == "HTTPS"@,
        s.condition@.reason == v.reason && s.condition@.message == v.message,
        s.condition@.status == (if v.accepted {
            "True"@
        } else {
            "False"@
        }),
{
}

/// A listener takes routes from everywhere only where it says so; by a selector
/// only where it has one; and else from its own namespace alone.
pub proof fn law_listeners_allow_what_they_say(
    a: AllowedNamespaces,
    listener: GatewayListeners,
    own: Seq<char>,
)
    requires
        allows(a, listener, own),
    ensures
        ({
            let given = if listener.allowed_routes is Some {
                listener.allowed_routes->0.namespaces
            } else {
                None
            };
            let from = if given is Some {
                given->0.from
            } else {
                None
            };
            let same = a is Same && a->Same_0@ == own;
            &&& from is None ==> same
            &&& from == Some(GatewayListenersAllowedRoutesNamespacesFrom::Same) ==> same
            &&& from == Some(GatewayListenersAllowedRoutesNamespacesFrom::All) ==> a is All
            &&& from == Some(GatewayListenersAllowedRoutesNamespacesFrom::Selector)
                && given->0.selector is None ==> same
            &&& from == Some(GatewayListenersAllowedRoutesNamespacesFrom::Selector)
                && given->0.selector is Some ==> a is Selector && a->Selector_match_labels@ == (
            match given->0.selector->0.match_labels {
                Some(labels) => labels@,
                None => Seq::empty(),
            })
        }),
{
}

/// Reconciling a Gateway goes step by step: a class that is not accepted and
/// listeners that are not valid are reported and looked at again after 30
/// seconds; a Gateway in order gets its ConfigMap, then its Service, then its
/// Deployment, is reported as accepted with the address of its Service, and is
/// looked at again after the time of the settings. What fails ends it.
pub proof fn law_gateways_are_provisioned_in_order(
    gateway: Gateway,
    config: ControllerConfig,
    ip: Option<String>,
)
    ensures
        gateway_step(
            gateway,
            config,
            GatewayState::CheckingClass,
            GatewayEvent::ClassChecked(Some(false)),
        ) == (
            GatewayState::Refusing,
            GatewayAction::Report(Report::ClassNotAccepted, None),
        ),
        (exists|i: int|
            0 <= i < gateway.listeners@.len() && !listener_valid(#[trigger] gateway.listeners@[i]))
            ==> gateway_step(
            gateway,
            config,
            GatewayState::CheckingClass,
            GatewayEvent::ClassChecked(Some(true)),
        ) == (GatewayState::Refusing, GatewayAction::Report(Report::ListenersNotValid, None)),
        (forall|i: int|
            0 <= i < gateway.listeners@.len() ==> listener_valid(#[trigger] gateway.listeners@[i]))
            ==> gateway_step(
            gateway,
            config,
            GatewayState::CheckingClass,
            GatewayEvent::ClassChecked(Some(true)),
        ) == (GatewayState::EnsuringConfigMap, GatewayAction::EnsureConfigMap),
        gateway_step(gateway, config, GatewayState::Refusing, GatewayEvent::Reported(true)) == (
            GatewayState::Finished,
            GatewayAction::Requeue(30),
        ),
        gateway_step(gateway, config, GatewayState::EnsuringConfigMap, GatewayEvent::Ensured(true))
            == (GatewayState::EnsuringService, GatewayAction::EnsureService),
        gateway_step(
            gateway,
            config,
            GatewayState::EnsuringService,
            GatewayEvent::ServiceEnsured(ip),
        ) == (GatewayState::EnsuringDeployment(ip), GatewayAction::EnsureDeployment),
        gateway_step(
            gateway,
            config,
            GatewayState::EnsuringDeployment(ip),
            GatewayEvent::Ensured(true),
        ) == (GatewayState::Accepting, GatewayAction::Report(Report::Accepted, ip)),
        gateway_step(gateway, config, GatewayState::Accepting, GatewayEvent::Reported(true)) == (
            GatewayState::Finished,
            GatewayAction::Requeue(config.requeue_after_secs),
        ),
        gateway_step(
            gateway,
            config,
            GatewayState::CheckingClass,
            GatewayEvent::ClassChecked(None),
        ).1 is Fail,
        gateway_step(
            gateway,
            config,
            GatewayState::EnsuringConfigMap,
            GatewayEvent::Ensured(false),
        ).1 is Fail,
        gateway_step(
            gateway,
            config,
            GatewayState::EnsuringService,
            GatewayEvent::Ensured(false),
        ).1 is Fail,
        gateway_step(
            gateway,
            config,
            GatewayState::EnsuringDeployment(ip),
            GatewayEvent::Ensured(false),
        ).1 is Fail,
{
}

/// The protocol of a listener is read in upper case, so that its own case plays
/// no part.
pub proof fn law_protocols_are_read_in_upper_case(
    a: GatewayListeners,
    b: GatewayListeners,
    x: ListenerConfig,
    y: ListenerConfig,
)
    requires
        text::unicode_upper(a.protocol@) == text::unicode_upper(b.protocol@),
        a.port == b.port,
        a.tls is Some <==> b.tls is Some,
    ensures
        listener_valid(a) == listener_valid(b),
        listener_valid(a) == is_valid(a, text::unicode_upper(a.protocol@)),
        configures(x, a) && configures(y, b) ==> x.protocol == y.protocol,
{
}

/// A validation carries the name of its listener, and of what is wrong with it
/// the word as its reason and the sentence as its message.
pub proof fn law_validations_say_what_is_wrong(
    v: ListenerValidation,
    listener: GatewayListeners,
    word: Seq<char>,
)
    requires
        validates(v, listener, word),
    ensures
        v.name@ == listener.name@,
        v.valid <==> 1 <= listener.port <= 65535 && (word == "HTTP"@ && listener.tls is None || word
            == "HTTPS"@ && listener.tls is Some),
        v.valid ==> v.reason@ == "Accepted"@ && v.message@.len() == 0,
        !(1 <= listener.port <= 65535) ==> v.reason@ == "InvalidPort"@ && v.message@ == "Port "@
            + text::decimal_int(listener.port as int) + " is out of valid range (1-65535)"@,
        1 <= listener.port <= 65535 && word != "HTTP"@ && word != "HTTPS"@ ==> v.reason@
            == "UnsupportedProtocol"@ && v.message@ == "Protocol '"@ + listener.protocol@
            + "' is not supported"@,
        1 <= listener.port <= 65535 && !v.valid && (word == "HTTP"@ || word == "HTTPS"@)
            ==> v.reason@ == "InvalidTLS"@,
{
    reveal_strlit("HTTP");
    reveal_strlit("HTTPS");
    assert("HTTP"@.len() != "HTTPS"@.len());
    law_findings_name_what_is_wrong(listener, word);
}

} // verus!
