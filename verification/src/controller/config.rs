//! Names and settings of the control plane.

use std::sync::Arc;

use vstd::prelude::*;

use crate::config::{GatewayRef, ListenerConfig, Protocol, ProxyConfig, RouteConfig, SCHEMA_VERSION};
use crate::controller::api::Label;
use crate::text::{self, join2};

verus! {

/// The controller that accepted GatewayClasses name.
pub const CONTROLLER_NAME: &'static str = "io.multiway/gateway-controller";

/// Whether a GatewayClass with this `controllerName` belongs to this controller.
pub fn is_own_class(controller_name: &str) -> (r: bool)
    ensures
        r == (controller_name@ == CONTROLLER_NAME@),
{
    text::same(controller_name, CONTROLLER_NAME)
}

/// The key under which a ConfigMap holds the configuration.
pub const CONFIG_KEY: &'static str = "config.json";

/// The label that marks what this controller manages.
pub const MANAGED_BY_LABEL: &'static str = "app.kubernetes.io/managed-by";

/// The value of that label.
pub const MANAGED_BY_VALUE: &'static str = "multiway-controller";

/// The label that names the Gateway of a resource.
pub const GATEWAY_NAME_LABEL: &'static str = "gateway.networking.k8s.io/gateway-name";

/// The manager of the fields that this controller applies.
pub const FIELD_MANAGER: &'static str = "multiway-controller";

/// The selector of what this controller manages.
pub fn managed_by_selector() -> (r: String)
    ensures
        r@ == MANAGED_BY_LABEL@ + "="@ + MANAGED_BY_VALUE@,
{
    text::join3(MANAGED_BY_LABEL, "=", MANAGED_BY_VALUE)
}

// ---------------------------------------------------------------------------
// Names of data plane resources
// ---------------------------------------------------------------------------

/// The names of the resources of one Gateway's data plane.
#[derive(Debug)]
pub struct DataPlaneNames {
    pub gateway_namespace: String,
    pub gateway_name: String,
}

/// The value of a label among labels.
pub open spec fn label_value(labels: Seq<Label>, key: Seq<char>) -> Option<Seq<char>>
    decreases labels.len(),
{
    if labels.len() == 0 {
        None
    } else if labels[0].0@ == key {
        Some(labels[0].1@)
    } else {
        label_value(labels.skip(1), key)
    }
}

/// The value of the label.
pub fn find_label<'a>(labels: &'a Vec<Label>, key: &str) -> (r: Option<&'a str>)
    ensures
        text::opt(r) == label_value(labels@, key@),
{
    let mut i: usize = 0;
    assert(labels@.skip(0) =~= labels@);
    while i < labels.len()
        invariant
            i <= labels@.len(),
            label_value(labels@, key@) == label_value(labels@.skip(i as int), key@),
        decreases labels.len() - i,
    {
        assert(labels@.skip(i as int).skip(1) =~= labels@.skip(i + 1));
        if text::same(labels[i].0.as_str(), key) {
            return Some(labels[i].1.as_str());
        }
        i += 1;
    }
    None
}

/// The labels of a Gateway's resources.
pub open spec fn labels_for(gateway_name: Seq<char>) -> Seq<(Seq<char>, Seq<char>)> {
    seq![(MANAGED_BY_LABEL@, MANAGED_BY_VALUE@), (GATEWAY_NAME_LABEL@, gateway_name)]
}

/// The views of some labels.
pub open spec fn label_views(labels: Seq<Label>) -> Seq<(Seq<char>, Seq<char>)> {
    labels.map_values(|l: Label| (l.0@, l.1@))
}

impl DataPlaneNames {
    pub fn new(namespace: &str, gateway_name: &str) -> (r: Self)
        ensures
            r.gateway_namespace@ == namespace@,
            r.gateway_name@ == gateway_name@,
    {
        DataPlaneNames {
            gateway_namespace: namespace.to_string(),
            gateway_name: gateway_name.to_string(),
        }
    }

    /// The namespace of the resources: that of the Gateway.
    pub fn namespace(&self) -> (r: &str)
        ensures
            r@ == self.gateway_namespace@,
    {
        self.gateway_namespace.as_str()
    }

    pub fn deployment_name(&self) -> (r: String)
        ensures
            r@ == "multiway-dp-"@ + self.gateway_name@,
    {
        join2("multiway-dp-", self.gateway_name.as_str())
    }

    pub fn configmap_name(&self) -> (r: String)
        ensures
            r@ == "multiway-config-"@ + self.gateway_name@,
    {
        join2("multiway-config-", self.gateway_name.as_str())
    }

    pub fn service_name(&self) -> (r: String)
        ensures
            r@ == "multiway-svc-"@ + self.gateway_name@,
    {
        join2("multiway-svc-", self.gateway_name.as_str())
    }

    /// The labels of the resources.
    pub fn labels(&self) -> (r: Vec<Label>)
        ensures
            label_views(r@) == labels_for(self.gateway_name@),
    {
        let mut r: Vec<Label> = Vec::new();
        r.push((MANAGED_BY_LABEL.to_string(), MANAGED_BY_VALUE.to_string()));
        r.push((GATEWAY_NAME_LABEL.to_string(), self.gateway_name.clone()));
        assert(label_views(r@) =~= labels_for(self.gateway_name@));
        r
    }

    /// The labels by which the data plane's pods are selected.
    pub fn selector_labels(&self) -> (r: Vec<Label>)
        ensures
            label_views(r@) == labels_for(self.gateway_name@),
    {
        self.labels()
    }
}

// ---------------------------------------------------------------------------
// The configuration of a Gateway
// ---------------------------------------------------------------------------

/// The configuration that the control plane writes for a Gateway: the one that
/// the data plane reads.
pub type GatewayConfig = ProxyConfig;

impl ProxyConfig {
    /// The configuration of a Gateway without listeners and routes.
    pub fn new(namespace: &str, name: &str) -> (r: Self)
        ensures
            r.version@ == SCHEMA_VERSION@,
            r.gateway.namespace@ == namespace@,
            r.gateway.name@ == name@,
            r.listeners@ == Seq::<ListenerConfig>::empty(),
            r.routes@ == Seq::<RouteConfig>::empty(),
    {
        ProxyConfig {
            version: SCHEMA_VERSION.to_string(),
            gateway: GatewayRef { namespace: namespace.to_string(), name: name.to_string() },
            listeners: Vec::new(),
            routes: Vec::new(),
        }
    }

    /// Puts a listener behind the others.
    pub fn add_listener(&mut self, listener: ListenerConfig)
        ensures
            final(self).listeners@ == old(self).listeners@.push(listener),
            final(self).version == old(self).version,
            final(self).gateway == old(self).gateway,
            final(self).routes == old(self).routes,
    {
        self.listeners.push(listener);
    }
}

/// The protocol that an upper case word names.
pub open spec fn protocol_named(word: Seq<char>) -> Option<Protocol> {
    if word == "HTTP"@ {
        Some(Protocol::Http)
    } else if word == "HTTPS"@ {
        Some(Protocol::Https)
    } else {
        None
    }
}

/// The protocol that the upper case word names.
pub fn protocol_of_word(word: &str) -> (r: Option<Protocol>)
    ensures
        r == protocol_named(word@),
{
    if text::same(word, "HTTP") {
        Some(Protocol::Http)
    } else if text::same(word, "HTTPS") {
        Some(Protocol::Https)
    } else {
        None
    }
}

impl Protocol {
    /// The protocol of a listener, by its name in any case.
    pub fn from_str(name: &str) -> (r: Option<Self>)
        ensures
            r == protocol_named(text::unicode_upper(name@)),
    {
        let word = text::to_uppercase(name);
        protocol_of_word(word.as_str())
    }
}

// ---------------------------------------------------------------------------
// Settings of the controller
// ---------------------------------------------------------------------------

/// Amounts of CPU and memory.
#[derive(Debug)]
pub struct ResourceAmounts {
    pub cpu: String,
    pub memory: String,
}

/// Settings of the controller.
#[derive(Debug)]
pub struct ControllerConfig {
    /// Image of the data plane.
    pub dataplane_image: String,
    /// When the image is pulled.
    pub image_pull_policy: String,
    /// Replicas of a data plane.
    pub default_replicas: i32,
    /// Seconds until a resource is looked at again.
    pub requeue_after_secs: u64,
    /// Seconds until a resource is looked at again after an error.
    pub error_requeue_secs: u64,
    /// The namespace to watch, or all where there is none.
    pub watch_namespace: Option<String>,
    /// What a data plane asks for.
    pub resource_requests: ResourceAmounts,
    /// What a data plane may use.
    pub resource_limits: ResourceAmounts,
}

impl ControllerConfig {
    /// Whether these are the default settings.
    pub open spec fn is_default(self) -> bool {
        &&& self.dataplane_image@ == "ghcr.io/wack/multiway-dataplane:latest"@
        &&& self.image_pull_policy@ == "IfNotPresent"@
        &&& self.default_replicas == 1
        &&& self.requeue_after_secs == 300
        &&& self.error_requeue_secs == 60
        &&& self.watch_namespace is None
        &&& self.resource_requests.cpu@ == "100m"@
        &&& self.resource_requests.memory@ == "128Mi"@
        &&& self.resource_limits.cpu@ == "500m"@
        &&& self.resource_limits.memory@ == "256Mi"@
    }
}

impl Default for ControllerConfig {
    fn default() -> (r: Self)
        ensures
            r.is_default(),
    {
        ControllerConfig {
            dataplane_image: "ghcr.io/wack/multiway-dataplane:latest".to_string(),
            image_pull_policy: "IfNotPresent".to_string(),
            default_replicas: 1,
            requeue_after_secs: 300,
            error_requeue_secs: 60,
            watch_namespace: None,
            resource_requests: ResourceAmounts {
                cpu: "100m".to_string(),
                memory: "128Mi".to_string(),
            },
            resource_limits: ResourceAmounts {
                cpu: "500m".to_string(),
                memory: "256Mi".to_string(),
            },
        }
    }
}

/// What the reconcilers share: a client `K` of the API server and the
/// settings.
#[derive(Debug)]
pub struct ControllerContext<K> {
    pub client: K,
    pub config: ControllerConfig,
}

impl<K> ControllerContext<K> {
    pub fn new(client: K, config: ControllerConfig) -> (r: Self)
        ensures
            r.client == client,
            r.config == config,
    {
        ControllerContext { client, config }
    }

    /// This context, to be shared.
    pub fn into_arc(self) -> (r: Arc<Self>)
        ensures
            *r == self,
    {
        Arc::new(self)
    }
}

/// The controller that runs all reconcilers.
#[derive(Debug)]
pub struct GatewayController<K> {
    context: Arc<ControllerContext<K>>,
}

impl<K> GatewayController<K> {
    /// The client and the settings.
    pub closed spec fn shared(self) -> ControllerContext<K> {
        *self.context
    }

    /// A controller with that client and those settings.
    pub fn with_client(client: K, config: ControllerConfig) -> (r: Self)
        ensures
            r.shared() == (ControllerContext { client, config }),
    {
        GatewayController { context: ControllerContext::new(client, config).into_arc() }
    }

    /// What the reconcilers share.
    pub fn context(&self) -> (r: &Arc<ControllerContext<K>>)
        ensures
            **r == self.shared(),
    {
        &self.context
    }
}

/// The name of the reconciler at that place of the list that is run.
pub fn reconciler_name(i: usize) -> (r: &'static str)
    ensures
        r@ == if i == 0 {
            "GatewayClass"@
        } else if i == 1 {
            "Gateway"@
        } else if i == 2 {
            "HTTPRoute"@
        } else {
            "Unknown"@
        },
{
    match i {
        0 => "GatewayClass",
        1 => "Gateway",
        2 => "HTTPRoute",
        _ => "Unknown",
    }
}

/// Builds a `GatewayController`.
#[derive(Debug)]
pub struct GatewayControllerBuilder<K> {
    pub config: ControllerConfig,
    pub client: Option<K>,
}

impl<K> Default for GatewayControllerBuilder<K> {
    fn default() -> (r: Self)
        ensures
            r.client is None,
            r.config.is_default(),
    {
        GatewayControllerBuilder::new()
    }
}

impl<K> GatewayControllerBuilder<K> {
    /// A builder with the default settings and no client.
    pub fn new() -> (r: Self)
        ensures
            r.client is None,
            r.config.is_default(),
    {
        GatewayControllerBuilder { config: ControllerConfig::default(), client: None }
    }

    pub fn dataplane_image(self, image: &str) -> (r: Self)
        ensures
            r.config.dataplane_image@ == image@,
            r.config == (ControllerConfig {
                dataplane_image: r.config.dataplane_image,
                ..self.config
            }),
            r.client == self.client,
    {
        let mut r = self;
        r.config.dataplane_image = image.to_string();
        r
    }

    pub fn image_pull_policy(self, policy: &str) -> (r: Self)
        ensures
            r.config.image_pull_policy@ == policy@,
            r.config == (ControllerConfig {
                image_pull_policy: r.config.image_pull_policy,
                ..self.config
            }),
            r.client == self.client,
    {
        let mut r = self;
        r.config.image_pull_policy = policy.to_string();
        r
    }

    pub fn default_replicas(self, replicas: i32) -> (r: Self)
        ensures
            r.config == (ControllerConfig { default_replicas: replicas, ..self.config }),
            r.client == self.client,
    {
        let mut r = self;
        r.config.default_replicas = replicas;
        r
    }

    pub fn requeue_after_secs(self, secs: u64) -> (r: Self)
        ensures
            r.config == (ControllerConfig { requeue_after_secs: secs, ..self.config }),
            r.client == self.client,
    {
        let mut r = self;
        r.config.requeue_after_secs = secs;
        r
    }

    pub fn error_requeue_secs(self, secs: u64) -> (r: Self)
        ensures
            r.config == (ControllerConfig { error_requeue_secs: secs, ..self.config }),
            r.client == self.client,
    {
        let mut r = self;
        r.config.error_requeue_secs = secs;
        r
    }

    pub fn watch_namespace(self, namespace: Option<String>) -> (r: Self)
        ensures
            r.config == (ControllerConfig { watch_namespace: namespace, ..self.config }),
            r.client == self.client,
    {
        let mut r = self;
        r.config.watch_namespace = namespace;
        r
    }

    /// This builder with a client that is there already.
    pub fn with_client(self, client: K) -> (r: Self)
        ensures
            r.config == self.config,
            r.client == Some(client),
    {
        GatewayControllerBuilder { config: self.config, client: Some(client) }
    }

    /// The controller with the client of this builder, or with `made` where it
    /// has none. `None` where there is no client at all.
    pub fn build(self, made: Option<K>) -> (r: Option<GatewayController<K>>)
        ensures
            match r {
                Some(controller) => {
                    &&& controller.shared().config == self.config
                    &&& Some(controller.shared().client) == if self.client is Some {
                        self.client
                    } else {
                        made
                    }
                },
                None => self.client is None && made is None,
            },
    {
        match self.client {
            Some(client) => Some(GatewayController::with_client(client, self.config)),
            None => match made {
                Some(client) => Some(GatewayController::with_client(client, self.config)),
                None => None,
            },
        }
    }
}

// ---------------------------------------------------------------------------
// Laws
// ---------------------------------------------------------------------------

/// The names of two Gateways' resources differ where the Gateways' names do.
pub proof fn law_resource_names_are_distinct(prefix: Seq<char>, a: Seq<char>, b: Seq<char>)
    requires
        a != b,
    ensures
        prefix + a != prefix + b,
{
    if prefix + a == prefix + b {
        assert(a =~= (prefix + a).skip(prefix.len() as int));
        assert(b =~= (prefix + b).skip(prefix.len() as int));
    }
}

/// What the selector of a data plane asks for, its resources have.
pub proof fn law_selector_fits_the_labels(labels: Seq<Label>, gateway_name: Seq<char>)
    requires
        label_views(labels) == labels_for(gateway_name),
    ensures
        label_value(labels, MANAGED_BY_LABEL@) == Some(MANAGED_BY_VALUE@),
        label_value(labels, GATEWAY_NAME_LABEL@) == Some(gateway_name),
{
    reveal_strlit("app.kubernetes.io/managed-by");
    reveal_strlit("gateway.networking.k8s.io/gateway-name");
    assert(MANAGED_BY_LABEL@.len() != GATEWAY_NAME_LABEL@.len());
    assert(labels.len() == 2) by {
        assert(label_views(labels).len() == labels.len());
    }
    assert(label_views(labels)[0] == (labels[0].0@, labels[0].1@));
    assert(label_views(labels)[1] == (labels[1].0@, labels[1].1@));
    assert(labels.skip(1)[0] == labels[1]);
    reveal_with_fuel(label_value, 3);
}

/// The protocols of listeners are HTTP and HTTPS, and no word but these names
/// one.
pub proof fn law_protocols_are_named_by_their_word(word: Seq<char>)
    ensures
        protocol_named(word) == Some(Protocol::Http) <==> word == seq!['H', 'T', 'T', 'P'],
        protocol_named(word) == Some(Protocol::Https) <==> word == seq!['H', 'T', 'T', 'P', 'S'],
{
    reveal_strlit("HTTP");
    reveal_strlit("HTTPS");
    assert("HTTP"@ =~= seq!['H', 'T', 'T', 'P']);
    assert("HTTPS"@ =~= seq!['H', 'T', 'T', 'P', 'S']);
    assert("HTTP"@.len() != "HTTPS"@.len());
}

/// A label is found by its key, the first of that key; where no label has the
/// key nothing is found.
pub proof fn law_labels_are_found_by_their_key(labels: Seq<Label>, key: Seq<char>, i: int)
    ensures
        0 <= i < labels.len() && labels[i].0@ == key && (forall|k: int|
            0 <= k < i ==> (#[trigger] labels[k]).0@ != key) ==> label_value(labels, key) == Some(
            labels[i].1@,
        ),
        (forall|k: int| 0 <= k < labels.len() ==> (#[trigger] labels[k]).0@ != key) ==> label_value(
            labels,
            key,
        ) is None,
    decreases labels.len(),
{
    if labels.len() > 0 && labels[0].0@ != key {
        let rest = labels.skip(1);
        assert(forall|k: int| 0 <= k < rest.len() ==> #[trigger] rest[k] == labels[k + 1]);
        law_labels_are_found_by_their_key(rest, key, i - 1);
        if 0 < i < labels.len() {
            assert(rest[i - 1] == labels[i]);
        }
    }
}

} // verus!
