//! The command line: its commands and what they stand for.

use vstd::prelude::*;

use crate::controller::config::GatewayControllerBuilder;
use crate::text::join2;

verus! {

/// How logs are written.
#[derive(Debug, Clone, Copy, PartialEq, Eq, Structural)]
pub enum LogFormat {
    Text,
    JSON,
}

impl Default for LogFormat {
    fn default() -> (r: Self)
        ensures
            r == LogFormat::Text,
    {
        LogFormat::Text
    }
}

/// How much is logged.
#[derive(Debug, Clone, Copy, PartialEq, Eq, Structural)]
pub enum LogLevel {
    Off,
    Error,
    Warn,
    Info,
    Debug,
    Trace,
}

impl Default for LogLevel {
    fn default() -> (r: Self)
        ensures
            r == LogLevel::Info,
    {
        LogLevel::Info
    }
}

/// Whether output is coloured.
#[derive(Debug, Clone, Copy, PartialEq, Eq, Structural)]
pub enum EnableColors {
    Auto,
    Always,
    Never,
}

impl Default for EnableColors {
    fn default() -> (r: Self)
        ensures
            r == EnableColors::Auto,
    {
        EnableColors::Auto
    }
}

/// A command line.
#[derive(Debug, Clone, Copy, PartialEq, Eq, Structural)]
pub struct Cli {
    pub log_level: LogLevel,
    pub log_format: LogFormat,
    pub enable_colors: EnableColors,
    pub cmd: Option<CliCommand>,
}

/// A command.
#[derive(Debug, Clone, Copy, PartialEq, Eq, Structural)]
pub enum CliCommand {
    /// Print the version.
    Version,
    /// Run the data plane.
    Gateway,
    /// Run the control plane.
    Controller,
}

/// What a command stands for.
pub enum CliAction {
    Version(Version),
    Gateway(Gateway),
    Controller(Controller),
}

impl CliCommand {
    /// What the command stands for, with the default settings.
    pub fn dispatch(self) -> (r: CliAction)
        ensures
            match self {
                CliCommand::Version => r is Version,
                CliCommand::Gateway => r matches CliAction::Gateway(g) && g.is_default(),
                CliCommand::Controller => r matches CliAction::Controller(c) && c.is_default(),
            },
    {
        match self {
            CliCommand::Version => CliAction::Version(Version::new()),
            CliCommand::Gateway => CliAction::Gateway(Gateway::new()),
            CliCommand::Controller => CliAction::Controller(Controller::new()),
        }
    }
}

/// The command that prints the version.
#[derive(Debug, Clone, Copy, PartialEq, Eq, Structural)]
pub struct Version;

impl Version {
    pub fn new() -> (r: Self)
        ensures
            r == Version,
    {
        Version
    }
}

/// What the command that runs the data plane says of it.
pub const DATA_PLANE_NOTICE: &'static str =
    "This is a placeholder - the Pingora data plane will be implemented in the dataplane crate";

/// The command that runs the data plane.
#[derive(Debug)]
pub struct Gateway {
    /// Path of the configuration file.
    pub config_path: String,
    /// Name of the Gateway, for the logs.
    pub gateway_name: Option<String>,
    /// Namespace of the Gateway, for the logs.
    pub gateway_namespace: Option<String>,
}

impl Gateway {
    /// Whether this is the command with its default settings.
    pub open spec fn is_default(self) -> bool {
        &&& self.config_path@ == "/config/config.json"@
        &&& self.gateway_name is None
        &&& self.gateway_namespace is None
    }

    pub fn new() -> (r: Self)
        ensures
            r.is_default(),
    {
        Gateway {
            config_path: "/config/config.json".to_string(),
            gateway_name: None,
            gateway_namespace: None,
        }
    }

    /// The first line that the command prints when it starts.
    pub fn banner(&self) -> (r: String)
        ensures
            r@ == "Gateway data plane starting with config: "@ + self.config_path@,
    {
        join2("Gateway data plane starting with config: ", self.config_path.as_str())
    }

    /// The second line that the command prints when it starts.
    pub fn notice(&self) -> (r: String)
        ensures
            r@ == DATA_PLANE_NOTICE@,
    {
        DATA_PLANE_NOTICE.to_string()
    }
}

impl Default for Gateway {
    fn default() -> (r: Self)
        ensures
            r.is_default(),
    {
        Gateway::new()
    }
}

/// The command that runs the control plane.
#[derive(Debug)]
pub struct Controller {
    /// Image of the data plane.
    pub dataplane_image: Option<String>,
    /// Replicas of a data plane.
    pub replicas: Option<i32>,
    /// Namespace to watch, or all where there is none.
    pub namespace: Option<String>,
}

impl Controller {
    /// Whether this is the command with its default settings.
    pub open spec fn is_default(self) -> bool {
        &&& self.dataplane_image is None
        &&& self.replicas is None
        &&& self.namespace is None
    }

    pub fn new() -> (r: Self)
        ensures
            r.is_default(),
    {
        Controller { dataplane_image: None, replicas: None, namespace: None }
    }

    /// The builder with the settings of this command: what the command leaves
    /// out stays as it is by default.
    pub fn builder<K>(self) -> (r: GatewayControllerBuilder<K>)
        ensures
            r.client is None,
            r.config.dataplane_image@ == match self.dataplane_image {
                Some(image) => image@,
                None => "ghcr.io/wack/multiway-dataplane:latest"@,
            },
            r.config.default_replicas == match self.replicas {
                Some(n) => n,
                None => 1,
            },
            r.config.watch_namespace == self.namespace,
            r.config.requeue_after_secs == 300,
            r.config.error_requeue_secs == 60,
            r.config.image_pull_policy@ == "IfNotPresent"@,
            r.config.resource_requests.cpu@ == "100m"@,
            r.config.resource_requests.memory@ == "128Mi"@,
            r.config.resource_limits.cpu@ == "500m"@,
            r.config.resource_limits.memory@ == "256Mi"@,
    {
        let mut builder = GatewayControllerBuilder::new();
        if let Some(image) = self.dataplane_image {
            builder = builder.dataplane_image(image.as_str());
        }
        if let Some(replicas) = self.replicas {
            builder = builder.default_replicas(replicas);
        }
        if let Some(ns) = self.namespace {
            builder = builder.watch_namespace(Some(ns));
        }
        builder
    }
}

impl Default for Controller {
    fn default() -> (r: Self)
        ensures
            r.is_default(),
    {
        Controller::new()
    }
}

} // verus!
