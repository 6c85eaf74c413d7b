//! Errors of the control plane.

use vstd::prelude::*;

use crate::text::{join2, join3, join5};

verus! {

/// What can go wrong in the control plane.
#[derive(Debug, PartialEq)]
pub enum ControllerError {
    /// The Kubernetes API failed.
    KubernetesError(String),
    /// JSON could not be read or written.
    JsonError(String),
    /// There is no such GatewayClass.
    GatewayClassNotFound { name: String },
    /// The GatewayClass is not one of this controller.
    GatewayClassNotAccepted { name: String },
    /// There is no such Gateway.
    GatewayNotFound { namespace: String, name: String },
    /// The Gateway is not valid.
    InvalidGatewayConfig { message: String },
    /// The HTTPRoute is not valid.
    InvalidHttpRouteConfig { message: String },
    /// There is no such Service.
    BackendNotFound { namespace: String, name: String },
    /// A reference to another namespace is not granted.
    ReferenceGrantRequired { from_namespace: String, to_namespace: String, to_name: String },
    /// The protocol of a listener is not supported.
    UnsupportedProtocol { protocol: String },
    /// The TLS settings are not valid.
    TlsConfigError { message: String },
    /// There is no such Secret.
    SecretNotFound { namespace: String, name: String },
    /// The Secret does not hold what it should.
    InvalidSecretFormat { namespace: String, name: String, message: String },
    /// Two resources are in conflict.
    ResourceConflict { message: String },
    /// Something else went wrong.
    InternalError { message: String },
    /// The configuration could not be read.
    ConfigParseError { message: String },
}

impl ControllerError {
    /// The error in words.
    pub open spec fn message_text(self) -> Seq<char> {
        match self {
            ControllerError::KubernetesError(e) => "Kubernetes API error: "@ + e@,
            ControllerError::JsonError(e) => "JSON serialization error: "@ + e@,
            ControllerError::GatewayClassNotFound { name } => "GatewayClass '"@ + name@
                + "' not found"@,
            ControllerError::GatewayClassNotAccepted { name } => "GatewayClass '"@ + name@
                + "' is not accepted by this controller"@,
            ControllerError::GatewayNotFound { namespace, name } => "Gateway '"@ + namespace@ + "/"@
                + name@ + "' not found"@,
            ControllerError::InvalidGatewayConfig { message } => "Invalid Gateway configuration: "@
                + message@,
            ControllerError::InvalidHttpRouteConfig { message } =>
                "Invalid HTTPRoute configuration: "@ + message@,
            ControllerError::BackendNotFound { namespace, name } => "Backend service '"@ + namespace@
                + "/"@ + name@ + "' not found"@,
            ControllerError::ReferenceGrantRequired { from_namespace, to_namespace, to_name } =>
                "Cross-namespace reference from "@ + from_namespace@ + " to "@ + to_namespace@
                + "/"@ + to_name@ + " requires a ReferenceGrant"@,
            ControllerError::UnsupportedProtocol { protocol } => "Listener protocol '"@ + protocol@
                + "' is not supported"@,
            ControllerError::TlsConfigError { message } => "TLS configuration error: "@ + message@,
            ControllerError::SecretNotFound { namespace, name } => "Secret '"@ + namespace@ + "/"@
                + name@ + "' not found"@,
            ControllerError::InvalidSecretFormat { namespace, name, message } => "Secret '"@
                + namespace@ + "/"@ + name@ + "' has invalid format: "@ + message@,
            ControllerError::ResourceConflict { message } => "Resource conflict: "@ + message@,
            ControllerError::InternalError { message } => "Internal error: "@ + message@,
            ControllerError::ConfigParseError { message } => "Configuration parsing error: "@
                + message@,
        }
    }

    /// The error in words.
    pub fn message(&self) -> (r: String)
        ensures
            r@ == self.message_text(),
    {
        match self {
            ControllerError::KubernetesError(e) => join2("Kubernetes API error: ", e.as_str()),
            ControllerError::JsonError(e) => join2("JSON serialization error: ", e.as_str()),
            ControllerError::GatewayClassNotFound { name } => join3(
                "GatewayClass '",
                name.as_str(),
                "' not found",
            ),
            ControllerError::GatewayClassNotAccepted { name } => join3(
                "GatewayClass '",
                name.as_str(),
                "' is not accepted by this controller",
            ),
            ControllerError::GatewayNotFound { namespace, name } => join5(
                "Gateway '",
                namespace.as_str(),
                "/",
                name.as_str(),
                "' not found",
            ),
            ControllerError::InvalidGatewayConfig { message } => join2(
                "Invalid Gateway configuration: ",
                message.as_str(),
            ),
            ControllerError::InvalidHttpRouteConfig { message } => join2(
                "Invalid HTTPRoute configuration: ",
                message.as_str(),
            ),
            ControllerError::BackendNotFound { namespace, name } => join5(
                "Backend service '",
                namespace.as_str(),
                "/",
                name.as_str(),
                "' not found",
            ),
            ControllerError::ReferenceGrantRequired { from_namespace, to_namespace, to_name } => {
                let mut r = join5(
                    "Cross-namespace reference from ",
                    from_namespace.as_str(),
                    " to ",
                    to_namespace.as_str(),
                    "/",
                );
                r.append(to_name.as_str());
                r.append(" requires a ReferenceGrant");
                r
            },
            ControllerError::UnsupportedProtocol { protocol } => join3(
                "Listener protocol '",
                protocol.as_str(),
                "' is not supported",
            ),
            ControllerError::TlsConfigError { message } => join2(
                "TLS configuration error: ",
                message.as_str(),
            ),
            ControllerError::SecretNotFound { namespace, name } => join5(
                "Secret '",
                namespace.as_str(),
                "/",
                name.as_str(),
                "' not found",
            ),
            ControllerError::InvalidSecretFormat { namespace, name, message } => {
                let mut r = join5(
                    "Secret '",
                    namespace.as_str(),
                    "/",
                    name.as_str(),
                    "' has invalid format: ",
                );
                r.append(message.as_str());
                r
            },
            ControllerError::ResourceConflict { message } => join2(
                "Resource conflict: ",
                message.as_str(),
            ),
            ControllerError::InternalError { message } => join2(
                "Internal error: ",
                message.as_str(),
            ),
            ControllerError::ConfigParseError { message } => join2(
                "Configuration parsing error: ",
                message.as_str(),
            ),
        }
    }

    /// The code of the error in reports.
    pub open spec fn code_text(self) -> Seq<char> {
        match self {
            ControllerError::KubernetesError(_) => "multiway::kubernetes_error"@,
            ControllerError::JsonError(_) => "multiway::json_error"@,
            ControllerError::GatewayClassNotFound { .. } => "multiway::gateway_class_not_found"@,
            ControllerError::GatewayClassNotAccepted { .. } =>
                "multiway::gateway_class_not_accepted"@,
            ControllerError::GatewayNotFound { .. } => "multiway::gateway_not_found"@,
            ControllerError::InvalidGatewayConfig { .. } => "multiway::invalid_gateway_config"@,
            ControllerError::InvalidHttpRouteConfig { .. } => "multiway::invalid_httproute_config"@,
            ControllerError::BackendNotFound { .. } => "multiway::backend_not_found"@,
            ControllerError::ReferenceGrantRequired { .. } => "multiway::reference_grant_required"@,
            ControllerError::UnsupportedProtocol { .. } => "multiway::unsupported_protocol"@,
            ControllerError::TlsConfigError { .. } => "multiway::tls_config_error"@,
            ControllerError::SecretNotFound { .. } => "multiway::secret_not_found"@,
            ControllerError::InvalidSecretFormat { .. } => "multiway::invalid_secret_format"@,
            ControllerError::ResourceConflict { .. } => "multiway::resource_conflict"@,
            ControllerError::InternalError { .. } => "multiway::internal_error"@,
            ControllerError::ConfigParseError { .. } => "multiway::config_parse_error"@,
        }
    }

    /// The code of the error in reports.
    pub fn code(&self) -> (r: &'static str)
        ensures
            r@ == self.code_text(),
    {
        match self {
            ControllerError::KubernetesError(_) => "multiway::kubernetes_error",
            ControllerError::JsonError(_) => "multiway::json_error",
            ControllerError::GatewayClassNotFound { .. } => "multiway::gateway_class_not_found",
            ControllerError::GatewayClassNotAccepted { .. } =>
                "multiway::gateway_class_not_accepted",
            ControllerError::GatewayNotFound { .. } => "multiway::gateway_not_found",
            ControllerError::InvalidGatewayConfig { .. } => "multiway::invalid_gateway_config",
            ControllerError::InvalidHttpRouteConfig { .. } => "multiway::invalid_httproute_config",
            ControllerError::BackendNotFound { .. } => "multiway::backend_not_found",
            ControllerError::ReferenceGrantRequired { .. } => "multiway::reference_grant_required",
            ControllerError::UnsupportedProtocol { .. } => "multiway::unsupported_protocol",
            ControllerError::TlsConfigError { .. } => "multiway::tls_config_error",
            ControllerError::SecretNotFound { .. } => "multiway::secret_not_found",
            ControllerError::InvalidSecretFormat { .. } => "multiway::invalid_secret_format",
            ControllerError::ResourceConflict { .. } => "multiway::resource_conflict",
            ControllerError::InternalError { .. } => "multiway::internal_error",
            ControllerError::ConfigParseError { .. } => "multiway::config_parse_error",
        }
    }

    /// What a report advises, where it advises something.
    pub open spec fn help_text(self) -> Option<Seq<char>> {
        match self {
            ControllerError::GatewayClassNotFound { .. } => Some(
                "Ensure the GatewayClass resource exists and is spelled correctly"@,
            ),
            ControllerError::GatewayClassNotAccepted { .. } => Some(
                "Check that the GatewayClass has controllerName: io.multiway/gateway-controller"@,
            ),
            ControllerError::BackendNotFound { .. } => Some(
                "Ensure the backend Service exists in the specified namespace"@,
            ),
            ControllerError::ReferenceGrantRequired { .. } => Some(
                "Create a ReferenceGrant in the target namespace to allow this reference"@,
            ),
            ControllerError::UnsupportedProtocol { .. } => Some("Supported protocols: HTTP, HTTPS"@),
            _ => None,
        }
    }

    /// What a report advises, where it advises something.
    pub fn help(&self) -> (r: Option<&'static str>)
        ensures
            crate::text::opt(r) == self.help_text(),
    {
        match self {
            ControllerError::GatewayClassNotFound { .. } => Some(
                "Ensure the GatewayClass resource exists and is spelled correctly",
            ),
            ControllerError::GatewayClassNotAccepted { .. } => Some(
                "Check that the GatewayClass has controllerName: io.multiway/gateway-controller",
            ),
            ControllerError::BackendNotFound { .. } => Some(
                "Ensure the backend Service exists in the specified namespace",
            ),
            ControllerError::ReferenceGrantRequired { .. } => Some(
                "Create a ReferenceGrant in the target namespace to allow this reference",
            ),
            ControllerError::UnsupportedProtocol { .. } => Some("Supported protocols: HTTP, HTTPS"),
            _ => None,
        }
    }

    pub fn gateway_class_not_found(name: &str) -> (r: Self)
        ensures
            r matches ControllerError::GatewayClassNotFound { name: n } && n@ == name@,
    {
        ControllerError::GatewayClassNotFound { name: name.to_string() }
    }

    pub fn gateway_class_not_accepted(name: &str) -> (r: Self)
        ensures
            r matches ControllerError::GatewayClassNotAccepted { name: n } && n@ == name@,
    {
        ControllerError::GatewayClassNotAccepted { name: name.to_string() }
    }

    pub fn gateway_not_found(namespace: &str, name: &str) -> (r: Self)
        ensures
            r matches ControllerError::GatewayNotFound { namespace: ns, name: n } && ns@
                == namespace@ && n@ == name@,
    {
        ControllerError::GatewayNotFound {
            namespace: namespace.to_string(),
            name: name.to_string(),
        }
    }

    pub fn invalid_gateway_config(message: &str) -> (r: Self)
        ensures
            r matches ControllerError::InvalidGatewayConfig { message: m } && m@ == message@,
    {
        ControllerError::InvalidGatewayConfig { message: message.to_string() }
    }

    pub fn invalid_httproute_config(message: &str) -> (r: Self)
        ensures
            r matches ControllerError::InvalidHttpRouteConfig { message: m } && m@ == message@,
    {
        ControllerError::InvalidHttpRouteConfig { message: message.to_string() }
    }

    pub fn backend_not_found(namespace: &str, name: &str) -> (r: Self)
        ensures
            r matches ControllerError::BackendNotFound { namespace: ns, name: n } && ns@
                == namespace@ && n@ == name@,
    {
        ControllerError::BackendNotFound {
            namespace: namespace.to_string(),
            name: name.to_string(),
        }
    }

    pub fn reference_grant_required(from_namespace: &str, to_namespace: &str, to_name: &str) -> (r:
        Self)
        ensures
            r matches ControllerError::ReferenceGrantRequired {
                from_namespace: f,
                to_namespace: t,
                to_name: n,
            } && f@ == from_namespace@ && t@ == to_namespace@ && n@ == to_name@,
    {
        ControllerError::ReferenceGrantRequired {
            from_namespace: from_namespace.to_string(),
            to_namespace: to_namespace.to_string(),
            to_name: to_name.to_string(),
        }
    }

    pub fn unsupported_protocol(protocol: &str) -> (r: Self)
        ensures
            r matches ControllerError::UnsupportedProtocol { protocol: p } && p@ == protocol@,
    {
        ControllerError::UnsupportedProtocol { protocol: protocol.to_string() }
    }

    pub fn tls_config_error(message: &str) -> (r: Self)
        ensures
            r matches ControllerError::TlsConfigError { message: m } && m@ == message@,
    {
        ControllerError::TlsConfigError { message: message.to_string() }
    }

    pub fn secret_not_found(namespace: &str, name: &str) -> (r: Self)
        ensures
            r matches ControllerError::SecretNotFound { namespace: ns, name: n } && ns@
                == namespace@ && n@ == name@,
    {
        ControllerError::SecretNotFound {
            namespace: namespace.to_string(),
            name: name.to_string(),
        }
    }

    pub fn invalid_secret_format(namespace: &str, name: &str, message: &str) -> (r: Self)
        ensures
            r matches ControllerError::InvalidSecretFormat { namespace: ns, name: n, message: m }
                && ns@ == namespace@ && n@ == name@ && m@ == message@,
    {
        ControllerError::InvalidSecretFormat {
            namespace: namespace.to_string(),
            name: name.to_string(),
            message: message.to_string(),
        }
    }

    pub fn resource_conflict(message: &str) -> (r: Self)
        ensures
            r matches ControllerError::ResourceConflict { message: m } && m@ == message@,
    {
        ControllerError::ResourceConflict { message: message.to_string() }
    }

    pub fn internal_error(message: &str) -> (r: Self)
        ensures
            r matches ControllerError::InternalError { message: m } && m@ == message@,
    {
        ControllerError::InternalError { message: message.to_string() }
    }
}

// ---------------------------------------------------------------------------
// Laws
// ---------------------------------------------------------------------------

/// An error on a resource names the resource, by namespace and name where it has
/// both, and says what is wrong with it.
pub proof fn law_errors_name_their_resource(namespace: String, name: String, message: String)
    ensures
        (ControllerError::GatewayClassNotFound { name }).message_text() == "GatewayClass '"@ + name@
            + "' not found"@,
        (ControllerError::GatewayClassNotAccepted { name }).message_text() == "GatewayClass '"@
            + name@ + "' is not accepted by this controller"@,
        (ControllerError::GatewayNotFound { namespace, name }).message_text() == "Gateway '"@
            + namespace@ + "/"@ + name@ + "' not found"@,
        (ControllerError::BackendNotFound { namespace, name }).message_text()
            == "Backend service '"@ + namespace@ + "/"@ + name@ + "' not found"@,
        (ControllerError::SecretNotFound { namespace, name }).message_text() == "Secret '"@
            + namespace@ + "/"@ + name@ + "' not found"@,
        (ControllerError::InvalidSecretFormat { namespace, name, message }).message_text()
            == "Secret '"@ + namespace@ + "/"@ + name@ + "' has invalid format: "@ + message@,
        (ControllerError::ReferenceGrantRequired {
            from_namespace: namespace,
            to_namespace: name,
            to_name: message,
        }).message_text() == "Cross-namespace reference from "@ + namespace@ + " to "@ + name@
            + "/"@ + message@ + " requires a ReferenceGrant"@,
        (ControllerError::UnsupportedProtocol { protocol: name }).message_text()
            == "Listener protocol '"@ + name@ + "' is not supported"@,
{
}

/// An error with a message of its own says of what kind it is, and then the
/// message.
pub proof fn law_errors_end_with_their_message(message: String)
    ensures
        ControllerError::KubernetesError(message).message_text() == "Kubernetes API error: "@
            + message@,
        ControllerError::JsonError(message).message_text() == "JSON serialization error: "@
            + message@,
        (ControllerError::InvalidGatewayConfig { message }).message_text()
            == "Invalid Gateway configuration: "@ + message@,
        (ControllerError::InvalidHttpRouteConfig { message }).message_text()
            == "Invalid HTTPRoute configuration: "@ + message@,
        (ControllerError::TlsConfigError { message }).message_text() == "TLS configuration error: "@
            + message@,
        (ControllerError::ResourceConflict { message }).message_text() == "Resource conflict: "@
            + message@,
        (ControllerError::InternalError { message }).message_text() == "Internal error: "@
            + message@,
        (ControllerError::ConfigParseError { message }).message_text()
            == "Configuration parsing error: "@ + message@,
{
}

/// Help is given for the errors that the user can mend, each its own, and for no
/// others; and every error has its own code.
pub proof fn law_errors_have_their_code_and_help(e: ControllerError)
    ensures
        e.help_text() is Some <==> e is GatewayClassNotFound || e is GatewayClassNotAccepted
            || e is BackendNotFound || e is ReferenceGrantRequired || e is UnsupportedProtocol,
        e is GatewayClassNotFound ==> e.help_text() == Some(
            "Ensure the GatewayClass resource exists and is spelled correctly"@,
        ),
        e is GatewayClassNotAccepted ==> e.help_text() == Some(
            "Check that the GatewayClass has controllerName: io.multiway/gateway-controller"@,
        ),
        e is BackendNotFound ==> e.help_text() == Some(
            "Ensure the backend Service exists in the specified namespace"@,
        ),
        e is ReferenceGrantRequired ==> e.help_text() == Some(
            "Create a ReferenceGrant in the target namespace to allow this reference"@,
        ),
        e is UnsupportedProtocol ==> e.help_text() == Some("Supported protocols: HTTP, HTTPS"@),
        e is KubernetesError ==> e.code_text() == "multiway::kubernetes_error"@,
        e is JsonError ==> e.code_text() == "multiway::json_error"@,
        e is GatewayClassNotFound ==> e.code_text() == "multiway::gateway_class_not_found"@,
        e is GatewayClassNotAccepted ==> e.code_text() == "multiway::gateway_class_not_accepted"@,
        e is GatewayNotFound ==> e.code_text() == "multiway::gateway_not_found"@,
        e is InvalidGatewayConfig ==> e.code_text() == "multiway::invalid_gateway_config"@,
        e is InvalidHttpRouteConfig ==> e.code_text() == "multiway::invalid_httproute_config"@,
        e is BackendNotFound ==> e.code_text() == "multiway::backend_not_found"@,
        e is ReferenceGrantRequired ==> e.code_text() == "multiway::reference_grant_required"@,
        e is UnsupportedProtocol ==> e.code_text() == "multiway::unsupported_protocol"@,
        e is TlsConfigError ==> e.code_text() == "multiway::tls_config_error"@,
        e is SecretNotFound ==> e.code_text() == "multiway::secret_not_found"@,
        e is InvalidSecretFormat ==> e.code_text() == "multiway::invalid_secret_format"@,
        e is ResourceConflict ==> e.code_text() == "multiway::resource_conflict"@,
        e is InternalError ==> e.code_text() == "multiway::internal_error"@,
        e is ConfigParseError ==> e.code_text() == "multiway::config_parse_error"@,
{
}

} // verus!
