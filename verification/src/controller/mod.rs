//! The control plane: reconciling Gateway API resources.
//!
//! A GatewayClass is accepted or not, each Gateway gets a data plane of its
//! own, and each HTTPRoute becomes a part of the configuration of the Gateways
//! that accept it. The configuration reaches the data plane in a ConfigMap.

pub mod api;
pub mod attachment;
pub mod config;
pub mod error;
pub mod gateway;
pub mod httproute;
pub mod parent;
