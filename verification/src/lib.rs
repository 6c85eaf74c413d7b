//! A Kubernetes Gateway API implementation: the rules of the control plane
//! and of the data plane, stated and proved.

pub mod cli;
pub mod config;
pub mod controller;
pub mod filter;
pub mod headers;
pub mod pipeline;
pub mod routing;
pub mod server;
pub mod text;
pub mod tls;
pub mod transport;
pub mod uri;
