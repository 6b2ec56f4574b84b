//! A reverse tunnel that exposes local services through a proxy in the cloud: what
//! its two ends decide, with the proofs that they decide it right.
//!
//! The client dials the proxy and registers the subdomains of its services. The
//! proxy sends each HTTP request for one of them through the tunnel, the client
//! calls the local service, and the response goes back the same way. The programs
//! around this library do the input and output; what to do next, they ask here.

pub mod backoff;
pub mod body;
pub mod client;
pub mod config;
pub mod exchange;
pub mod journey;
pub mod laws;
pub mod message;
pub mod reading;
pub mod registry;
pub mod reply;
pub mod routing;
pub mod service;
pub mod session;
pub mod startup;
pub mod table;
pub mod text;
pub mod tunnel;
pub mod views;
pub mod web;

pub use message::{ClientMsg, ProxyMsg, ServiceDef};
pub use service::parse_service;
