//! The proxy relays Admin's calls to agents it knows by id; these modules
//! hold its configuration, its upstream registry and its forwarding rules.
pub mod config;

pub mod store;
pub mod forward;
pub mod routes;
