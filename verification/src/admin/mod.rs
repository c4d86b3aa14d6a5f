//! The admin server keeps the registry of agents and proxies, its users and
//! their sessions, and an audit log; these modules hold its rules.
pub mod models;
pub mod users;
pub mod auth;
pub mod config;
pub mod audit;
pub mod registry;
pub mod client;
pub mod overview;
pub mod routes;
