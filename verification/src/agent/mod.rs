//! The agent runs services on one machine; these modules hold its service
//! model, its process decisions, its artifact store and its API rules.
pub mod models;
pub mod process;
pub mod launch;
pub mod stop;
pub mod procs;
pub mod logs;
pub mod catalog;
pub mod artifacts;
pub mod routes;
