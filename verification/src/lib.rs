//! The logic of a server that offers herdr, a terminal multiplexer for agents, as tools.
//!
//! herdr's daemon owns all state and answers requests on a Unix socket. This library decides
//! which tools are offered, what each takes, which calls are let through, what is sent to the
//! daemon for them and what its answers come to. It opens no socket and reads no environment:
//! settings, paths and lines go in and out as plain values.

pub mod json;
pub mod text;
pub mod ordered;
pub mod yaml;
pub mod contract;
pub mod bundled;
pub mod manifest;
pub mod schema;
pub mod config;
pub mod herdr;
pub mod server;
pub mod version;
pub mod laws;
