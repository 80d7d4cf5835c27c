//! Core of an HTTP-to-HTTP request forwarder guarded by an allowed-path
//! table: route patterns are matched against incoming paths, permitted
//! requests are rewritten onto a target host with service-credential
//! headers attached, and upstream responses are translated back.

pub mod config;
pub mod converter;
pub mod data;
pub mod error;
pub mod redirect;
pub mod server;
