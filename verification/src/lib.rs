//! A split-horizon DNS forwarding resolver, as a verified library.
//!
//! The library holds the request-dispatch pipeline: the per-query decision
//! tree, the answer cache with deadline-bounded entries, the CIDR containment
//! test, and the upstream registry with exact and wildcard match. The socket
//! loop and the upstream clients live outside and drive it through the
//! handler's step functions.

pub mod cache;
pub mod cidr;
pub mod config;
pub mod dns;
pub mod handler;
pub mod names;
pub mod registry;
