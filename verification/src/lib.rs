//! Runtime engine of a two-sided service gateway on a federated mesh.
//!
//! An *inway* terminates mesh traffic and forwards it to internal backends;
//! an *outway* accepts local requests and forwards them to the inway of
//! another organization. This crate holds the decisions both roles make:
//! how configuration snapshots are built, hashed and published, how the
//! routing tables are derived from them, how a request is prepared for the
//! upstream, and when a failed attempt is retried.

pub mod backoff;
pub mod config_poller;
pub mod digest;
pub mod inway;
pub mod outway;
pub mod path;
pub mod poller;
pub mod reverse_proxy;
pub mod text;
pub mod text_map;
pub mod tls;
