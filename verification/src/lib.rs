//! Core logic of a small HTTP file server: URI-to-path resolution with
//! containment under a configured root, Basic-auth checking, directory
//! listing order, recursive-search matching, index-page rendering, and
//! the per-request routing decisions.
//!
//! All I/O (network, filesystem, streaming) lives outside this crate; the
//! functions here compute decisions and buffered payloads from plain values.

pub mod bytes;
pub mod pct;
pub mod resolve;
pub mod listing;
pub mod auth;
pub mod search;
pub mod json;
pub mod render;
pub mod args;
pub mod server;
