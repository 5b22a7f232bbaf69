//! Core logic of a gated repository of mod archives: naming of stored
//! objects, content digests, the published manifest, the listing, the chunked
//! upload protocol and the session check.

pub mod auth;
pub mod config;
pub mod error;
pub mod hasher;
pub mod history;
pub mod listing;
pub mod manifest;
pub mod middleware;
pub mod naming;
pub mod reindex;
pub mod session;
pub mod store;
pub mod text;
pub mod types;
pub mod upload;
