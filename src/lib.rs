//! A namespaced key/value registry: owner-scoped store keys, cursor-driven enumeration,
//! and the bulk operations purge, dump and restore built on it.

pub mod api;
pub mod auth;
pub mod bulk;
pub mod json;
pub mod keys;
pub mod laws;
pub mod local;
pub mod memstore;
pub mod registry;
pub mod scan;
pub mod text;
