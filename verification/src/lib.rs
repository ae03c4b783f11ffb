//! Sandboxed procedure runtime for package scripts: a volume map with
//! read-only enforcement, a path-containment policy, a registry of directory
//! sync tasks, the host capabilities ("ops") exposed to scripts, the module
//! loading policy, and the caller-facing procedure driver.
//!
//! Filesystem, network, and process work is carried out by an embedding
//! program; this crate holds the decisions: which paths are inside a volume,
//! which ops a read-only or sandboxed context admits, what every op returns,
//! and how script answers and host faults map to the caller's result type.

pub mod auth;
pub mod context;
pub mod dns;
pub mod driver;
pub mod effects;
pub mod error;
pub mod hashing;
pub mod json;
pub mod modules;
pub mod ops;
pub mod paths;
pub mod registry;
pub mod routes;
pub mod text;
pub mod tor;
pub mod volumes;
