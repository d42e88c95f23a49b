//! Remote-management agent library: secure transport and chunked
//! file-transfer subsystem.
//!
//! The crate models the protocol layer of a small remote-management
//! daemon: files are compressed, hashed, split into bounded-size chunks,
//! transmitted independently, and reassembled exactly once on the
//! receiving side with content-hash verification and duplicate-chunk
//! detection.  The surrounding pieces — message types, the in-flight
//! transfer registry, certificate pinning, and the planning logic of the
//! operator tooling — live here with proved contracts; the network,
//! filesystem and subprocess edges stay outside.

pub mod agent;
pub mod assets;
pub mod compile;
pub mod compress;
pub mod hashing;
pub mod messages;
pub mod pkg_manager;
pub mod registry;
pub mod tls;
