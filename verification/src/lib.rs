//! Verified core of a local development-stack manager.
//!
//! The library models the three stateful subsystems of the manager — the
//! process supervisor, the host-based reverse proxy and the version-shim
//! manager — together with the pure text transformations the surrounding
//! tooling performs (hosts-file entries, interpreter configuration patching).
//! All operating-system work (spawning, sockets, the file system) is left to
//! the unverified shell around the library, which feeds results back into the
//! decision functions defined here.

pub mod composer;
pub mod database;
pub mod filesystem;
pub mod hosts;
pub mod paths;
pub mod process_manager;
pub mod proxy;
pub mod shim;
pub mod store;
pub mod strutil;
pub mod table;
