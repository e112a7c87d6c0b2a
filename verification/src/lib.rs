//! Client-side logic for a firmware-update daemon spoken to over a message
//! bus: resolving where a firmware payload lives, verifying downloaded bytes
//! against published checksums, assembling installation requests, and
//! filtering the daemon's signal stream into typed events.
//!
//! All bus, network and filesystem I/O lives outside this crate; the types
//! here work on plain values handed in by the embedding application.

pub mod bytes;
pub mod checksum;
pub mod device;
pub mod error;
pub mod flags;
pub mod install;
pub mod release;
pub mod remote;
pub mod signal;
pub mod status;
pub mod update;

pub use error::Error;
pub use flags::InstallFlags;
pub use status::Status;
