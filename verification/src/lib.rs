//! A disk-persistable key-value map.
//!
//! A [`Store`] is an in-memory associative container that can be serialized
//! into a single versioned, compressed container file and later reloaded into
//! an equivalent map. The container layout is a fixed magic identifier, a
//! two-byte little-endian version tag, and a compressed, structured-encoded
//! document of key/value records. Reading and writing the actual file is left
//! to the embedding application; this crate produces and consumes the
//! container bytes and owns the format checks.

pub mod error;
pub mod format;
pub mod store;

pub use store::Store;
