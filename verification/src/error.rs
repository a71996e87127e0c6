//! The error taxonomy of the store.

use vstd::prelude::*;

verus! {

/// `std::io::Error`, declared so that it can travel inside [`StoreError::Io`].
/// The value is opaque; it is only carried back to the caller.
#[verifier::external_type_specification]
#[verifier::external_body]
pub struct ExIoError(std::io::Error);

/// `rmp_serde::decode::Error`, declared so that it can travel inside
/// [`StoreError::Decode`]. The value is opaque; it is only carried back to the
/// caller.
#[verifier::external_type_specification]
#[verifier::external_body]
pub struct ExRmpDecodeError(rmp_serde::decode::Error);

/// `rmp_serde::encode::Error`, declared so that it can travel inside
/// [`StoreError::Encode`]. The value is opaque; it is only carried back to the
/// caller.
#[verifier::external_type_specification]
#[verifier::external_body]
pub struct ExRmpEncodeError(rmp_serde::encode::Error);

/// Everything that can go wrong while opening or saving a store.
///
/// Every fallible operation of this crate reports exactly one of these
/// kinds; nothing is retried or swallowed.
#[derive(Debug)]
pub enum StoreError {
    /// An underlying stream failure, surfaced as-is.
    Io(std::io::Error),
    /// The container does not begin with the expected magic identifier:
    /// the bytes are corrupted or belong to a foreign format.
    InvalidFile,
    /// The magic identifier matched but the version tag differs from the
    /// single version this build understands. No migration is attempted.
    WrongVersion { expected: u16, actual: u16 },
    /// The structured codec could not reconstruct the document.
    Decode(rmp_serde::decode::Error),
    /// The structured codec could not produce the document bytes.
    Encode(rmp_serde::encode::Error),
}

} // verus!
