//! Verified core of a small encryption service: the key-lifecycle manager and
//! the request/response framing protocol. Encryption itself is delegated to an
//! external homomorphic-encryption library behind trusted wrappers.

use vstd::prelude::*;

pub mod bytes;
pub mod fhe;
pub mod handler;
pub mod keys;
pub mod wire;

verus! {

/// The fixed number of plaintext fields in one encrypt request.
pub const FIELD_COUNT: usize = 6;

/// Everything that can go wrong while serving one connection. Every error is
/// local to the connection that hit it.
#[derive(Debug, Clone, Copy, PartialEq, Eq, Structural)]
pub enum ServiceError {
    /// A read or write on the connection failed.
    ConnectionIo,
    /// The four-byte operation tag is neither of the recognized values.
    InvalidOperation,
    /// A persisted key file is present but unreadable or corrupt.
    KeyIo,
    /// A fresh key pair could not be generated under the configured
    /// parameters.
    KeyGen,
    /// A ciphertext blob is malformed, or a response batch cannot be framed.
    Serialization,
}

} // verus!
