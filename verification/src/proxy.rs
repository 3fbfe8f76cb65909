//! The error type for the proxy's listening socket.
//!
//! The listener itself owns an operating-system socket and lives outside
//! this core; it reports its failures with this type.

use vstd::prelude::*;

verus! {

/// Declares the standard library's I/O error type, so that proxy errors can
/// carry the originating OS error for diagnostics. Relies on
/// `std::io::Error` as an opaque value only; nothing is assumed about it.
#[verifier::external_type_specification]
#[verifier::external_body]
pub struct ExIoError(std::io::Error);

/// An error that may occur while creating or using the proxy's listening
/// socket. Bind and accept failures wrap the originating OS error; the TTL
/// accessors discard it.
#[derive(Debug)]
pub enum ProxyError {
    CouldNotSetTTL,
    CouldNotGetTTL,
    CouldNotBindPort(std::io::Error),
    ConnectionError(std::io::Error),
}

} // verus!
