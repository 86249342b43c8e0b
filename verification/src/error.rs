//! The closed error taxonomy of the probe.
//!
//! Configuration errors (bad address, bad protocol, sample cap) abort a
//! run before any network activity; transport errors are per-sample and
//! carry the originating low-level message as plain text, independent of
//! any I/O or TLS library's own error type.

use vstd::prelude::*;

verus! {

/// Errors that can occur while splitting a `host:port` address string.
#[derive(Debug)]
pub enum ParseUrlError {
    EmptyHost,
    EmptyPort,
    InvalidHost(String),
    InvalidPort(String),
}

/// An error occurred while preparing or performing a probe run.
#[derive(Debug)]
pub enum Error {
    /// The given `host:port` address string is invalid.
    URL(ParseUrlError),
    /// The total request limit was exceeded.
    InvalidNumberOfReplies,
    /// An invalid stratum protocol variant was specified.
    InvalidStratumType,
    /// An I/O error occurred on a network stream; carries its message.
    Io(String),
    /// A TLS configuration error occurred; carries its message.
    TLS(String),
    /// A TLS handshake over an established TCP connection failed.
    HandshakeTLSOverTCP(String),
}

} // verus!
