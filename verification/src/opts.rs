//! The validated configuration of one probe run.

use vstd::prelude::*;

verus! {

/// Options of a probe run, as handed over by the command line.
///
/// The library itself owns only two of the checks on these values: the
/// protocol-variant membership of `proto` and the ceiling on `samples`;
/// everything else is taken as already validated.
pub struct Opts {
    /// Pool address `host:port`.
    pub server: String,
    /// Login sent by the authentication-style protocol variant.
    pub login: String,
    /// Password sent by the authentication-style protocol variant.
    pub pass: String,
    /// The number of requests that determine the average response time.
    pub samples: usize,
    /// The kind of stratum protocol, `"stratum1"` or `"stratum2"`.
    pub proto: String,
    /// Whether to wrap the connection in TLS.
    pub tls: bool,
    /// Per-attempt read/write deadline, in seconds.
    pub timeout: u64,
}

} // verus!
