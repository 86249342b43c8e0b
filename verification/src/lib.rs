//! Latency probe for Stratum mining-pool servers.
//!
//! The library builds protocol-correct Stratum requests, frames them as
//! newline-terminated JSON-RPC lines, and aggregates round-trip timings
//! over repeated samples into loss and min/avg/max statistics.  All
//! network transport (TCP, TLS, timeouts) is left to the surrounding
//! binary; the library works on plain values and is fully verified.

use vstd::prelude::*;

pub mod error;
pub mod opts;
pub mod query;
pub mod req;
pub mod stats;
pub mod text;
pub mod wire;

verus! {

/// The hard cap on the number of samples in one run.
pub const SAMPLES_LIMIT: usize = 2000;

} // verus!
