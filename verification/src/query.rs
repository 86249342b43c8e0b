//! The Stratum mining protocol request types.

use vstd::prelude::*;
use vstd::string::StringExecFns;

use crate::text::seq_eq_ci;

verus! {

/// Stratum mining protocol methods.
#[derive(Debug, Clone, Copy, PartialEq, Eq, Structural)]
pub enum Method {
    /// The subscribe/version-advertisement call of the second variant.
    MiningSubscribe,
    /// The authentication-style call of the first variant.
    EthSubmitLogin,
}

/// The wire name of a protocol method.
pub open spec fn method_text(m: Method) -> Seq<char> {
    match m {
        Method::MiningSubscribe => "mining.subscribe"@,
        Method::EthSubmitLogin => "eth_submitLogin"@,
    }
}

impl Method {
    /// The wire name of this method.
    pub fn name(&self) -> (r: &'static str)
        ensures
            r@ == method_text(*self),
    {
        match self {
            Method::MiningSubscribe => "mining.subscribe",
            Method::EthSubmitLogin => "eth_submitLogin",
        }
    }

    /// Reads a method from its wire name, ignoring ASCII case.  An
    /// unknown name fails with a message naming it.
    pub fn parse(s: &str) -> (r: Result<Method, String>)
        ensures
            seq_eq_ci(s@, "mining.subscribe"@) ==> r == Ok::<Method, String>(
                Method::MiningSubscribe,
            ),
            !seq_eq_ci(s@, "mining.subscribe"@) && seq_eq_ci(s@, "eth_submitlogin"@) ==> r == Ok::<
                Method,
                String,
            >(Method::EthSubmitLogin),
            !seq_eq_ci(s@, "mining.subscribe"@) && !seq_eq_ci(s@, "eth_submitlogin"@) ==> (
            r matches Err(e) && e@ == "unknown method: "@ + s@),
    {
        if crate::text::str_eq_ci(s, "mining.subscribe") {
            Ok(Method::MiningSubscribe)
        } else if crate::text::str_eq_ci(s, "eth_submitlogin") {
            Ok(Method::EthSubmitLogin)
        } else {
            let mut message = String::from_str("unknown method: ");
            message.append(s);
            Err(message)
        }
    }
}

/// One client-to-server request, built fresh per attempt and serialized
/// immediately; never mutated after construction.
pub struct QRequest {
    /// Always the text `2.0`.
    pub jsonrpc: String,
    /// Correlation id; fixed at `1` by the probe, which has at most one
    /// request outstanding.
    pub id: usize,
    /// The wire name of the method.
    pub method: String,
    /// Positional arguments, in order.
    pub params: Vec<String>,
}

impl QRequest {
    /// Builds a request for `method` with the given id and parameters.
    pub fn new(id: usize, method: Method, params: Vec<String>) -> (r: Self)
        ensures
            r.jsonrpc@ == "2.0"@,
            r.id == id,
            r.method@ == method_text(method),
            r.params == params,
    {
        QRequest { jsonrpc: String::from_str("2.0"), id, method: String::from_str(method.name()), params }
    }
}

/// One timed request/response round trip.
pub trait PingQuery<R> {
    /// The error of a failed attempt.
    type Err;

    /// The measurement of a completed attempt.
    type Output;

    /// Performs one probe attempt.
    fn ping(&self) -> Result<Self::Output, Self::Err>;
}

/// A full sampling run of repeated round trips.
pub trait PingMultQuery<R> {
    /// The error that aborts a whole run.
    type Err;

    /// The summary of a completed run.
    type Output;

    /// Performs every sample of a run.
    fn ping_multiple(&self) -> Result<Self::Output, Self::Err>;
}

} // verus!
