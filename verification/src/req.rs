//! Preparing a probe run: splitting the host label off the address,
//! the fail-fast configuration checks, and building the request frame
//! that every attempt writes.
//!
//! All network transport (resolving, connecting, TLS, the timed
//! write/read) is the caller's affair; the functions here work on the
//! configuration values alone and say exactly which frame goes out.

use vstd::prelude::*;
use vstd::string::StrSliceExecFns;
use vstd::string::StringExecFns;

use crate::SAMPLES_LIMIT;
use crate::error::{Error, ParseUrlError};
use crate::opts::Opts;
use crate::query::{Method, QRequest, method_text};
use crate::text::{first_colon_idx, has_colon, host_part, lemma_first_colon_idx, str_eq};
use crate::wire::{encode_request_line, encoded_request_line};

verus! {

/// The two supported protocol variant names.
pub open spec fn valid_proto(p: Seq<char>) -> bool {
    p == "stratum1"@ || p == "stratum2"@
}

/// The method that a protocol variant calls.
pub open spec fn proto_method(p: Seq<char>) -> Method {
    if p == "stratum1"@ {
        Method::EthSubmitLogin
    } else {
        Method::MiningSubscribe
    }
}

/// The params that a protocol variant sends.  The first variant sends
/// the credentials; the second advertises client and protocol versions
/// and sends no credentials.
pub open spec fn proto_params(p: Seq<char>, login: Seq<char>, pass: Seq<char>) -> Seq<Seq<char>> {
    if p == "stratum1"@ {
        seq![login, pass]
    } else {
        seq!["stratum-ping/1.0.0"@, "EthereumStratum/1.0.0"@]
    }
}

/// Builds the request of one attempt: the fixed table of methods and
/// params per variant, with id `1`.  An unsupported variant name fails
/// before any connection could be opened.
pub fn build_request(proto: &str, login: &String, pass: &String) -> (r: Result<QRequest, Error>)
    ensures
        r is Ok <==> valid_proto(proto@),
        r matches Ok(q) ==> q.id == 1 && q.jsonrpc@ == "2.0"@ && q.method@ == method_text(
            proto_method(proto@),
        ) && q.params.deep_view() == proto_params(proto@, login@, pass@),
        !valid_proto(proto@) ==> r matches Err(Error::InvalidStratumType),
{
    if str_eq(proto, "stratum1") {
        let mut params: Vec<String> = Vec::new();
        params.push(login.clone());
        params.push(pass.clone());
        proof {
            assert(params.deep_view() =~= proto_params(proto@, login@, pass@));
        }
        Ok(QRequest::new(1, Method::EthSubmitLogin, params))
    } else if str_eq(proto, "stratum2") {
        let mut params: Vec<String> = Vec::new();
        params.push(String::from_str("stratum-ping/1.0.0"));
        params.push(String::from_str("EthereumStratum/1.0.0"));
        proof {
            assert(params.deep_view() =~= proto_params(proto@, login@, pass@));
        }
        Ok(QRequest::new(1, Method::MiningSubscribe, params))
    } else {
        Err(Error::InvalidStratumType)
    }
}

/// Checks the ceiling on the number of samples of one run.
pub fn check_sample_count(n: usize) -> (r: Result<(), Error>)
    ensures
        r is Ok <==> n <= SAMPLES_LIMIT,
        n > SAMPLES_LIMIT ==> r matches Err(Error::InvalidNumberOfReplies),
{
    if n > SAMPLES_LIMIT {
        Err(Error::InvalidNumberOfReplies)
    } else {
        Ok(())
    }
}

/// A probe run bound to one endpoint: the configuration and the host
/// label split off the `host:port` address string.
pub struct OutgoingRequest {
    /// The configuration of the run.
    pub opts: Opts,
    /// The text before the first `:` of `opts.server`; never empty.
    pub host: String,
}

impl OutgoingRequest {
    /// Splits the host label off `opts.server`.  Fails when the address
    /// has no `:` separator or an empty host label; nothing else is
    /// validated here.
    pub fn new(opts: Opts) -> (r: Result<OutgoingRequest, Error>)
        ensures
            r is Ok <==> has_colon(opts.server@) && first_colon_idx(opts.server@) > 0,
            r matches Ok(o) ==> o.opts == opts && o.host@ == host_part(opts.server@)
                && o.host@.len() > 0,
            r is Err ==> r matches Err(Error::URL(ParseUrlError::EmptyHost)),
    {
        proof {
            lemma_first_colon_idx(opts.server@);
        }
        let s = opts.server.as_str();
        let n = s.unicode_len();
        let mut i: usize = 0;
        while i < n
            invariant
                s@ == opts.server@,
                n == s@.len(),
                0 <= i <= n,
                forall|j: int| 0 <= j < i ==> s@[j] != ':',
            decreases n - i,
        {
            if s.get_char(i) == ':' {
                proof {
                    lemma_first_colon_idx(s@);
                    assert(s@[i as int] == ':');
                    assert(has_colon(s@));
                    let fci = first_colon_idx(s@);
                    if fci < i as int {
                        assert(s@[fci] != ':');
                        assert(false);
                    }
                    if fci > i as int {
                        assert(s@[i as int] != ':');
                        assert(false);
                    }
                    assert(fci == i as int);
                }
                if i == 0 {
                    return Err(Error::URL(ParseUrlError::EmptyHost));
                }
                let host = s.substring_char(0, i).to_owned();
                return Ok(OutgoingRequest { opts, host });
            }
            i = i + 1;
        }
        proof {
            if has_colon(s@) {
                let w = choose|k: int| 0 <= k < s@.len() && s@[k] == ':';
                assert(s@[w] != ':');
                assert(false);
            }
        }
        Err(Error::URL(ParseUrlError::EmptyHost))
    }

    /// Builds this run's request from its configuration.
    pub fn request(&self) -> (r: Result<QRequest, Error>)
        ensures
            r is Ok <==> valid_proto(self.opts.proto@),
            r matches Ok(q) ==> q.id == 1 && q.method@ == method_text(
                proto_method(self.opts.proto@),
            ) && q.params.deep_view() == proto_params(
                self.opts.proto@,
                self.opts.login@,
                self.opts.pass@,
            ),
            !valid_proto(self.opts.proto@) ==> r matches Err(Error::InvalidStratumType),
    {
        build_request(self.opts.proto.as_str(), &self.opts.login, &self.opts.pass)
    }

    /// The exact frame that one attempt writes to the peer: the
    /// request of this run's protocol variant, serialized as one
    /// newline-terminated JSON-RPC line.
    pub fn request_line(&self) -> (r: Result<Vec<u8>, Error>)
        ensures
            r is Ok <==> valid_proto(self.opts.proto@),
            r matches Ok(v) ==> v@ == encoded_request_line(
                1,
                method_text(proto_method(self.opts.proto@)),
                proto_params(self.opts.proto@, self.opts.login@, self.opts.pass@),
            ),
            !valid_proto(self.opts.proto@) ==> r matches Err(Error::InvalidStratumType),
    {
        match self.request() {
            Ok(q) => Ok(encode_request_line(&q)),
            Err(e) => Err(e),
        }
    }

    /// The fail-fast checks owned by the core, run before any network
    /// activity: protocol-variant membership, then the sample ceiling.
    pub fn validate(&self) -> (r: Result<(), Error>)
        ensures
            r is Ok <==> valid_proto(self.opts.proto@) && self.opts.samples <= SAMPLES_LIMIT,
            !valid_proto(self.opts.proto@) ==> r matches Err(Error::InvalidStratumType),
            valid_proto(self.opts.proto@) && self.opts.samples > SAMPLES_LIMIT ==> r matches Err(
                Error::InvalidNumberOfReplies,
            ),
    {
        let p = self.opts.proto.as_str();
        if !(str_eq(p, "stratum1") || str_eq(p, "stratum2")) {
            return Err(Error::InvalidStratumType);
        }
        check_sample_count(self.opts.samples)
    }
}

} // verus!
