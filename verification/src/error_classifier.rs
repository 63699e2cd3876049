//! Sorting transport failures into the kinds that the editor explains.
use vstd::prelude::*;

use crate::text::{
    ascii_lower, chars_of, contains_exec, contains_seq, string_of, to_ascii_lowercase,
};

verus! {

/// A transport failure, sorted by what the user can do about it.
#[derive(Debug, Clone, PartialEq, Eq)]
pub enum ClassifiedError {
    DnsFailure { host: String },
    ConnectionRefused { host: String, port: u16 },
    ConnectionTimeout,
    TlsError { reason: String },
    RequestTimeout,
    TransportError { summary: String, detail: String },
}

/// What the classification reads of a transport error: its message chain,
/// and, where it came from the HTTP client, the client's own flags and the
/// target host and port (443 where the URL names none).
#[derive(Debug, Clone, PartialEq, Eq)]
pub struct TransportErrorFacts {
    pub detail: String,
    pub from_http_client: bool,
    pub host: String,
    pub port: u16,
    pub is_timeout: bool,
    pub is_connect: bool,
    pub connection_refused: bool,
}

/// The message chain names a failed name lookup.
pub open spec fn mentions_dns(lowered: Seq<char>) -> bool {
    ||| contains_seq(lowered, "dns"@)
    ||| contains_seq(lowered, "name or service not known"@)
    ||| contains_seq(lowered, "failed to lookup address"@)
    ||| contains_seq(lowered, "could not resolve host"@)
}

/// The message chain names a TLS problem.
pub open spec fn mentions_tls(lowered: Seq<char>) -> bool {
    ||| contains_seq(lowered, "certificate"@)
    ||| contains_seq(lowered, "tls"@)
    ||| contains_seq(lowered, "handshake"@)
    ||| contains_seq(lowered, "x509"@)
}

/// The classification of a transport error from its facts.
pub open spec fn classify_spec(f: TransportErrorFacts, r: ClassifiedError) -> bool {
    let lowered = ascii_lower(f.detail@);
    if f.from_http_client && f.is_timeout && f.is_connect {
        r == ClassifiedError::ConnectionTimeout
    } else if f.from_http_client && f.is_timeout {
        r == ClassifiedError::RequestTimeout
    } else if f.from_http_client && f.is_connect && f.connection_refused {
        r matches ClassifiedError::ConnectionRefused { host, port } && host@ == f.host@ && port
            == f.port
    } else if f.from_http_client && f.is_connect && mentions_dns(lowered) {
        r matches ClassifiedError::DnsFailure { host } && host@ == f.host@
    } else if mentions_tls(lowered) {
        r matches ClassifiedError::TlsError { reason } && reason@ == f.detail@
    } else {
        r matches ClassifiedError::TransportError { summary, detail } && summary@
            == "Transport error"@ && detail@ == f.detail@
    }
}

fn contains_lit(hay: &[char], pat: &str) -> (r: bool)
    ensures
        r == contains_seq(hay@, pat@),
{
    let p = chars_of(pat);
    contains_exec(hay, p.as_slice())
}

/// Classifies a transport error from the facts read off it.
pub fn classify_transport_facts(facts: &TransportErrorFacts) -> (r: ClassifiedError)
    ensures
        classify_spec(*facts, r),
{
    let detail_chars = chars_of(facts.detail.as_str());
    let lowered = to_ascii_lowercase(detail_chars.as_slice());
    let low = lowered.as_slice();
    if facts.from_http_client {
        if facts.is_timeout {
            if facts.is_connect {
                return ClassifiedError::ConnectionTimeout;
            }
            return ClassifiedError::RequestTimeout;
        }
        if facts.is_connect {
            if facts.connection_refused {
                return ClassifiedError::ConnectionRefused {
                    host: facts.host.clone(),
                    port: facts.port,
                };
            }
            if contains_lit(low, "dns") || contains_lit(low, "name or service not known")
                || contains_lit(low, "failed to lookup address") || contains_lit(
                low,
                "could not resolve host",
            ) {
                return ClassifiedError::DnsFailure { host: facts.host.clone() };
            }
        }
    }
    if contains_lit(low, "certificate") || contains_lit(low, "tls") || contains_lit(
        low,
        "handshake",
    ) || contains_lit(low, "x509") {
        return ClassifiedError::TlsError { reason: facts.detail.clone() };
    }
    let summary_chars = chars_of("Transport error");
    ClassifiedError::TransportError {
        summary: string_of(summary_chars.as_slice()),
        detail: facts.detail.clone(),
    }
}

/// The messages of an error chain joined by `": "`.
pub open spec fn join_chain(messages: Seq<Seq<char>>) -> Seq<char>
    decreases messages.len(),
{
    if messages.len() == 0 {
        Seq::empty()
    } else if messages.len() == 1 {
        messages[0]
    } else {
        join_chain(messages.drop_last()) + ": "@ + messages.last()
    }
}

pub open spec fn string_views(v: Seq<String>) -> Seq<Seq<char>> {
    v.map_values(|s: String| s@)
}

/// The messages of an error and its causes, outermost first, joined by
/// `": "`.
pub fn error_chain_string(chain: &[String]) -> (r: String)
    ensures
        r@ == join_chain(string_views(chain@)),
{
    let mut out: Vec<char> = Vec::new();
    let sep = chars_of(": ");
    let mut i: usize = 0;
    while i < chain.len()
        invariant
            i <= chain.len(),
            sep@ == ": "@,
            out@ == join_chain(string_views(chain@.subrange(0, i as int))),
        decreases chain.len() - i,
    {
        let part = chars_of(chain[i].as_str());
        if i > 0 {
            let mut k: usize = 0;
            let ghost before = out@;
            while k < sep.len()
                invariant
                    k <= sep.len(),
                    out@ == before + sep@.subrange(0, k as int),
                decreases sep.len() - k,
            {
                out.push(sep[k]);
                k = k + 1;
            }
        }
        let ghost before2 = out@;
        let mut k: usize = 0;
        while k < part.len()
            invariant
                k <= part.len(),
                out@ == before2 + part@.subrange(0, k as int),
            decreases part.len() - k,
        {
            out.push(part[k]);
            k = k + 1;
        }
        proof {
            let cur = string_views(chain@.subrange(0, i + 1));
            let prev = string_views(chain@.subrange(0, i as int));
            assert(cur.drop_last() =~= prev);
            assert(cur.last() == chain@[i as int]@);
            assert(sep@.subrange(0, sep@.len() as int) =~= sep@);
            assert(part@.subrange(0, part@.len() as int) =~= part@);
            if i == 0 {
                assert(prev.len() == 0);
            }
        }
        i = i + 1;
    }
    proof {
        assert(chain@.subrange(0, chain@.len() as int) =~= chain@);
    }
    string_of(out.as_slice())
}

} // verus!
