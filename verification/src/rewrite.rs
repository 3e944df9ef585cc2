//! The rewrite operation: read `X-Forwarded-Host`, `X-Forwarded-Proto` and
//! `X-Forwarded-Port` and produce the corrected request URL.
//!
//! `X-Forwarded-Host` gates everything: without it the URL is returned
//! unchanged. With it, the host is replaced, then the scheme (when a proto
//! header is present), then the port (when a port header is present), where
//! a port equal to the default of the *final* scheme — 80 for `http`, 443
//! for `https` — is elided rather than set explicitly.

use vstd::prelude::*;
use vstd::string::StrSliceExecFns;
use vstd::utf8::decode_utf8;
use vstd::utf8::valid_utf8;

use crate::headers::first_value;
use crate::headers::Headers;
use crate::headers::HeaderEntryV;
use crate::urls::elide_default_port;
use crate::urls::spec_parse_port;
use crate::urls::valid_host;
use crate::urls::valid_scheme;
use crate::urls::check_host;
use crate::urls::check_scheme;
use crate::urls::parse_port;
use crate::urls::Url;
use crate::urls::UrlV;

verus! {

/// Why a rewrite failed. Encoding errors mean the header's bytes are not
/// valid UTF-8; the others mean the text does not form a valid host,
/// scheme or port.
#[derive(Clone, Copy, Debug, PartialEq, Eq, Structural)]
pub enum RewriteError {
    InvalidHostEncoding,
    InvalidHost,
    InvalidSchemeEncoding,
    InvalidScheme,
    InvalidPortEncoding,
    InvalidPortValue,
}

/// The name of the header that carries the client-facing host.
pub open spec fn x_forwarded_host() -> Seq<char> {
    "x-forwarded-host"@
}

/// The name of the header that carries the client-facing scheme.
pub open spec fn x_forwarded_proto() -> Seq<char> {
    "x-forwarded-proto"@
}

/// The name of the header that carries the client-facing port.
pub open spec fn x_forwarded_port() -> Seq<char> {
    "x-forwarded-port"@
}

/// Step one: decode the forwarded host and set it as the URL's host.
pub open spec fn apply_host(u: UrlV, b: Seq<u8>) -> Result<UrlV, RewriteError> {
    if !valid_utf8(b) {
        Err(RewriteError::InvalidHostEncoding)
    } else if !valid_host(decode_utf8(b)) {
        Err(RewriteError::InvalidHost)
    } else {
        Ok(UrlV { host: decode_utf8(b), ..u })
    }
}

/// Step two: decode the forwarded proto and set it as the URL's scheme.
pub open spec fn apply_proto(u: UrlV, b: Seq<u8>) -> Result<UrlV, RewriteError> {
    if !valid_utf8(b) {
        Err(RewriteError::InvalidSchemeEncoding)
    } else if !valid_scheme(decode_utf8(b)) {
        Err(RewriteError::InvalidScheme)
    } else {
        Ok(UrlV { scheme: decode_utf8(b), ..u })
    }
}

/// Step three: decode and parse the forwarded port, then set it, eliding
/// it when it is the default of the URL's scheme as it stands *after*
/// step two.
pub open spec fn apply_port(u: UrlV, b: Seq<u8>) -> Result<UrlV, RewriteError> {
    if !valid_utf8(b) {
        Err(RewriteError::InvalidPortEncoding)
    } else {
        match spec_parse_port(decode_utf8(b)) {
            None => Err(RewriteError::InvalidPortValue),
            Some(p) => Ok(UrlV { port: elide_default_port(u.scheme, p), ..u }),
        }
    }
}

/// What the rewrite returns: the URL unchanged when no forwarded host is
/// present, otherwise the result of applying host, then proto, then port,
/// stopping at the first failure.
pub open spec fn spec_rewrite(hs: Seq<HeaderEntryV>, u: UrlV) -> Result<UrlV, RewriteError> {
    match first_value(hs, x_forwarded_host()) {
        None => Ok(u),
        Some(hb) => match apply_host(u, hb) {
            Err(e) => Err(e),
            Ok(u1) => {
                let proto_done = match first_value(hs, x_forwarded_proto()) {
                    None => Ok(u1),
                    Some(pb) => apply_proto(u1, pb),
                };
                match proto_done {
                    Err(e) => Err(e),
                    Ok(u2) => match first_value(hs, x_forwarded_port()) {
                        None => Ok(u2),
                        Some(ob) => apply_port(u2, ob),
                    },
                }
            },
        },
    }
}

/// Law: without an `X-Forwarded-Host` header the rewrite is a no-op — it
/// succeeds and returns the URL exactly as it was, whatever other
/// forwarded headers are present.
pub proof fn lemma_no_forwarded_host_is_noop(hs: Seq<HeaderEntryV>, u: UrlV)
    ensures
        first_value(hs, x_forwarded_host()) is None
            ==> spec_rewrite(hs, u) == Ok::<UrlV, RewriteError>(u),
{
}

/// Law: whenever the rewrite succeeds and a forwarded port applied, the
/// default-port elision was decided against the scheme of the *resulting*
/// URL — the scheme as set by `X-Forwarded-Proto` when that header was
/// present — never against the original scheme.
pub proof fn lemma_elision_follows_final_scheme(hs: Seq<HeaderEntryV>, u: UrlV)
    ensures
        (spec_rewrite(hs, u) matches Ok(v) && first_value(hs, x_forwarded_host()) is Some)
            ==> match first_value(hs, x_forwarded_port()) {
            Some(ob) => valid_utf8(ob) && (spec_parse_port(decode_utf8(ob)) matches Some(p)
                && (spec_rewrite(hs, u) matches Ok(v)
                    && v.port == elide_default_port(v.scheme, p))),
            None => true,
        },
{
}

/// Law: the rewrite is idempotent — applying it again, with the same
/// headers, to a URL it produced returns that URL unchanged.
pub proof fn lemma_rewrite_idempotent(hs: Seq<HeaderEntryV>, u: UrlV)
    ensures
        spec_rewrite(hs, u) matches Ok(v) ==> spec_rewrite(hs, v) == Ok::<UrlV, RewriteError>(v),
{
    match first_value(hs, x_forwarded_host()) {
        None => {
        },
        Some(hb) => {
            if spec_rewrite(hs, u) is Ok {
                let v = spec_rewrite(hs, u)->Ok_0;
                let u1 = UrlV { host: decode_utf8(hb), ..u };
                let w1 = UrlV { host: decode_utf8(hb), ..v };
                assert(w1 =~~= v);
                match first_value(hs, x_forwarded_proto()) {
                    None => {
                    },
                    Some(pb) => {
                        assert(UrlV { scheme: decode_utf8(pb), ..v } =~~= v);
                    },
                }
                match first_value(hs, x_forwarded_port()) {
                    None => {
                    },
                    Some(ob) => {
                        let p = spec_parse_port(decode_utf8(ob))->Some_0;
                        assert(v.port == elide_default_port(v.scheme, p));
                        assert(UrlV { port: elide_default_port(v.scheme, p), ..v } =~~= v);
                    },
                }
            }
        },
    }
}

/// Relies on `std::str::from_utf8`: it succeeds exactly on valid UTF-8
/// input and returns the string those bytes spell.
#[verifier::external_body]
fn bytes_to_str(b: &[u8]) -> (r: Option<&str>)
    ensures
        r is Some <==> valid_utf8(b@),
        r matches Some(s) ==> s@ == decode_utf8(b@),
{
    std::str::from_utf8(b).ok()
}

/// Whether two strings are equal, character for character.
pub fn str_eq(a: &str, b: &str) -> (r: bool)
    ensures
        r == (a@ == b@),
{
    let alen: usize = a.unicode_len();
    let blen: usize = b.unicode_len();
    if alen != blen {
        return false;
    }
    let mut i: usize = 0;
    while i < alen
        invariant
            alen == a@.len(),
            blen == b@.len(),
            alen == blen,
            0 <= i <= alen,
            forall|j: int| #![trigger a@[j]] 0 <= j < i ==> a@[j] == b@[j],
        decreases alen - i,
    {
        if a.get_char(i) != b.get_char(i) {
            return false;
        }
        i = i + 1;
    }
    proof {
        assert(a@ =~= b@);
    }
    true
}

/// Rewrites `url` according to the forwarded headers. Pure: on failure the
/// caller's URL is untouched, so no half-rewritten URL can leak to later
/// stages of request handling.
pub fn rewrite(headers: &Headers, url: &Url) -> (r: Result<Url, RewriteError>)
    ensures
        r matches Ok(u2) ==> spec_rewrite(headers@, url@) matches Ok(v) && u2@ == v,
        r matches Err(e) ==> spec_rewrite(headers@, url@) == Err::<UrlV, RewriteError>(e),
        first_value(headers@, x_forwarded_host()) is None ==> (r matches Ok(u2) && u2@ == url@),
        url.wf() ==> (r matches Ok(u2) ==> u2.wf()),
{
    let host_bytes = match headers.get_first("x-forwarded-host") {
        None => {
            let copy = Url {
                scheme: url.scheme.clone(),
                host: url.host.clone(),
                port: url.port,
                path: url.path.clone(),
            };
            proof {
                assert(copy@ =~~= url@);
            }
            return Ok(copy);
        },
        Some(b) => b,
    };
    let host_str = match bytes_to_str(host_bytes.as_slice()) {
        None => {
            return Err(RewriteError::InvalidHostEncoding);
        },
        Some(s) => s,
    };
    if !check_host(host_str) {
        return Err(RewriteError::InvalidHost);
    }
    let new_host: String = host_str.to_owned();

    let mut new_scheme: String = url.scheme.clone();
    match headers.get_first("x-forwarded-proto") {
        None => {},
        Some(b) => {
            match bytes_to_str(b.as_slice()) {
                None => {
                    return Err(RewriteError::InvalidSchemeEncoding);
                },
                Some(s) => {
                    if !check_scheme(s) {
                        return Err(RewriteError::InvalidScheme);
                    }
                    new_scheme = s.to_owned();
                },
            }
        },
    }

    let mut new_port: Option<u16> = url.port;
    match headers.get_first("x-forwarded-port") {
        None => {},
        Some(b) => {
            match bytes_to_str(b.as_slice()) {
                None => {
                    return Err(RewriteError::InvalidPortEncoding);
                },
                Some(s) => {
                    match parse_port(s) {
                        None => {
                            return Err(RewriteError::InvalidPortValue);
                        },
                        Some(p) => {
                            let is_default = (p == 80 && str_eq(new_scheme.as_str(), "http"))
                                || (p == 443 && str_eq(new_scheme.as_str(), "https"));
                            new_port = if is_default {
                                None
                            } else {
                                Some(p)
                            };
                        },
                    }
                },
            }
        },
    }

    let out = Url { scheme: new_scheme, host: new_host, port: new_port, path: url.path.clone() };
    proof {
        let hs = headers@;
        let u = url@;
        let u1 = UrlV { host: decode_utf8(first_value(hs, x_forwarded_host())->Some_0), ..u };
        let proto_done = match first_value(hs, x_forwarded_proto()) {
            None => Ok(u1),
            Some(pb) => apply_proto(u1, pb),
        };
        assert(proto_done matches Ok(u2) && u2.scheme == out@.scheme && u2.host == out@.host
            && u2.port == u.port && u2.path == u.path);
        let u2 = proto_done->Ok_0;
        match first_value(hs, x_forwarded_port()) {
            None => {
                assert(out@ =~~= u2);
            },
            Some(ob) => {
                reveal_strlit("http");
                reveal_strlit("https");
                assert(apply_port(u2, ob) matches Ok(v) && out@ =~~= v);
            },
        }
        assert(spec_rewrite(hs, u) matches Ok(v) && out@ =~~= v);
    }
    Ok(out)
}

} // verus!
