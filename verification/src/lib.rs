//! Request-URL normalization for servers running behind a reverse proxy.
//!
//! A proxy forwards the client's request to an origin server, which then sees
//! the proxy's own host, scheme and port instead of the address the client
//! used. This library reads the de facto standard `X-Forwarded-Host`,
//! `X-Forwarded-Proto` and `X-Forwarded-Port` headers and rewrites a parsed
//! request URL so that downstream code building absolute URLs (redirects,
//! canonical links) sees the client-facing address.
//!
//! The core operation is [`rewrite::rewrite`]: a pure function from a header
//! map and a URL to either a corrected URL or a descriptive error.

pub mod headers;
pub mod rewrite;
pub mod urls;
