//! Verified core of a small HTTP reverse proxy.
//!
//! The library owns the request-routing and header-transformation rules:
//! deriving an upstream target from a request's `Host` header, stripping the
//! hop-by-hop `Proxy-Connection` header on the outbound leg, stamping the
//! `X-Proxy-Server` header on the inbound leg, and building the one log
//! record that closes every request. The surrounding proxy engine, listener
//! and logger live outside this crate and hand these functions plain bytes.

pub mod bytes;
pub mod headers;
pub mod lifecycle;
pub mod record;
pub mod routing;
