//! A verified reverse proxy core for mirroring a hosted-document site
//! under a caller-controlled public address.
//!
//! The crate holds the request/response rewriting pipeline: header
//! filtering, cookie-domain rewriting, body URL rewriting with script
//! injection, route resolution, and the asset-cache bookkeeping.  The
//! surrounding HTTP server and client are ordinary I/O and live outside
//! the library; they hand plain values in and take plain values back.

pub mod cache;
pub mod config;
pub mod forward;
pub mod headers;
pub mod http_util;
pub mod numbers;
pub mod router;
pub mod text;
pub mod transform;
