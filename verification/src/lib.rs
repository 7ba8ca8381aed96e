//! Verified core of a multi-site static-file web server.
//!
//! The crate covers the server's decision logic: grouping configured sites by
//! listening port and deriving per-port virtual-host identity maps, mapping a
//! requested URL path to a confined filesystem path with a forbidden-fallback
//! policy, parsing HTTP/1.1 request bytes, choosing response status, body and
//! content type, planning HTTP/2 server push, selecting TLS identities by
//! server name, and deciding per-port listener addresses.  Network and file
//! I/O, TLS handshakes and the HTTP/2 framing layer live outside the crate and
//! hand plain values in and out.

pub mod dispatch;
pub mod http1;
pub mod http2;
pub mod loader;
pub mod media;
pub mod paths;
pub mod registry;
pub mod request;
pub mod response;
pub mod site;
pub mod text;
pub mod tls;
