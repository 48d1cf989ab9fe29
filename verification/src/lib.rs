//! Routing and middleware-composition core of an HTTP server framework.
//!
//! The crate models requests and responses as plain values (method, path,
//! headers, body bytes) and verifies the logic that decides which handler
//! runs for a request: the path trie bookkeeping around an external radix
//! router, the per-path method dispatch table with its derived `Allow`
//! header, the response-finalizing step, and the ordered, fallible
//! extraction pipeline that turns request data into typed handler
//! arguments.

pub mod method;
pub mod method_filter;
pub mod text;
pub mod headers;
pub mod percent;
pub mod url_params;
pub mod request;
pub mod response;
pub mod route;
pub mod method_routing;
pub mod strip_prefix;
pub mod trie;
pub mod matched_path;
pub mod path_router;
pub mod router;
pub mod extract;
pub mod path;
pub mod error;
pub mod extension;
pub mod handler;
pub mod make_service;
pub mod middleware;
pub mod json;
pub mod form;
pub mod sse;
pub mod connect_info;
pub mod laws;
