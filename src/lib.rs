//! A local mock HTTP API server library: a wire model of HTTP/1.x-like
//! messages, a routing table, and file-backed record stores.

pub mod text;
pub mod status;
pub mod error;
pub mod http;
pub mod buffer;
pub mod request;
pub mod response;
pub mod value;
pub mod store;
pub mod config;
pub mod router;
pub mod middleware;
