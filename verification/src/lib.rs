//! A minimal HTTP/1.1 request/response pipeline.
//!
//! The library parses a request head (request line and headers) read off a
//! raw byte stream, reads the body according to `Content-Length`, dispatches
//! on method and target to a small fixed route table, and serializes an
//! HTTP/1.1 response with an exact `Content-Length` and optional gzip
//! content encoding.

pub mod bytes;
pub mod pairs;
pub mod reader;
pub mod request;
pub mod router;
pub mod store;
pub mod response;
pub mod server;
pub mod tokens;
