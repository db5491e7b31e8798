//! A verified core for a minimal HTTP/1.1 server: the wire constants,
//! the byte utilities, the request parser, the response builder, the
//! router with its fixed handlers, the per-connection pipeline, and the
//! laws that hold of them. Listening, the worker pool and the file
//! store live outside this library and drive the pipeline with plain
//! byte values.
pub mod bytes;
pub mod laws;
pub mod pool;
pub mod request;
pub mod response;
pub mod router;
pub mod serve;
pub mod wire;
