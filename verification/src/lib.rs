//! A minimal static-file HTTP server core: a request-line parser,
//! path routing and status decision, response formatting, startup
//! configuration, and the control protocol of a fixed-size worker pool.
//!
//! All I/O (sockets, the filesystem, threads) lives outside this crate;
//! the functions here take plain values (request text, the document root,
//! whether a file exists) and return plain values (status lines, file
//! paths, response text, queue messages), each pinned down by a contract.

pub mod config;
pub mod decimal;
pub mod http_server;
pub mod text;
pub mod thread_pool;
