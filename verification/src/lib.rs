//! A minimal HTTP/1.1 static-file server engine, written without I/O.
//!
//! The crate holds every decision the server makes: how bytes become lines,
//! how lines become a request, which file is looked up for a request, and
//! which bytes answer it. Sockets and files stay with the caller, who feeds
//! the engine bytes and file contents and performs what it asks for.

pub mod connection;
pub mod headers;
pub mod line;
pub mod log;
pub mod request;
pub mod resolve;
pub mod response;
pub mod server;
pub mod stream;
pub mod text;

