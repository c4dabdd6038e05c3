//! A minimal HTTP/1.1 request pipeline: a streaming-style wire parser from
//! raw bytes to a structured request, a router from a request's path to a
//! fixed set of behaviours, and a response writer that lays out the exact
//! bytes of each reply. The surrounding I/O (sockets, threads, file reads)
//! lives outside this crate and exchanges plain byte vectors with it.
pub mod bytes;
pub mod connection;
pub mod laws;
pub mod parser;
pub mod request;
pub mod response;
pub mod router;
