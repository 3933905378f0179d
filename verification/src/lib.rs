//! Framing, wire messages, package encoding and key material handling for a
//! tunnel that carries TCP connections over one QUIC connection.
//!
//! Everything here works on values held in memory; sockets, files and the
//! QUIC endpoint belong to the program that links this library. What a
//! program has to do in between is said by the steps of the handlers in
//! `server` and `client`.

pub mod error;
pub mod reader;
pub mod frame;
pub mod wire;
pub mod package;
pub mod endpoint;
pub mod server;
pub mod client;
pub mod certs;
pub mod args;
