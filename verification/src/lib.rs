//! A small HTTP/1.1 server library: request heads are read incrementally from a
//! connection and parsed with `httparse`, handed to a user handler, and the
//! handler's response is rendered as a `200 OK` message with an exact
//! `Content-Length`.

pub mod config;
pub mod decimal;
pub mod message;
pub mod response;
pub mod raw;
pub mod request;
pub mod reader;
pub mod server;
pub mod connection;
