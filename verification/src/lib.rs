//! A small HTTP/1.1 and WebSocket protocol engine for servers that work on one
//! caller-supplied buffer per connection.
//!
//! The crate holds the protocol itself and none of the transport: requests are
//! parsed from bytes that are already in memory, responses and frames are
//! produced as bytes for the caller to send.
//!
//! * [`request`] reads a request from a buffer and looks headers up in it.
//! * [`header`] knows the headers by name, reads them and writes them.
//! * [`response`] writes a response in the order that the protocol asks for.
//! * [`websocket`] reads and writes frame headers, masks payloads and answers
//!   the handshake.
//! * [`server`] decides what a connection does after each read and after each
//!   call of the handler.
//! * [`ascii`] and [`text`] hold the numbers and the text that the others
//!   work with.
pub mod ascii;
pub mod header;
pub mod request;
pub mod response;
pub mod server;
pub mod text;
pub mod websocket;
