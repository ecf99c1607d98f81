//! A minimal request/response protocol ("STP") over a framed byte stream,
//! together with the command dispatcher of a small smart-home server that
//! speaks it.
//!
//! The wire format, the handshake, the command grammar and the registry
//! operations are implemented here and verified; the transport itself
//! (sockets, tasks, locks) lives outside the library and hands byte
//! buffers and text in and out.

#![verifier::loop_isolation(false)]

pub mod client;
pub mod codec;
pub mod error;
pub mod handshake;
pub mod numbers;
pub mod request_handler;
pub mod smart_device;
pub mod smart_home;
pub mod smart_room;
pub mod table;
pub mod text;
