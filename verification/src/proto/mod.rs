//! The protocol shared by both ends of a connection.

pub mod auth;
pub mod cbor;
pub mod codec;
pub mod conversation;
pub mod error;
pub mod message;
pub mod mux;
pub mod session;
pub mod varint;
pub mod wire;
