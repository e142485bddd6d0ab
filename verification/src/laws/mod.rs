//! What the library promises of its calls.
//!
//! Each law here speaks of calls of the library's own functions, by what went in and
//! what came out, and holds of every such call.

pub mod command;
pub mod connect;
pub mod conversation;
pub mod credentials;
pub mod error;
pub mod fields;
pub mod forward;
pub mod login;
pub mod message;
pub mod mux;
pub mod request;
pub mod session;
pub mod socks5;
pub mod stream;
pub mod text;
pub mod value;
pub mod wire;
