//! The protocol logic of an SSH3 server: wire formats, authentication, the
//! lifecycle of conversations and channels, forwarding, and session requests.
//!
//! Everything here is pure computation on plain values. Sockets, processes and
//! terminals are driven by the program around the library.

pub mod encoding;
pub mod laws;
pub mod outside;
pub mod text;
pub mod proto;
pub mod server;
