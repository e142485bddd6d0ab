//! The server.

pub mod auth;
pub mod byte_channel;
pub mod channel;
pub mod config;
pub mod error;
pub mod forward;
pub mod handler;
pub mod message;
pub mod pam;
pub mod protocol;
pub mod session;
pub mod version;
