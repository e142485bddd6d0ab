//! A session: what runs in it, and what its client asks for.

pub mod command;
pub mod driver;
pub mod pty;
pub mod record_login;
pub mod request;
pub mod signal;
