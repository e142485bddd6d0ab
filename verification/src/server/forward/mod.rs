//! Forwarding of TCP and Unix socket connections.

pub mod direct_tcp;
pub mod reverse_tcp;
pub mod socks5;
pub mod streamlocal;
pub mod table;
pub mod tasks;
