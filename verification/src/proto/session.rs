//! What the server and its session process tell each other.

use crate::outside;
use crate::outside::{call_error_to_string, io_error_kind};
use crate::proto::varint::VARINT_END;
use vstd::prelude::*;
use vstd::string::*;

verus! {

/// A credential for a user who is already named.
#[derive(Debug, Clone, PartialEq, Eq)]
pub enum AuthCredential {
    Password(String),
}

/// What a session is set up with.
#[derive(Debug)]
pub struct SessionInit {
    /// The conversation.
    pub conversation_id: u64,
    /// The user.
    pub username: String,
    /// The user's number.
    pub uid: u32,
    /// The number of the user's group.
    pub gid: u32,
    /// The user's home directory.
    pub home: std::path::PathBuf,
    /// The user's shell.
    pub shell: std::path::PathBuf,
}

/// How the authentication of a user came out.
#[derive(Debug)]
pub enum AuthResult {
    /// The user is who they say they are.
    Success { uid: u32, gid: u32, home: std::path::PathBuf, shell: std::path::PathBuf },
    /// The user is not let in.
    Failure { reason: String },
}

/// The number of a stream, as it is read from a message of another process. A number
/// that is too large for a stream is refused.
pub fn deserialize_stream_id(raw: u64) -> (r: Option<u64>)
    ensures
        r == if raw < VARINT_END {
            Some(raw)
        } else {
            None
        },
{
    if raw < VARINT_END {
        Some(raw)
    } else {
        None
    }
}

/// Why a transport failed.
#[derive(Debug)]
pub enum TransportError {
    ChannelClosed(String),
    OpenFailed(String),
    Timeout,
    Other(String),
    /// The remote call failed.
    Remote(remoc::rtc::CallError),
}

impl TransportError {
    /// The text of the error.
    pub open spec fn message(self) -> Seq<char> {
        match self {
            TransportError::ChannelClosed(msg) => msg@,
            TransportError::OpenFailed(msg) => msg@,
            TransportError::Timeout => "timeout"@,
            TransportError::Other(msg) => msg@,
            TransportError::Remote(error) => outside::call_error_text(error),
        }
    }

    /// The error as text.
    pub fn to_string(&self) -> (r: String)
        ensures
            r@ == self.message(),
    {
        match self {
            TransportError::ChannelClosed(msg) => msg.clone(),
            TransportError::OpenFailed(msg) => msg.clone(),
            TransportError::Timeout => "timeout".to_owned(),
            TransportError::Other(msg) => msg.clone(),
            TransportError::Remote(error) => call_error_to_string(error),
        }
    }
}

impl From<remoc::rtc::CallError> for TransportError {
    fn from(err: remoc::rtc::CallError) -> (r: Self) {
        TransportError::Remote(err)
    }
}

impl vstd::std_specs::convert::FromSpecImpl<remoc::rtc::CallError> for TransportError {
    open spec fn obeys_from_spec() -> bool {
        true
    }

    open spec fn from_spec(err: remoc::rtc::CallError) -> Self {
        TransportError::Remote(err)
    }
}

/// What kind of failure of input or output it was.
#[derive(Debug, Clone, Copy, PartialEq, Eq, Structural)]
pub enum IoErrorKind {
    NotFound,
    PermissionDenied,
    ConnectionRefused,
    ConnectionReset,
    HostUnreachable,
    NetworkUnreachable,
    ConnectionAborted,
    NotConnected,
    AddrInUse,
    AddrNotAvailable,
    NetworkDown,
    BrokenPipe,
    AlreadyExists,
    WouldBlock,
    InvalidInput,
    InvalidData,
    TimedOut,
    WriteZero,
    Interrupted,
    Unsupported,
    UnexpectedEof,
    OutOfMemory,
    Other,
}

impl IoErrorKind {
    /// The text of the kind.
    pub open spec fn message(self) -> Seq<char> {
        match self {
            IoErrorKind::NotFound => "not found"@,
            IoErrorKind::PermissionDenied => "permission denied"@,
            IoErrorKind::ConnectionRefused => "connection refused"@,
            IoErrorKind::ConnectionReset => "connection reset"@,
            IoErrorKind::HostUnreachable => "host unreachable"@,
            IoErrorKind::NetworkUnreachable => "network unreachable"@,
            IoErrorKind::ConnectionAborted => "connection aborted"@,
            IoErrorKind::NotConnected => "not connected"@,
            IoErrorKind::AddrInUse => "address in use"@,
            IoErrorKind::AddrNotAvailable => "address not available"@,
            IoErrorKind::NetworkDown => "network down"@,
            IoErrorKind::BrokenPipe => "broken pipe"@,
            IoErrorKind::AlreadyExists => "already exists"@,
            IoErrorKind::WouldBlock => "operation would block"@,
            IoErrorKind::InvalidInput => "invalid input"@,
            IoErrorKind::InvalidData => "invalid data"@,
            IoErrorKind::TimedOut => "timed out"@,
            IoErrorKind::WriteZero => "write zero"@,
            IoErrorKind::Interrupted => "interrupted"@,
            IoErrorKind::Unsupported => "unsupported"@,
            IoErrorKind::UnexpectedEof => "unexpected end of file"@,
            IoErrorKind::OutOfMemory => "out of memory"@,
            IoErrorKind::Other => "other I/O error"@,
        }
    }

    /// The kind as text.
    pub fn to_string(&self) -> (r: String)
        ensures
            r@ == self.message(),
    {
        let name = match self {
            IoErrorKind::NotFound => "not found",
            IoErrorKind::PermissionDenied => "permission denied",
            IoErrorKind::ConnectionRefused => "connection refused",
            IoErrorKind::ConnectionReset => "connection reset",
            IoErrorKind::HostUnreachable => "host unreachable",
            IoErrorKind::NetworkUnreachable => "network unreachable",
            IoErrorKind::ConnectionAborted => "connection aborted",
            IoErrorKind::NotConnected => "not connected",
            IoErrorKind::AddrInUse => "address in use",
            IoErrorKind::AddrNotAvailable => "address not available",
            IoErrorKind::NetworkDown => "network down",
            IoErrorKind::BrokenPipe => "broken pipe",
            IoErrorKind::AlreadyExists => "already exists",
            IoErrorKind::WouldBlock => "operation would block",
            IoErrorKind::InvalidInput => "invalid input",
            IoErrorKind::InvalidData => "invalid data",
            IoErrorKind::TimedOut => "timed out",
            IoErrorKind::WriteZero => "write zero",
            IoErrorKind::Interrupted => "interrupted",
            IoErrorKind::Unsupported => "unsupported",
            IoErrorKind::UnexpectedEof => "unexpected end of file",
            IoErrorKind::OutOfMemory => "out of memory",
            IoErrorKind::Other => "other I/O error",
        };
        name.to_owned()
    }
}

/// The kind that stands for one of `std`; every other one is `Other`.
pub open spec fn kind_from(kind: std::io::ErrorKind) -> IoErrorKind {
    match kind {
        std::io::ErrorKind::NotFound => IoErrorKind::NotFound,
        std::io::ErrorKind::PermissionDenied => IoErrorKind::PermissionDenied,
        std::io::ErrorKind::ConnectionRefused => IoErrorKind::ConnectionRefused,
        std::io::ErrorKind::ConnectionReset => IoErrorKind::ConnectionReset,
        std::io::ErrorKind::HostUnreachable => IoErrorKind::HostUnreachable,
        std::io::ErrorKind::NetworkUnreachable => IoErrorKind::NetworkUnreachable,
        std::io::ErrorKind::ConnectionAborted => IoErrorKind::ConnectionAborted,
        std::io::ErrorKind::NotConnected => IoErrorKind::NotConnected,
        std::io::ErrorKind::AddrInUse => IoErrorKind::AddrInUse,
        std::io::ErrorKind::AddrNotAvailable => IoErrorKind::AddrNotAvailable,
        std::io::ErrorKind::NetworkDown => IoErrorKind::NetworkDown,
        std::io::ErrorKind::BrokenPipe => IoErrorKind::BrokenPipe,
        std::io::ErrorKind::AlreadyExists => IoErrorKind::AlreadyExists,
        std::io::ErrorKind::WouldBlock => IoErrorKind::WouldBlock,
        std::io::ErrorKind::InvalidInput => IoErrorKind::InvalidInput,
        std::io::ErrorKind::InvalidData => IoErrorKind::InvalidData,
        std::io::ErrorKind::TimedOut => IoErrorKind::TimedOut,
        std::io::ErrorKind::WriteZero => IoErrorKind::WriteZero,
        std::io::ErrorKind::Interrupted => IoErrorKind::Interrupted,
        std::io::ErrorKind::Unsupported => IoErrorKind::Unsupported,
        std::io::ErrorKind::UnexpectedEof => IoErrorKind::UnexpectedEof,
        std::io::ErrorKind::OutOfMemory => IoErrorKind::OutOfMemory,
        _ => IoErrorKind::Other,
    }
}

impl From<std::io::ErrorKind> for IoErrorKind {
    fn from(kind: std::io::ErrorKind) -> (r: Self) {
        match kind {
            std::io::ErrorKind::NotFound => IoErrorKind::NotFound,
            std::io::ErrorKind::PermissionDenied => IoErrorKind::PermissionDenied,
            std::io::ErrorKind::ConnectionRefused => IoErrorKind::ConnectionRefused,
            std::io::ErrorKind::ConnectionReset => IoErrorKind::ConnectionReset,
            std::io::ErrorKind::HostUnreachable => IoErrorKind::HostUnreachable,
            std::io::ErrorKind::NetworkUnreachable => IoErrorKind::NetworkUnreachable,
            std::io::ErrorKind::ConnectionAborted => IoErrorKind::ConnectionAborted,
            std::io::ErrorKind::NotConnected => IoErrorKind::NotConnected,
            std::io::ErrorKind::AddrInUse => IoErrorKind::AddrInUse,
            std::io::ErrorKind::AddrNotAvailable => IoErrorKind::AddrNotAvailable,
            std::io::ErrorKind::NetworkDown => IoErrorKind::NetworkDown,
            std::io::ErrorKind::BrokenPipe => IoErrorKind::BrokenPipe,
            std::io::ErrorKind::AlreadyExists => IoErrorKind::AlreadyExists,
            std::io::ErrorKind::WouldBlock => IoErrorKind::WouldBlock,
            std::io::ErrorKind::InvalidInput => IoErrorKind::InvalidInput,
            std::io::ErrorKind::InvalidData => IoErrorKind::InvalidData,
            std::io::ErrorKind::TimedOut => IoErrorKind::TimedOut,
            std::io::ErrorKind::WriteZero => IoErrorKind::WriteZero,
            std::io::ErrorKind::Interrupted => IoErrorKind::Interrupted,
            std::io::ErrorKind::Unsupported => IoErrorKind::Unsupported,
            std::io::ErrorKind::UnexpectedEof => IoErrorKind::UnexpectedEof,
            std::io::ErrorKind::OutOfMemory => IoErrorKind::OutOfMemory,
            _ => IoErrorKind::Other,
        }
    }
}

impl vstd::std_specs::convert::FromSpecImpl<std::io::ErrorKind> for IoErrorKind {
    open spec fn obeys_from_spec() -> bool {
        true
    }

    open spec fn from_spec(kind: std::io::ErrorKind) -> Self {
        kind_from(kind)
    }
}

/// Why a session failed.
#[derive(Debug)]
pub enum SessionError {
    Message(String),
    Io(IoErrorKind),
    Transport(TransportError),
    /// The remote call failed.
    Remote(remoc::rtc::CallError),
}

impl SessionError {
    /// The text of the error.
    pub open spec fn message(self) -> Seq<char> {
        match self {
            SessionError::Message(message) => message@,
            SessionError::Io(kind) => kind.message(),
            SessionError::Transport(error) => error.message(),
            SessionError::Remote(error) => outside::call_error_text(error),
        }
    }

    /// The error as text.
    pub fn to_string(&self) -> (r: String)
        ensures
            r@ == self.message(),
    {
        match self {
            SessionError::Message(message) => message.clone(),
            SessionError::Io(kind) => kind.to_string(),
            SessionError::Transport(error) => error.to_string(),
            SessionError::Remote(error) => call_error_to_string(error),
        }
    }

    /// An error with a text of its own.
    pub fn new(msg: &str) -> (r: Self)
        ensures
            r matches SessionError::Message(m) && m@ == msg@,
    {
        SessionError::Message(msg.to_owned())
    }
}

impl From<remoc::rtc::CallError> for SessionError {
    fn from(err: remoc::rtc::CallError) -> (r: Self) {
        SessionError::Remote(err)
    }
}

impl vstd::std_specs::convert::FromSpecImpl<remoc::rtc::CallError> for SessionError {
    open spec fn obeys_from_spec() -> bool {
        true
    }

    open spec fn from_spec(err: remoc::rtc::CallError) -> Self {
        SessionError::Remote(err)
    }
}

impl From<std::io::Error> for SessionError {
    fn from(err: std::io::Error) -> (r: Self) {
        SessionError::Io(IoErrorKind::from(io_error_kind(&err)))
    }
}

impl vstd::std_specs::convert::FromSpecImpl<std::io::Error> for SessionError {
    open spec fn obeys_from_spec() -> bool {
        true
    }

    open spec fn from_spec(err: std::io::Error) -> Self {
        SessionError::Io(kind_from(outside::io_kind(err)))
    }
}

impl From<TransportError> for SessionError {
    fn from(err: TransportError) -> (r: Self) {
        SessionError::Transport(err)
    }
}

impl vstd::std_specs::convert::FromSpecImpl<TransportError> for SessionError {
    open spec fn obeys_from_spec() -> bool {
        true
    }

    open spec fn from_spec(err: TransportError) -> Self {
        SessionError::Transport(err)
    }
}

} // verus!
