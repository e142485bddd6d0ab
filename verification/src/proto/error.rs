//! Errors of the protocol.

use vstd::prelude::*;
use vstd::string::*;

verus! {

/// An error of the protocol.
#[derive(Debug)]
pub enum Ssh3Error {
    /// A value could not be encoded or decoded.
    Codec { message: String },
    /// The peer broke the protocol.
    Protocol { message: String },
    /// Authentication failed.
    Auth { message: String },
    /// A channel failed.
    Channel { message: String },
    /// A session failed.
    Session { message: String },
    /// Input or output failed.
    Io { source: std::io::Error },
    /// The request has no `ssh-version` header.
    MissingSshVersionHeader,
    /// The `ssh-version` header is not text.
    InvalidSshVersionHeaderValue,
    /// The `ssh-version` header is empty.
    EmptySshVersionHeader,
    /// None of the offered versions is supported.
    UnsupportedSshVersion { offered: String },
}

impl Ssh3Error {
    /// The text of the error.
    pub open spec fn message(self) -> Seq<char> {
        match self {
            Ssh3Error::Codec { message } => message@,
            Ssh3Error::Protocol { message } => message@,
            Ssh3Error::Auth { message } => message@,
            Ssh3Error::Channel { message } => message@,
            Ssh3Error::Session { message } => message@,
            Ssh3Error::Io { source } => "I/O error"@,
            Ssh3Error::MissingSshVersionHeader => "missing ssh-version header"@,
            Ssh3Error::InvalidSshVersionHeaderValue => "invalid ssh-version header value"@,
            Ssh3Error::EmptySshVersionHeader => "empty ssh-version header"@,
            Ssh3Error::UnsupportedSshVersion { offered } => "no supported ssh-version in: "@
                + offered@,
        }
    }

    /// The error as text.
    pub fn to_string(&self) -> (r: String)
        ensures
            r@ == self.message(),
    {
        match self {
            Ssh3Error::Codec { message } => message.clone(),
            Ssh3Error::Protocol { message } => message.clone(),
            Ssh3Error::Auth { message } => message.clone(),
            Ssh3Error::Channel { message } => message.clone(),
            Ssh3Error::Session { message } => message.clone(),
            Ssh3Error::Io { source: _ } => "I/O error".to_owned(),
            Ssh3Error::MissingSshVersionHeader => "missing ssh-version header".to_owned(),
            Ssh3Error::InvalidSshVersionHeaderValue => {
                "invalid ssh-version header value".to_owned()
            },
            Ssh3Error::EmptySshVersionHeader => "empty ssh-version header".to_owned(),
            Ssh3Error::UnsupportedSshVersion { offered } => {
                let mut s = "no supported ssh-version in: ".to_owned();
                s.append(offered.as_str());
                s
            },
        }
    }
}

/// Why a message could not be written or read.
#[derive(Debug, Clone, PartialEq, Eq)]
pub enum CodecError {
    /// There are no bytes.
    Incomplete,
    /// The first byte is no message type.
    UnknownMessageType { value: u8 },
    /// The body could not be written.
    CborEncode { message: String },
    /// The body could not be read.
    CborDecode { message: String },
}

/// What a `CodecError` says.
pub enum CodecFault {
    Incomplete,
    UnknownMessageType { value: u8 },
    CborEncode { message: Seq<char> },
    CborDecode { message: Seq<char> },
}

impl View for CodecError {
    type V = CodecFault;

    open spec fn view(&self) -> CodecFault {
        match self {
            CodecError::Incomplete => CodecFault::Incomplete,
            CodecError::UnknownMessageType { value } => CodecFault::UnknownMessageType {
                value: *value,
            },
            CodecError::CborEncode { message } => CodecFault::CborEncode { message: message@ },
            CodecError::CborDecode { message } => CodecFault::CborDecode { message: message@ },
        }
    }
}

} // verus!
