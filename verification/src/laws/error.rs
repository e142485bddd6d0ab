//! What errors say.

use crate::outside;
use crate::proto::cbor::{CborDecodeError, CborEncodeError};
use crate::proto::codec::{ChannelHeaderDecodeError, ChannelHeaderEncodeError};
use crate::proto::error::Ssh3Error;
use crate::proto::mux::{ChannelError, Role};
use crate::proto::session::{IoErrorKind, SessionError, TransportError};
use crate::proto::wire::WireError;
use crate::server::auth::AuthParseError;
use crate::server::error::ServerError;
use crate::server::error;
use crate::server::forward::socks5::Socks5Error;
use crate::server::message::StreamMessageError;
use crate::server::pam::PamError;
use crate::server::protocol::ConversationState;
use crate::server::session::pty::{DimensionOverflow, PtyError};
use crate::text;
use vstd::prelude::*;
use vstd::string::*;

verus! {

/// What is said of a request that is refused, or of a protocol that is broken.
pub proof fn law_request_error_told(e: &Ssh3Error, r: String)
    requires
        call_ensures(Ssh3Error::to_string, (e,), r),
    ensures
        r@ == match e {
            Ssh3Error::Codec { message } => message@,
            Ssh3Error::Protocol { message } => message@,
            Ssh3Error::Auth { message } => message@,
            Ssh3Error::Channel { message } => message@,
            Ssh3Error::Session { message } => message@,
            Ssh3Error::Io { source } => "I/O error"@,
            Ssh3Error::MissingSshVersionHeader => "missing ssh-version header"@,
            Ssh3Error::InvalidSshVersionHeaderValue => "invalid ssh-version header value"@,
            Ssh3Error::EmptySshVersionHeader => "empty ssh-version header"@,
            Ssh3Error::UnsupportedSshVersion { offered } => "no supported ssh-version in: "@
                + offered@,
        },
{
}

/// What is said of the setting up of a conversation.
pub proof fn law_server_error_told(e: &ServerError, r: String)
    requires
        call_ensures(ServerError::to_string, (e,), r),
    ensures
        r@ == match e {
            ServerError::MissingProtocols => "missing protocol registry in request extensions"@,
            ServerError::MissingSsh3Protocol => "SSH3 protocol not registered in request extensions"@,
            ServerError::MissingStreamId => "missing StreamId in request extensions"@,
            ServerError::InvalidConversationState { conversation_id, state } => {
                "invalid conversation transition for "@ + text::decimal(*conversation_id as nat)
                    + ": current state is "@ + state_name(*state)
            },
            ServerError::InvalidConversationSlotState { state } => {
                "invalid conversation slot state: current state is "@ + state_name(*state)
            },
            ServerError::ConsumedConversationEndpoint { conversation_id } => {
                "conversation endpoint already consumed for "@
                    + text::decimal(*conversation_id as nat)
            },
            ServerError::RegistryPoisoned => "conversation registry lock poisoned"@,
            ServerError::StatePoisoned => "conversation state lock poisoned"@,
            ServerError::SlotsExhausted => "no conversation slots left"@,
            ServerError::SpawnChild { source } => "failed to spawn ssh3-session child"@,
            ServerError::ResolveSessionBinary { source } => {
                "failed to determine ssh3-session binary path"@
            },
            ServerError::MissingSessionBinary { path } => "ssh3-session binary not found at "@
                + path@,
            ServerError::SendBootstrap => "failed to send bootstrap to child"@,
            ServerError::InvalidAuthenticateHeader { value } => {
                "failed to construct WWW-Authenticate header value '"@ + value@ + "'"@
            },
            ServerError::InitTransport { conversation_id, source } => {
                "failed to initialize SSH3 transport for "@ + text::decimal(*conversation_id as nat)
            },
        },
{
}

/// What is said of credentials that cannot be read.
pub proof fn law_credentials_error_told(e: &AuthParseError, r: String)
    requires
        call_ensures(AuthParseError::to_string, (e,), r),
    ensures
        r@ == match e {
            AuthParseError::InvalidEncoding => "Authorization header is not valid ASCII"@,
            AuthParseError::MissingScheme => "Authorization header is missing the scheme prefix"@,
            AuthParseError::UnsupportedScheme { scheme } => "Unsupported authentication scheme: "@
                + scheme@,
            AuthParseError::InvalidBase64 => "Basic credentials contain invalid base64"@,
            AuthParseError::MissingColon => "Basic credentials are missing the ':' separator"@,
            AuthParseError::InvalidUtf8 => "Basic credentials contain invalid UTF-8"@,
            AuthParseError::EmptyUsername => "Basic credentials have an empty username"@,
        },
{
}

/// What is said of a check of a user.
pub proof fn law_check_error_told(e: &PamError, r: String)
    requires
        call_ensures(PamError::to_string, (e,), r),
    ensures
        r@ == match e {
            PamError::PamContextCreation { source } => "failed to create PAM context"@,
            PamError::AuthenticateFailed { source } => "pam_authenticate failed"@,
            PamError::AccountCheckFailed { source } => "pam_acct_mgmt failed"@,
            PamError::GetpwnamFailed { errno } => "getpwnam syscall failed"@,
            PamError::UserNotFound { username } => "user '"@ + username@ + "' not found"@,
            PamError::AuthenticationRejected => "authentication rejected"@,
            PamError::AccountCheckRejected => "account check failed"@,
        },
{
}

/// What is said of a terminal that cannot be made.
pub proof fn law_terminal_error_told(e: &PtyError, r: String)
    requires
        call_ensures(PtyError::to_string, (e,), r),
    ensures
        r@ == match e {
            PtyError::Dimension { source } => size_message(*source),
            PtyError::Os { errno } => "PTY OS error"@,
        },
{
}

/// What is said of a message that cannot be read.
pub proof fn law_message_error_told(e: &StreamMessageError, r: String)
    requires
        call_ensures(StreamMessageError::to_string, (e,), r),
    ensures
        r@ == match e {
            StreamMessageError::Field(WireError::Incomplete) => "message is incomplete"@,
            StreamMessageError::Field(WireError::InvalidUtf8) => "message text is not valid UTF-8"@,
            StreamMessageError::Field(WireError::OutOfRange) => "message number is out of range"@,
            StreamMessageError::Field(WireError::FieldTooLarge { length }) => {
                "message field length "@ + text::decimal(*length as nat) + " is too large"@
            },
            StreamMessageError::UnknownMessageType(n) => "unknown message type "@
                + text::decimal(*n as nat),
        },
{
}

/// What is said of a field that cannot be read.
pub proof fn law_field_error_told(e: &WireError, r: String)
    requires
        call_ensures(WireError::to_string, (e,), r),
    ensures
        r@ == match e {
            WireError::Incomplete => "field is incomplete"@,
            WireError::InvalidUtf8 => "field text is not valid UTF-8"@,
            WireError::OutOfRange => "field number is out of range"@,
            WireError::FieldTooLarge { length } => "field length "@ + text::decimal(*length as nat)
                + " is too large"@,
        },
{
}

/// What is said of a header that cannot be read.
pub proof fn law_header_error_told(e: &ChannelHeaderDecodeError, r: String)
    requires
        call_ensures(ChannelHeaderDecodeError::to_string, (e,), r),
    ensures
        r@ == match e {
            ChannelHeaderDecodeError::Incomplete => "unexpected end of input"@,
            ChannelHeaderDecodeError::InvalidSignal { got } => {
                "invalid signal value: expected 0xaf3627e6, got 0x"@
                    + text::hexadecimal(*got as nat)
            },
            ChannelHeaderDecodeError::InvalidUtf8 => "channel type is not valid UTF-8"@,
        },
{
}

/// What is said of a channel that cannot be opened or closed.
pub proof fn law_channel_error_told(e: &ChannelError, r: String)
    requires
        call_ensures(ChannelError::to_string, (e,), r),
    ensures
        r@ == match e {
            ChannelError::SameRole { token } => {
                "Peer has the same role with local when routing for "@ + text::decimal(
                    token.value() as nat,
                )
            },
            ChannelError::ChannelAlreadyOpen { token } => "Channel "@ + text::decimal(
                token.value() as nat,
            ) + " already be opened"@,
            ChannelError::ChannelClosed { token } => "Channel "@ + text::decimal(
                token.value() as nat,
            ) + " already be closed"@,
            ChannelError::SendRequest { token } => "Failed to send request message for "@
                + text::decimal(token.value() as nat),
            ChannelError::SendClose { token } => "Failed to send close message for "@
                + text::decimal(token.value() as nat),
        },
{
}

/// What is said of input or output.
pub proof fn law_io_error_told(e: &IoErrorKind, r: String)
    requires
        call_ensures(IoErrorKind::to_string, (e,), r),
    ensures
        r@ == match e {
            IoErrorKind::NotFound => "not found"@,
            IoErrorKind::PermissionDenied => "permission denied"@,
            IoErrorKind::ConnectionRefused => "connection refused"@,
            IoErrorKind::ConnectionReset => "connection reset"@,
            IoErrorKind::HostUnreachable => "host unreachable"@,
            IoErrorKind::NetworkUnreachable => "network unreachable"@,
            IoErrorKind::ConnectionAborted => "connection aborted"@,
            IoErrorKind::NotConnected => "not connected"@,
            IoErrorKind::AddrInUse => "address in use"@,
            IoErrorKind::AddrNotAvailable => "address not available"@,
            IoErrorKind::NetworkDown => "network down"@,
            IoErrorKind::BrokenPipe => "broken pipe"@,
            IoErrorKind::AlreadyExists => "already exists"@,
            IoErrorKind::WouldBlock => "operation would block"@,
            IoErrorKind::InvalidInput => "invalid input"@,
            IoErrorKind::InvalidData => "invalid data"@,
            IoErrorKind::TimedOut => "timed out"@,
            IoErrorKind::WriteZero => "write zero"@,
            IoErrorKind::Interrupted => "interrupted"@,
            IoErrorKind::Unsupported => "unsupported"@,
            IoErrorKind::UnexpectedEof => "unexpected end of file"@,
            IoErrorKind::OutOfMemory => "out of memory"@,
            IoErrorKind::Other => "other I/O error"@,
        },
{
}

/// What is said of a transport.
pub proof fn law_transport_error_told(e: &TransportError, r: String)
    requires
        call_ensures(TransportError::to_string, (e,), r),
    ensures
        r@ == match e {
            TransportError::ChannelClosed(msg) => msg@,
            TransportError::OpenFailed(msg) => msg@,
            TransportError::Timeout => "timeout"@,
            TransportError::Other(msg) => msg@,
            TransportError::Remote(error) => outside::call_error_text(*error),
        },
{
}

/// What is said of a handshake.
pub proof fn law_handshake_error_told(e: &Socks5Error, r: String)
    requires
        call_ensures(Socks5Error::to_string, (e,), r),
    ensures
        r@ == match e {
            Socks5Error::UnsupportedVersion { version } => "unsupported SOCKS version: 0x"@
                + text::hex_byte(*version),
            Socks5Error::UnsupportedRequestVersion { version } => {
                "unsupported SOCKS version in request: 0x"@ + text::hex_byte(*version)
            },
            Socks5Error::UnsupportedAddressType { atyp } => {
                "unsupported SOCKS5 address type: 0x"@ + text::hex_byte(*atyp)
            },
            Socks5Error::InvalidDomain { message } => message@,
        },
{
}

/// The name of a state.
pub open spec fn state_name(s: ConversationState) -> Seq<char> {
    match s {
        ConversationState::Reserved => "Reserved"@,
        ConversationState::Authenticating => "Authenticating"@,
        ConversationState::Upgrading => "Upgrading"@,
        ConversationState::Active => "Active"@,
        ConversationState::Closed => "Closed"@,
    }
}

/// What is said of a size that a terminal cannot have.
pub open spec fn size_message(e: DimensionOverflow) -> Seq<char> {
    "PTY dimension overflow: "@ + e.field@ + " = "@ + text::decimal(e.value as nat)
        + " exceeds u16::MAX (65535)"@
}

/// A size that a terminal cannot have is told by its name and its value.
pub proof fn law_size_error_told(e: &DimensionOverflow, r: String)
    requires
        call_ensures(DimensionOverflow::to_string, (e,), r),
    ensures
        r@ == size_message(*e),
{
}

/// The error of a session is told in the words of what it comes from.
pub proof fn law_session_error_told(
    e: &SessionError,
    r: String,
    k: &IoErrorKind,
    kind: String,
    t: &TransportError,
    transport: String,
    message: &str,
    own: SessionError,
)
    requires
        call_ensures(SessionError::to_string, (e,), r),
        call_ensures(IoErrorKind::to_string, (k,), kind),
        call_ensures(TransportError::to_string, (t,), transport),
        call_ensures(SessionError::new, (message,), own),
    ensures
        *e matches SessionError::Message(m) ==> r@ == m@,
        *e matches SessionError::Io(i) && i == *k ==> r@ == kind@,
        *e matches SessionError::Transport(x) && x == *t ==> r@ == transport@,
        *e matches SessionError::Remote(x) ==> r@ == outside::call_error_text(x),
        own matches SessionError::Message(m) && m@ == message@,
{
}

/// What cannot be written or read as CBOR is told in the words of the reader, and a header
/// whose numbers are too large as such.
pub proof fn law_cbor_error_told(
    e: &CborEncodeError,
    r: String,
    d: &CborDecodeError,
    s: String,
    h: &ChannelHeaderEncodeError,
    t: String,
    state_lock: bool,
    poisoned: ServerError,
    role: &Role,
    side: String,
)
    requires
        call_ensures(CborEncodeError::to_string, (e,), r),
        call_ensures(CborDecodeError::to_string, (d,), s),
        call_ensures(ChannelHeaderEncodeError::to_string, (h,), t),
        call_ensures(error::map_poison, (state_lock,), poisoned),
        call_ensures(Role::to_string, (role,), side),
    ensures
        *e matches CborEncodeError::Ciborium { message } && r@ == "CBOR encoding failed: "@
            + message@,
        *d matches CborDecodeError::Ciborium { message } ==> s@ == "CBOR decoding failed: "@
            + message@,
        *d is Incomplete ==> s@ == "unexpected end of input"@,
        t@ == "value overflows QUIC VarInt range"@,
        state_lock ==> poisoned == ServerError::StatePoisoned,
        !state_lock ==> poisoned == ServerError::RegistryPoisoned,
        *role == Role::Client ==> side@ == "Client"@,
        *role == Role::Server ==> side@ == "Server"@,
{
}

/// A failure of input or output keeps its kind, and a session that fails with it tells that
/// kind.
pub proof fn law_io_error_kept(
    k: std::io::ErrorKind,
    r: IoErrorKind,
    told: String,
    e: std::io::Error,
    s: SessionError,
)
    requires
        call_ensures(<IoErrorKind as From<std::io::ErrorKind>>::from, (k,), r),
        call_ensures(IoErrorKind::to_string, (&r,), told),
        call_ensures(<SessionError as From<std::io::Error>>::from, (e,), s),
        outside::io_kind(e) == k,
    ensures
        k == std::io::ErrorKind::NotFound ==> told@ == "not found"@,
        k == std::io::ErrorKind::PermissionDenied ==> told@ == "permission denied"@,
        k == std::io::ErrorKind::ConnectionRefused ==> told@ == "connection refused"@,
        k == std::io::ErrorKind::ConnectionReset ==> told@ == "connection reset"@,
        k == std::io::ErrorKind::HostUnreachable ==> told@ == "host unreachable"@,
        k == std::io::ErrorKind::NetworkUnreachable ==> told@ == "network unreachable"@,
        k == std::io::ErrorKind::ConnectionAborted ==> told@ == "connection aborted"@,
        k == std::io::ErrorKind::NotConnected ==> told@ == "not connected"@,
        k == std::io::ErrorKind::AddrInUse ==> told@ == "address in use"@,
        k == std::io::ErrorKind::AddrNotAvailable ==> told@ == "address not available"@,
        k == std::io::ErrorKind::NetworkDown ==> told@ == "network down"@,
        k == std::io::ErrorKind::BrokenPipe ==> told@ == "broken pipe"@,
        k == std::io::ErrorKind::AlreadyExists ==> told@ == "already exists"@,
        k == std::io::ErrorKind::WouldBlock ==> told@ == "operation would block"@,
        k == std::io::ErrorKind::InvalidInput ==> told@ == "invalid input"@,
        k == std::io::ErrorKind::InvalidData ==> told@ == "invalid data"@,
        k == std::io::ErrorKind::TimedOut ==> told@ == "timed out"@,
        k == std::io::ErrorKind::WriteZero ==> told@ == "write zero"@,
        k == std::io::ErrorKind::Interrupted ==> told@ == "interrupted"@,
        k == std::io::ErrorKind::Unsupported ==> told@ == "unsupported"@,
        k == std::io::ErrorKind::UnexpectedEof ==> told@ == "unexpected end of file"@,
        k == std::io::ErrorKind::OutOfMemory ==> told@ == "out of memory"@,
        s == SessionError::Io(r),
{
}

} // verus!
