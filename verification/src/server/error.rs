//! Errors of the server.

use crate::proto::session::TransportError;
use crate::server::protocol::ConversationState;
use crate::text;
use crate::text::{decimal_string, join2, join3};
use vstd::prelude::*;
use vstd::string::*;

verus! {

/// An error of the server.
#[derive(Debug)]
pub enum ServerError {
    /// The request carries no protocol registry.
    MissingProtocols,
    /// The protocol is not registered.
    MissingSsh3Protocol,
    /// The request carries no stream number.
    MissingStreamId,
    /// The conversation is in the wrong state.
    InvalidConversationState { conversation_id: u64, state: ConversationState },
    /// The slot is in the wrong state.
    InvalidConversationSlotState { state: ConversationState },
    /// What the conversation's streams arrive at was handed out before.
    ConsumedConversationEndpoint { conversation_id: u64 },
    /// The registry of conversations cannot be used.
    RegistryPoisoned,
    /// The state of a conversation cannot be used.
    StatePoisoned,
    /// No more slots can be told apart.
    SlotsExhausted,
    /// The session process could not be started.
    SpawnChild { source: std::io::Error },
    /// The session program could not be located.
    ResolveSessionBinary { source: std::io::Error },
    /// The session program does not exist.
    MissingSessionBinary { path: String },
    /// The session process could not be told what to do.
    SendBootstrap,
    /// The challenge cannot stand in a header.
    InvalidAuthenticateHeader { value: String },
    /// The transport could not be set up.
    InitTransport { conversation_id: u64, source: TransportError },
}

impl ServerError {
    /// The text of the error.
    pub open spec fn message(self) -> Seq<char> {
        match self {
            ServerError::MissingProtocols => "missing protocol registry in request extensions"@,
            ServerError::MissingSsh3Protocol => "SSH3 protocol not registered in request extensions"@,
            ServerError::MissingStreamId => "missing StreamId in request extensions"@,
            ServerError::InvalidConversationState { conversation_id, state } => {
                "invalid conversation transition for "@ + text::decimal(conversation_id as nat)
                    + ": current state is "@ + state.name()
            },
            ServerError::InvalidConversationSlotState { state } => {
                "invalid conversation slot state: current state is "@ + state.name()
            },
            ServerError::ConsumedConversationEndpoint { conversation_id } => {
                "conversation endpoint already consumed for "@ + text::decimal(
                    conversation_id as nat,
                )
            },
            ServerError::RegistryPoisoned => "conversation registry lock poisoned"@,
            ServerError::StatePoisoned => "conversation state lock poisoned"@,
            ServerError::SlotsExhausted => "no conversation slots left"@,
            ServerError::SpawnChild { source } => "failed to spawn ssh3-session child"@,
            ServerError::ResolveSessionBinary { source } => {
                "failed to determine ssh3-session binary path"@
            },
            ServerError::MissingSessionBinary { path } => "ssh3-session binary not found at "@
                + path@,
            ServerError::SendBootstrap => "failed to send bootstrap to child"@,
            ServerError::InvalidAuthenticateHeader { value } => {
                "failed to construct WWW-Authenticate header value '"@ + value@ + "'"@
            },
            ServerError::InitTransport { conversation_id, source } => {
                "failed to initialize SSH3 transport for "@ + text::decimal(conversation_id as nat)
            },
        }
    }

    /// The error as text.
    pub fn to_string(&self) -> (r: String)
        ensures
            r@ == self.message(),
    {
        match self {
            ServerError::MissingProtocols => {
                "missing protocol registry in request extensions".to_owned()
            },
            ServerError::MissingSsh3Protocol => {
                "SSH3 protocol not registered in request extensions".to_owned()
            },
            ServerError::MissingStreamId => "missing StreamId in request extensions".to_owned(),
            ServerError::InvalidConversationState { conversation_id, state } => {
                let head = join3(
                    "invalid conversation transition for ",
                    decimal_string(*conversation_id).as_str(),
                    ": current state is ",
                );
                join2(head.as_str(), state.as_str())
            },
            ServerError::InvalidConversationSlotState { state } => join2(
                "invalid conversation slot state: current state is ",
                state.as_str(),
            ),
            ServerError::ConsumedConversationEndpoint { conversation_id } => join2(
                "conversation endpoint already consumed for ",
                decimal_string(*conversation_id).as_str(),
            ),
            ServerError::RegistryPoisoned => "conversation registry lock poisoned".to_owned(),
            ServerError::StatePoisoned => "conversation state lock poisoned".to_owned(),
            ServerError::SlotsExhausted => "no conversation slots left".to_owned(),
            ServerError::SpawnChild { source: _ } => "failed to spawn ssh3-session child".to_owned(),
            ServerError::ResolveSessionBinary { source: _ } => {
                "failed to determine ssh3-session binary path".to_owned()
            },
            ServerError::MissingSessionBinary { path } => join2(
                "ssh3-session binary not found at ",
                path.as_str(),
            ),
            ServerError::SendBootstrap => "failed to send bootstrap to child".to_owned(),
            ServerError::InvalidAuthenticateHeader { value } => join3(
                "failed to construct WWW-Authenticate header value '",
                value.as_str(),
                "'",
            ),
            ServerError::InitTransport { conversation_id, source: _ } => join2(
                "failed to initialize SSH3 transport for ",
                decimal_string(*conversation_id).as_str(),
            ),
        }
    }
}

/// The error for a lock that was left in disorder: that of a conversation's state or
/// that of the registry.
pub fn map_poison(state_lock: bool) -> (r: ServerError)
    ensures
        r == if state_lock {
            ServerError::StatePoisoned
        } else {
            ServerError::RegistryPoisoned
        },
{
    if state_lock {
        ServerError::StatePoisoned
    } else {
        ServerError::RegistryPoisoned
    }
}

} // verus!
