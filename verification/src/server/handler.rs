//! The CONNECT request that starts a conversation.
//!
//! What the request is answered is decided from its method, protocol and headers
//! alone. What an accepted request leads to is a sequence of steps outside, each of
//! which may fail; `AcceptedConnect::advance` says after each one what to do next.

use crate::outside;
use crate::outside::header_value_from_str;
use crate::proto::auth::AuthCredential;
use crate::proto::error::Ssh3Error;
use crate::proto::session::AuthResult;
use crate::server::auth;
use crate::server::auth::extract_auth_credential;
use crate::server::error::ServerError;
use crate::server::protocol;
use crate::server::protocol::{
    ConversationLease, ConversationState, ReservedConversation, Ssh3Protocol,
};
use crate::server::version;
use crate::server::version::{negotiate_version, version_response_header};
use crate::text::{join2, join3, same_text};
use vstd::prelude::*;
use vstd::string::*;

verus! {

/// What a CONNECT request is found to be.
#[derive(Debug)]
pub enum ConnectDecision {
    /// A conversation can be set up.
    Accepted { version_header: http::HeaderValue, credential: Option<AuthCredential> },
    /// The request is wrong.
    BadRequest(String),
    /// The client has to authenticate.
    Unauthorized { www_authenticate: String },
}

/// The decision that a request calls for.
pub open spec fn decides(
    method: Seq<char>,
    protocol: Option<Seq<char>>,
    headers: http::HeaderMap,
    d: ConnectDecision,
) -> bool {
    if method != "CONNECT"@ {
        d matches ConnectDecision::BadRequest(m) && m@ == "expected CONNECT method, got "@ + method
    } else if protocol is None {
        d matches ConnectDecision::BadRequest(m) && m@ == "missing :protocol pseudo-header"@
    } else if protocol->0 != "ssh3"@ {
        d matches ConnectDecision::BadRequest(m) && m@ == "expected :protocol \"ssh3\", got \""@
            + protocol->0 + "\""@
    } else {
        exists|v: Result<version::SshVersion, Ssh3Error>|
            #[trigger] version::version_ends(headers, v) && match v {
                Err(e) => d matches ConnectDecision::BadRequest(m) && m@
                    == "version negotiation failed: "@ + e.message(),
                Ok(chosen) => match auth::request_credentials(headers) {
                    None => d matches ConnectDecision::Unauthorized { www_authenticate }
                        && www_authenticate@ == "Basic"@,
                    Some((username, password)) => {
                        &&& d matches ConnectDecision::Accepted { version_header, credential }
                        &&& outside::header_value_bytes(version_header) == vstd::utf8::encode_utf8(
                            chosen.version_string@,
                        )
                        &&& credential matches Some(AuthCredential::Basic { username: u, password: p })
                        &&& u@ == username
                        &&& p@ == password
                    },
                },
            }
    }
}

/// Decides on a request: the method, then the protocol, then the version, then the
/// credential.
pub fn evaluate_connect(method: &str, protocol: Option<&str>, headers: &http::HeaderMap) -> (r:
    ConnectDecision)
    ensures
        decides(
            method@,
            match protocol {
                Some(p) => Some(p@),
                None => None,
            },
            *headers,
            r,
        ),
{
    if !same_text(method, "CONNECT") {
        return ConnectDecision::BadRequest(join2("expected CONNECT method, got ", method));
    }
    match protocol {
        None => {
            return ConnectDecision::BadRequest("missing :protocol pseudo-header".to_owned());
        },
        Some(other) => {
            if !same_text(other, "ssh3") {
                return ConnectDecision::BadRequest(
                    join3("expected :protocol \"ssh3\", got \"", other, "\""),
                );
            }
        },
    }
    let negotiated = negotiate_version(headers);
    let ghost v = negotiated;
    assert(version::version_ends(*headers, v));
    match negotiated {
        Err(e) => ConnectDecision::BadRequest(
            join2("version negotiation failed: ", e.to_string().as_str()),
        ),
        Ok(chosen) => match extract_auth_credential(headers) {
            Err(challenge) => ConnectDecision::Unauthorized {
                www_authenticate: challenge.www_authenticate,
            },
            Ok(credential) => {
                proof {
                    let values = outside::header_values(*headers);
                    let header = auth::header_text(values[version::version_header_name()][0])->0;
                    version::lemma_first_supported(version::split_all(header, ','));
                    version::lemma_supported_fits_header(chosen);
                }
                ConnectDecision::Accepted {
                    version_header: version_response_header(&chosen),
                    credential: Some(credential),
                }
            },
        },
    }
}

/// The bytes of a challenge in a header: `Basic` where the text cannot stand in one.
pub open spec fn is_challenge(value: Seq<u8>, text: &str) -> bool {
    if forall|i: int|
        0 <= i < text.spec_bytes().len() ==> outside::is_header_byte(
            #[trigger] text.spec_bytes()[i],
        ) {
        value == text.spec_bytes()
    } else {
        value == vstd::utf8::encode_utf8("Basic"@)
    }
}

/// The `WWW-Authenticate` header of the answer to a client that has to authenticate.
pub fn unauthorized_header(www_authenticate: &str) -> (r: http::HeaderValue)
    ensures
        is_challenge(outside::header_value_bytes(r), www_authenticate),
{
    match header_value_from_str(www_authenticate) {
        Some(v) => v,
        None => {
            let basic = "Basic";
            proof {
                reveal_strlit("Basic");
                vstd::utf8::is_ascii_chars_encode_utf8("Basic"@);
            }
            match header_value_from_str(basic) {
                Some(v) => v,
                None => vstd::pervasive::unreached(),
            }
        },
    }
}

/// The handler of CONNECT requests.
#[derive(Debug, Clone, Copy, PartialEq, Eq, Structural)]
pub struct Ssh3ConnectHandler;

impl Ssh3ConnectHandler {
    /// The handler.
    pub fn new() -> (r: Self)
        ensures
            r == Ssh3ConnectHandler,
    {
        Ssh3ConnectHandler
    }

    /// What is missing for a request to be handled, where something is: the registry
    /// of protocols, this protocol in it, or the number of the stream. The answer is
    /// then 500.
    pub fn missing_part(&self, protocols: bool, ssh3_protocol: bool, stream_id: bool) -> (r: Option<
        ServerError,
    >)
        ensures
            r == if !protocols {
                Some(ServerError::MissingProtocols)
            } else if !ssh3_protocol {
                Some(ServerError::MissingSsh3Protocol)
            } else if !stream_id {
                Some(ServerError::MissingStreamId)
            } else {
                None
            },
    {
        if !protocols {
            Some(ServerError::MissingProtocols)
        } else if !ssh3_protocol {
            Some(ServerError::MissingSsh3Protocol)
        } else if !stream_id {
            Some(ServerError::MissingStreamId)
        } else {
            None
        }
    }
}

impl Default for Ssh3ConnectHandler {
    fn default() -> (r: Self)
        ensures
            r == Ssh3ConnectHandler,
    {
        Ssh3ConnectHandler
    }
}

/// The credential that the session process is told: an empty one where there is none.
pub fn bootstrap_credential(credential: Option<AuthCredential>) -> (r: AuthCredential)
    ensures
        match credential {
            Some(c) => r == c,
            None => r matches AuthCredential::Basic { username, password } && username@
                == Seq::<char>::empty() && password@ == Seq::<char>::empty(),
        },
{
    match credential {
        Some(c) => c,
        None => {
            proof {
                reveal_strlit("");
            }
            AuthCredential::Basic { username: "".to_owned(), password: "".to_owned() }
        },
    }
}

/// What came back from the session process when its verdict on the user was awaited.
#[derive(Debug)]
pub enum AuthReply {
    /// A verdict.
    Result(AuthResult),
    /// The process closed the channel.
    Closed,
    /// The channel failed.
    Failed,
    /// Nothing, in time.
    TimedOut,
}

/// Whether the user is let in.
#[derive(Debug, Clone, Copy, PartialEq, Eq, Structural)]
pub enum AuthOutcome {
    Success,
    Unauthorized,
}

/// For how many seconds the verdict on the user is awaited.
pub const AUTH_TIMEOUT_SECS: u64 = 30;

/// A user is let in only on a verdict that says so.
pub fn receive_auth_result(reply: &AuthReply) -> (r: AuthOutcome)
    ensures
        r == (if reply matches AuthReply::Result(AuthResult::Success { .. }) {
            AuthOutcome::Success
        } else {
            AuthOutcome::Unauthorized
        }),
{
    match reply {
        AuthReply::Result(AuthResult::Success { .. }) => AuthOutcome::Success,
        _ => AuthOutcome::Unauthorized,
    }
}

/// What happened outside.
#[derive(Debug, Clone, Copy, PartialEq, Eq, Structural)]
pub enum ConnectEvent {
    /// The session program was looked for; it is there or not.
    Located(bool),
    /// The session process was to be started; it runs or not.
    Spawned(bool),
    /// The process was to be told what to do; it was or not.
    BootstrapSent(bool),
    /// The verdict on the user was awaited.
    Authenticated(AuthOutcome),
    /// The control stream was to be taken over; it was or not.
    ControlStarted(bool),
    /// The process, the transport or the control stream has ended.
    Exited,
}

/// What to do outside.
#[derive(Debug, Clone, Copy, PartialEq, Eq, Structural)]
pub enum ConnectAction {
    /// Look for the session program.
    LocateSessionBinary,
    /// Start the session process.
    SpawnChild,
    /// Serve the transport to the process.
    ServeTransport,
    /// Tell the process the credential and the conversation.
    SendBootstrap,
    /// Await the verdict on the user.
    AwaitAuth,
    /// Answer the request with this status; 200 comes with the version, 401 with a
    /// challenge.
    Respond(u16),
    /// Take the request's stream over as control stream.
    StartControl,
    /// Await that this is done.
    AwaitControlStart,
    /// Let global requests be handled, or no longer.
    SetReady(bool),
    /// Await the end of the process, the transport or the control stream.
    AwaitExit,
    /// Stop serving the transport.
    AbortTransport,
    /// Stop serving the control stream.
    AbortControl,
    /// Kill the session process.
    KillChild,
    /// Stop every listener of the conversation.
    CleanupListeners,
}

/// How far an accepted request has come.
#[derive(Debug, Clone, Copy, PartialEq, Eq, Structural)]
pub enum ConnectPhase {
    Locating,
    Spawning,
    Bootstrapping,
    Authenticating,
    ControlStarting,
    Supervising,
    Done,
}

/// What becomes of the conversation's slot.
#[derive(Debug, Clone, Copy, PartialEq, Eq, Structural)]
pub enum SlotChange {
    Keep,
    Become(ConversationState),
    Release,
}

/// The next phase, what to do, and what becomes of the slot, after an event in a phase
/// while the slot is in a state. An event that does not belong to the phase changes
/// nothing.
pub open spec fn connect_step(phase: ConnectPhase, state: ConversationState, e: ConnectEvent) -> (
    ConnectPhase,
    Seq<ConnectAction>,
    SlotChange,
) {
    match (phase, e) {
        (ConnectPhase::Locating, ConnectEvent::Located(found)) => if found {
            (ConnectPhase::Spawning, seq![ConnectAction::SpawnChild], SlotChange::Keep)
        } else {
            (ConnectPhase::Done, seq![ConnectAction::Respond(500)], SlotChange::Release)
        },
        (ConnectPhase::Spawning, ConnectEvent::Spawned(runs)) => if !runs {
            (ConnectPhase::Done, seq![ConnectAction::Respond(500)], SlotChange::Release)
        } else if state != ConversationState::Reserved {
            (
                ConnectPhase::Done,
                seq![
                    ConnectAction::ServeTransport,
                    ConnectAction::KillChild,
                    ConnectAction::Respond(500),
                ],
                SlotChange::Release,
            )
        } else {
            (
                ConnectPhase::Bootstrapping,
                seq![ConnectAction::ServeTransport, ConnectAction::SendBootstrap],
                SlotChange::Become(ConversationState::Authenticating),
            )
        },
        (ConnectPhase::Bootstrapping, ConnectEvent::BootstrapSent(sent)) => if sent {
            (ConnectPhase::Authenticating, seq![ConnectAction::AwaitAuth], SlotChange::Keep)
        } else {
            (
                ConnectPhase::Done,
                seq![ConnectAction::KillChild, ConnectAction::Respond(500)],
                SlotChange::Release,
            )
        },
        (ConnectPhase::Authenticating, ConnectEvent::Authenticated(outcome)) => if outcome
            == AuthOutcome::Unauthorized {
            (
                ConnectPhase::Done,
                seq![ConnectAction::KillChild, ConnectAction::Respond(401)],
                SlotChange::Release,
            )
        } else if state != ConversationState::Authenticating {
            (
                ConnectPhase::Done,
                seq![ConnectAction::Respond(200), ConnectAction::KillChild],
                SlotChange::Release,
            )
        } else {
            (
                ConnectPhase::ControlStarting,
                seq![
                    ConnectAction::Respond(200),
                    ConnectAction::StartControl,
                    ConnectAction::AwaitControlStart,
                ],
                SlotChange::Become(ConversationState::Active),
            )
        },
        (ConnectPhase::ControlStarting, ConnectEvent::ControlStarted(started)) => if started {
            (
                ConnectPhase::Supervising,
                seq![ConnectAction::SetReady(true), ConnectAction::AwaitExit],
                SlotChange::Keep,
            )
        } else {
            (
                ConnectPhase::Done,
                seq![ConnectAction::AbortControl, ConnectAction::KillChild],
                SlotChange::Release,
            )
        },
        (ConnectPhase::Supervising, ConnectEvent::Exited) => (
            ConnectPhase::Done,
            seq![
                ConnectAction::SetReady(false),
                ConnectAction::AbortTransport,
                ConnectAction::AbortControl,
                ConnectAction::KillChild,
                ConnectAction::CleanupListeners,
            ],
            SlotChange::Release,
        ),
        _ => (phase, Seq::empty(), SlotChange::Keep),
    }
}

/// An accepted request, with what holds its conversation.
pub enum AcceptedConnect {
    /// The session program is being looked for.
    Locating(ReservedConversation),
    /// The session process is being started.
    Spawning(ReservedConversation),
    /// The process is being told what to do.
    Bootstrapping(ReservedConversation),
    /// The verdict on the user is awaited.
    Authenticating(ReservedConversation),
    /// The control stream is being taken over.
    ControlStarting(ConversationLease),
    /// The conversation is on.
    Supervising(ConversationLease),
    /// There is nothing left to do.
    Done,
}

/// The slots after a change to the slot of a conversation.
pub open spec fn after_change(
    p: protocol::ProtocolView,
    id: u64,
    slot: u64,
    change: SlotChange,
) -> protocol::ProtocolView {
    match change {
        SlotChange::Keep => p,
        SlotChange::Become(state) => p.with_state(slot, state),
        SlotChange::Release => p.released(id, slot),
    }
}

impl AcceptedConnect {
    /// How far the request has come.
    pub open spec fn phase(&self) -> ConnectPhase {
        match self {
            AcceptedConnect::Locating(_) => ConnectPhase::Locating,
            AcceptedConnect::Spawning(_) => ConnectPhase::Spawning,
            AcceptedConnect::Bootstrapping(_) => ConnectPhase::Bootstrapping,
            AcceptedConnect::Authenticating(_) => ConnectPhase::Authenticating,
            AcceptedConnect::ControlStarting(_) => ConnectPhase::ControlStarting,
            AcceptedConnect::Supervising(_) => ConnectPhase::Supervising,
            AcceptedConnect::Done => ConnectPhase::Done,
        }
    }

    /// The conversation and its slot, unless there is nothing left to do.
    pub open spec fn holder(&self) -> Option<(u64, u64)> {
        match self {
            AcceptedConnect::Locating(c) => Some((c.id(), c.slot_number())),
            AcceptedConnect::Spawning(c) => Some((c.id(), c.slot_number())),
            AcceptedConnect::Bootstrapping(c) => Some((c.id(), c.slot_number())),
            AcceptedConnect::Authenticating(c) => Some((c.id(), c.slot_number())),
            AcceptedConnect::ControlStarting(c) => Some((c.id(), c.slot_number())),
            AcceptedConnect::Supervising(c) => Some((c.id(), c.slot_number())),
            AcceptedConnect::Done => None,
        }
    }

    /// The slot is held for the conversation.
    pub open spec fn held(&self, p: protocol::ProtocolView) -> bool {
        self.holder() matches Some((id, slot)) ==> p.holds(id, slot)
    }

    /// The slot that is held, unless there is nothing left to do.
    pub fn slot(&self) -> (r: Option<u64>)
        ensures
            r == match self.holder() {
                Some((_, slot)) => Some(slot),
                None => None,
            },
    {
        match self {
            AcceptedConnect::Locating(c) => Some(c.slot()),
            AcceptedConnect::Spawning(c) => Some(c.slot()),
            AcceptedConnect::Bootstrapping(c) => Some(c.slot()),
            AcceptedConnect::Authenticating(c) => Some(c.slot()),
            AcceptedConnect::ControlStarting(c) => Some(c.slot()),
            AcceptedConnect::Supervising(c) => Some(c.slot()),
            AcceptedConnect::Done => None,
        }
    }

    /// Starts with a reservation.
    pub fn handle_accepted_connect(protocol: &mut Ssh3Protocol, stream_id: u64) -> (r: (
        AcceptedConnect,
        Vec<ConnectAction>,
    ))
        requires
            old(protocol)@.wf(),
        ensures
            final(protocol)@.wf(),
            r.0.held(final(protocol)@),
            protocol::only_forward(old(protocol)@, final(protocol)@),
            protocol::others_untouched(old(protocol)@, final(protocol)@, stream_id),
            if old(protocol)@.next == u64::MAX {
                &&& r.0 == AcceptedConnect::Done
                &&& r.1@ == seq![ConnectAction::Respond(500)]
                &&& final(protocol)@ == old(protocol)@
            } else {
                &&& r.0.phase() == ConnectPhase::Locating
                &&& r.0.holder() == Some((stream_id, old(protocol)@.next))
                &&& r.1@ == seq![ConnectAction::LocateSessionBinary]
                &&& final(protocol)@ == old(protocol)@.with_slot(
                    stream_id,
                    (protocol::Slot { state: ConversationState::Reserved, held: true }),
                )
            },
    {
        let mut actions: Vec<ConnectAction> = Vec::new();
        match protocol.create_transport(stream_id) {
            Err(_) => {
                actions.push(ConnectAction::Respond(500));
                (AcceptedConnect::Done, actions)
            },
            Ok(reserved) => {
                actions.push(ConnectAction::LocateSessionBinary);
                (AcceptedConnect::Locating(reserved), actions)
            },
        }
    }

    /// Takes an event in: the next phase, and what to do in order.
    pub fn advance(self, event: ConnectEvent, protocol: &mut Ssh3Protocol) -> (r: (
        AcceptedConnect,
        Vec<ConnectAction>,
    ))
        requires
            old(protocol)@.wf(),
            self.held(old(protocol)@),
        ensures
            final(protocol)@.wf(),
            r.0.held(final(protocol)@),
            protocol::only_forward(old(protocol)@, final(protocol)@),
            match self.holder() {
                None => r.0.phase() == ConnectPhase::Done && r.1@ == Seq::<ConnectAction>::empty()
                    && final(protocol)@ == old(protocol)@,
                Some((id, slot)) => {
                    let (phase, actions, change) = connect_step(
                        self.phase(),
                        old(protocol)@.slots[slot].state,
                        event,
                    );
                    &&& r.0.phase() == phase
                    &&& r.1@ == actions
                    &&& final(protocol)@ == after_change(old(protocol)@, id, slot, change)
                    &&& r.0.holder() == if phase == ConnectPhase::Done {
                        None
                    } else {
                        Some((id, slot))
                    }
                    &&& protocol::others_untouched(old(protocol)@, final(protocol)@, id)
                },
            },
    {
        let mut actions: Vec<ConnectAction> = Vec::new();
        let next = match self {
            AcceptedConnect::Locating(reserved) => match event {
                ConnectEvent::Located(true) => {
                    actions.push(ConnectAction::SpawnChild);
                    AcceptedConnect::Spawning(reserved)
                },
                ConnectEvent::Located(false) => {
                    actions.push(ConnectAction::Respond(500));
                    reserved.release(protocol);
                    AcceptedConnect::Done
                },
                _ => AcceptedConnect::Locating(reserved),
            },
            AcceptedConnect::Spawning(reserved) => match event {
                ConnectEvent::Spawned(true) => {
                    actions.push(ConnectAction::ServeTransport);
                    match reserved.transition_to_authenticating(protocol) {
                        Ok(()) => {
                            actions.push(ConnectAction::SendBootstrap);
                            AcceptedConnect::Bootstrapping(reserved)
                        },
                        Err(_) => {
                            actions.push(ConnectAction::KillChild);
                            actions.push(ConnectAction::Respond(500));
                            reserved.release(protocol);
                            AcceptedConnect::Done
                        },
                    }
                },
                ConnectEvent::Spawned(false) => {
                    actions.push(ConnectAction::Respond(500));
                    reserved.release(protocol);
                    AcceptedConnect::Done
                },
                _ => AcceptedConnect::Spawning(reserved),
            },
            AcceptedConnect::Bootstrapping(reserved) => match event {
                ConnectEvent::BootstrapSent(true) => {
                    actions.push(ConnectAction::AwaitAuth);
                    AcceptedConnect::Authenticating(reserved)
                },
                ConnectEvent::BootstrapSent(false) => {
                    actions.push(ConnectAction::KillChild);
                    actions.push(ConnectAction::Respond(500));
                    reserved.release(protocol);
                    AcceptedConnect::Done
                },
                _ => AcceptedConnect::Bootstrapping(reserved),
            },
            AcceptedConnect::Authenticating(reserved) => match event {
                ConnectEvent::Authenticated(AuthOutcome::Success) => {
                    actions.push(ConnectAction::Respond(200));
                    match reserved.consume_into_lease(protocol) {
                        Err(_) => {
                            actions.push(ConnectAction::KillChild);
                            AcceptedConnect::Done
                        },
                        Ok(lease) => {
                            actions.push(ConnectAction::StartControl);
                            match lease.transition_to_active(protocol) {
                                Ok(()) => {
                                    actions.push(ConnectAction::AwaitControlStart);
                                    AcceptedConnect::ControlStarting(lease)
                                },
                                Err(_) => {
                                    actions.push(ConnectAction::AbortControl);
                                    actions.push(ConnectAction::KillChild);
                                    lease.release(protocol);
                                    AcceptedConnect::Done
                                },
                            }
                        },
                    }
                },
                ConnectEvent::Authenticated(AuthOutcome::Unauthorized) => {
                    actions.push(ConnectAction::KillChild);
                    actions.push(ConnectAction::Respond(401));
                    reserved.release(protocol);
                    AcceptedConnect::Done
                },
                _ => AcceptedConnect::Authenticating(reserved),
            },
            AcceptedConnect::ControlStarting(lease) => match event {
                ConnectEvent::ControlStarted(true) => {
                    actions.push(ConnectAction::SetReady(true));
                    actions.push(ConnectAction::AwaitExit);
                    AcceptedConnect::Supervising(lease)
                },
                ConnectEvent::ControlStarted(false) => {
                    actions.push(ConnectAction::AbortControl);
                    actions.push(ConnectAction::KillChild);
                    lease.release(protocol);
                    AcceptedConnect::Done
                },
                _ => AcceptedConnect::ControlStarting(lease),
            },
            AcceptedConnect::Supervising(lease) => match event {
                ConnectEvent::Exited => {
                    actions.push(ConnectAction::SetReady(false));
                    actions.push(ConnectAction::AbortTransport);
                    actions.push(ConnectAction::AbortControl);
                    actions.push(ConnectAction::KillChild);
                    actions.push(ConnectAction::CleanupListeners);
                    lease.release(protocol);
                    AcceptedConnect::Done
                },
                _ => AcceptedConnect::Supervising(lease),
            },
            AcceptedConnect::Done => AcceptedConnect::Done,
        };
        proof {
            if let Some((id, slot)) = self.holder() {
                let (phase, expected, change) = connect_step(
                    self.phase(),
                    old(protocol)@.slots[slot].state,
                    event,
                );
                assert(actions@ =~= expected);
                assert(protocol@ =~= after_change(old(protocol)@, id, slot, change));
            }
        }
        (next, actions)
    }
}

/// An event, and the state of the slot when it happens.
pub type ConnectMoment = (ConversationState, ConnectEvent);

/// The phase after events from the start.
pub open spec fn connect_phase(es: Seq<ConnectMoment>) -> ConnectPhase
    decreases es.len(),
{
    if es.len() == 0 {
        ConnectPhase::Locating
    } else {
        connect_step(connect_phase(es.drop_last()), es.last().0, es.last().1).0
    }
}

/// Everything that was done, in order.
pub open spec fn connect_actions(es: Seq<ConnectMoment>) -> Seq<ConnectAction>
    decreases es.len(),
{
    if es.len() == 0 {
        seq![ConnectAction::LocateSessionBinary]
    } else {
        connect_actions(es.drop_last()) + connect_step(
            connect_phase(es.drop_last()),
            es.last().0,
            es.last().1,
        ).1
    }
}

/// The session process runs: it was started, and not killed since.
pub open spec fn child_runs(es: Seq<ConnectMoment>) -> bool
    decreases es.len(),
{
    if es.len() == 0 {
        false
    } else {
        let before = connect_phase(es.drop_last());
        let did = connect_step(before, es.last().0, es.last().1).1;
        let started = before == ConnectPhase::Spawning && es.last().1 == ConnectEvent::Spawned(true);
        (child_runs(es.drop_last()) || started) && !did.contains(ConnectAction::KillChild)
    }
}

/// How often the request was answered.
pub open spec fn responses(actions: Seq<ConnectAction>) -> nat
    decreases actions.len(),
{
    if actions.len() == 0 {
        0
    } else {
        responses(actions.drop_last()) + if actions.last() is Respond {
            1nat
        } else {
            0nat
        }
    }
}

/// The request has been answered by the time that a phase is reached.
pub open spec fn answered_by(phase: ConnectPhase) -> bool {
    phase == ConnectPhase::ControlStarting || phase == ConnectPhase::Supervising || phase
        == ConnectPhase::Done
}

proof fn lemma_responses_add(a: Seq<ConnectAction>, b: Seq<ConnectAction>)
    ensures
        responses(a + b) == responses(a) + responses(b),
    decreases b.len(),
{
    if b.len() == 0 {
        assert(a + b =~= a);
    } else {
        assert((a + b).drop_last() =~= a + b.drop_last());
        lemma_responses_add(a, b.drop_last());
    }
}

/// How often a step answers the request.
proof fn lemma_step_responses(phase: ConnectPhase, state: ConversationState, e: ConnectEvent)
    ensures
        responses(connect_step(phase, state, e).1) == (if answered_by(
            connect_step(phase, state, e).0,
        ) && !answered_by(phase) {
            1nat
        } else {
            0nat
        }),
{
    reveal_with_fuel(responses, 6);
    let did = connect_step(phase, state, e).1;
    if did.len() > 1 {
        assert(did.drop_last().len() == did.len() - 1);
    }
    if did.len() >= 2 {
        assert(did.drop_last().last() == did[did.len() - 2]);
    }
    if did.len() >= 3 {
        assert(did.drop_last().drop_last().last() == did[did.len() - 3]);
    }
    if did.len() >= 4 {
        assert(did.drop_last().drop_last().drop_last().last() == did[did.len() - 4]);
    }
    if did.len() >= 5 {
        assert(did.drop_last().drop_last().drop_last().drop_last().last() == did[did.len() - 5]);
    }
}

/// A request is never answered twice, and it has been answered once it is done with,
/// whatever happens.
pub proof fn lemma_answered_once(es: Seq<ConnectMoment>)
    ensures
        responses(connect_actions(es)) == if answered_by(connect_phase(es)) {
            1nat
        } else {
            0nat
        },
    decreases es.len(),
{
    if es.len() == 0 {
        reveal_with_fuel(responses, 2);
    } else {
        let before = es.drop_last();
        lemma_answered_once(before);
        lemma_step_responses(connect_phase(before), es.last().0, es.last().1);
        lemma_responses_add(
            connect_actions(before),
            connect_step(connect_phase(before), es.last().0, es.last().1).1,
        );
    }
}

/// The session process runs from when it was started until the request is done with,
/// and not any longer: none is left behind.
pub proof fn lemma_no_child_left(es: Seq<ConnectMoment>)
    ensures
        child_runs(es) == match connect_phase(es) {
            ConnectPhase::Locating => false,
            ConnectPhase::Spawning => false,
            ConnectPhase::Done => false,
            _ => true,
        },
    decreases es.len(),
{
    if es.len() > 0 {
        let before = es.drop_last();
        lemma_no_child_left(before);
        let phase = connect_phase(before);
        let did = connect_step(phase, es.last().0, es.last().1).1;
        if connect_phase(es) == ConnectPhase::Done {
            if phase == ConnectPhase::Spawning && es.last().1 == ConnectEvent::Spawned(true) {
                assert(did[1] == ConnectAction::KillChild);
            } else if phase == ConnectPhase::Bootstrapping {
                assert(did[0] == ConnectAction::KillChild);
            } else if phase == ConnectPhase::Authenticating {
                assert(did[0] == ConnectAction::KillChild || did[1] == ConnectAction::KillChild);
            } else if phase == ConnectPhase::ControlStarting {
                assert(did[1] == ConnectAction::KillChild);
            } else if phase == ConnectPhase::Supervising {
                assert(did[3] == ConnectAction::KillChild);
            }
        }
    }
}

/// The conversation is given up in the very step that ends the request, and in no
/// other.
pub proof fn lemma_released_when_done(phase: ConnectPhase, state: ConversationState, e: ConnectEvent)
    ensures
        connect_step(phase, state, e).2 == SlotChange::Release <==> phase != ConnectPhase::Done
            && connect_step(phase, state, e).0 == ConnectPhase::Done,
{
}

/// Global requests are let through only from when the user was let in and the control
/// stream was taken over, until the request is done with.
pub proof fn lemma_ready_only_while_supervising(
    phase: ConnectPhase,
    state: ConversationState,
    e: ConnectEvent,
)
    ensures
        ({
            let (next, did, change) = connect_step(phase, state, e);
            &&& did.contains(ConnectAction::SetReady(true)) <==> phase != ConnectPhase::Supervising
                && next == ConnectPhase::Supervising
            &&& did.contains(ConnectAction::SetReady(false)) <==> phase == ConnectPhase::Supervising
                && next != ConnectPhase::Supervising
            &&& next == ConnectPhase::Supervising && phase != next ==> phase
                == ConnectPhase::ControlStarting
            &&& next == ConnectPhase::ControlStarting && phase != next ==> e
                == ConnectEvent::Authenticated(AuthOutcome::Success)
        }),
{
    let (next, did, change) = connect_step(phase, state, e);
    if phase == ConnectPhase::ControlStarting && e == ConnectEvent::ControlStarted(true) {
        assert(did[0] == ConnectAction::SetReady(true));
    }
    if phase == ConnectPhase::Supervising && e == ConnectEvent::Exited {
        assert(did[0] == ConnectAction::SetReady(false));
    }
}

} // verus!
