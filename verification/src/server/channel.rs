//! Global requests, and the channels that are refused.
//!
//! A global request arrives on the control stream of a conversation, asks for a
//! listener to be started or stopped, and is answered there. At most one is handled
//! at a time, and none before the conversation is ready.

use crate::proto::session::{SessionError, TransportError};
use crate::proto::varint;
use crate::proto::wire;
use crate::proto::wire::{
    StreamlocalForwardRequest, TcpipForwardReply, TcpipForwardRequest, WireError,
};
use crate::server::forward::reverse_tcp::ReverseTcpForwarder;
use crate::server::forward::streamlocal::{ReverseStreamlocalForwarder, StoppedSocket};
use crate::server::forward::table::Listener;
use crate::server::message;
use crate::server::message::{open_failure, StreamMessage, UNKNOWN_CHANNEL_TYPE};
use crate::text;
use crate::text::{decimal_string, join3, same_text};
use vstd::prelude::*;
use vstd::string::*;

verus! {

/// The message for a channel whose type is not known.
pub fn handle_unknown_channel() -> (r: StreamMessage)
    ensures
        message::refuses(r, UNKNOWN_CHANNEL_TYPE, "unknown channel type"@),
{
    open_failure(UNKNOWN_CHANNEL_TYPE, "unknown channel type")
}

/// The message for a channel that carries global requests: they belong on the
/// control stream.
pub fn reject_legacy_global_request_channel() -> (r: StreamMessage)
    ensures
        message::refuses(
            r,
            UNKNOWN_CHANNEL_TYPE,
            "legacy global-request channel path rejected; use control stream"@,
        ),
{
    open_failure(
        UNKNOWN_CHANNEL_TYPE,
        "legacy global-request channel path rejected; use control stream",
    )
}

/// The outcome of a global request.
#[derive(Debug, Clone, PartialEq, Eq)]
pub enum GlobalRequestReply {
    /// It was met; there may be something to tell.
    Success(Vec<u8>),
    /// It was not met.
    Failure,
}

/// The message that tells the outcome of a global request.
pub open spec fn reply_message(reply: GlobalRequestReply) -> StreamMessage {
    match reply {
        GlobalRequestReply::Success(data) => StreamMessage::RequestSuccess { data },
        GlobalRequestReply::Failure => StreamMessage::RequestFailure,
    }
}

/// The message that tells the outcome of a global request.
pub fn encode_reply(reply: GlobalRequestReply) -> (r: StreamMessage)
    ensures
        r == reply_message(reply),
{
    match reply {
        GlobalRequestReply::Success(data) => StreamMessage::RequestSuccess { data },
        GlobalRequestReply::Failure => StreamMessage::RequestFailure,
    }
}

/// The number as a TCP port, or why it is none.
pub fn validate_global_request_port(bind_port: u32) -> (r: Result<u16, String>)
    ensures
        match r {
            Ok(port) => port == bind_port,
            Err(m) => bind_port > 65535 && m@ == "bind port "@ + text::decimal(bind_port as nat)
                + " is out of range for a TCP port"@,
        },
{
    if bind_port <= 65535 {
        Ok(bind_port as u16)
    } else {
        Err(
            join3(
                "bind port ",
                decimal_string(bind_port as u64).as_str(),
                " is out of range for a TCP port",
            ),
        )
    }
}

/// What a global request asks for.
#[derive(Debug, Clone, PartialEq, Eq)]
pub enum GlobalRequestPlan {
    /// Nothing that can be done.
    Refuse,
    /// To listen at a TCP address and port; port 0 is any that is free.
    BindTcp { address: String, port: u16 },
    /// To listen there no more.
    StopTcp { address: String, port: u16 },
    /// To listen at a Unix socket.
    BindSocket { path: String },
    /// To listen there no more.
    StopSocket { path: String },
}

/// The fields of a request to listen at a TCP address and port, or to stop.
pub open spec fn tcp_request(data: Seq<u8>) -> Result<(Seq<char>, nat), WireError> {
    match wire::take_fields(TcpipForwardRequest::kinds(), 0, data) {
        Err(e) => Err(e),
        Ok((fields, rest)) => Ok((fields[0]->Text_0, fields[1]->Number_0)),
    }
}

/// The field of a request to listen at a Unix socket, or to stop.
pub open spec fn socket_request(data: Seq<u8>) -> Result<Seq<char>, WireError> {
    match wire::take_fields(StreamlocalForwardRequest::kinds(), 0, data) {
        Err(e) => Err(e),
        Ok((fields, rest)) => Ok(fields[0]->Text_0),
    }
}

/// What a global request of a type, with its data, asks for. A port that is too
/// large makes it a request for nothing that can be done.
pub open spec fn plans(
    request_type: Seq<char>,
    data: Seq<u8>,
    r: Result<GlobalRequestPlan, WireError>,
) -> bool {
    if request_type == "tcpip-forward"@ || request_type == "cancel-tcpip-forward"@ {
        match tcp_request(data) {
            Err(e) => r == Err::<GlobalRequestPlan, WireError>(e),
            Ok((a, p)) => if p > 65535 {
                r == Ok::<GlobalRequestPlan, WireError>(GlobalRequestPlan::Refuse)
            } else if request_type == "tcpip-forward"@ {
                r matches Ok(GlobalRequestPlan::BindTcp { address, port }) && address@ == a && port
                    == p
            } else {
                r matches Ok(GlobalRequestPlan::StopTcp { address, port }) && address@ == a && port
                    == p
            },
        }
    } else if request_type == "streamlocal-forward@openssh.com"@ || request_type
        == "cancel-streamlocal-forward@openssh.com"@ {
        match socket_request(data) {
            Err(e) => r == Err::<GlobalRequestPlan, WireError>(e),
            Ok(p) => if request_type == "streamlocal-forward@openssh.com"@ {
                r matches Ok(GlobalRequestPlan::BindSocket { path }) && path@ == p
            } else {
                r matches Ok(GlobalRequestPlan::StopSocket { path }) && path@ == p
            },
        }
    } else {
        r == Ok::<GlobalRequestPlan, WireError>(GlobalRequestPlan::Refuse)
    }
}

/// Reads what a global request asks for.
pub fn plan_global_request(request_type: &str, data: &[u8]) -> (r: Result<
    GlobalRequestPlan,
    WireError,
>)
    ensures
        plans(request_type@, data@, r),
{
    let bind_tcp: bool = same_text(request_type, "tcpip-forward");
    let bind_socket: bool = same_text(request_type, "streamlocal-forward@openssh.com");
    if bind_tcp || same_text(request_type, "cancel-tcpip-forward") {
        match TcpipForwardRequest::decode(data) {
            Err(e) => Err(e),
            Ok((request, _)) => {
                assert(request.fields()[0] == wire::WireField::Text(request.bind_address@));
                assert(request.fields()[1] == wire::WireField::Number(request.bind_port as nat));
                match validate_global_request_port(request.bind_port) {
                    Err(_) => Ok(GlobalRequestPlan::Refuse),
                    Ok(port) => if bind_tcp {
                        Ok(GlobalRequestPlan::BindTcp { address: request.bind_address, port })
                    } else {
                        Ok(GlobalRequestPlan::StopTcp { address: request.bind_address, port })
                    },
                }
            },
        }
    } else if bind_socket || same_text(request_type, "cancel-streamlocal-forward@openssh.com") {
        match StreamlocalForwardRequest::decode(data) {
            Err(e) => Err(e),
            Ok((request, _)) => {
                assert(request.fields()[0] == wire::WireField::Text(request.socket_path@));
                if bind_socket {
                    Ok(GlobalRequestPlan::BindSocket { path: request.socket_path })
                } else {
                    Ok(GlobalRequestPlan::StopSocket { path: request.socket_path })
                }
            },
        }
    } else {
        Ok(GlobalRequestPlan::Refuse)
    }
}

/// What the global requests of a conversation act on.
pub struct GlobalRequestContext<T> {
    /// The TCP listeners of the connection.
    pub tcp_forwarder: ReverseTcpForwarder<T>,
    /// The Unix socket listeners of the connection.
    pub streamlocal_forwarder: ReverseStreamlocalForwarder<T>,
    /// The conversation.
    pub conversation_id: u64,
}

impl<T> GlobalRequestContext<T> {
    /// No address, port or path is listened at twice.
    pub open spec fn wf(&self) -> bool {
        self.tcp_forwarder.wf() && self.streamlocal_forwarder.wf()
    }

    /// The two hold the same listeners for the same conversation.
    pub open spec fn same(&self, other: &Self) -> bool {
        &&& self.tcp_forwarder@ == other.tcp_forwarder@
        &&& self.streamlocal_forwarder@ == other.streamlocal_forwarder@
        &&& self.conversation_id == other.conversation_id
    }
}

/// What to do about a global request.
pub enum GlobalRequestStep<T> {
    /// Answer it.
    Reply(GlobalRequestReply),
    /// Abort this listener, and answer the request.
    StoppedTcp { listener: Listener<T>, reply: GlobalRequestReply },
    /// Abort this listener, and answer the request.
    StoppedSocket { socket: StoppedSocket<T>, reply: GlobalRequestReply },
    /// Listen at a TCP address and port, and hand the outcome to `finish_tcp_bind`.
    BindTcp { address: String, port: u16 },
    /// Listen at a Unix socket, and hand the outcome to `finish_socket_bind`.
    BindSocket { path: String },
}

/// The request was met, and there is nothing to tell.
pub open spec fn plain_success(reply: GlobalRequestReply) -> bool {
    reply matches GlobalRequestReply::Success(told) && told@ == Seq::<u8>::empty()
}

/// What a plan comes to, given what is listened at.
pub open spec fn carries_out<T>(
    before: GlobalRequestContext<T>,
    plan: GlobalRequestPlan,
    after: GlobalRequestContext<T>,
    step: GlobalRequestStep<T>,
) -> bool {
    match plan {
        GlobalRequestPlan::Refuse => step == GlobalRequestStep::<T>::Reply(
            GlobalRequestReply::Failure,
        ) && after.same(&before),
        GlobalRequestPlan::BindTcp { address, port } => step == (GlobalRequestStep::<T>::BindTcp {
            address,
            port,
        }) && after.same(&before),
        GlobalRequestPlan::BindSocket { path } => step == (GlobalRequestStep::<T>::BindSocket {
            path,
        }) && after.same(&before),
        GlobalRequestPlan::StopTcp { address, port } => {
            let k = (address@, port);
            let m = before.tcp_forwarder@;
            if m.contains_key(k) && m[k].0 == before.conversation_id {
                &&& step matches GlobalRequestStep::StoppedTcp { listener: l, reply }
                &&& plain_success(reply)
                &&& l.key() == k
                &&& m[k] == (l.owner, l.task)
                &&& after.tcp_forwarder@ == m.remove(k)
                &&& after.streamlocal_forwarder@ == before.streamlocal_forwarder@
                &&& after.conversation_id == before.conversation_id
            } else {
                step == GlobalRequestStep::<T>::Reply(GlobalRequestReply::Failure) && after.same(
                    &before,
                )
            }
        },
        GlobalRequestPlan::StopSocket { path } => {
            let m = before.streamlocal_forwarder@;
            if m.contains_key(path@) && m[path@].0 == before.conversation_id {
                &&& step matches GlobalRequestStep::StoppedSocket { socket: l, reply }
                &&& plain_success(reply)
                &&& l.socket_path@ == path@
                &&& m[path@] == (l.owner, l.remove_file, l.task)
                &&& after.streamlocal_forwarder@ == m.remove(path@)
                &&& after.tcp_forwarder@ == before.tcp_forwarder@
                &&& after.conversation_id == before.conversation_id
            } else {
                step == GlobalRequestStep::<T>::Reply(GlobalRequestReply::Failure) && after.same(
                    &before,
                )
            }
        },
    }
}

/// Handles a global request as far as nothing has to be bound. Without a context it
/// is refused. A listener is stopped only for the conversation that it belongs to.
pub fn process_global_request<T>(
    request_type: &str,
    data: &[u8],
    global_ctx: Option<&mut GlobalRequestContext<T>>,
) -> (r: Result<GlobalRequestStep<T>, WireError>)
    requires
        global_ctx matches Some(ctx) ==> ctx.wf(),
    ensures
        match global_ctx {
            None => r == Ok::<GlobalRequestStep<T>, WireError>(
                GlobalRequestStep::Reply(GlobalRequestReply::Failure),
            ),
            Some(ctx) => {
                &&& final(ctx).wf()
                &&& match r {
                    Err(e) => plans(request_type@, data@, Err(e)) && final(ctx).same(&*ctx),
                    Ok(step) => exists|plan: GlobalRequestPlan| #[trigger]
                        plans(request_type@, data@, Ok(plan)) && carries_out(
                            *ctx,
                            plan,
                            *final(ctx),
                            step,
                        ),
                }
            },
        },
{
    let ctx = match global_ctx {
        None => return Ok(GlobalRequestStep::Reply(GlobalRequestReply::Failure)),
        Some(ctx) => ctx,
    };
    match plan_global_request(request_type, data) {
        Err(e) => Err(e),
        Ok(plan) => {
            assert(plans(request_type@, data@, Ok(plan)));
            match plan {
                GlobalRequestPlan::Refuse => Ok(
                    GlobalRequestStep::Reply(GlobalRequestReply::Failure),
                ),
                GlobalRequestPlan::BindTcp { address, port } => Ok(
                    GlobalRequestStep::BindTcp { address, port },
                ),
                GlobalRequestPlan::BindSocket { path } => Ok(GlobalRequestStep::BindSocket { path }),
                GlobalRequestPlan::StopTcp { address, port } => {
                    let owner: u64 = ctx.conversation_id;
                    match ctx.tcp_forwarder.stop_listening(address.as_str(), port, owner) {
                        Some(listener) => Ok(
                            GlobalRequestStep::StoppedTcp {
                                listener,
                                reply: GlobalRequestReply::Success(Vec::new()),
                            },
                        ),
                        None => Ok(GlobalRequestStep::Reply(GlobalRequestReply::Failure)),
                    }
                },
                GlobalRequestPlan::StopSocket { path } => {
                    let owner: u64 = ctx.conversation_id;
                    match ctx.streamlocal_forwarder.stop_listening(path.as_str(), owner) {
                        Some(socket) => Ok(
                            GlobalRequestStep::StoppedSocket {
                                socket,
                                reply: GlobalRequestReply::Success(Vec::new()),
                            },
                        ),
                        None => Ok(GlobalRequestStep::Reply(GlobalRequestReply::Failure)),
                    }
                },
            }
        },
    }
}

/// Notes the outcome of listening at a TCP address: where it worked, the port is told
/// and the listener is kept for the conversation. A listener whose place it takes is
/// given back to be aborted.
pub fn finish_tcp_bind<T>(
    ctx: &mut GlobalRequestContext<T>,
    address: &str,
    bound: Option<(u16, T)>,
) -> (r: (GlobalRequestReply, Option<Listener<T>>))
    requires
        old(ctx).wf(),
    ensures
        final(ctx).wf(),
        final(ctx).conversation_id == old(ctx).conversation_id,
        final(ctx).streamlocal_forwarder@ == old(ctx).streamlocal_forwarder@,
        match bound {
            None => r.0 == GlobalRequestReply::Failure && r.1 is None
                && final(ctx).tcp_forwarder@ == old(ctx).tcp_forwarder@,
            Some((port, task)) => {
                let k = (address@, port);
                let m = old(ctx).tcp_forwarder@;
                &&& r.0 matches GlobalRequestReply::Success(told)
                &&& told@ == varint::varint_bytes(port as nat)
                &&& final(ctx).tcp_forwarder@ == m.insert(k, (old(ctx).conversation_id, task))
                &&& match r.1 {
                    Some(l) => m.contains_key(k) && l.key() == k && m[k] == (l.owner, l.task),
                    None => !m.contains_key(k),
                }
            },
        },
{
    match bound {
        None => (GlobalRequestReply::Failure, None),
        Some((port, task)) => {
            let owner: u64 = ctx.conversation_id;
            let displaced = ctx.tcp_forwarder.start_listening(address, port, owner, task);
            let reply = TcpipForwardReply { allocated_port: port as u32 };
            assert(reply.fields()[0] == wire::WireField::Number(port as nat));
            proof {
                reveal_with_fuel(wire::fields_bytes, 2);
                assert(wire::fields_bytes(reply.fields(), 0) =~= varint::varint_bytes(port as nat));
            }
            match reply.encode() {
                Some(told) => (GlobalRequestReply::Success(told), displaced),
                None => (GlobalRequestReply::Failure, displaced),
            }
        },
    }
}

/// Notes the outcome of listening at a Unix socket: where it worked, the listener is
/// kept for the conversation. A listener whose place it takes is given back to be
/// aborted; its socket file is not to be removed, being that of the new listener.
pub fn finish_socket_bind<T>(ctx: &mut GlobalRequestContext<T>, path: &str, bound: Option<T>) -> (r: (
    GlobalRequestReply,
    Option<StoppedSocket<T>>,
))
    requires
        old(ctx).wf(),
    ensures
        final(ctx).wf(),
        final(ctx).conversation_id == old(ctx).conversation_id,
        final(ctx).tcp_forwarder@ == old(ctx).tcp_forwarder@,
        match bound {
            None => r.0 == GlobalRequestReply::Failure && r.1 is None
                && final(ctx).streamlocal_forwarder@ == old(ctx).streamlocal_forwarder@,
            Some(task) => {
                let m = old(ctx).streamlocal_forwarder@;
                &&& plain_success(r.0)
                &&& final(ctx).streamlocal_forwarder@ == m.insert(
                    path@,
                    (old(ctx).conversation_id, true, task),
                )
                &&& match r.1 {
                    Some(l) => {
                        &&& m.contains_key(path@)
                        &&& l.socket_path@ == path@
                        &&& m[path@].0 == l.owner
                        &&& m[path@].2 == l.task
                        &&& !l.remove_file
                    },
                    None => !m.contains_key(path@),
                }
            },
        },
{
    match bound {
        None => (GlobalRequestReply::Failure, None),
        Some(task) => {
            let owner: u64 = ctx.conversation_id;
            let displaced = ctx.streamlocal_forwarder.start_listening(path, owner, task);
            (GlobalRequestReply::Success(Vec::new()), displaced)
        },
    }
}

/// What a global request was: its type, whether it is to be answered, and its data.
/// Any other message is none.
pub fn handle_global_request_channel(message: StreamMessage) -> (r: Option<(String, bool, Vec<u8>)>)
    ensures
        r == match message {
            StreamMessage::GlobalRequest { request_type, want_reply, data } => Some(
                (request_type, want_reply, data),
            ),
            _ => None,
        },
{
    match message {
        StreamMessage::GlobalRequest { request_type, want_reply, data } => Some(
            (request_type, want_reply, data),
        ),
        _ => None,
    }
}

/// How far a control stream has come.
#[derive(Debug, Clone, Copy, PartialEq, Eq, Structural)]
pub enum ControlPhase {
    /// Messages are read.
    Reading,
    /// The stream has ended, or could not be read further; a request that is being
    /// handled is still answered.
    Draining { failed: bool },
    /// The stream was closed for a message that does not belong there.
    Closed,
}

/// A control stream.
#[derive(Debug, Clone, Copy, PartialEq, Eq, Structural)]
pub struct ControlStream {
    /// How far it has come.
    pub phase: ControlPhase,
    /// Whether the request that is being handled is to be answered, where there is
    /// one.
    pub in_flight: Option<bool>,
    /// Whether something could not be written. Nothing is written from then on.
    pub write_failed: bool,
}

/// What happens to a control stream.
#[derive(Debug)]
pub enum ControlEvent {
    /// A message was read, while the conversation was ready or not.
    Message { ready: bool, message: StreamMessage },
    /// The stream has ended.
    End,
    /// The stream could not be read further.
    ReadFailed,
    /// The request that was being handled is done; there is no outcome where
    /// handling it failed.
    Handled(Option<GlobalRequestReply>),
    /// What was to be written last, or the end of the writing side, could not be.
    WriteFailed,
}

/// What to do with a control stream.
#[derive(Debug, Clone, PartialEq, Eq)]
pub enum ControlAction {
    /// Nothing.
    Wait,
    /// Write this message.
    Write(StreamMessage),
    /// Handle this request.
    Dispatch { request_type: String, data: Vec<u8> },
    /// Shut the writing side down.
    Shutdown,
}

/// A control stream at its start.
pub open spec fn control_start() -> ControlStream {
    ControlStream { phase: ControlPhase::Reading, in_flight: None, write_failed: false }
}

/// The state after an event, and what to do.
pub open spec fn control_step(s: ControlStream, e: ControlEvent) -> (ControlStream, ControlAction) {
    match e {
        ControlEvent::Message { ready, message } => if s.phase != ControlPhase::Reading {
            (s, ControlAction::Wait)
        } else {
            match message {
                StreamMessage::GlobalRequest { request_type, want_reply, data } => {
                    if !ready || s.in_flight is Some {
                        (s, s.answer(want_reply, GlobalRequestReply::Failure))
                    } else {
                        (
                            ControlStream { in_flight: Some(want_reply), ..s },
                            ControlAction::Dispatch { request_type, data },
                        )
                    }
                },
                _ => (
                    ControlStream { phase: ControlPhase::Closed, ..s },
                    if s.write_failed {
                        ControlAction::Wait
                    } else {
                        ControlAction::Shutdown
                    },
                ),
            }
        },
        ControlEvent::End => (s.ended(false), ControlAction::Wait),
        ControlEvent::ReadFailed => (s.ended(true), ControlAction::Wait),
        ControlEvent::Handled(outcome) => {
            let t = ControlStream { in_flight: None, ..s };
            if s.in_flight is None || s.phase == ControlPhase::Closed {
                (t, ControlAction::Wait)
            } else {
                (
                    t,
                    s.answer(
                        s.in_flight->0,
                        match outcome {
                            Some(reply) => reply,
                            None => GlobalRequestReply::Failure,
                        },
                    ),
                )
            }
        },
        ControlEvent::WriteFailed => (
            ControlStream { write_failed: true, ..s },
            ControlAction::Wait,
        ),
    }
}

impl ControlStream {
    /// The message that answers a request, where it is to be answered and can be.
    pub open spec fn answer(self, want_reply: bool, reply: GlobalRequestReply) -> ControlAction {
        if want_reply && !self.write_failed {
            ControlAction::Write(reply_message(reply))
        } else {
            ControlAction::Wait
        }
    }

    /// The state after the last message was read.
    pub open spec fn ended(self, failed: bool) -> ControlStream {
        ControlStream {
            phase: if self.phase == ControlPhase::Reading {
                ControlPhase::Draining { failed }
            } else {
                self.phase
            },
            ..self
        }
    }

    /// A control stream at its start.
    pub fn new() -> (r: Self)
        ensures
            r == control_start(),
    {
        ControlStream { phase: ControlPhase::Reading, in_flight: None, write_failed: false }
    }

    fn end(&mut self, failed: bool)
        ensures
            *final(self) == old(self).ended(failed),
    {
        match self.phase {
            ControlPhase::Reading => {
                self.phase = ControlPhase::Draining { failed };
            },
            _ => {},
        }
    }

    /// Takes an event in, and says what to do.
    pub fn serve_control_stream_global_requests(&mut self, event: ControlEvent) -> (r: ControlAction)
        ensures
            control_step(*old(self), event) == (*final(self), r),
    {
        match event {
            ControlEvent::Message { ready, message } => {
                match self.phase {
                    ControlPhase::Reading => {},
                    _ => return ControlAction::Wait,
                }
                match message {
                    StreamMessage::GlobalRequest { request_type, want_reply, data } => {
                        if !ready || self.in_flight.is_some() {
                            if want_reply && !self.write_failed {
                                ControlAction::Write(encode_reply(GlobalRequestReply::Failure))
                            } else {
                                ControlAction::Wait
                            }
                        } else {
                            self.in_flight = Some(want_reply);
                            ControlAction::Dispatch { request_type, data }
                        }
                    },
                    _ => {
                        self.phase = ControlPhase::Closed;
                        if self.write_failed {
                            ControlAction::Wait
                        } else {
                            ControlAction::Shutdown
                        }
                    },
                }
            },
            ControlEvent::End => {
                self.end(false);
                ControlAction::Wait
            },
            ControlEvent::ReadFailed => {
                self.end(true);
                ControlAction::Wait
            },
            ControlEvent::Handled(outcome) => {
                let in_flight = self.in_flight;
                self.in_flight = None;
                match self.phase {
                    ControlPhase::Closed => return ControlAction::Wait,
                    _ => {},
                }
                if self.write_failed {
                    return ControlAction::Wait;
                }
                match in_flight {
                    Some(true) => ControlAction::Write(
                        encode_reply(
                            match outcome {
                                Some(reply) => reply,
                                None => GlobalRequestReply::Failure,
                            },
                        ),
                    ),
                    _ => ControlAction::Wait,
                }
            },
            ControlEvent::WriteFailed => {
                self.write_failed = true;
                ControlAction::Wait
            },
        }
    }

    /// How the stream came out, once there is nothing left to do for it: whether it
    /// could be read to its end, and everything could be written. Where something could
    /// not be written, the request that is being handled is not waited for.
    pub fn finished(&self) -> (r: Option<bool>)
        ensures
            r == match self.phase {
                ControlPhase::Reading => None,
                ControlPhase::Closed => Some(!self.write_failed),
                ControlPhase::Draining { failed } => if self.write_failed {
                    Some(false)
                } else if self.in_flight is Some {
                    None
                } else {
                    Some(!failed)
                },
            },
    {
        match self.phase {
            ControlPhase::Reading => None,
            ControlPhase::Closed => Some(!self.write_failed),
            ControlPhase::Draining { failed } => if self.write_failed {
                Some(false)
            } else if self.in_flight.is_some() {
                None
            } else {
                Some(!failed)
            },
        }
    }
}

/// The state after events from the start.
pub open spec fn control_after(es: Seq<ControlEvent>) -> ControlStream
    decreases es.len(),
{
    if es.len() == 0 {
        control_start()
    } else {
        control_step(control_after(es.drop_last()), es.last()).0
    }
}

/// What was done after the last of some events.
pub open spec fn control_did(es: Seq<ControlEvent>) -> ControlAction {
    control_step(control_after(es.drop_last()), es.last()).1
}

/// How many requests were handed out to be handled.
pub open spec fn dispatched(es: Seq<ControlEvent>) -> nat
    decreases es.len(),
{
    if es.len() == 0 {
        0
    } else {
        dispatched(es.drop_last()) + if control_did(es) is Dispatch {
            1nat
        } else {
            0nat
        }
    }
}

/// How many requests were handled to their end.
pub open spec fn completed(es: Seq<ControlEvent>) -> nat
    decreases es.len(),
{
    if es.len() == 0 {
        0
    } else {
        completed(es.drop_last()) + if es.last() is Handled && control_after(
            es.drop_last(),
        ).in_flight is Some {
            1nat
        } else {
            0nat
        }
    }
}

/// How many requests that were read are to be answered.
pub open spec fn wanted(es: Seq<ControlEvent>) -> nat
    decreases es.len(),
{
    if es.len() == 0 {
        0
    } else {
        wanted(es.drop_last()) + if control_after(es.drop_last()).phase == ControlPhase::Reading
            && es.last() matches ControlEvent::Message {
            message: StreamMessage::GlobalRequest { want_reply: true, .. },
            ..
        } {
            1nat
        } else {
            0nat
        }
    }
}

/// How many answers were written.
pub open spec fn answered(es: Seq<ControlEvent>) -> nat
    decreases es.len(),
{
    if es.len() == 0 {
        0
    } else {
        answered(es.drop_last()) + if control_did(es) is Write {
            1nat
        } else {
            0nat
        }
    }
}

/// At most one request is being handled at any time, and it is the one that the state
/// holds.
pub proof fn lemma_one_in_flight(es: Seq<ControlEvent>)
    ensures
        dispatched(es) == completed(es) + if control_after(es).in_flight is Some {
            1nat
        } else {
            0nat
        },
    decreases es.len(),
{
    if es.len() > 0 {
        lemma_one_in_flight(es.drop_last());
    }
}

/// A request is handed out to be handled only while the conversation is ready and
/// nothing else is being handled.
pub proof fn lemma_dispatch_needs_ready(s: ControlStream, e: ControlEvent)
    ensures
        control_step(s, e).1 is Dispatch ==> s.in_flight is None && e matches ControlEvent::Message {
            ready: true,
            ..
        },
{
}

/// As long as the stream is not closed and can be written to, each request that wants an answer has got
/// exactly one, but for the one that is being handled.
pub proof fn lemma_every_request_answered(es: Seq<ControlEvent>)
    requires
        control_after(es).phase != ControlPhase::Closed,
        !control_after(es).write_failed,
    ensures
        wanted(es) == answered(es) + if control_after(es).in_flight == Some(true) {
            1nat
        } else {
            0nat
        },
    decreases es.len(),
{
    if es.len() > 0 {
        lemma_every_request_answered(es.drop_last());
    }
}

/// Once something could not be written, nothing is written any more, and that is not
/// forgotten.
pub proof fn lemma_no_write_after_failure(s: ControlStream, e: ControlEvent)
    requires
        s.write_failed,
    ensures
        ({
            let (t, did) = control_step(s, e);
            t.write_failed && !(did is Write) && !(did is Shutdown)
        }),
{
}

/// Where the opening of a channel failed.
#[derive(Debug, Clone, Copy, PartialEq, Eq, Structural)]
pub enum OpenChannelStage {
    /// No stream could be opened.
    OpenStream,
    /// The header could not be written.
    WriteHeader,
    /// The header could not be sent off.
    FlushHeader,
}

/// The error for a channel that could not be opened.
pub fn open_channel_error(stage: OpenChannelStage) -> (r: TransportError)
    ensures
        r matches TransportError::OpenFailed(m) && m@ == match stage {
            OpenChannelStage::OpenStream => "failed to open stream"@,
            OpenChannelStage::WriteHeader => "failed to write channel header"@,
            OpenChannelStage::FlushHeader => "failed to flush channel header"@,
        },
{
    TransportError::OpenFailed(
        match stage {
            OpenChannelStage::OpenStream => "failed to open stream",
            OpenChannelStage::WriteHeader => "failed to write channel header",
            OpenChannelStage::FlushHeader => "failed to flush channel header",
        }.to_owned(),
    )
}

/// What a session gets of a channel that was to be opened for it: the channel, or an
/// error that does not tell why there is none.
pub fn handle_open_channel_request<C>(opened: Result<C, TransportError>) -> (r: Result<
    C,
    SessionError,
>)
    ensures
        match opened {
            Ok(channel) => r == Ok::<C, SessionError>(channel),
            Err(_) => r matches Err(SessionError::Message(m)) && m@ == "failed to open channel"@,
        },
{
    match opened {
        Ok(channel) => Ok(channel),
        Err(_) => Err(SessionError::Message("failed to open channel".to_owned())),
    }
}

} // verus!
