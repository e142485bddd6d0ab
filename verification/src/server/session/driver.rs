//! The course of a session: from the user's rights to the channels, and on a session
//! channel from the first request to the command that ends it.

use crate::proto::session::{AuthResult, SessionError, SessionInit};
use crate::proto::wire;
use crate::proto::wire::{PtyRequest, WireError};
use crate::server::message::{open_confirmation, StreamMessage};
use crate::server::session::pty;
use crate::server::session::pty::{validate_pty_dimensions, validate_window_change_dimensions};
use crate::server::session::request;
use crate::server::session::request::{
    handle_request, parse_channel_request, ChannelEvent, ChannelRequest, RequestAction,
};
use crate::text;
use crate::text::{contains_char, decimal_string, join2, join3, same_text};
use vstd::prelude::*;
use vstd::string::*;

verus! {

/// A step on the way from the rights of the system to those of the user.
#[derive(Debug, Clone, Copy, PartialEq, Eq, Structural)]
pub enum PrivilegeOp {
    /// Take on the user's groups.
    InitGroups,
    /// Take on the user's own group.
    SetGid,
    /// Become the user.
    SetUid,
}

/// The text of the error for a step that failed.
pub open spec fn privilege_error(op: PrivilegeOp) -> Seq<char> {
    match op {
        PrivilegeOp::InitGroups => "initgroups failed"@,
        PrivilegeOp::SetGid => "setgid failed"@,
        PrivilegeOp::SetUid => "setuid failed"@,
    }
}

/// The step after one that worked.
pub open spec fn next_privilege_op(op: PrivilegeOp) -> Option<PrivilegeOp> {
    match op {
        PrivilegeOp::InitGroups => Some(PrivilegeOp::SetGid),
        PrivilegeOp::SetGid => Some(PrivilegeOp::SetUid),
        PrivilegeOp::SetUid => None,
    }
}

/// The first step. A name that holds a zero byte is no user's name.
pub fn start_privilege_transition(username: &str) -> (r: Result<PrivilegeOp, SessionError>)
    ensures
        if username@.contains('\0') {
            r matches Err(SessionError::Message(m)) && m@ == "invalid username for initgroups"@
        } else {
            r matches Ok(op) && op == PrivilegeOp::InitGroups
        },
{
    if contains_char(username, '\0') {
        Err(SessionError::new("invalid username for initgroups"))
    } else {
        Ok(PrivilegeOp::InitGroups)
    }
}

/// The next step after one that worked or not. After one that did not, there is none:
/// the session ends.
pub fn apply_privilege_transition(op: PrivilegeOp, worked: bool) -> (r: Result<
    Option<PrivilegeOp>,
    SessionError,
>)
    ensures
        if worked {
            r matches Ok(next) && next == next_privilege_op(op)
        } else {
            r matches Err(SessionError::Message(m)) && m@ == privilege_error(op)
        },
{
    if worked {
        Ok(
            match op {
                PrivilegeOp::InitGroups => Some(PrivilegeOp::SetGid),
                PrivilegeOp::SetGid => Some(PrivilegeOp::SetUid),
                PrivilegeOp::SetUid => None,
            },
        )
    } else {
        Err(
            SessionError::new(
                match op {
                    PrivilegeOp::InitGroups => "initgroups failed",
                    PrivilegeOp::SetGid => "setgid failed",
                    PrivilegeOp::SetUid => "setuid failed",
                },
            ),
        )
    }
}

/// The steps that were taken, where the given number of them worked before one failed.
pub open spec fn privilege_trace(op: PrivilegeOp, worked: nat) -> Seq<PrivilegeOp>
    decreases worked,
{
    if worked == 0 {
        seq![op]
    } else {
        match next_privilege_op(op) {
            None => seq![op],
            Some(next) => seq![op] + privilege_trace(next, (worked - 1) as nat),
        }
    }
}

/// The steps are taken in one order only, and none after the first that fails. The
/// user is become last, when every other right has been given up.
pub proof fn lemma_privilege_order(worked: nat)
    ensures
        privilege_trace(PrivilegeOp::InitGroups, worked) == (if worked == 0 {
            seq![PrivilegeOp::InitGroups]
        } else if worked == 1 {
            seq![PrivilegeOp::InitGroups, PrivilegeOp::SetGid]
        } else {
            seq![PrivilegeOp::InitGroups, PrivilegeOp::SetGid, PrivilegeOp::SetUid]
        }),
{
    reveal_with_fuel(privilege_trace, 4);
    let t = privilege_trace(PrivilegeOp::InitGroups, worked);
    if worked == 1 {
        assert(t =~= seq![PrivilegeOp::InitGroups, PrivilegeOp::SetGid]);
    } else if worked >= 2 {
        assert(t =~= seq![PrivilegeOp::InitGroups, PrivilegeOp::SetGid, PrivilegeOp::SetUid]);
    }
}

/// The first step of a session that a remote caller drives: it keeps the groups.
pub fn start_drop_privileges() -> (r: PrivilegeOp)
    ensures
        r == PrivilegeOp::SetGid,
{
    PrivilegeOp::SetGid
}

/// The next step of a session that a remote caller drives, after one that worked or that
/// failed with the system's own words. After one that failed, there is none.
pub fn drop_privileges(op: PrivilegeOp, uid: u32, gid: u32, failed: Option<&str>) -> (r: Result<
    Option<PrivilegeOp>,
    SessionError,
>)
    requires
        op == PrivilegeOp::SetGid || op == PrivilegeOp::SetUid,
    ensures
        match failed {
            None => r matches Ok(next) && next == next_privilege_op(op),
            Some(os_error) => {
                &&& r matches Err(SessionError::Message(m))
                &&& m@ == (if op == PrivilegeOp::SetUid {
                    "setuid("@ + text::decimal(uid as nat)
                } else {
                    "setgid("@ + text::decimal(gid as nat)
                }) + ") failed: "@ + os_error@
            },
        },
{
    let (call, id, next): (&str, u32, Option<PrivilegeOp>) = match op {
        PrivilegeOp::SetUid => ("setuid(", uid, None),
        _ => ("setgid(", gid, Some(PrivilegeOp::SetUid)),
    };
    match failed {
        None => Ok(next),
        Some(os_error) => {
            let head = join3(call, decimal_string(id as u64).as_str(), ") failed: ");
            Err(SessionError::new(join2(head.as_str(), os_error).as_str()))
        },
    }
}

/// A session that a remote caller drives takes its two steps in one order only, and the
/// second only where the first worked: once the user has been become, the group could no
/// longer be changed.
pub proof fn lemma_drop_order(worked: nat)
    ensures
        privilege_trace(PrivilegeOp::SetGid, worked) == (if worked == 0 {
            seq![PrivilegeOp::SetGid]
        } else {
            seq![PrivilegeOp::SetGid, PrivilegeOp::SetUid]
        }),
{
    reveal_with_fuel(privilege_trace, 3);
    if worked > 0 {
        assert(privilege_trace(PrivilegeOp::SetGid, worked) =~= seq![
            PrivilegeOp::SetGid,
            PrivilegeOp::SetUid,
        ]);
    }
}

/// What a session is set up with, where the user was let in.
pub fn session_init(conversation_id: u64, username: String, result: AuthResult) -> (r: Option<
    SessionInit,
>)
    ensures
        r == match result {
            AuthResult::Success { uid, gid, home, shell } => Some(
                SessionInit { conversation_id, username, uid, gid, home, shell },
            ),
            AuthResult::Failure { .. } => None,
        },
{
    match result {
        AuthResult::Success { uid, gid, home, shell } => Some(
            SessionInit { conversation_id, username, uid, gid, home, shell },
        ),
        AuthResult::Failure { reason: _ } => None,
    }
}

/// What serves a channel.
#[derive(Debug, Clone, Copy, PartialEq, Eq, Structural)]
pub enum ChannelRoute {
    Session,
    DirectTcp,
    DirectStreamlocal,
    Socks5,
    /// The channel is refused: global requests belong on the control stream.
    RejectGlobalRequest,
    /// The channel carries one global request.
    GlobalRequest,
}

/// What serves a channel of a session, by its type.
pub fn handle_channel(channel_type: &str) -> (r: Result<ChannelRoute, SessionError>)
    ensures
        if channel_type@ == "session"@ {
            r matches Ok(route) && route == ChannelRoute::Session
        } else if channel_type@ == "direct-tcpip"@ {
            r matches Ok(route) && route == ChannelRoute::DirectTcp
        } else if channel_type@ == "direct-streamlocal@openssh.com"@ {
            r matches Ok(route) && route == ChannelRoute::DirectStreamlocal
        } else if channel_type@ == "socks5"@ {
            r matches Ok(route) && route == ChannelRoute::Socks5
        } else if channel_type@ == "global-request"@ {
            r matches Ok(route) && route == ChannelRoute::RejectGlobalRequest
        } else {
            r matches Err(SessionError::Message(m)) && m@ == "unknown channel type"@
        },
{
    if same_text(channel_type, "session") {
        Ok(ChannelRoute::Session)
    } else if same_text(channel_type, "direct-tcpip") {
        Ok(ChannelRoute::DirectTcp)
    } else if same_text(channel_type, "direct-streamlocal@openssh.com") {
        Ok(ChannelRoute::DirectStreamlocal)
    } else if same_text(channel_type, "socks5") {
        Ok(ChannelRoute::Socks5)
    } else if same_text(channel_type, "global-request") {
        Ok(ChannelRoute::RejectGlobalRequest)
    } else {
        Err(SessionError::new("unknown channel type"))
    }
}

/// What serves a further channel of a session that a remote caller drives. A channel
/// with a global request is served only once the session has been set up.
pub fn handle_remote_channel(channel_type: &str, set_up: bool) -> (r: Result<
    ChannelRoute,
    SessionError,
>)
    ensures
        if channel_type@ == "direct-tcpip"@ {
            r matches Ok(route) && route == ChannelRoute::DirectTcp
        } else if channel_type@ == "direct-streamlocal@openssh.com"@ {
            r matches Ok(route) && route == ChannelRoute::DirectStreamlocal
        } else if channel_type@ == "socks5"@ {
            r matches Ok(route) && route == ChannelRoute::Socks5
        } else if channel_type@ == "global-request"@ {
            if set_up {
                r matches Ok(route) && route == ChannelRoute::GlobalRequest
            } else {
                r matches Err(SessionError::Message(m)) && m@ == "global context not initialized"@
            }
        } else {
            r matches Err(SessionError::Message(m)) && m@ == "unknown channel type: "@
                + channel_type@
        },
{
    if same_text(channel_type, "direct-tcpip") {
        Ok(ChannelRoute::DirectTcp)
    } else if same_text(channel_type, "direct-streamlocal@openssh.com") {
        Ok(ChannelRoute::DirectStreamlocal)
    } else if same_text(channel_type, "socks5") {
        Ok(ChannelRoute::Socks5)
    } else if same_text(channel_type, "global-request") {
        if set_up {
            Ok(ChannelRoute::GlobalRequest)
        } else {
            Err(SessionError::new("global context not initialized"))
        }
    } else {
        Err(SessionError::new(join2("unknown channel type: ", channel_type).as_str()))
    }
}

/// How a session channel treats its client.
#[derive(Debug, Clone, Copy, PartialEq, Eq, Structural)]
pub struct LoopStyle {
    /// A request for a terminal is answered.
    pub answers_pty: bool,
    /// The end of the client's side is answered.
    pub answers_end: bool,
}

/// What to do on a session channel.
#[derive(Debug)]
pub enum LoopStep {
    /// Write this message, where there is one, and go on.
    Continue(Option<StreamMessage>),
    /// Make a terminal of this size, and hand the outcome to `pty_allocated`.
    AllocatePty { request: PtyRequest, size: libc::winsize, want_reply: bool },
    /// Give the terminal this size, and go on.
    Resize(libc::winsize),
    /// Write this message, where there is one, and run this command, or a shell, in the
    /// terminal or not. The channel is then the command's.
    Run { command: Option<Vec<u8>>, in_pty: bool, reply: Option<StreamMessage> },
    /// Write this message, where there is one, and shut the writing side down or not:
    /// the channel has ended.
    End { message: Option<StreamMessage>, shutdown: bool },
    /// A request could not be read: the channel has failed.
    Fail(WireError),
}

/// The answer to a request for a terminal.
pub open spec fn pty_answer(style: LoopStyle, want_reply: bool, made: bool) -> Option<StreamMessage> {
    if style.answers_pty && want_reply {
        Some(
            if made {
                StreamMessage::ChannelSuccess
            } else {
                StreamMessage::ChannelFailure
            },
        )
    } else {
        None
    }
}

/// What a request on a session channel leads to. A terminal of an impossible size is
/// refused, and a size that the terminal cannot have leaves it as it is.
pub open spec fn serves_request(
    style: LoopStyle,
    pty: bool,
    q: ChannelRequest,
    after: bool,
    r: LoopStep,
) -> bool {
    match request::action_for(q) {
        None => after == pty && r == LoopStep::Continue(request::reply_for(q)),
        Some(RequestAction::Exec(command)) => !after && r == (LoopStep::Run {
            command: Some(command),
            in_pty: pty,
            reply: request::reply_for(q),
        }),
        Some(RequestAction::Shell) => !after && r == (LoopStep::Run {
            command: None,
            in_pty: pty,
            reply: request::reply_for(q),
        }),
        Some(RequestAction::AllocatePty(request, want_reply)) => after == pty && exists|
            ws: Result<libc::winsize, pty::DimensionOverflow>,
        | #[trigger]
            pty::sizes(
                request.width_cols,
                request.height_rows,
                request.width_px,
                request.height_px,
                ws,
            ) && match ws {
                Ok(size) => r == (LoopStep::AllocatePty { request, size, want_reply }),
                Err(_) => r == LoopStep::Continue(pty_answer(style, want_reply, false)),
            },
        Some(RequestAction::WindowChange(request)) => after == pty && if pty {
            exists|ws: Result<libc::winsize, pty::DimensionOverflow>| #[trigger]
                pty::sizes(
                    request.width_cols,
                    request.height_rows,
                    request.width_px,
                    request.height_px,
                    ws,
                ) && match ws {
                    Ok(size) => r == LoopStep::Resize(size),
                    Err(_) => r == LoopStep::Continue(None),
                }
        } else {
            r == LoopStep::Continue(None)
        },
        Some(RequestAction::Signal(_)) => after == pty && r == LoopStep::Continue(None),
    }
}

/// What an event on a session channel leads to, while there is a terminal or not.
pub open spec fn serves(style: LoopStyle, pty: bool, e: ChannelEvent, after: bool, r: LoopStep) -> bool {
    match e {
        ChannelEvent::Request { request_type, want_reply, request_data } => {
            exists|q: Result<ChannelRequest, WireError>| #[trigger]
                request::parses(request_type@, want_reply, request_data@, q) && match q {
                    Err(e) => after == pty && r == LoopStep::Fail(e),
                    Ok(q) => serves_request(style, pty, q, after, r),
                }
        },
        ChannelEvent::Eof => after == pty && r == (LoopStep::End {
            message: if style.answers_end {
                Some(StreamMessage::ChannelEof)
            } else {
                None
            },
            shutdown: style.answers_end,
        }),
        ChannelEvent::Close => after == pty && r == (LoopStep::End {
            message: if style.answers_end {
                Some(StreamMessage::ChannelClose)
            } else {
                None
            },
            shutdown: false,
        }),
        _ => after == pty && r == LoopStep::Continue(None),
    }
}

/// A session channel on which nothing runs yet.
#[derive(Debug, Clone, Copy, PartialEq, Eq, Structural)]
pub struct SessionLoop {
    /// How it treats its client.
    pub style: LoopStyle,
    /// Whether there is a terminal.
    pub pty: bool,
}

impl SessionLoop {
    /// A channel of a session that drives itself, and the message that confirms it, to be
    /// written first.
    pub fn driven() -> (r: (Self, StreamMessage))
        ensures
            r.0 == (SessionLoop {
                style: LoopStyle { answers_pty: true, answers_end: false },
                pty: false,
            }),
            r.1 == (StreamMessage::ChannelOpenConfirmation {
                max_message_size: wire::DEFAULT_MAX_MESSAGE_SIZE,
            }),
    {
        (
            SessionLoop { style: LoopStyle { answers_pty: true, answers_end: false }, pty: false },
            open_confirmation(),
        )
    }

    /// The channel of a session that a remote caller drives, and the message that confirms
    /// it, to be written first.
    pub fn remote() -> (r: (Self, StreamMessage))
        ensures
            r.0 == (SessionLoop {
                style: LoopStyle { answers_pty: false, answers_end: true },
                pty: false,
            }),
            r.1 == (StreamMessage::ChannelOpenConfirmation {
                max_message_size: wire::DEFAULT_MAX_MESSAGE_SIZE,
            }),
    {
        (
            SessionLoop { style: LoopStyle { answers_pty: false, answers_end: true }, pty: false },
            open_confirmation(),
        )
    }

    fn serve_request(&mut self, q: ChannelRequest) -> (r: LoopStep)
        ensures
            final(self).style == old(self).style,
            serves_request(old(self).style, old(self).pty, q, final(self).pty, r),
    {
        let (action, reply) = handle_request(q);
        match action {
            None => LoopStep::Continue(reply),
            Some(RequestAction::Exec(command)) => {
                let in_pty: bool = self.pty;
                self.pty = false;
                LoopStep::Run { command: Some(command), in_pty, reply }
            },
            Some(RequestAction::Shell) => {
                let in_pty: bool = self.pty;
                self.pty = false;
                LoopStep::Run { command: None, in_pty, reply }
            },
            Some(RequestAction::AllocatePty(request, want_reply)) => {
                let size = validate_pty_dimensions(&request);
                assert(pty::sizes(
                    request.width_cols,
                    request.height_rows,
                    request.width_px,
                    request.height_px,
                    size,
                ));
                match size {
                    Ok(size) => LoopStep::AllocatePty { request, size, want_reply },
                    Err(_) => LoopStep::Continue(self.pty_reply(want_reply, false)),
                }
            },
            Some(RequestAction::WindowChange(request)) => {
                if !self.pty {
                    return LoopStep::Continue(None);
                }
                let size = validate_window_change_dimensions(&request);
                assert(pty::sizes(
                    request.width_cols,
                    request.height_rows,
                    request.width_px,
                    request.height_px,
                    size,
                ));
                match size {
                    Ok(size) => LoopStep::Resize(size),
                    Err(_) => LoopStep::Continue(None),
                }
            },
            Some(RequestAction::Signal(_)) => LoopStep::Continue(None),
        }
    }

    /// Decides on an event.
    pub fn handle_session_requests(&mut self, event: ChannelEvent) -> (r: LoopStep)
        ensures
            final(self).style == old(self).style,
            serves(old(self).style, old(self).pty, event, final(self).pty, r),
    {
        match event {
            ChannelEvent::Request { request_type, want_reply, request_data } => {
                let parsed = parse_channel_request(
                    request_type.as_str(),
                    want_reply,
                    request_data.as_slice(),
                );
                assert(request::parses(request_type@, want_reply, request_data@, parsed));
                match parsed {
                    Err(e) => LoopStep::Fail(e),
                    Ok(q) => self.serve_request(q),
                }
            },
            ChannelEvent::Eof => LoopStep::End {
                message: if self.style.answers_end {
                    Some(StreamMessage::ChannelEof)
                } else {
                    None
                },
                shutdown: self.style.answers_end,
            },
            ChannelEvent::Close => LoopStep::End {
                message: if self.style.answers_end {
                    Some(StreamMessage::ChannelClose)
                } else {
                    None
                },
                shutdown: false,
            },
            _ => LoopStep::Continue(None),
        }
    }

    fn pty_reply(&self, want_reply: bool, made: bool) -> (r: Option<StreamMessage>)
        ensures
            r == pty_answer(self.style, want_reply, made),
    {
        if self.style.answers_pty && want_reply {
            Some(
                if made {
                    StreamMessage::ChannelSuccess
                } else {
                    StreamMessage::ChannelFailure
                },
            )
        } else {
            None
        }
    }

    /// Notes whether a terminal was made, and says what to answer. Where none was made,
    /// an earlier one stays.
    pub fn pty_allocated(&mut self, want_reply: bool, made: bool) -> (r: Option<StreamMessage>)
        ensures
            final(self).style == old(self).style,
            final(self).pty == (old(self).pty || made),
            r == pty_answer(old(self).style, want_reply, made),
    {
        if made {
            self.pty = true;
        }
        self.pty_reply(want_reply, made)
    }
}

/// The shell of a session: the one that is named, or `/bin/sh`.
pub fn default_shell(named: Option<String>) -> (r: String)
    ensures
        match named {
            Some(s) => r == s,
            None => r@ == "/bin/sh"@,
        },
{
    match named {
        Some(s) => s,
        None => "/bin/sh".to_owned(),
    }
}

} // verus!
