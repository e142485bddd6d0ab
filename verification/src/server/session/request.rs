//! The requests on a session channel, and the command that one of them starts.

use crate::proto::wire;
use crate::proto::wire::{
    ExecRequest, ExitSignalRequest, ExitStatusRequest, PtyRequest, SignalRequest, SubsystemRequest,
    WindowChangeRequest, WireError,
};
use crate::server::message::StreamMessage;
use crate::server::session::pty;
use crate::server::session::pty::validate_window_change_dimensions;
use crate::server::session::signal;
use crate::server::session::signal::{deliver_signal, Signal};
use crate::text::same_text;
use vstd::prelude::*;
use vstd::string::*;
use vstd::utf8::*;

verus! {

/// What a message on a session channel means to the session.
#[derive(Debug, Clone, PartialEq, Eq)]
pub enum ChannelEvent {
    Data(Vec<u8>),
    ExtendedData { data_type: u64, data: Vec<u8> },
    Request { request_type: String, want_reply: bool, request_data: Vec<u8> },
    Eof,
    Close,
}

/// What a message means to the session; an answer to something that was never asked,
/// and a message that does not belong on the channel, mean nothing.
pub open spec fn event_of(m: StreamMessage) -> Option<ChannelEvent> {
    match m {
        StreamMessage::ChannelData { data } => Some(ChannelEvent::Data(data)),
        StreamMessage::ChannelExtendedData { data_type, data } => Some(
            ChannelEvent::ExtendedData { data_type, data },
        ),
        StreamMessage::ChannelRequest { request_type, want_reply, data } => Some(
            ChannelEvent::Request { request_type, want_reply, request_data: data },
        ),
        StreamMessage::ChannelEof => Some(ChannelEvent::Eof),
        StreamMessage::ChannelClose => Some(ChannelEvent::Close),
        _ => None,
    }
}

/// What a message means to the session.
pub fn channel_event(message: StreamMessage) -> (r: Option<ChannelEvent>)
    ensures
        r == event_of(message),
{
    match message {
        StreamMessage::ChannelData { data } => Some(ChannelEvent::Data(data)),
        StreamMessage::ChannelExtendedData { data_type, data } => Some(
            ChannelEvent::ExtendedData { data_type, data },
        ),
        StreamMessage::ChannelRequest { request_type, want_reply, data } => Some(
            ChannelEvent::Request { request_type, want_reply, request_data: data },
        ),
        StreamMessage::ChannelEof => Some(ChannelEvent::Eof),
        StreamMessage::ChannelClose => Some(ChannelEvent::Close),
        _ => None,
    }
}

/// A request on a session channel.
#[derive(Debug, Clone, PartialEq, Eq)]
pub enum ChannelRequest {
    PtyReq { want_reply: bool, request: PtyRequest },
    Shell { want_reply: bool },
    Exec { want_reply: bool, request: ExecRequest },
    Subsystem { want_reply: bool, request: SubsystemRequest },
    WindowChange(WindowChangeRequest),
    Signal { want_reply: bool, request: SignalRequest },
    ExitStatus(ExitStatusRequest),
    ExitSignal(ExitSignalRequest),
    Unknown { request_type: String, want_reply: bool },
}

/// The kinds of the fields of a request of a known type.
pub open spec fn request_kinds(request_type: Seq<char>) -> Option<Seq<wire::FieldKind>> {
    if request_type == "pty-req"@ {
        Some(PtyRequest::kinds())
    } else if request_type == "shell"@ {
        Some(Seq::empty())
    } else if request_type == "exec"@ {
        Some(ExecRequest::kinds())
    } else if request_type == "subsystem"@ {
        Some(SubsystemRequest::kinds())
    } else if request_type == "window-change"@ {
        Some(WindowChangeRequest::kinds())
    } else if request_type == "signal"@ {
        Some(SignalRequest::kinds())
    } else if request_type == "exit-status"@ {
        Some(ExitStatusRequest::kinds())
    } else if request_type == "exit-signal"@ {
        Some(ExitSignalRequest::kinds())
    } else {
        None
    }
}

impl ChannelRequest {
    /// The type of the request.
    pub open spec fn request_type(self) -> Seq<char> {
        match self {
            ChannelRequest::PtyReq { .. } => "pty-req"@,
            ChannelRequest::Shell { .. } => "shell"@,
            ChannelRequest::Exec { .. } => "exec"@,
            ChannelRequest::Subsystem { .. } => "subsystem"@,
            ChannelRequest::WindowChange(_) => "window-change"@,
            ChannelRequest::Signal { .. } => "signal"@,
            ChannelRequest::ExitStatus(_) => "exit-status"@,
            ChannelRequest::ExitSignal(_) => "exit-signal"@,
            ChannelRequest::Unknown { request_type, .. } => request_type@,
        }
    }

    /// The fields of the request.
    pub open spec fn fields(self) -> Seq<wire::WireField> {
        match self {
            ChannelRequest::PtyReq { request, .. } => request.fields(),
            ChannelRequest::Shell { .. } => Seq::empty(),
            ChannelRequest::Exec { request, .. } => request.fields(),
            ChannelRequest::Subsystem { request, .. } => request.fields(),
            ChannelRequest::WindowChange(request) => request.fields(),
            ChannelRequest::Signal { request, .. } => request.fields(),
            ChannelRequest::ExitStatus(request) => request.fields(),
            ChannelRequest::ExitSignal(request) => request.fields(),
            ChannelRequest::Unknown { .. } => Seq::empty(),
        }
    }

    /// Whether the request is to be answered; some never are.
    pub open spec fn wants_reply(self) -> bool {
        match self {
            ChannelRequest::PtyReq { want_reply, .. } => want_reply,
            ChannelRequest::Shell { want_reply } => want_reply,
            ChannelRequest::Exec { want_reply, .. } => want_reply,
            ChannelRequest::Subsystem { want_reply, .. } => want_reply,
            ChannelRequest::Signal { want_reply, .. } => want_reply,
            ChannelRequest::Unknown { want_reply, .. } => want_reply,
            _ => false,
        }
    }
}

/// The request of a type, with its data.
pub open spec fn parses(
    request_type: Seq<char>,
    want_reply: bool,
    data: Seq<u8>,
    r: Result<ChannelRequest, WireError>,
) -> bool {
    match request_kinds(request_type) {
        None => r matches Ok(q) && q matches ChannelRequest::Unknown {
            request_type: t,
            want_reply: w,
        } && t@ == request_type && w == want_reply,
        Some(kinds) => match wire::take_fields(kinds, 0, data) {
            Err(e) => r == Err::<ChannelRequest, WireError>(e),
            Ok((fields, rest)) => {
                &&& r matches Ok(q)
                &&& q !is Unknown
                &&& q.request_type() == request_type
                &&& q.fields() == fields
                &&& q !is WindowChange && q !is ExitStatus && q !is ExitSignal ==> q.wants_reply()
                    == want_reply
            },
        },
    }
}

/// Reads a request.
pub fn parse_channel_request(request_type: &str, want_reply: bool, data: &[u8]) -> (r: Result<
    ChannelRequest,
    WireError,
>)
    ensures
        parses(request_type@, want_reply, data@, r),
{
    if same_text(request_type, "pty-req") {
        match PtyRequest::decode(data) {
            Ok((request, _)) => Ok(ChannelRequest::PtyReq { want_reply, request }),
            Err(e) => Err(e),
        }
    } else if same_text(request_type, "shell") {
        Ok(ChannelRequest::Shell { want_reply })
    } else if same_text(request_type, "exec") {
        match ExecRequest::decode(data) {
            Ok((request, _)) => Ok(ChannelRequest::Exec { want_reply, request }),
            Err(e) => Err(e),
        }
    } else if same_text(request_type, "subsystem") {
        match SubsystemRequest::decode(data) {
            Ok((request, _)) => Ok(ChannelRequest::Subsystem { want_reply, request }),
            Err(e) => Err(e),
        }
    } else if same_text(request_type, "window-change") {
        match WindowChangeRequest::decode(data) {
            Ok((request, _)) => Ok(ChannelRequest::WindowChange(request)),
            Err(e) => Err(e),
        }
    } else if same_text(request_type, "signal") {
        match SignalRequest::decode(data) {
            Ok((request, _)) => Ok(ChannelRequest::Signal { want_reply, request }),
            Err(e) => Err(e),
        }
    } else if same_text(request_type, "exit-status") {
        match ExitStatusRequest::decode(data) {
            Ok((request, _)) => Ok(ChannelRequest::ExitStatus(request)),
            Err(e) => Err(e),
        }
    } else if same_text(request_type, "exit-signal") {
        match ExitSignalRequest::decode(data) {
            Ok((request, _)) => Ok(ChannelRequest::ExitSignal(request)),
            Err(e) => Err(e),
        }
    } else {
        Ok(ChannelRequest::Unknown { request_type: request_type.to_owned(), want_reply })
    }
}

/// What the session has to do for a request.
#[derive(Debug, Clone, PartialEq, Eq)]
pub enum RequestAction {
    /// Run a command.
    Exec(Vec<u8>),
    /// Run a shell.
    Shell,
    /// Make a terminal, and answer then, where an answer is wanted.
    AllocatePty(PtyRequest, bool),
    /// Change the size of the terminal.
    WindowChange(WindowChangeRequest),
    /// Send a signal.
    Signal(SignalRequest),
}

/// What the session has to do for a request.
pub open spec fn action_for(request: ChannelRequest) -> Option<RequestAction> {
    match request {
        ChannelRequest::PtyReq { want_reply, request } => Some(
            RequestAction::AllocatePty(request, want_reply),
        ),
        ChannelRequest::Shell { .. } => Some(RequestAction::Shell),
        ChannelRequest::Exec { request, .. } => Some(RequestAction::Exec(request.command)),
        ChannelRequest::WindowChange(request) => Some(RequestAction::WindowChange(request)),
        ChannelRequest::Signal { request, .. } => Some(RequestAction::Signal(request)),
        _ => None,
    }
}

/// The answer that is due at once: that of a terminal has to wait, and there is none
/// where none is wanted.
pub open spec fn reply_for(request: ChannelRequest) -> Option<StreamMessage> {
    match request {
        ChannelRequest::Shell { want_reply: true } => Some(StreamMessage::ChannelSuccess),
        ChannelRequest::Exec { want_reply: true, .. } => Some(StreamMessage::ChannelSuccess),
        ChannelRequest::Subsystem { want_reply: true, .. } => Some(StreamMessage::ChannelFailure),
        ChannelRequest::Unknown { want_reply: true, .. } => Some(StreamMessage::ChannelFailure),
        _ => None,
    }
}

/// What the session has to do for a request, and the answer that is due at once.
pub fn handle_request(request: ChannelRequest) -> (r: (Option<RequestAction>, Option<StreamMessage>))
    ensures
        r.0 == action_for(request),
        r.1 == reply_for(request),
{
    match request {
        ChannelRequest::PtyReq { want_reply, request } => (
            Some(RequestAction::AllocatePty(request, want_reply)),
            None,
        ),
        ChannelRequest::Shell { want_reply } => (
            Some(RequestAction::Shell),
            if want_reply {
                Some(StreamMessage::ChannelSuccess)
            } else {
                None
            },
        ),
        ChannelRequest::Exec { want_reply, request } => (
            Some(RequestAction::Exec(request.command)),
            if want_reply {
                Some(StreamMessage::ChannelSuccess)
            } else {
                None
            },
        ),
        ChannelRequest::Subsystem { want_reply, request: _ } => (
            None,
            if want_reply {
                Some(StreamMessage::ChannelFailure)
            } else {
                None
            },
        ),
        ChannelRequest::WindowChange(request) => (Some(RequestAction::WindowChange(request)), None),
        ChannelRequest::Signal { want_reply: _, request } => (
            Some(RequestAction::Signal(request)),
            None,
        ),
        ChannelRequest::ExitStatus(_) => (None, None),
        ChannelRequest::ExitSignal(_) => (None, None),
        ChannelRequest::Unknown { request_type: _, want_reply } => (
            None,
            if want_reply {
                Some(StreamMessage::ChannelFailure)
            } else {
                None
            },
        ),
    }
}

/// A request that wants an answer gets one at once, but for that of a terminal, which
/// comes later, and that of a signal, which never does; one that wants none gets none.
pub proof fn lemma_reply_iff_wanted(request: ChannelRequest)
    ensures
        reply_for(request) is Some <==> request.wants_reply() && request !is PtyReq && request
            !is Signal,
{
}

/// What a program is run with: a command is handed to the shell.
pub fn command_args(exec: Option<Vec<u8>>) -> (r: Vec<Vec<u8>>)
    ensures
        match exec {
            Some(command) => r@.len() == 2 && r@[0]@ == encode_utf8("-c"@) && r@[1] == command,
            None => r@.len() == 0,
        },
{
    let mut args: Vec<Vec<u8>> = Vec::new();
    match exec {
        None => {},
        Some(command) => {
            let mut flag: Vec<u8> = Vec::new();
            flag.extend_from_slice("-c".as_bytes());
            assert(flag@ =~= encode_utf8("-c"@));
            args.push(flag);
            args.push(command);
        },
    }
    args
}

/// The message that carries output of a command.
pub fn output_message(is_stdout: bool, data: Vec<u8>) -> (r: StreamMessage)
    ensures
        r == if is_stdout {
            StreamMessage::ChannelData { data }
        } else {
            StreamMessage::ChannelExtendedData { data_type: 1, data }
        },
{
    if is_stdout {
        StreamMessage::ChannelData { data }
    } else {
        StreamMessage::ChannelExtendedData { data_type: 1, data }
    }
}

/// How a process ended.
#[derive(Debug, Clone, Copy, PartialEq, Eq, Structural)]
pub struct ExitReport {
    /// The signal that ended it, where one did.
    pub signal: Option<Signal>,
    /// Whether it left a dump of its memory.
    pub core_dumped: bool,
    /// Its exit code, where it has one.
    pub code: Option<i32>,
}

/// The code that a client is told: 255 where there is none.
pub open spec fn told_code(report: ExitReport) -> u32 {
    match report.code {
        Some(code) => code as u32,
        None => 255,
    }
}

/// The message tells how a process ended: by the signal, where one ended it, and by its
/// code otherwise.
pub open spec fn tells_exit(m: StreamMessage, report: ExitReport) -> bool {
    &&& m matches StreamMessage::ChannelRequest { request_type, want_reply, data }
    &&& !want_reply
    &&& match report.signal {
        Some(by) => {
            &&& request_type@ == "exit-signal"@
            &&& data@ == wire::fields_bytes(
                seq![
                    wire::WireField::Text(signal::exit_name(by)),
                    wire::WireField::Flag(report.core_dumped),
                    wire::WireField::Text(""@),
                    wire::WireField::Text(""@),
                ],
                0,
            )
        },
        None => {
            &&& request_type@ == "exit-status"@
            &&& data@ == wire::fields_bytes(
                seq![wire::WireField::Number(told_code(report) as nat)],
                0,
            )
        },
    }
}

/// The message that tells how a process ended.
pub fn exit_message(report: &ExitReport) -> (r: StreamMessage)
    ensures
        tells_exit(r, *report),
{
    match report.signal {
        Some(by) => {
            let request = ExitSignalRequest {
                signal_name: by.told_name(),
                core_dumped: report.core_dumped,
                error_message: "".to_owned(),
                language_tag: "".to_owned(),
            };
            proof {
                signal::lemma_exit_name_short(by);
                reveal_strlit("");
                is_ascii_chars_encode_utf8(""@);
                assert(request.fields() =~= seq![
                    wire::WireField::Text(signal::exit_name(by)),
                    wire::WireField::Flag(report.core_dumped),
                    wire::WireField::Text(""@),
                    wire::WireField::Text(""@),
                ]);
                assert(wire::all_fit(request.fields()));
            }
            let data = match request.encode() {
                Some(data) => data,
                None => vstd::pervasive::unreached(),
            };
            StreamMessage::ChannelRequest {
                request_type: "exit-signal".to_owned(),
                want_reply: false,
                data,
            }
        },
        None => {
            let exit_status: u32 = match report.code {
                Some(code) => code as u32,
                None => 255,
            };
            StreamMessage::ChannelRequest {
                request_type: "exit-status".to_owned(),
                want_reply: false,
                data: encode_exit_status(exit_status),
            }
        },
    }
}

/// The data of a request that tells an exit code.
pub fn encode_exit_status(exit_status: u32) -> (r: Vec<u8>)
    ensures
        r@ == wire::fields_bytes(seq![wire::WireField::Number(exit_status as nat)], 0),
{
    let request = ExitStatusRequest { exit_status };
    assert(request.fields() =~= seq![wire::WireField::Number(exit_status as nat)]);
    assert(wire::all_fit(request.fields()));
    match request.encode() {
        Some(data) => data,
        None => vstd::pervasive::unreached(),
    }
}

/// How far a command has come.
#[derive(Debug, Clone, Copy, PartialEq, Eq, Structural)]
pub enum CommandPhase {
    /// It is being started.
    Spawning,
    /// Its output is being passed on.
    Copying,
    /// Its end is awaited.
    Waiting,
    /// It is over; well or not.
    Done { failed: bool },
}

/// How the output of a command ended.
#[derive(Debug, Clone, Copy, PartialEq, Eq, Structural)]
pub enum OutputEnd {
    /// There is no more.
    Closed,
    /// The terminal is gone.
    TerminalGone,
    /// It could not be read.
    Failed,
}

/// What happens to a command.
#[derive(Debug)]
pub enum CommandEvent {
    /// It was to be started; it runs or not.
    Spawned(bool),
    /// It wrote something.
    Output { is_stdout: bool, data: Vec<u8> },
    /// Its output has ended.
    OutputEnded(OutputEnd),
    /// It has ended; there is no report where its end could not be awaited.
    Exited(Option<ExitReport>),
    /// A message could not be written.
    WriteFailed,
}

/// The phase after an event. The end of a terminal is the end of the output of a
/// command that runs in one, and an error otherwise. Where a message could not be
/// written, all is over, and not well, though the message were the last.
pub open spec fn command_phase(phase: CommandPhase, pty: bool, e: CommandEvent) -> CommandPhase {
    match (phase, e) {
        (_, CommandEvent::WriteFailed) => CommandPhase::Done { failed: true },
        (CommandPhase::Spawning, CommandEvent::Spawned(runs)) => if runs {
            CommandPhase::Copying
        } else {
            CommandPhase::Done { failed: true }
        },
        (CommandPhase::Copying, CommandEvent::OutputEnded(end)) => if end == OutputEnd::Closed || (
        end == OutputEnd::TerminalGone && pty) {
            CommandPhase::Waiting
        } else {
            CommandPhase::Done { failed: true }
        },
        (CommandPhase::Waiting, CommandEvent::Exited(report)) => CommandPhase::Done {
            failed: report is None,
        },
        _ => phase,
    }
}

/// The messages that an event leads to.
pub open spec fn command_writes(phase: CommandPhase, e: CommandEvent, messages: Seq<StreamMessage>) -> bool {
    match (phase, e) {
        (CommandPhase::Spawning, CommandEvent::Spawned(false)) => messages == seq![
            StreamMessage::ChannelFailure,
        ],
        (CommandPhase::Copying, CommandEvent::Output { is_stdout, data }) => messages == seq![
            if is_stdout {
                StreamMessage::ChannelData { data }
            } else {
                StreamMessage::ChannelExtendedData { data_type: 1, data }
            },
        ],
        (CommandPhase::Waiting, CommandEvent::Exited(Some(report))) => {
            &&& messages.len() == 3
            &&& tells_exit(messages[0], report)
            &&& messages[1] == StreamMessage::ChannelEof
            &&& messages[2] == StreamMessage::ChannelClose
        },
        _ => messages.len() == 0,
    }
}

/// A command that runs for a session channel.
#[derive(Debug, Clone, Copy, PartialEq, Eq, Structural)]
pub struct CommandRun {
    /// How far it has come.
    pub phase: CommandPhase,
    /// Whether it runs in a terminal.
    pub pty: bool,
}

impl CommandRun {
    /// A command that is being started.
    pub fn new(pty: bool) -> (r: Self)
        ensures
            r == (CommandRun { phase: CommandPhase::Spawning, pty }),
    {
        CommandRun { phase: CommandPhase::Spawning, pty }
    }

    /// Takes an event in: the messages to write, in order.
    pub fn advance(&mut self, event: CommandEvent) -> (r: Vec<StreamMessage>)
        ensures
            final(self).pty == old(self).pty,
            final(self).phase == command_phase(old(self).phase, old(self).pty, event),
            command_writes(old(self).phase, event, r@),
    {
        let mut messages: Vec<StreamMessage> = Vec::new();
        match (self.phase, event) {
            (_, CommandEvent::WriteFailed) => {
                self.phase = CommandPhase::Done { failed: true };
            },
            (CommandPhase::Spawning, CommandEvent::Spawned(runs)) => {
                if runs {
                    self.phase = CommandPhase::Copying;
                } else {
                    self.phase = CommandPhase::Done { failed: true };
                    messages.push(StreamMessage::ChannelFailure);
                }
            },
            (CommandPhase::Copying, CommandEvent::Output { is_stdout, data }) => {
                messages.push(output_message(is_stdout, data));
            },
            (CommandPhase::Copying, CommandEvent::OutputEnded(end)) => {
                if end == OutputEnd::Closed || (end == OutputEnd::TerminalGone && self.pty) {
                    self.phase = CommandPhase::Waiting;
                } else {
                    self.phase = CommandPhase::Done { failed: true };
                }
            },
            (CommandPhase::Waiting, CommandEvent::Exited(outcome)) => {
                match outcome {
                    Some(report) => {
                        messages.push(exit_message(&report));
                        messages.push(StreamMessage::ChannelEof);
                        messages.push(StreamMessage::ChannelClose);
                        self.phase = CommandPhase::Done { failed: false };
                    },
                    None => {
                        self.phase = CommandPhase::Done { failed: true };
                    },
                }
            },
            _ => {},
        }
        messages
    }
}

/// The phase after events from the start.
pub open spec fn command_after(pty: bool, es: Seq<CommandEvent>) -> CommandPhase
    decreases es.len(),
{
    if es.len() == 0 {
        CommandPhase::Spawning
    } else {
        command_phase(command_after(pty, es.drop_last()), pty, es.last())
    }
}

/// How often the end of the command was told.
pub open spec fn exits_told(pty: bool, es: Seq<CommandEvent>) -> nat
    decreases es.len(),
{
    if es.len() == 0 {
        0
    } else {
        exits_told(pty, es.drop_last()) + if command_after(pty, es.drop_last())
            == CommandPhase::Waiting && es.last() matches CommandEvent::Exited(Some(_)) {
            1nat
        } else {
            0nat
        }
    }
}

/// The end of a command is told exactly once where all went well, never before the
/// command is over, and never twice.
pub proof fn lemma_exit_told_once(pty: bool, es: Seq<CommandEvent>)
    ensures
        exits_told(pty, es) <= 1,
        command_after(pty, es) == (CommandPhase::Done { failed: false }) ==> exits_told(pty, es)
            == 1,
        command_after(pty, es) !is Done ==> exits_told(pty, es) == 0,
    decreases es.len(),
{
    if es.len() > 0 {
        lemma_exit_told_once(pty, es.drop_last());
    }
}

/// Once a command is over, it stays over, and nothing more is written for it; where it
/// did not end well, that stays so.
pub proof fn lemma_silent_after_end(
    pty: bool,
    failed: bool,
    e: CommandEvent,
    messages: Seq<StreamMessage>,
)
    requires
        command_writes(CommandPhase::Done { failed }, e, messages),
    ensures
        messages.len() == 0,
        command_phase(CommandPhase::Done { failed }, pty, e) is Done,
        failed ==> command_phase(CommandPhase::Done { failed }, pty, e) == (CommandPhase::Done {
            failed,
        }),
{
}

/// What to do with an event while a command runs.
#[derive(Debug)]
pub enum InputStep {
    /// Nothing.
    Ignore,
    /// Write this to the command; where that fails, pass nothing on any more.
    Write(Vec<u8>),
    /// Send this signal to the command's group of processes.
    Signal(Signal),
    /// Give the terminal this size.
    Resize(libc::winsize),
    /// Pass nothing on any more: the command gets the end of its input.
    Stop,
}

/// What to do with an event while a command runs with the given number, in a terminal
/// or not. A request that cannot be read changes nothing.
pub open spec fn passes_on(pty: bool, child_pid: i32, e: ChannelEvent, r: InputStep) -> bool {
    match e {
        ChannelEvent::Data(data) => r == InputStep::Write(data),
        ChannelEvent::Eof => r is Stop,
        ChannelEvent::Request { request_type, want_reply, request_data } => {
            exists|q: Result<ChannelRequest, WireError>| #[trigger]
                parses(request_type@, want_reply, request_data@, q) && match q {
                    Ok(ChannelRequest::Signal { request, .. }) => match (if child_pid <= 0 {
                        None
                    } else {
                        signal::signal_named(request.signal_name@)
                    }) {
                        Some(signal) => r == InputStep::Signal(signal),
                        None => r is Ignore,
                    },
                    Ok(ChannelRequest::WindowChange(request)) => if pty {
                        exists|ws: Result<libc::winsize, pty::DimensionOverflow>| #[trigger]
                            pty::sizes(
                                request.width_cols,
                                request.height_rows,
                                request.width_px,
                                request.height_px,
                                ws,
                            ) && match ws {
                                Ok(ws) => r == InputStep::Resize(ws),
                                Err(_) => r is Ignore,
                            }
                    } else {
                        r is Ignore
                    },
                    _ => r is Ignore,
                }
        },
        _ => r is Ignore,
    }
}

/// Decides on an event while a command runs.
pub fn relay_input(pty: bool, child_pid: i32, event: ChannelEvent) -> (r: InputStep)
    ensures
        passes_on(pty, child_pid, event, r),
{
    match event {
        ChannelEvent::Data(data) => InputStep::Write(data),
        ChannelEvent::Eof => InputStep::Stop,
        ChannelEvent::Request { request_type, want_reply, request_data } => {
            let parsed = parse_channel_request(
                request_type.as_str(),
                want_reply,
                request_data.as_slice(),
            );
            assert(parses(request_type@, want_reply, request_data@, parsed));
            match parsed {
                Ok(ChannelRequest::Signal { want_reply: _, request }) => {
                    match deliver_signal(child_pid, request.signal_name.as_str()) {
                        Some(signal) => InputStep::Signal(signal),
                        None => InputStep::Ignore,
                    }
                },
                Ok(ChannelRequest::WindowChange(request)) => {
                    if !pty {
                        return InputStep::Ignore;
                    }
                    let size = validate_window_change_dimensions(&request);
                    assert(pty::sizes(
                        request.width_cols,
                        request.height_rows,
                        request.width_px,
                        request.height_px,
                        size,
                    ));
                    match size {
                        Ok(ws) => InputStep::Resize(ws),
                        Err(_) => InputStep::Ignore,
                    }
                },
                _ => InputStep::Ignore,
            }
        },
        _ => InputStep::Ignore,
    }
}

} // verus!
