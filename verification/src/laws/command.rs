//! What runs in a session, and what is passed between it and the client.

use crate::laws::session as asked;
use crate::laws::wire as layout;
use crate::proto::session::{AuthResult, SessionError, SessionInit};
use crate::proto::wire;
use crate::proto::wire::{WireError, WireField};
use crate::server::message::StreamMessage;
use crate::server::session::command;
use crate::server::session::command::{
    ClientSessionMessage, CommandPlan, Relay, RelayAction, RelayEvent, ServerSessionMessage,
    UserContext, WaitStatus,
};
use crate::server::session::driver;
use crate::server::session::driver::{ChannelRoute, PrivilegeOp};
use crate::server::session::pty;
use crate::server::session::request;
use crate::server::session::request::{
    ChannelEvent, ChannelRequest, CommandEvent, CommandPhase, CommandRun, ExitReport, InputStep,
    OutputEnd,
};
use crate::server::session::signal;
use crate::server::session::signal::{KillNext, KillResult, Signal, SignalNumbers};
use vstd::prelude::*;
use vstd::string::*;
use vstd::utf8::*;

verus! {

/// Whatever the client sends as data reaches the command as it is, in a terminal or not,
/// and whatever the number of the command's process.
pub proof fn law_data_reaches_command(pty: bool, child_pid: i32, data: Vec<u8>, r: InputStep)
    requires
        call_ensures(request::relay_input, (pty, child_pid, ChannelEvent::Data(data)), r),
    ensures
        r == InputStep::Write(data),
{
}

/// The end of the client's side ends the command's input, and nothing else does; only data
/// is written to the command.
pub proof fn law_input_ends(pty: bool, child_pid: i32, event: ChannelEvent, r: InputStep)
    requires
        call_ensures(request::relay_input, (pty, child_pid, event), r),
    ensures
        r is Stop <==> event is Eof,
        r is Write <==> event is Data,
        event is Close || event is ExtendedData ==> r is Ignore,
        r is Resize ==> pty,
        r is Signal ==> child_pid > 0,
        r is Signal || r is Resize ==> event is Request,
{
    if let ChannelEvent::Request { request_type, want_reply, request_data } = event {
        let q = choose|q: Result<ChannelRequest, WireError>| #[trigger]
            request::parses(request_type@, want_reply, request_data@, q) && !(r is Stop) && !(
            r is Write) && (r is Resize ==> pty) && (r is Signal ==> child_pid > 0);
        assert(request::parses(request_type@, want_reply, request_data@, q));
    }
}

proof fn lemma_signal_names()
    ensures
        "HUP"@.len() == 3 && "INT"@.len() == 3 && "QUIT"@.len() == 4 && "KILL"@.len() == 4
            && "TERM"@.len() == 4 && "USR1"@.len() == 4 && "USR2"@.len() == 4,
        "HUP"@[0] == 'H' && "INT"@[0] == 'I' && "QUIT"@[0] == 'Q' && "KILL"@[0] == 'K'
            && "TERM"@[0] == 'T' && "USR1"@[0] == 'U' && "USR2"@[0] == 'U' && "USR1"@[3] == '1'
            && "USR2"@[3] == '2',
{
    reveal_strlit("HUP");
    reveal_strlit("INT");
    reveal_strlit("QUIT");
    reveal_strlit("KILL");
    reveal_strlit("TERM");
    reveal_strlit("USR1");
    reveal_strlit("USR2");
}

/// A client asks for a signal by its own name, and for no other by it.
pub proof fn law_signal_asked(name: &str, r: Option<Signal>)
    requires
        call_ensures(signal::signal_number, (name,), r),
    ensures
        r == Some(Signal::Hup) <==> name@ == "HUP"@,
        r == Some(Signal::Int) <==> name@ == "INT"@,
        r == Some(Signal::Quit) <==> name@ == "QUIT"@,
        r == Some(Signal::Kill) <==> name@ == "KILL"@,
        r == Some(Signal::Term) <==> name@ == "TERM"@,
        r == Some(Signal::Usr1) <==> name@ == "USR1"@,
        r == Some(Signal::Usr2) <==> name@ == "USR2"@,
        r is None <==> name@ != "HUP"@ && name@ != "INT"@ && name@ != "QUIT"@ && name@ != "KILL"@
            && name@ != "TERM"@ && name@ != "USR1"@ && name@ != "USR2"@,
{
    lemma_signal_names();
}

/// A signal that a client names is sent to the command, where the command runs and the
/// name is that of a signal; otherwise nothing happens.
pub proof fn law_signal_reaches_command(
    pty: bool,
    child_pid: i32,
    request_type: String,
    want_reply: bool,
    request_data: Vec<u8>,
    name: &str,
    rest: Seq<u8>,
    named: Option<Signal>,
    r: InputStep,
)
    requires
        call_ensures(
            request::relay_input,
            (pty, child_pid, ChannelEvent::Request { request_type, want_reply, request_data }),
            r,
        ),
        call_ensures(signal::signal_number, (name,), named),
        request_type@ == "signal"@,
        layout::readable(name@),
        request_data@ == layout::text(name@) + rest,
    ensures
        child_pid > 0 && named is Some ==> r == InputStep::Signal(named->0),
        child_pid <= 0 || named is None ==> r is Ignore,
{
    let q = choose|q: Result<ChannelRequest, WireError>| #[trigger]
        request::parses(request_type@, want_reply, request_data@, q) && match q {
            Ok(ChannelRequest::Signal { request, .. }) => match (if child_pid <= 0 {
                None
            } else {
                signal::signal_named(request.signal_name@)
            }) {
                Some(s) => r == InputStep::Signal(s),
                None => r is Ignore,
            },
            _ => true,
        };
    crate::laws::session::lemma_text_parsed(
        request_type@,
        want_reply,
        request_data@,
        name@,
        rest,
        q,
    );
}

/// While a command runs, no request but a signal and another size does anything.
pub proof fn law_other_requests_ignored(
    pty: bool,
    child_pid: i32,
    request_type: String,
    want_reply: bool,
    request_data: Vec<u8>,
    r: InputStep,
)
    requires
        call_ensures(
            request::relay_input,
            (pty, child_pid, ChannelEvent::Request { request_type, want_reply, request_data }),
            r,
        ),
        request_type@ != "signal"@ && request_type@ != "window-change"@,
    ensures
        r is Ignore,
{
    let q = choose|q: Result<ChannelRequest, WireError>| #[trigger]
        request::parses(request_type@, want_reply, request_data@, q) && match q {
            Ok(ChannelRequest::Signal { .. }) => true,
            Ok(ChannelRequest::WindowChange(_)) => true,
            _ => r is Ignore,
        };
    assert(request::parses(request_type@, want_reply, request_data@, q));
}

/// A command's terminal gets the size that a client names, where it can have it; otherwise
/// nothing happens.
pub proof fn law_resize_reaches_terminal(
    pty: bool,
    child_pid: i32,
    request_type: String,
    want_reply: bool,
    request_data: Vec<u8>,
    cols: nat,
    rows: nat,
    width_px: nat,
    height_px: nat,
    rest: Seq<u8>,
    r: InputStep,
)
    requires
        call_ensures(
            request::relay_input,
            (pty, child_pid, ChannelEvent::Request { request_type, want_reply, request_data }),
            r,
        ),
        request_type@ == "window-change"@,
        cols <= 0xffff_ffff && rows <= 0xffff_ffff && width_px <= 0xffff_ffff && height_px
            <= 0xffff_ffff,
        request_data@ == asked::size_data(cols, rows, width_px, height_px) + rest,
    ensures
        pty && asked::can_have(cols, rows, width_px, height_px) ==> (r matches InputStep::Resize(ws)
            && asked::is_size(ws, cols, rows, width_px, height_px)),
        !(pty && asked::can_have(cols, rows, width_px, height_px)) ==> r is Ignore,
{
    let q = choose|q: Result<ChannelRequest, WireError>| #[trigger]
        request::parses(request_type@, want_reply, request_data@, q) && match q {
            Ok(ChannelRequest::WindowChange(request)) => if pty {
                exists|ws: Result<libc::winsize, pty::DimensionOverflow>| #[trigger]
                    pty::sizes(
                        request.width_cols,
                        request.height_rows,
                        request.width_px,
                        request.height_px,
                        ws,
                    ) && match ws {
                        Ok(ws) => r == InputStep::Resize(ws),
                        Err(_) => r is Ignore,
                    }
            } else {
                r is Ignore
            },
            _ => true,
        };
    crate::laws::session::lemma_size_parsed(
        want_reply,
        request_data@,
        cols,
        rows,
        width_px,
        height_px,
        rest,
        q,
    );
}

/// A signal that goes to no group of processes goes to the process itself.
pub proof fn law_signal_falls_back(result: KillResult, r: KillNext)
    requires
        call_ensures(signal::after_group_kill, (result,), r),
    ensures
        r == KillNext::Done <==> result == KillResult::Delivered,
        r == KillNext::KillProcess <==> result == KillResult::NoSuchProcess,
        r == KillNext::Fail <==> result == KillResult::Failed,
{
}

/// Nothing is sent to a process that was not started.
pub proof fn law_signal_needs_process(
    child_pid: i32,
    name: &str,
    named: Option<Signal>,
    r: Option<Signal>,
)
    requires
        call_ensures(signal::deliver_signal, (child_pid, name), r),
        call_ensures(signal::signal_number, (name,), named),
    ensures
        child_pid > 0 ==> r == named,
        child_pid <= 0 ==> r is None,
{
}

/// A client is told of a signal by the signal's own name, or by its number.
pub proof fn law_signal_told(s: &Signal, r: String)
    requires
        call_ensures(Signal::told_name, (s,), r),
    ensures
        *s == Signal::Abrt ==> r@ == "ABRT"@,
        *s == Signal::Alrm ==> r@ == "ALRM"@,
        *s == Signal::Fpe ==> r@ == "FPE"@,
        *s == Signal::Hup ==> r@ == "HUP"@,
        *s == Signal::Ill ==> r@ == "ILL"@,
        *s == Signal::Int ==> r@ == "INT"@,
        *s == Signal::Quit ==> r@ == "QUIT"@,
        *s == Signal::Kill ==> r@ == "KILL"@,
        *s == Signal::Pipe ==> r@ == "PIPE"@,
        *s == Signal::Segv ==> r@ == "SEGV"@,
        *s == Signal::Term ==> r@ == "TERM"@,
        *s == Signal::Usr1 ==> r@ == "USR1"@,
        *s == Signal::Usr2 ==> r@ == "USR2"@,
        s matches Signal::Other(n) && n >= 0 ==> r@ == "signal-"@ + crate::text::decimal(
            s->Other_0 as nat,
        ) + "@genmeta-ssh3"@,
        s matches Signal::Other(n) && n < 0 ==> r@ == "signal-"@ + ("-"@ + crate::text::decimal(
            (-s->Other_0) as nat,
        )) + "@genmeta-ssh3"@,
{
}

/// A signal is known by the number that the system gives to it.
pub proof fn law_signal_numbered(numbers: &SignalNumbers, n: i32, r: Signal)
    requires
        call_ensures(Signal::numbered, (numbers, n), r),
        numbers.distinct(),
    ensures
        r == Signal::Abrt <==> n == numbers.abrt,
        r == Signal::Alrm <==> n == numbers.alrm,
        r == Signal::Fpe <==> n == numbers.fpe,
        r == Signal::Hup <==> n == numbers.hup,
        r == Signal::Ill <==> n == numbers.ill,
        r == Signal::Int <==> n == numbers.int,
        r == Signal::Quit <==> n == numbers.quit,
        r == Signal::Kill <==> n == numbers.kill,
        r == Signal::Pipe <==> n == numbers.pipe,
        r == Signal::Segv <==> n == numbers.segv,
        r == Signal::Term <==> n == numbers.term,
        r == Signal::Usr1 <==> n == numbers.usr1,
        r == Signal::Usr2 <==> n == numbers.usr2,
        r matches Signal::Other(m) ==> m == n,
{
    signal::lemma_signal_of_number(*numbers, Signal::Abrt, n);
    signal::lemma_signal_of_number(*numbers, Signal::Alrm, n);
    signal::lemma_signal_of_number(*numbers, Signal::Fpe, n);
    signal::lemma_signal_of_number(*numbers, Signal::Hup, n);
    signal::lemma_signal_of_number(*numbers, Signal::Ill, n);
    signal::lemma_signal_of_number(*numbers, Signal::Int, n);
    signal::lemma_signal_of_number(*numbers, Signal::Quit, n);
    signal::lemma_signal_of_number(*numbers, Signal::Kill, n);
    signal::lemma_signal_of_number(*numbers, Signal::Pipe, n);
    signal::lemma_signal_of_number(*numbers, Signal::Segv, n);
    signal::lemma_signal_of_number(*numbers, Signal::Term, n);
    signal::lemma_signal_of_number(*numbers, Signal::Usr1, n);
    signal::lemma_signal_of_number(*numbers, Signal::Usr2, n);
}

/// What a command writes reaches the client as it is: its output as data, its errors as
/// data of the other stream.
pub proof fn law_output_reaches_client(
    run: &mut CommandRun,
    is_stdout: bool,
    data: Vec<u8>,
    r: Vec<StreamMessage>,
)
    requires
        call_ensures(CommandRun::advance, (run, CommandEvent::Output { is_stdout, data }), r),
    ensures
        *final(run) == *old(run),
        old(run).phase == CommandPhase::Copying ==> r@.len() == 1 && r@[0] == if is_stdout {
            StreamMessage::ChannelData { data }
        } else {
            StreamMessage::ChannelExtendedData { data_type: 1, data }
        },
        old(run).phase != CommandPhase::Copying ==> r@.len() == 0,
{
}

/// A command that cannot be started is refused; one that runs is not spoken of.
pub proof fn law_start_told(run: &mut CommandRun, runs: bool, r: Vec<StreamMessage>)
    requires
        call_ensures(CommandRun::advance, (run, CommandEvent::Spawned(runs)), r),
        old(run).phase == CommandPhase::Spawning,
    ensures
        runs ==> r@.len() == 0 && final(run).phase == CommandPhase::Copying,
        !runs ==> r@ == seq![StreamMessage::ChannelFailure] && final(run).phase
            == (CommandPhase::Done { failed: true }),
        final(run).pty == old(run).pty,
{
}

/// The end of the output is awaited, then that of the command; the end of a terminal is an
/// end of the output only where the command runs in one.
pub proof fn law_output_ends(run: &mut CommandRun, end: OutputEnd, r: Vec<StreamMessage>)
    requires
        call_ensures(CommandRun::advance, (run, CommandEvent::OutputEnded(end)), r),
        old(run).phase == CommandPhase::Copying,
    ensures
        r@.len() == 0,
        final(run).pty == old(run).pty,
        end == OutputEnd::Closed ==> final(run).phase == CommandPhase::Waiting,
        end == OutputEnd::TerminalGone ==> final(run).phase == if old(run).pty {
            CommandPhase::Waiting
        } else {
            CommandPhase::Done { failed: true }
        },
        end == OutputEnd::Failed ==> final(run).phase == (CommandPhase::Done { failed: true }),
{
}

/// The message tells an exit code, and nothing else.
pub open spec fn tells_code(m: StreamMessage, code: nat) -> bool {
    m matches StreamMessage::ChannelRequest { request_type, want_reply, data } && request_type@
        == "exit-status"@ && !want_reply && data@ == layout::number(code)
}

/// The message tells a signal, and nothing else.
pub open spec fn tells_signal(m: StreamMessage, name: Seq<char>, core_dumped: bool) -> bool {
    m matches StreamMessage::ChannelRequest { request_type, want_reply, data } && request_type@
        == "exit-signal"@ && !want_reply
            && data@ == layout::text(name) + layout::flag(core_dumped) + layout::text(""@)
        + layout::text(""@)
}

proof fn lemma_code_told(code: nat)
    requires
        code < 0x1_0000_0000,
    ensures
        wire::fields_bytes(seq![WireField::Number(code)], 0) == layout::number(code),
{
    let fs = seq![WireField::Number(code)];
    reveal_with_fuel(wire::fields_bytes, 2);
    layout::lemma_field(fs[0]);
    assert(wire::fields_bytes(fs, 0) =~= layout::number(code));
}

proof fn lemma_signal_told(name: Seq<char>, core_dumped: bool)
    requires
        encode_utf8(name).len() <= 0x1_0000_0000,
    ensures
        wire::fields_bytes(
            seq![
                WireField::Text(name),
                WireField::Flag(core_dumped),
                WireField::Text(""@),
                WireField::Text(""@),
            ],
            0,
        ) == layout::text(name) + layout::flag(core_dumped) + layout::text(""@) + layout::text(""@),
{
    let fs = seq![
        WireField::Text(name),
        WireField::Flag(core_dumped),
        WireField::Text(""@),
        WireField::Text(""@),
    ];
    reveal_with_fuel(wire::fields_bytes, 5);
    reveal_strlit("");
    is_ascii_chars_encode_utf8(""@);
    layout::lemma_field(fs[0]);
    layout::lemma_field(fs[1]);
    layout::lemma_field(fs[2]);
    layout::lemma_field(fs[3]);
    assert(wire::fields_bytes(fs, 0) =~= layout::text(name) + layout::flag(core_dumped)
        + layout::text(""@) + layout::text(""@));
}

/// How a process ended is told as it is: by the signal where one ended it, else by its
/// code, which is 255 where there is none.
pub proof fn law_end_told(report: &ExitReport, name: String, r: StreamMessage)
    requires
        call_ensures(request::exit_message, (report,), r),
        report.signal matches Some(s) ==> call_ensures(Signal::told_name, (&s,), name),
    ensures
        report.signal is Some ==> tells_signal(r, name@, report.core_dumped),
        report.signal is None && report.code is None ==> tells_code(r, 255),
        report.signal is None && (report.code matches Some(code) && code >= 0) ==> tells_code(
            r,
            report.code->0 as nat,
        ),
        report.signal is None && (report.code matches Some(code) && code < 0) ==> tells_code(
            r,
            (0x1_0000_0000 + report.code->0) as nat,
        ),
{
    if let Some(s) = report.signal {
        signal::lemma_exit_name_short(s);
        lemma_signal_told(name@, report.core_dumped);
    } else {
        lemma_code_told(request::told_code(*report) as nat);
        if let Some(code) = report.code {
            lemma_code_wraps(code);
        }
    }
}

proof fn lemma_code_wraps(code: i32)
    ensures
        code < 0 ==> code as u32 == 0x1_0000_0000 + code,
{
    assert(code < 0 ==> code as u32 == 0x1_0000_0000 + code) by (bit_vector);
}

/// The end of a command is told, then that there is nothing more, then that the channel is
/// closed; where the end could not be awaited, nothing is told.
pub proof fn law_end_reaches_client(
    run: &mut CommandRun,
    outcome: Option<ExitReport>,
    r: Vec<StreamMessage>,
)
    requires
        call_ensures(CommandRun::advance, (run, CommandEvent::Exited(outcome)), r),
        old(run).phase == CommandPhase::Waiting,
    ensures
        outcome is None ==> r@.len() == 0 && final(run).phase == (CommandPhase::Done {
            failed: true,
        }),
        outcome matches Some(report) ==> {
            &&& final(run).phase == (CommandPhase::Done { failed: false })
            &&& r@.len() == 3
            &&& r@[1] == StreamMessage::ChannelEof
            &&& r@[2] == StreamMessage::ChannelClose
            &&& report.signal is None && report.code is None ==> tells_code(r@[0], 255)
            &&& report.signal is None && (report.code matches Some(code) && code >= 0)
                ==> tells_code(r@[0], report.code->0 as nat)
            &&& report.signal matches Some(s) ==> tells_signal(
                r@[0],
                signal::exit_name(s),
                report.core_dumped,
            )
        },
{
    if let Some(report) = outcome {
        if let Some(s) = report.signal {
            signal::lemma_exit_name_short(s);
            lemma_signal_told(signal::exit_name(s), report.core_dumped);
        } else {
            lemma_code_told(request::told_code(report) as nat);
        }
    }
}

/// A command starts out not started, and where a message cannot be written, or it is over,
/// nothing more is written for it.
pub proof fn law_run_over(
    pty: bool,
    new: CommandRun,
    run: &mut CommandRun,
    event: CommandEvent,
    r: Vec<StreamMessage>,
)
    requires
        call_ensures(CommandRun::new, (pty,), new),
        call_ensures(CommandRun::advance, (run, event), r),
    ensures
        new.phase == CommandPhase::Spawning && new.pty == pty,
        final(run).pty == old(run).pty,
        event is WriteFailed ==> final(run).phase == (CommandPhase::Done { failed: true })
            && r@.len() == 0,
        old(run).phase is Done ==> final(run).phase is Done && r@.len() == 0,
        final(run).phase is Done && !(old(run).phase is Done) ==> event is WriteFailed || (
        event matches CommandEvent::Spawned(runs) && !runs) || event is OutputEnded
            || event is Exited,
{
}

/// An event out of its turn changes nothing, and nothing is written for it.
pub proof fn law_event_out_of_turn(run: &mut CommandRun, event: CommandEvent, r: Vec<StreamMessage>)
    requires
        call_ensures(CommandRun::advance, (run, event), r),
        event is Spawned ==> old(run).phase != CommandPhase::Spawning,
        event is Output || event is OutputEnded ==> old(run).phase != CommandPhase::Copying,
        event is Exited ==> old(run).phase != CommandPhase::Waiting,
        !(event is WriteFailed),
    ensures
        *final(run) == *old(run),
        r@.len() == 0,
{
}

/// A command is handed to the shell with the flag for it, and a shell by itself with
/// nothing.
pub proof fn law_shell_arguments(command: Vec<u8>, r: Vec<Vec<u8>>, s: Vec<Vec<u8>>)
    requires
        call_ensures(request::command_args, (Some(command),), r),
        call_ensures(request::command_args, (None,), s),
    ensures
        r@.len() == 2 && r@[0]@ == seq![45u8, 99u8] && r@[1] == command,
        s@.len() == 0,
{
    reveal_strlit("-c");
    is_ascii_chars_encode_utf8("-c"@);
    assert(r@[0]@ =~= seq![45u8, 99u8]);
}

/// The user's rights are taken on in one order: the groups, the user's own group, the
/// user; each step only after the one before worked, and a step that fails says which.
pub proof fn law_rights_taken_on(
    username: &str,
    op: PrivilegeOp,
    worked: bool,
    first: Result<PrivilegeOp, SessionError>,
    next: Result<Option<PrivilegeOp>, SessionError>,
)
    requires
        call_ensures(driver::start_privilege_transition, (username,), first),
        call_ensures(driver::apply_privilege_transition, (op, worked), next),
    ensures
        username@.contains('\0') ==> first is Err,
        !username@.contains('\0') ==> first == Ok::<PrivilegeOp, SessionError>(
            PrivilegeOp::InitGroups,
        ),
        worked && op == PrivilegeOp::InitGroups ==> next == Ok::<Option<PrivilegeOp>, SessionError>(
            Some(PrivilegeOp::SetGid),
        ),
        worked && op == PrivilegeOp::SetGid ==> next == Ok::<Option<PrivilegeOp>, SessionError>(
            Some(PrivilegeOp::SetUid),
        ),
        worked && op == PrivilegeOp::SetUid ==> next == Ok::<Option<PrivilegeOp>, SessionError>(
            None,
        ),
        !worked ==> (next matches Err(SessionError::Message(m)) && m@ == if op
            == PrivilegeOp::InitGroups {
            "initgroups failed"@
        } else if op == PrivilegeOp::SetGid {
            "setgid failed"@
        } else {
            "setuid failed"@
        }),
{
}

/// A session that a remote caller drives takes on the group, then the user.
pub proof fn law_remote_rights_taken_on(
    op: PrivilegeOp,
    uid: u32,
    gid: u32,
    failed: Option<&str>,
    first: PrivilegeOp,
    next: Result<Option<PrivilegeOp>, SessionError>,
)
    requires
        call_ensures(driver::start_drop_privileges, (), first),
        call_ensures(driver::drop_privileges, (op, uid, gid, failed), next),
        op == PrivilegeOp::SetGid || op == PrivilegeOp::SetUid,
    ensures
        first == PrivilegeOp::SetGid,
        failed is None && op == PrivilegeOp::SetGid ==> next == Ok::<
            Option<PrivilegeOp>,
            SessionError,
        >(Some(PrivilegeOp::SetUid)),
        failed is None && op == PrivilegeOp::SetUid ==> next == Ok::<
            Option<PrivilegeOp>,
            SessionError,
        >(None),
        failed matches Some(why) && op == PrivilegeOp::SetGid ==> (next matches Err(
            SessionError::Message(m),
        ) && m@ == "setgid("@ + crate::text::decimal(gid as nat) + ") failed: "@ + failed->0@),
        failed matches Some(why) && op == PrivilegeOp::SetUid ==> (next matches Err(
            SessionError::Message(m),
        ) && m@ == "setuid("@ + crate::text::decimal(uid as nat) + ") failed: "@ + failed->0@),
{
}

/// A session is set up for the user who was let in, with that user's data; for nobody
/// else is one set up.
pub proof fn law_session_of_the_user(
    conversation_id: u64,
    username: String,
    result: AuthResult,
    r: Option<SessionInit>,
)
    requires
        call_ensures(driver::session_init, (conversation_id, username, result), r),
    ensures
        r is Some <==> result is Success,
        r matches Some(s) ==> s.conversation_id == conversation_id && s.username == username && (
        result matches AuthResult::Success { uid, gid, home, shell } && s.uid == uid && s.gid == gid
            && s.home == home && s.shell == shell),
{
}

/// Each type of channel is served by what it names, and no other type is served.
pub proof fn law_channel_routed(
    channel_type: &str,
    set_up: bool,
    r: Result<ChannelRoute, SessionError>,
    remote: Result<ChannelRoute, SessionError>,
)
    requires
        call_ensures(driver::handle_channel, (channel_type,), r),
        call_ensures(driver::handle_remote_channel, (channel_type, set_up), remote),
    ensures
        r == Ok::<ChannelRoute, SessionError>(ChannelRoute::Session) <==> channel_type@
            == "session"@,
        r == Ok::<ChannelRoute, SessionError>(ChannelRoute::DirectTcp) <==> channel_type@
            == "direct-tcpip"@,
        r == Ok::<ChannelRoute, SessionError>(ChannelRoute::DirectStreamlocal) <==> channel_type@
            == "direct-streamlocal@openssh.com"@,
        r == Ok::<ChannelRoute, SessionError>(ChannelRoute::Socks5) <==> channel_type@ == "socks5"@,
        r == Ok::<ChannelRoute, SessionError>(ChannelRoute::RejectGlobalRequest) <==> channel_type@
            == "global-request"@,
        r != Ok::<ChannelRoute, SessionError>(ChannelRoute::GlobalRequest),
        remote == Ok::<ChannelRoute, SessionError>(ChannelRoute::DirectTcp) <==> channel_type@
            == "direct-tcpip"@,
        remote == Ok::<ChannelRoute, SessionError>(ChannelRoute::DirectStreamlocal)
            <==> channel_type@ == "direct-streamlocal@openssh.com"@,
        remote == Ok::<ChannelRoute, SessionError>(ChannelRoute::Socks5) <==> channel_type@
            == "socks5"@,
        remote == Ok::<ChannelRoute, SessionError>(ChannelRoute::GlobalRequest) <==> channel_type@
            == "global-request"@ && set_up,
        remote != Ok::<ChannelRoute, SessionError>(ChannelRoute::Session) && remote != Ok::<
            ChannelRoute,
            SessionError,
        >(ChannelRoute::RejectGlobalRequest),
{
    reveal_strlit("session");
    reveal_strlit("direct-tcpip");
    reveal_strlit("direct-streamlocal@openssh.com");
    reveal_strlit("socks5");
    reveal_strlit("global-request");
    assert("session"@.len() == 7 && "direct-tcpip"@.len() == 12
        && "direct-streamlocal@openssh.com"@.len() == 30 && "socks5"@.len() == 6
        && "global-request"@.len() == 14);
}

/// What follows the last slash of a path is the name of its file.
pub proof fn law_file_named(path: &str, dir: Seq<char>, name: Seq<char>, r: Option<String>)
    requires
        call_ensures(command::file_name, (path,), r),
        path@ == dir + seq!['/'] + name || path@ == name,
        name.len() > 0,
        !name.contains('/'),
        name != seq!['.'],
        name != seq!['.', '.'],
    ensures
        r matches Some(s) && s@ == name,
{
    let p = path@;
    let start = p.len() - name.len();
    lemma_last_slash(p, start);
    assert(p.subrange(start, p.len() as int) =~= name) by {
        if p == name {
            assert(start == 0);
        }
    }
}

/// A slash, or a slash and a dot, at the end of a path changes nothing; a path that ends
/// with two dots leads to no file, and neither does an empty one.
pub proof fn law_path_ends(
    path: &str,
    r: Option<String>,
    slash: &str,
    a: Option<String>,
    dot: &str,
    b: Option<String>,
    up: &str,
    c: Option<String>,
    empty: &str,
    d: Option<String>,
)
    requires
        call_ensures(command::file_name, (path,), r),
        call_ensures(command::file_name, (slash,), a),
        slash@ == path@ + seq!['/'],
        call_ensures(command::file_name, (dot,), b),
        dot@ == path@ + seq!['/', '.'],
        call_ensures(command::file_name, (up,), c),
        up@ == path@ + seq!['/', '.', '.'] || up@ == seq!['.', '.'],
        call_ensures(command::file_name, (empty,), d),
        empty@.len() == 0,
    ensures
        a is Some <==> r is Some,
        b is Some <==> r is Some,
        r matches Some(s) ==> a->0@ == s@ && b->0@ == s@,
        c is None,
        d is None,
{
    let p = path@;
    let n = p.len() as int;
    lemma_last_slash(slash@, n + 1);
    assert(slash@.subrange(n + 1, n + 1) =~= Seq::<char>::empty());
    assert(slash@.subrange(0, n) =~= p);
    lemma_last_slash(dot@, n + 1);
    assert(dot@.subrange(n + 1, n + 2) =~= seq!['.']);
    assert(dot@.subrange(0, n) =~= p);
    if up@ == seq!['.', '.'] {
        lemma_last_slash(up@, 0);
        assert(up@.subrange(0, 2) =~= seq!['.', '.']);
    } else {
        lemma_last_slash(up@, n + 1);
        assert(up@.subrange(n + 1, n + 3) =~= seq!['.', '.']);
    }
    lemma_last_slash(empty@, 0);
    assert(seq!['.', '.'].len() == 2);
    assert(seq!['.'] != seq!['.', '.']);
}

proof fn lemma_last_slash(p: Seq<char>, start: int)
    requires
        0 <= start <= p.len(),
        start > 0 ==> p[start - 1] == '/',
        forall|i: int| start <= i < p.len() ==> #[trigger] p[i] != '/',
    ensures
        command::last_part(p) == start,
    decreases p.len(),
{
    if p.len() > 0 && p.last() != '/' {
        assert forall|i: int| start <= i < p.drop_last().len() implies #[trigger] p.drop_last()[i]
            != '/' by {
            assert(p[i] != '/');
        }
        lemma_last_slash(p.drop_last(), start);
    }
}

/// A user's program is the user's shell, in the user's own directory, with the user's name,
/// directory and shell in its environment, and with the command where there is one; what
/// the client asks for comes last, after what the authentication adds.
pub proof fn law_program_of_the_user(
    user: &UserContext,
    exec: Option<&str>,
    tz: Option<&str>,
    authentication: Vec<(String, String)>,
    client: Vec<(String, String)>,
    r: Result<CommandPlan, String>,
)
    requires
        call_ensures(command::new_command, (user, exec, tz, authentication, client), r),
        user.shell@.len() > 0,
    ensures
        r is Err <==> user.name@.contains('\0'),
        r matches Ok(plan) ==> {
            let n = plan.env@.len() - client@.len() - authentication@.len();
            &&& plan.program@ == user.shell@
            &&& plan.dir@ == user.dir@
            &&& exec is None ==> plan.args@.len() == 0
            &&& exec matches Some(c) ==> plan.args@.len() == 2 && plan.args@[0]@ == "-c"@
                && plan.args@[1]@ == c@
            &&& plan.rights@.len() == 3 && plan.rights@.contains(PrivilegeOp::InitGroups)
                && plan.rights@.contains(PrivilegeOp::SetGid) && plan.rights@[2]
                == PrivilegeOp::SetUid
            &&& n == if tz is Some {
                6int
            } else {
                5int
            }
            &&& plan.env@[0].0@ == "USER"@ && plan.env@[0].1@ == user.name@
            &&& plan.env@[1].0@ == "LOGNAME"@ && plan.env@[1].1@ == user.name@
            &&& plan.env@[2].0@ == "HOME"@ && plan.env@[2].1@ == user.dir@
            &&& plan.env@[3].0@ == "PATH"@ && plan.env@[3].1@ == "/usr/bin:/bin:/usr/sbin:/sbin"@
            &&& plan.env@[4].0@ == "SHELL"@ && plan.env@[4].1@ == user.shell@
            &&& tz matches Some(zone) ==> plan.env@[5].0@ == "TZ"@ && plan.env@[5].1@ == zone@
            &&& forall|i: int|
                0 <= i < authentication@.len() ==> (#[trigger] plan.env@[n + i]).0@
                    == authentication@[i].0@ && plan.env@[n + i].1@ == authentication@[i].1@
            &&& forall|i: int|
                0 <= i < client@.len() ==> (#[trigger] plan.env@[n + authentication@.len() + i]).0@
                    == client@[i].0@ && plan.env@[n + authentication@.len() + i].1@ == client@[i].1@
        },
{
    if let Ok(plan) = r {
        let e = command::pairs(plan.env@);
        let zone = match tz {
            Some(z) => Some(z@),
            None => None,
        };
        assert(e == command::environment(*user, zone, authentication@, client@));
        let n = plan.env@.len() - client@.len() - authentication@.len();
        assert(e[0] == ("USER"@, user.name@));
        assert(e[1] == ("LOGNAME"@, user.name@));
        assert(e[2] == ("HOME"@, user.dir@));
        assert(e[3] == ("PATH"@, command::STDPATH@));
        assert(e[4] == ("SHELL"@, user.shell@));
        if let Some(z) = zone {
            assert(e[5] == ("TZ"@, z));
        }
        assert(plan.rights@[0] == PrivilegeOp::SetGid && plan.rights@[1]
            == PrivilegeOp::InitGroups);
        assert forall|i: int| 0 <= i < authentication@.len() implies (#[trigger] plan.env@[n
            + i]).0@ == authentication@[i].0@ && plan.env@[n + i].1@ == authentication@[i].1@ by {
            assert(e[n + i] == command::pairs(authentication@)[i]);
        }
        assert forall|i: int| 0 <= i < client@.len() implies (#[trigger] plan.env@[n
            + authentication@.len() + i]).0@ == client@[i].0@ && plan.env@[n + authentication@.len()
            + i].1@ == client@[i].1@ by {
            assert(e[n + authentication@.len() + i] == command::pairs(client@)[i]);
        }
    }
}

/// A program is told the name of its own file as its name, and `/bin/sh` stands for a shell
/// that is not named; it takes on the group, the groups and then the user.
pub proof fn law_program_named(
    user: &UserContext,
    exec: Option<&str>,
    tz: Option<&str>,
    authentication: Vec<(String, String)>,
    client: Vec<(String, String)>,
    plan: CommandPlan,
    shell: &str,
    name: Option<String>,
)
    requires
        call_ensures(
            command::new_command,
            (user, exec, tz, authentication, client),
            Ok::<CommandPlan, String>(plan),
        ),
        user.shell@.len() > 0 ==> shell@ == user.shell@,
        user.shell@.len() == 0 ==> shell@ == "/bin/sh"@,
        call_ensures(command::file_name, (shell,), name),
    ensures
        name matches Some(s) && plan.arg0@ == s@,
        plan.env@[4].0@ == "SHELL"@ && plan.env@[4].1@ == shell@,
        plan.rights@ == seq![PrivilegeOp::SetGid, PrivilegeOp::InitGroups, PrivilegeOp::SetUid],
{
    let zone = match tz {
        Some(z) => Some(z@),
        None => None,
    };
    let e = command::pairs(plan.env@);
    assert(e == command::environment(*user, zone, authentication@, client@));
    assert(e[4] == ("SHELL"@, shell@));
}

/// A relayed program gets what the client sends, and the client what the program writes,
/// until one of them ends, and nothing after that.
pub proof fn law_relayed(s: &mut Relay, event: RelayEvent, r: RelayAction)
    requires
        call_ensures(Relay::relay, (s, event), r),
    ensures
        old(s).over ==> final(s).over && r is Nothing,
        !old(s).over ==> {
            &&& final(s).over <==> event is InputEnded || event is Exited
            &&& event matches RelayEvent::Input(ClientSessionMessage::Terminal(data)) ==> r
                == RelayAction::Write(data)
            &&& event matches RelayEvent::Input(
                ClientSessionMessage::WindowSize { rows, cols, width, height },
            ) ==> (r matches RelayAction::Resize(ws) && ws.ws_row == rows && ws.ws_col == cols
                && ws.ws_xpixel == width && ws.ws_ypixel == height)
            &&& event matches RelayEvent::Output { stderr, data } ==> r == RelayAction::Send(
                ServerSessionMessage::Terminal { stderr, data },
            )
            &&& event matches RelayEvent::Exited(Some(code)) ==> r == RelayAction::Finish(
                Some(ServerSessionMessage::Exit { code }),
            )
            &&& event == RelayEvent::Exited(None) ==> r is Cancel
            &&& event is InputEnded ==> r == RelayAction::Finish(None)
        },
{
}

/// A process that ended by itself has its own code; one that a signal ended has 128 more
/// than the signal; one that has not ended has none.
pub proof fn law_code_of_process(status: WaitStatus, r: Option<i32>)
    requires
        call_ensures(command::wait_child_exit, (status,), r),
        status matches WaitStatus::Signaled(s) ==> 0 <= s < 128,
    ensures
        status matches WaitStatus::Exited(code) ==> r == Some(code),
        status matches WaitStatus::Signaled(s) ==> (r matches Some(code) && code == 128 + s),
        r is None <==> status is Other,
{
}

/// The shell that is named is used, and `/bin/sh` only where none is.
pub proof fn law_shell_used(named: Option<String>, r: String)
    requires
        call_ensures(driver::default_shell, (named,), r),
    ensures
        named matches Some(s) ==> r == s,
        named is None ==> r@ == "/bin/sh"@,
{
}

} // verus!
