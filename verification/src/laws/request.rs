//! What a request on a session channel asks for, and the pieces that answer it.

use crate::laws::session as asked;
use crate::laws::wire as layout;
use crate::proto::wire;
use crate::proto::wire::{PtyRequest, WindowChangeRequest, WireError, WireField};
use crate::server::message;
use crate::server::message::StreamMessage;
use crate::server::session::command;
use crate::server::session::command::{ClientSessionMessage, Relay, RelayAction};
use crate::server::session::pty;
use crate::server::session::pty::{DimensionOverflow, PtyError};
use crate::server::session::request;
use crate::server::session::request::{ChannelRequest, RequestAction};
use crate::server::session::signal;
use crate::server::session::signal::{Signal, SignalNumbers};
use vstd::prelude::*;
use vstd::string::*;

verus! {

/// A request leads to what it asks for, with its own data; the client is told at once that
/// a shell or a command is run, and that nothing else is, where it wants to know.
pub proof fn law_request_acted_on(
    q: ChannelRequest,
    r: (Option<RequestAction>, Option<StreamMessage>),
)
    requires
        call_ensures(request::handle_request, (q,), r),
    ensures
        q matches ChannelRequest::PtyReq { want_reply, request: p } ==> r.0 == Some(
            RequestAction::AllocatePty(p, want_reply),
        ) && r.1 is None,
        q matches ChannelRequest::Shell { want_reply } ==> r.0 == Some(RequestAction::Shell)
            && r.1 == if want_reply {
            Some(StreamMessage::ChannelSuccess)
        } else {
            None
        },
        q matches ChannelRequest::Exec { want_reply, request: e } ==> r.0 == Some(
            RequestAction::Exec(e.command),
        ) && r.1 == if want_reply {
            Some(StreamMessage::ChannelSuccess)
        } else {
            None
        },
        q matches ChannelRequest::Subsystem { want_reply, request: s } ==> r.0 is None && r.1
            == if want_reply {
            Some(StreamMessage::ChannelFailure)
        } else {
            None
        },
        q matches ChannelRequest::WindowChange(w) ==> r.0 == Some(RequestAction::WindowChange(w))
            && r.1 is None,
        q matches ChannelRequest::Signal { want_reply, request: s } ==> r.0 == Some(
            RequestAction::Signal(s),
        ) && r.1 is None,
        q is ExitStatus || q is ExitSignal ==> r.0 is None && r.1 is None,
        q matches ChannelRequest::Unknown { request_type, want_reply } ==> r.0 is None && r.1
            == if want_reply {
            Some(StreamMessage::ChannelFailure)
        } else {
            None
        },
{
}

/// A request is taken for what its type says, with the data that it carries and the wish for
/// an answer; one of another type is kept by that type.
pub proof fn law_request_read(
    request_type: &str,
    want_reply: bool,
    data: &[u8],
    command: Seq<u8>,
    name: Seq<char>,
    rest: Seq<u8>,
    r: Result<ChannelRequest, WireError>,
)
    requires
        call_ensures(request::parse_channel_request, (request_type, want_reply, data), r),
    ensures
        request_type@ == "exec"@ && command.len() <= 0x10_0000 && data@ == layout::octets(command)
            + rest ==> (r matches Ok(ChannelRequest::Exec { want_reply: w, request: q }) && w
            == want_reply && q.command@ == command),
        request_type@ == "shell"@ ==> r == Ok::<ChannelRequest, WireError>(
            ChannelRequest::Shell { want_reply },
        ),
        request_type@ == "signal"@ && layout::readable(name) && data@ == layout::text(name) + rest
            ==> (r matches Ok(ChannelRequest::Signal { want_reply: w, request: q }) && w
            == want_reply && q.signal_name@ == name),
        request_type@ == "subsystem"@ && layout::readable(name) && data@ == layout::text(name)
            + rest ==> (r matches Ok(ChannelRequest::Subsystem { want_reply: w, request: q }) && w
            == want_reply && q.subsystem_name@ == name),
        request_type@ != "pty-req"@ && request_type@ != "shell"@ && request_type@ != "exec"@
            && request_type@ != "subsystem"@ && request_type@ != "window-change"@ && request_type@
            != "signal"@ && request_type@ != "exit-status"@ && request_type@ != "exit-signal"@ ==> (
        r matches Ok(ChannelRequest::Unknown { request_type: t, want_reply: w }) && t@
            == request_type@ && w == want_reply),
{
    asked::lemma_types_differ();
    if request_type@ == "exec"@ && command.len() <= 0x10_0000 && data@ == layout::octets(command)
        + rest {
        asked::lemma_exec_parsed(want_reply, data@, command, rest, r);
    }
    if (request_type@ == "signal"@ || request_type@ == "subsystem"@) && layout::readable(name)
        && data@ == layout::text(name) + rest {
        asked::lemma_text_parsed(request_type@, want_reply, data@, name, rest, r);
    }
}

/// What a process comes to is read as it is told: its exit code, or the signal that ended
/// it with all that is said of it.
pub proof fn law_end_read(
    request_type: &str,
    want_reply: bool,
    data: &[u8],
    code: nat,
    name: Seq<char>,
    core_dumped: bool,
    message: Seq<char>,
    tag: Seq<char>,
    rest: Seq<u8>,
    r: Result<ChannelRequest, WireError>,
)
    requires
        call_ensures(request::parse_channel_request, (request_type, want_reply, data), r),
        code <= 0xffff_ffff,
        layout::readable(name) && layout::readable(message) && layout::readable(tag),
    ensures
        request_type@ == "exit-status"@ && data@ == layout::number(code) + rest ==> (r matches Ok(
            ChannelRequest::ExitStatus(q),
        ) && q.exit_status == code),
        request_type@ == "exit-signal"@ && data@ == layout::text(name) + layout::flag(core_dumped)
            + layout::text(message) + layout::text(tag) + rest ==> (r matches Ok(
            ChannelRequest::ExitSignal(q),
        ) && q.signal_name@ == name && q.core_dumped == core_dumped && q.error_message@ == message
            && q.language_tag@ == tag),
{
    asked::lemma_types_differ();
    reveal_with_fuel(wire::fields_bytes, 5);
    if request_type@ == "exit-status"@ && data@ == layout::number(code) + rest {
        let fs = seq![WireField::Number(code)];
        let ks = wire::ExitStatusRequest::kinds();
        assert(wire::field_accepted(fs[0]) && wire::is_kind(fs[0], ks[0]));
        layout::lemma_field(fs[0]);
        assert(wire::fields_bytes(fs, 0) + rest =~= data@);
        wire::lemma_fields_roundtrip(fs, ks, 0, rest);
        assert(fs.subrange(0, 1) =~= fs);
        assert(r->Ok_0.fields()[0] == fs[0]);
    }
    if request_type@ == "exit-signal"@ && data@ == layout::text(name) + layout::flag(core_dumped)
        + layout::text(message) + layout::text(tag) + rest {
        let fs = seq![
            WireField::Text(name),
            WireField::Flag(core_dumped),
            WireField::Text(message),
            WireField::Text(tag),
        ];
        let ks = wire::ExitSignalRequest::kinds();
        assert(wire::field_accepted(fs[0]) && wire::is_kind(fs[0], ks[0]));
        assert(wire::field_accepted(fs[1]) && wire::is_kind(fs[1], ks[1]));
        assert(wire::field_accepted(fs[2]) && wire::is_kind(fs[2], ks[2]));
        assert(wire::field_accepted(fs[3]) && wire::is_kind(fs[3], ks[3]));
        layout::lemma_field(fs[0]);
        layout::lemma_field(fs[1]);
        layout::lemma_field(fs[2]);
        layout::lemma_field(fs[3]);
        assert(wire::fields_bytes(fs, 0) + rest =~= data@);
        wire::lemma_fields_roundtrip(fs, ks, 0, rest);
        assert(fs.subrange(0, 4) =~= fs);
        let q = r->Ok_0;
        assert(q.fields()[0] == fs[0] && q.fields()[1] == fs[1] && q.fields()[2] == fs[2]
            && q.fields()[3] == fs[3]);
    }
}

/// A terminal has the size that is asked for; the first size that a terminal cannot have is
/// refused, by its name and its value.
pub proof fn law_terminal_size(
    q: &PtyRequest,
    r: Result<libc::winsize, DimensionOverflow>,
    s: Result<libc::winsize, PtyError>,
)
    requires
        call_ensures(pty::validate_pty_dimensions, (q,), r),
        call_ensures(pty::pty_size, (q,), s),
    ensures
        q.width_cols <= 65535 && q.height_rows <= 65535 && q.width_px <= 65535 && q.height_px
            <= 65535 ==> (r matches Ok(ws) && ws.ws_col == q.width_cols && ws.ws_row
            == q.height_rows && ws.ws_xpixel == q.width_px && ws.ws_ypixel == q.height_px) && (
        s matches Ok(ws) && ws.ws_col == q.width_cols && ws.ws_row == q.height_rows && ws.ws_xpixel
            == q.width_px && ws.ws_ypixel == q.height_px),
        q.width_cols > 65535 || q.height_rows > 65535 || q.width_px > 65535 || q.height_px > 65535
            ==> r is Err && s is Err,
        r matches Err(e) ==> e.value > 65535 && ({
            ||| e.field@ == "width_cols"@ && e.value == q.width_cols
            ||| e.field@ == "height_rows"@ && e.value == q.height_rows
            ||| e.field@ == "width_px"@ && e.value == q.width_px
            ||| e.field@ == "height_px"@ && e.value == q.height_px
        }),
{
}

/// A terminal gets the size that is asked for, unless it cannot have it.
pub proof fn law_terminal_resized(
    q: &WindowChangeRequest,
    r: Result<libc::winsize, DimensionOverflow>,
    s: Result<libc::winsize, PtyError>,
)
    requires
        call_ensures(pty::validate_window_change_dimensions, (q,), r),
        call_ensures(pty::window_size, (q,), s),
    ensures
        q.width_cols <= 65535 && q.height_rows <= 65535 && q.width_px <= 65535 && q.height_px
            <= 65535 ==> (r matches Ok(ws) && ws.ws_col == q.width_cols && ws.ws_row
            == q.height_rows && ws.ws_xpixel == q.width_px && ws.ws_ypixel == q.height_px) && (
        s matches Ok(ws) && ws.ws_col == q.width_cols && ws.ws_row == q.height_rows && ws.ws_xpixel
            == q.width_px && ws.ws_ypixel == q.height_px),
        q.width_cols > 65535 || q.height_rows > 65535 || q.width_px > 65535 || q.height_px > 65535
            ==> r is Err && s is Err,
{
}

/// Output goes out as data, errors as data of the stream with the number one.
pub proof fn law_output_sent(is_stdout: bool, data: Vec<u8>, r: StreamMessage)
    requires
        call_ensures(request::output_message, (is_stdout, data), r),
    ensures
        is_stdout ==> r == (StreamMessage::ChannelData { data }),
        !is_stdout ==> r == (StreamMessage::ChannelExtendedData { data_type: 1, data }),
{
}

/// An exit code is told as its number.
pub proof fn law_exit_code_told(code: u32, r: Vec<u8>)
    requires
        call_ensures(request::encode_exit_status, (code,), r),
    ensures
        r@ == layout::number(code as nat),
{
    let fs = seq![WireField::Number(code as nat)];
    reveal_with_fuel(wire::fields_bytes, 2);
    layout::lemma_field(fs[0]);
    assert(wire::fields_bytes(fs, 0) =~= layout::number(code as nat));
}

/// The signals have the names that every client knows, and no others have.
pub proof fn law_signals_named(s: &Signal, r: Option<&'static str>)
    requires
        call_ensures(Signal::name, (s,), r),
    ensures
        r is None <==> s is Other,
        s is Abrt ==> r->0@ == "ABRT"@,
        s is Alrm ==> r->0@ == "ALRM"@,
        s is Fpe ==> r->0@ == "FPE"@,
        s is Hup ==> r->0@ == "HUP"@,
        s is Ill ==> r->0@ == "ILL"@,
        s is Int ==> r->0@ == "INT"@,
        s is Quit ==> r->0@ == "QUIT"@,
        s is Kill ==> r->0@ == "KILL"@,
        s is Pipe ==> r->0@ == "PIPE"@,
        s is Segv ==> r->0@ == "SEGV"@,
        s is Term ==> r->0@ == "TERM"@,
        s is Usr1 ==> r->0@ == "USR1"@,
        s is Usr2 ==> r->0@ == "USR2"@,
{
}

/// Whatever its number, a signal is told by a name that every client knows or by that very
/// number.
pub proof fn law_signal_told_by_name_or_number(n: i32, r: String, digits: String)
    requires
        call_ensures(signal::exit_signal_name, (n,), r),
        n >= 0,
        call_ensures(crate::text::decimal_string, (n as u64,), digits),
    ensures
        ({
            ||| r@ == "ABRT"@ || r@ == "ALRM"@ || r@ == "FPE"@ || r@ == "HUP"@ || r@ == "ILL"@
            ||| r@ == "INT"@ || r@ == "QUIT"@ || r@ == "KILL"@ || r@ == "PIPE"@ || r@ == "SEGV"@
            ||| r@ == "TERM"@ || r@ == "USR1"@ || r@ == "USR2"@
            ||| r@ == "signal-"@ + digits@ + "@genmeta-ssh3"@
        }),
{
    let numbers = choose|numbers: SignalNumbers|
        numbers.distinct() && r@ == signal::exit_name(#[trigger] signal::signal_of(numbers, n));
    assert(r@ == signal::exit_name(signal::signal_of(numbers, n)));
}

/// What the client of a relayed program types is written to it, and its window is made as
/// large as the client's.
pub proof fn law_client_served(m: ClientSessionMessage, r: RelayAction, new: Relay)
    requires
        call_ensures(command::handle_client_message, (m,), r),
        call_ensures(Relay::new, (), new),
    ensures
        m matches ClientSessionMessage::Terminal(data) ==> r == RelayAction::Write(data),
        m matches ClientSessionMessage::WindowSize { rows, cols, width, height } ==> (
        r matches RelayAction::Resize(ws) && ws.ws_row == rows && ws.ws_col == cols && ws.ws_xpixel
            == width && ws.ws_ypixel == height),
        !new.over,
{
}

/// A channel is refused with the reason and the text that are given, and accepted with the
/// largest size of a message.
pub proof fn law_opening_answered(reason: u64, why: &str, r: StreamMessage, accepted: StreamMessage)
    requires
        call_ensures(message::open_failure, (reason, why), r),
        call_ensures(message::open_confirmation, (), accepted),
    ensures
        r matches StreamMessage::ChannelOpenFailure { reason_code, description } && reason_code
            == reason && description@ == why@,
        accepted == (StreamMessage::ChannelOpenConfirmation { max_message_size: 0x10_0000 }),
{
}

} // verus!
