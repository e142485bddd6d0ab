//! The requests on a session channel.

use crate::laws::wire as layout;
use crate::proto::varint;
use crate::proto::wire;
use crate::proto::wire::{FieldKind, WireError, WireField};
use crate::server::message::StreamMessage;
use crate::server::session::driver;
use crate::server::session::driver::{LoopStep, SessionLoop};
use crate::server::session::pty;
use crate::server::session::request;
use crate::server::session::request::{ChannelEvent, ChannelRequest};
use vstd::prelude::*;
use vstd::string::*;

verus! {

/// No two types of requests are the same.
pub proof fn lemma_types_differ()
    ensures
        "pty-req"@.len() == 7,
        "shell"@.len() == 5,
        "exec"@.len() == 4,
        "subsystem"@.len() == 9,
        "window-change"@.len() == 13,
        "signal"@.len() == 6,
        "exit-status"@.len() == 11,
        "exit-signal"@.len() == 11,
        "exit-status"@ != "exit-signal"@,
{
    reveal_strlit("pty-req");
    reveal_strlit("shell");
    reveal_strlit("exec");
    reveal_strlit("subsystem");
    reveal_strlit("window-change");
    reveal_strlit("signal");
    reveal_strlit("exit-status");
    reveal_strlit("exit-signal");
    assert("exit-status"@[6] != "exit-signal"@[6]);
}

/// The data of a request for a terminal.
pub open spec fn pty_data(
    term: Seq<char>,
    cols: nat,
    rows: nat,
    width_px: nat,
    height_px: nat,
    modes: Seq<u8>,
) -> Seq<u8> {
    layout::text(term) + layout::number(cols) + layout::number(rows) + layout::number(width_px)
        + layout::number(height_px) + layout::octets(modes)
}

/// The data of a request for another size.
pub open spec fn size_data(cols: nat, rows: nat, width_px: nat, height_px: nat) -> Seq<u8> {
    layout::number(cols) + layout::number(rows) + layout::number(width_px)
        + layout::number(height_px)
}

/// The size is the one in these numbers.
pub open spec fn is_size(ws: libc::winsize, cols: nat, rows: nat, width_px: nat,
    height_px: nat) -> bool {
    ws.ws_col == cols && ws.ws_row == rows && ws.ws_xpixel == width_px && ws.ws_ypixel == height_px
}

/// A terminal can have this size.
pub open spec fn can_have(cols: nat, rows: nat, width_px: nat, height_px: nat) -> bool {
    cols <= 65535 && rows <= 65535 && width_px <= 65535 && height_px <= 65535
}

/// A request for a command is read as that.
pub proof fn lemma_exec_parsed(
    want_reply: bool,
    data: Seq<u8>,
    command: Seq<u8>,
    rest: Seq<u8>,
    q: Result<ChannelRequest, WireError>,
)
    requires
        request::parses("exec"@, want_reply, data, q),
        command.len() <= 0x10_0000,
        data == layout::octets(command) + rest,
    ensures
        q matches Ok(ChannelRequest::Exec { want_reply: w, request }) && w == want_reply
            && request.command@ == command,
{
    lemma_types_differ();
    let fs = seq![WireField::Octets(command)];
    let ks = wire::ExecRequest::kinds();
    reveal_with_fuel(wire::fields_bytes, 2);
    assert(wire::field_accepted(fs[0]) && wire::is_kind(fs[0], ks[0]));
    layout::lemma_field(fs[0]);
    assert(wire::fields_bytes(fs, 0) + rest =~= data);
    wire::lemma_fields_roundtrip(fs, ks, 0, rest);
    assert(fs.subrange(0, 1) =~= fs);
    assert(q->Ok_0.fields()[0] == fs[0]);
}

/// A request that holds one text is read with that text.
pub proof fn lemma_text_parsed(
    request_type: Seq<char>,
    want_reply: bool,
    data: Seq<u8>,
    name: Seq<char>,
    rest: Seq<u8>,
    q: Result<ChannelRequest, WireError>,
)
    requires
        request::parses(request_type, want_reply, data, q),
        request_type == "signal"@ || request_type == "subsystem"@,
        layout::readable(name),
        data == layout::text(name) + rest,
    ensures
        request_type == "signal"@ ==> (q matches Ok(
            ChannelRequest::Signal { want_reply: w, request },
        ) && w == want_reply && request.signal_name@ == name),
        request_type == "subsystem"@ ==> (q matches Ok(
            ChannelRequest::Subsystem { want_reply: w, request },
        ) && w == want_reply && request.subsystem_name@ == name),
{
    lemma_types_differ();
    let fs = seq![WireField::Text(name)];
    let ks = seq![FieldKind::Text];
    assert(wire::SignalRequest::kinds() =~= ks);
    assert(wire::SubsystemRequest::kinds() =~= ks);
    reveal_with_fuel(wire::fields_bytes, 2);
    assert(wire::field_accepted(fs[0]) && wire::is_kind(fs[0], ks[0]));
    layout::lemma_field(fs[0]);
    assert(wire::fields_bytes(fs, 0) + rest =~= data);
    wire::lemma_fields_roundtrip(fs, ks, 0, rest);
    assert(fs.subrange(0, 1) =~= fs);
    assert(q->Ok_0.fields()[0] == fs[0]);
}

/// A request for another size is read with that size.
pub proof fn lemma_size_parsed(
    want_reply: bool,
    data: Seq<u8>,
    cols: nat,
    rows: nat,
    width_px: nat,
    height_px: nat,
    rest: Seq<u8>,
    q: Result<ChannelRequest, WireError>,
)
    requires
        request::parses("window-change"@, want_reply, data, q),
        cols <= 0xffff_ffff && rows <= 0xffff_ffff && width_px <= 0xffff_ffff && height_px
            <= 0xffff_ffff,
        data == size_data(cols, rows, width_px, height_px) + rest,
    ensures
        q matches Ok(ChannelRequest::WindowChange(request)) && request.width_cols == cols
            && request.height_rows == rows && request.width_px == width_px && request.height_px
            == height_px,
{
    lemma_types_differ();
    let fs = seq![
        WireField::Number(cols),
        WireField::Number(rows),
        WireField::Number(width_px),
        WireField::Number(height_px),
    ];
    let ks = wire::WindowChangeRequest::kinds();
    reveal_with_fuel(wire::fields_bytes, 5);
    assert(wire::field_accepted(fs[0]) && wire::is_kind(fs[0], ks[0]));
    layout::lemma_field(fs[0]);
    assert(wire::field_accepted(fs[1]) && wire::is_kind(fs[1], ks[1]));
    layout::lemma_field(fs[1]);
    assert(wire::field_accepted(fs[2]) && wire::is_kind(fs[2], ks[2]));
    layout::lemma_field(fs[2]);
    assert(wire::field_accepted(fs[3]) && wire::is_kind(fs[3], ks[3]));
    layout::lemma_field(fs[3]);
    assert(wire::fields_bytes(fs, 0) + rest =~= data);
    wire::lemma_fields_roundtrip(fs, ks, 0, rest);
    assert(fs.subrange(0, 4) =~= fs);
    let x = q->Ok_0;
    assert(x.fields()[0] == fs[0] && x.fields()[1] == fs[1] && x.fields()[2] == fs[2]
        && x.fields()[3] == fs[3]);
}

proof fn lemma_pty_parsed(
    want_reply: bool,
    data: Seq<u8>,
    term: Seq<char>,
    cols: nat,
    rows: nat,
    width_px: nat,
    height_px: nat,
    modes: Seq<u8>,
    rest: Seq<u8>,
    q: Result<ChannelRequest, WireError>,
)
    requires
        request::parses("pty-req"@, want_reply, data, q),
        layout::readable(term),
        modes.len() <= 0x10_0000,
        cols <= 0xffff_ffff && rows <= 0xffff_ffff && width_px <= 0xffff_ffff && height_px
            <= 0xffff_ffff,
        data == pty_data(term, cols, rows, width_px, height_px, modes) + rest,
    ensures
        q matches Ok(ChannelRequest::PtyReq { want_reply: w, request }) && w == want_reply
            && request.term_type@ == term && request.width_cols == cols && request.height_rows
            == rows && request.width_px == width_px && request.height_px == height_px
            && request.terminal_modes@ == modes,
{
    lemma_types_differ();
    let fs = seq![
        WireField::Text(term),
        WireField::Number(cols),
        WireField::Number(rows),
        WireField::Number(width_px),
        WireField::Number(height_px),
        WireField::Octets(modes),
    ];
    let ks = wire::PtyRequest::kinds();
    reveal_with_fuel(wire::fields_bytes, 7);
    assert(wire::field_accepted(fs[0]) && wire::is_kind(fs[0], ks[0]));
    layout::lemma_field(fs[0]);
    assert(wire::field_accepted(fs[1]) && wire::is_kind(fs[1], ks[1]));
    layout::lemma_field(fs[1]);
    assert(wire::field_accepted(fs[2]) && wire::is_kind(fs[2], ks[2]));
    layout::lemma_field(fs[2]);
    assert(wire::field_accepted(fs[3]) && wire::is_kind(fs[3], ks[3]));
    layout::lemma_field(fs[3]);
    assert(wire::field_accepted(fs[4]) && wire::is_kind(fs[4], ks[4]));
    layout::lemma_field(fs[4]);
    assert(wire::field_accepted(fs[5]) && wire::is_kind(fs[5], ks[5]));
    layout::lemma_field(fs[5]);
    assert(wire::fields_bytes(fs, 0) + rest =~= data);
    wire::lemma_fields_roundtrip(fs, ks, 0, rest);
    assert(fs.subrange(0, 6) =~= fs);
    let x = q->Ok_0;
    assert(x.fields()[0] == fs[0] && x.fields()[1] == fs[1] && x.fields()[2] == fs[2]
        && x.fields()[3] == fs[3] && x.fields()[4] == fs[4] && x.fields()[5] == fs[5]);
}

/// The answer where one is wanted: the request was met.
pub open spec fn success_if(wanted: bool) -> Option<StreamMessage> {
    if wanted {
        Some(StreamMessage::ChannelSuccess)
    } else {
        None
    }
}

/// The answer where one is wanted: the request was not met.
pub open spec fn failure_if(wanted: bool) -> Option<StreamMessage> {
    if wanted {
        Some(StreamMessage::ChannelFailure)
    } else {
        None
    }
}

/// A command that a client asks for is run, in the terminal where there is one and
/// without one where there is none, and a wanted answer says that it is.
pub proof fn law_exec_runs(
    l: &mut SessionLoop,
    request_type: String,
    want_reply: bool,
    request_data: Vec<u8>,
    command: Seq<u8>,
    rest: Seq<u8>,
    r: LoopStep,
)
    requires
        call_ensures(
            SessionLoop::handle_session_requests,
            (l, ChannelEvent::Request { request_type, want_reply, request_data }),
            r,
        ),
        request_type@ == "exec"@,
        command.len() <= 0x10_0000,
        request_data@ == layout::octets(command) + rest,
    ensures
        r matches LoopStep::Run { command: Some(c), in_pty, reply } && c@ == command && in_pty
            == old(l).pty && reply == success_if(want_reply),
        !final(l).pty,
        final(l).style == old(l).style,
{
    let q = choose|q: Result<ChannelRequest, WireError>| #[trigger]
        request::parses(request_type@, want_reply, request_data@, q) && match q {
            Err(e) => final(l).pty == l.pty && r == LoopStep::Fail(e),
            Ok(q) => driver::serves_request(l.style, l.pty, q, final(l).pty, r),
        };
    lemma_exec_parsed(want_reply, request_data@, command, rest, q);
}

/// So is a shell.
pub proof fn law_shell_runs(
    l: &mut SessionLoop,
    request_type: String,
    want_reply: bool,
    request_data: Vec<u8>,
    r: LoopStep,
)
    requires
        call_ensures(
            SessionLoop::handle_session_requests,
            (l, ChannelEvent::Request { request_type, want_reply, request_data }),
            r,
        ),
        request_type@ == "shell"@,
    ensures
        r matches LoopStep::Run { command: None, in_pty, reply } && in_pty == old(l).pty && reply
            == success_if(want_reply),
        !final(l).pty,
        final(l).style == old(l).style,
{
    lemma_types_differ();
    let q = choose|q: Result<ChannelRequest, WireError>| #[trigger]
        request::parses(request_type@, want_reply, request_data@, q) && match q {
            Err(e) => final(l).pty == l.pty && r == LoopStep::Fail(e),
            Ok(q) => driver::serves_request(l.style, l.pty, q, final(l).pty, r),
        };
    assert(q is Ok);
}

/// Once a terminal was made, the next command or shell runs in it; on a new channel there
/// is none.
pub proof fn law_terminal_is_used(
    made: &mut SessionLoop,
    asked: &mut SessionLoop,
    want_pty_reply: bool,
    pty_reply: Option<StreamMessage>,
    request_type: String,
    want_reply: bool,
    request_data: Vec<u8>,
    command: Seq<u8>,
    rest: Seq<u8>,
    r: LoopStep,
)
    requires
        call_ensures(SessionLoop::pty_allocated, (made, want_pty_reply, true), pty_reply),
        *asked == *final(made),
        call_ensures(
            SessionLoop::handle_session_requests,
            (asked, ChannelEvent::Request { request_type, want_reply, request_data }),
            r,
        ),
        request_type@ == "shell"@ || (request_type@ == "exec"@ && command.len() <= 0x10_0000
            && request_data@ == layout::octets(command) + rest),
    ensures
        r matches LoopStep::Run { in_pty, .. } && in_pty,
{
    if request_type@ == "shell"@ {
        law_shell_runs(asked, request_type, want_reply, request_data, r);
    } else {
        law_exec_runs(asked, request_type, want_reply, request_data, command, rest, r);
    }
}

/// A new channel has no terminal, and is confirmed with the size of the largest message;
/// a session that drives itself answers requests for a terminal, and one that a remote
/// caller drives answers the end of the client's side.
pub proof fn law_new_channel(r: (SessionLoop, StreamMessage), s: (SessionLoop, StreamMessage))
    requires
        call_ensures(SessionLoop::driven, (), r),
        call_ensures(SessionLoop::remote, (), s),
    ensures
        !r.0.pty && !s.0.pty,
        r.0.style.answers_pty && !r.0.style.answers_end,
        !s.0.style.answers_pty && s.0.style.answers_end,
        r.1 == (StreamMessage::ChannelOpenConfirmation { max_message_size: 0x10_0000 }),
        s.1 == (StreamMessage::ChannelOpenConfirmation { max_message_size: 0x10_0000 }),
{
}

/// There is a terminal from when one was made until something runs, and no event but one
/// that starts something takes it away or brings one.
pub proof fn law_terminal_kept(l: &mut SessionLoop, event: ChannelEvent, r: LoopStep)
    requires
        call_ensures(SessionLoop::handle_session_requests, (l, event), r),
    ensures
        final(l).style == old(l).style,
        final(l).pty == (old(l).pty && r !is Run),
        r matches LoopStep::Run { in_pty, .. } ==> in_pty == old(l).pty,
{
    if let ChannelEvent::Request { request_type, want_reply, request_data } = event {
        let q = choose|q: Result<ChannelRequest, WireError>| #[trigger]
            request::parses(request_type@, want_reply, request_data@, q) && match q {
                Err(e) => final(l).pty == l.pty && r == LoopStep::Fail(e),
                Ok(q) => driver::serves_request(l.style, l.pty, q, final(l).pty, r),
            };
        assert(request::parses(request_type@, want_reply, request_data@, q));
    }
}

/// A terminal that was made is noted, one that was not changes nothing, and the answer
/// says which, where one is wanted and given.
pub proof fn law_terminal_made(
    l: &mut SessionLoop,
    want_reply: bool,
    made: bool,
    r: Option<StreamMessage>,
)
    requires
        call_ensures(SessionLoop::pty_allocated, (l, want_reply, made), r),
    ensures
        final(l).style == old(l).style,
        made ==> final(l).pty,
        !made ==> final(l).pty == old(l).pty,
        r == if !old(l).style.answers_pty {
            None
        } else if made {
            success_if(want_reply)
        } else {
            failure_if(want_reply)
        },
{
}

/// A request for a terminal leads to one of the size that it names, where a terminal can
/// have it; otherwise it is refused.
pub proof fn law_terminal_asked(
    l: &mut SessionLoop,
    request_type: String,
    want_reply: bool,
    request_data: Vec<u8>,
    term: Seq<char>,
    cols: nat,
    rows: nat,
    width_px: nat,
    height_px: nat,
    modes: Seq<u8>,
    rest: Seq<u8>,
    r: LoopStep,
)
    requires
        call_ensures(
            SessionLoop::handle_session_requests,
            (l, ChannelEvent::Request { request_type, want_reply, request_data }),
            r,
        ),
        request_type@ == "pty-req"@,
        layout::readable(term),
        modes.len() <= 0x10_0000,
        cols <= 0xffff_ffff && rows <= 0xffff_ffff && width_px <= 0xffff_ffff && height_px
            <= 0xffff_ffff,
        request_data@ == pty_data(term, cols, rows, width_px, height_px, modes) + rest,
    ensures
        can_have(cols, rows, width_px, height_px) ==> (r matches LoopStep::AllocatePty {
            request,
            size,
            want_reply: w,
        } && w == want_reply && is_size(size, cols, rows, width_px, height_px) && request.term_type@
            == term && request.terminal_modes@ == modes),
        !can_have(cols, rows, width_px, height_px) ==> r == LoopStep::Continue(
            if old(l).style.answers_pty {
                failure_if(want_reply)
            } else {
                None
            },
        ),
        final(l).pty == old(l).pty,
{
    let q = choose|q: Result<ChannelRequest, WireError>| #[trigger]
        request::parses(request_type@, want_reply, request_data@, q) && match q {
            Err(e) => final(l).pty == l.pty && r == LoopStep::Fail(e),
            Ok(q) => driver::serves_request(l.style, l.pty, q, final(l).pty, r),
        };
    lemma_pty_parsed(
        want_reply,
        request_data@,
        term,
        cols,
        rows,
        width_px,
        height_px,
        modes,
        rest,
        q,
    );
}

/// A request for another size gives the terminal that size, where there is one that can
/// have it; otherwise nothing happens, and it is never answered.
pub proof fn law_resized(
    l: &mut SessionLoop,
    request_type: String,
    want_reply: bool,
    request_data: Vec<u8>,
    cols: nat,
    rows: nat,
    width_px: nat,
    height_px: nat,
    rest: Seq<u8>,
    r: LoopStep,
)
    requires
        call_ensures(
            SessionLoop::handle_session_requests,
            (l, ChannelEvent::Request { request_type, want_reply, request_data }),
            r,
        ),
        request_type@ == "window-change"@,
        cols <= 0xffff_ffff && rows <= 0xffff_ffff && width_px <= 0xffff_ffff && height_px
            <= 0xffff_ffff,
        request_data@ == size_data(cols, rows, width_px, height_px) + rest,
    ensures
        old(l).pty && can_have(cols, rows, width_px, height_px) ==> (r matches LoopStep::Resize(ws)
            && is_size(ws, cols, rows, width_px, height_px)),
        !(old(l).pty && can_have(cols, rows, width_px, height_px))
            ==> r == LoopStep::Continue(None),
{
    let q = choose|q: Result<ChannelRequest, WireError>| #[trigger]
        request::parses(request_type@, want_reply, request_data@, q) && match q {
            Err(e) => final(l).pty == l.pty && r == LoopStep::Fail(e),
            Ok(q) => driver::serves_request(l.style, l.pty, q, final(l).pty, r),
        };
    lemma_size_parsed(want_reply, request_data@, cols, rows, width_px, height_px, rest, q);
}

/// A request that is not known, or for a subsystem, is refused where an answer is wanted;
/// a signal has no addressee yet; and data means nothing yet.
pub proof fn law_nothing_else_is_served(
    l: &mut SessionLoop,
    event: ChannelEvent,
    name: Seq<char>,
    rest: Seq<u8>,
    r: LoopStep,
)
    requires
        call_ensures(SessionLoop::handle_session_requests, (l, event), r),
    ensures
        event matches ChannelEvent::Request { request_type, want_reply, request_data } ==> {
            &&& request_type@ != "pty-req"@ && request_type@ != "shell"@ && request_type@ != "exec"@
                && request_type@ != "subsystem"@ && request_type@ != "window-change"@
                && request_type@ != "signal"@ && request_type@ != "exit-status"@ && request_type@
                != "exit-signal"@ ==> r == LoopStep::Continue(failure_if(want_reply))
            &&& request_type@ == "subsystem"@ && layout::readable(name)
                && request_data@ == layout::text(name) + rest
                ==> r == LoopStep::Continue(failure_if(want_reply))
            &&& request_type@ == "signal"@ && layout::readable(name)
                && request_data@ == layout::text(name) + rest
                ==> r == LoopStep::Continue(None)
        },
        event is Data || event is ExtendedData ==> r == LoopStep::Continue(None),
        event is Eof ==> r == (LoopStep::End {
            message: if old(l).style.answers_end {
                Some(StreamMessage::ChannelEof)
            } else {
                None
            },
            shutdown: old(l).style.answers_end,
        }),
        event is Close ==> r == (LoopStep::End {
            message: if old(l).style.answers_end {
                Some(StreamMessage::ChannelClose)
            } else {
                None
            },
            shutdown: false,
        }),
{
    if let ChannelEvent::Request { request_type, want_reply, request_data } = event {
        let q = choose|q: Result<ChannelRequest, WireError>| #[trigger]
            request::parses(request_type@, want_reply, request_data@, q) && match q {
                Err(e) => final(l).pty == l.pty && r == LoopStep::Fail(e),
                Ok(q) => driver::serves_request(l.style, l.pty, q, final(l).pty, r),
            };
        assert(request::parses(request_type@, want_reply, request_data@, q));
        if (request_type@ == "subsystem"@ || request_type@ == "signal"@) && layout::readable(name)
            && request_data@ == layout::text(name) + rest {
            lemma_types_differ();
            lemma_text_parsed(request_type@, want_reply, request_data@, name, rest, q);
        }
    }
}

/// A request whose data ends within one of its fields fails the channel.
pub proof fn law_truncated_request_fails(
    l: &mut SessionLoop,
    request_type: String,
    want_reply: bool,
    request_data: Vec<u8>,
    fs: Seq<WireField>,
    k: int,
    r: LoopStep,
)
    requires
        call_ensures(
            SessionLoop::handle_session_requests,
            (l, ChannelEvent::Request { request_type, want_reply, request_data }),
            r,
        ),
        ({
            ||| fs.len() == 1 && request_type@ == "exec"@ && fs[0] is Octets
            ||| fs.len() == 1 && (request_type@ == "subsystem"@ || request_type@ == "signal"@)
                && fs[0] is Text
            ||| fs.len() == 4 && request_type@ == "window-change"@ && forall|i: int|
                0 <= i < 4 ==> ((#[trigger] fs[i]) matches WireField::Number(n) && n
                    <= 0xffff_ffff)
            ||| fs.len() == 6 && request_type@ == "pty-req"@ && fs[0] is Text && fs[5] is Octets
                && forall|i: int|
                1 <= i < 5 ==> ((#[trigger] fs[i]) matches WireField::Number(n) && n
                    <= 0xffff_ffff)
        }),
        wire::all_accepted(fs),
        0 <= k < wire::fields_bytes(fs, 0).len(),
        request_data@ == wire::fields_bytes(fs, 0).subrange(0, k),
    ensures
        r == LoopStep::Fail(WireError::Incomplete),
{
    lemma_types_differ();
    let q = choose|q: Result<ChannelRequest, WireError>| #[trigger]
        request::parses(request_type@, want_reply, request_data@, q) && match q {
            Err(e) => final(l).pty == l.pty && r == LoopStep::Fail(e),
            Ok(q) => driver::serves_request(l.style, l.pty, q, final(l).pty, r),
        };
    assert(request::parses(request_type@, want_reply, request_data@, q));
    let kinds = request::request_kinds(request_type@)->0;
    assert forall|j: int| 0 <= j < fs.len() implies wire::field_accepted(#[trigger] fs[j])
        && wire::is_kind(fs[j], kinds[j]) by {
        assert(wire::field_accepted(fs[j]));
    }
    crate::laws::fields::lemma_fields_in_part(fs, kinds, 0, k);
}

/// A request with data that says it is longer than a mebibyte fails the channel, and so does
/// one with a size that is no number of 32 bits.
pub proof fn law_bad_request_fails(
    l: &mut SessionLoop,
    request_type: String,
    want_reply: bool,
    request_data: Vec<u8>,
    n: nat,
    rest: Seq<u8>,
    r: LoopStep,
)
    requires
        call_ensures(
            SessionLoop::handle_session_requests,
            (l, ChannelEvent::Request { request_type, want_reply, request_data }),
            r,
        ),
        layout::can_be_written(n),
        request_data@ == layout::number(n) + rest,
    ensures
        (request_type@ == "exec"@ || request_type@ == "subsystem"@ || request_type@ == "signal"@
            || request_type@ == "pty-req"@) && n > 0x10_0000 ==> r == LoopStep::Fail(
            WireError::FieldTooLarge { length: n as u64 },
        ),
        request_type@ == "window-change"@ && n > 0xffff_ffff ==> r == LoopStep::Fail(
            WireError::OutOfRange,
        ),
{
    lemma_types_differ();
    layout::lemma_number(n);
    varint::lemma_varint_roundtrip(n, rest);
    let q = choose|q: Result<ChannelRequest, WireError>| #[trigger]
        request::parses(request_type@, want_reply, request_data@, q) && match q {
            Err(e) => final(l).pty == l.pty && r == LoopStep::Fail(e),
            Ok(q) => driver::serves_request(l.style, l.pty, q, final(l).pty, r),
        };
    assert(request::parses(request_type@, want_reply, request_data@, q));
}

/// What a message on a session channel means: data, a request with all that it says, the
/// end of the client's side, or the end of the channel; nothing else means anything.
pub proof fn law_message_means(m: StreamMessage, r: Option<ChannelEvent>)
    requires
        call_ensures(request::channel_event, (m,), r),
    ensures
        m matches StreamMessage::ChannelData { data } ==> r == Some(ChannelEvent::Data(data)),
        m matches StreamMessage::ChannelExtendedData { data_type, data } ==> r == Some(
            ChannelEvent::ExtendedData { data_type, data },
        ),
        m matches StreamMessage::ChannelRequest { request_type, want_reply, data } ==> r == Some(
            ChannelEvent::Request { request_type, want_reply, request_data: data },
        ),
        m is ChannelEof <==> r == Some(ChannelEvent::Eof),
        m is ChannelClose <==> r == Some(ChannelEvent::Close),
        r is None <==> !(m is ChannelData || m is ChannelExtendedData || m is ChannelRequest
            || m is ChannelEof || m is ChannelClose),
{
}

/// A size is taken as it is, and one that no terminal can have is refused.
pub proof fn law_size_taken(
    cols: u32,
    rows: u32,
    width_px: u32,
    height_px: u32,
    r: Result<libc::winsize, pty::DimensionOverflow>,
)
    requires
        call_ensures(pty::checked_winsize, (cols, rows, width_px, height_px), r),
    ensures
        r is Ok <==> can_have(cols as nat, rows as nat, width_px as nat, height_px as nat),
        r matches Ok(ws) ==> is_size(
            ws,
            cols as nat,
            rows as nat,
            width_px as nat,
            height_px as nat,
        ),
        r matches Err(e) ==> e.value > 65535 && ((e.field@ == "width_cols"@ && e.value == cols) || (
        e.field@ == "height_rows"@ && e.value == rows) || (e.field@ == "width_px"@ && e.value
            == width_px) || (e.field@ == "height_px"@ && e.value == height_px)),
{
}

} // verus!
