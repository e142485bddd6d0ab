use std::path::PathBuf;

use ssh3::proto::session::{SessionError, SessionInit};
use ssh3::proto::varint::{encode_varint_sync, VarInt};
use ssh3::proto::wire::{
    ExecRequest, ExitSignalRequest, ExitStatusRequest, PtyRequest, SignalRequest, SubsystemRequest,
    WindowChangeRequest, WireError, DEFAULT_MAX_MESSAGE_SIZE, MAX_REMOTE_FIELD_SIZE,
};
use ssh3::server::channel::reject_legacy_global_request_channel;
use ssh3::server::message::{open_confirmation, StreamMessage};
use ssh3::server::session::driver::{
    apply_privilege_transition, default_shell, drop_privileges, handle_channel,
    handle_remote_channel, start_drop_privileges, start_privilege_transition, ChannelRoute,
    LoopStep, PrivilegeOp, SessionLoop,
};
use ssh3::server::session::request::{
    channel_event, command_args, encode_exit_status, exit_message, handle_request,
    parse_channel_request, relay_input, ChannelEvent, ChannelRequest, CommandEvent, CommandPhase,
    CommandRun, ExitReport, InputStep, OutputEnd, RequestAction,
};
use ssh3::server::session::signal::{
    after_group_kill, deliver_signal, exit_signal_name, signal_number, signal_number_name,
    KillNext, KillResult, Signal, SignalNumbers,
};

fn pty_request(width_cols: u32) -> PtyRequest {
    PtyRequest {
        term_type: "xterm".into(),
        width_cols,
        height_rows: 24,
        width_px: 0,
        height_px: 0,
        terminal_modes: vec![],
    }
}

fn request_event(request_type: &str, want_reply: bool, request_data: Vec<u8>) -> ChannelEvent {
    ChannelEvent::Request {
        request_type: request_type.to_string(),
        want_reply,
        request_data,
    }
}

#[test]
fn exec_request_codec_simple() {
    let mut data = vec![10];
    data.extend_from_slice(b"echo hello");
    let (req, _) = ExecRequest::decode(&data).unwrap();
    assert_eq!(req.command, b"echo hello");
}

#[test]
fn exec_request_codec_empty() {
    let (req, _) = ExecRequest::decode(&[0]).unwrap();
    assert_eq!(req.command, b"");
}

#[test]
fn exec_request_codec_non_utf8() {
    let request_data = vec![0x03, 0x66, 0x6f, 0xff];
    let (req, _) = ExecRequest::decode(&request_data).unwrap();
    assert_eq!(req.command, &[0x66, 0x6f, 0xff]);
}

#[test]
fn encode_exit_status_zero() {
    assert_eq!(encode_exit_status(0), vec![0x00]);
}

#[test]
fn encode_exit_status_one() {
    assert_eq!(encode_exit_status(1), vec![0x01]);
}

#[test]
fn encode_exit_status_small() {
    assert_eq!(encode_exit_status(42), vec![42]);
}

#[test]
fn encode_exit_status_two_byte() {
    assert_eq!(encode_exit_status(127), vec![0x40, 0x7f]);
}

#[test]
fn encode_exit_status_255() {
    assert_eq!(encode_exit_status(255), vec![0x40, 0xff]);
}

#[test]
fn subsystem_rejected() {
    let request = ChannelRequest::Subsystem {
        want_reply: true,
        request: SubsystemRequest {
            subsystem_name: "sftp".into(),
        },
    };
    let (action, reply) = handle_request(request);
    assert_eq!(action, None, "subsystem should return None");
    assert_eq!(reply, Some(StreamMessage::ChannelFailure));
}

#[test]
fn handle_request_exec() {
    let request = ChannelRequest::Exec {
        want_reply: true,
        request: ExecRequest {
            command: b"ls -la".to_vec(),
        },
    };
    let (action, reply) = handle_request(request);
    assert_eq!(action, Some(RequestAction::Exec(b"ls -la".to_vec())));
    assert_eq!(reply, Some(StreamMessage::ChannelSuccess));
}

#[test]
fn handle_request_shell() {
    let (action, reply) = handle_request(ChannelRequest::Shell { want_reply: true });
    assert_eq!(action, Some(RequestAction::Shell));
    assert_eq!(reply, Some(StreamMessage::ChannelSuccess));
}

#[test]
fn handle_request_unknown_type() {
    let request = parse_channel_request("x11-req", true, &[]).unwrap();
    let (action, reply) = handle_request(request);
    assert_eq!(action, None);
    assert_eq!(reply, Some(StreamMessage::ChannelFailure));
}

#[test]
fn handle_request_no_reply() {
    let (action, reply) = handle_request(ChannelRequest::Shell { want_reply: false });
    assert_eq!(action, Some(RequestAction::Shell));
    assert_eq!(reply, None, "no message should be sent when want_reply=false");
}

#[test]
fn exit_status_request_codec_roundtrip() {
    let data = ExitStatusRequest { exit_status: 42 }.encode().unwrap();
    let (req, _) = ExitStatusRequest::decode(&data).unwrap();
    assert_eq!(req.exit_status, 42);
}

#[test]
fn exit_status_request_codec_zero() {
    let data = ExitStatusRequest { exit_status: 0 }.encode().unwrap();
    let (req, _) = ExitStatusRequest::decode(&data).unwrap();
    assert_eq!(req.exit_status, 0);
}

#[test]
fn exit_status_request_codec_255() {
    let data = ExitStatusRequest { exit_status: 255 }.encode().unwrap();
    let (req, _) = ExitStatusRequest::decode(&data).unwrap();
    assert_eq!(req.exit_status, 255);
}

#[test]
fn exit_signal_request_codec_roundtrip() {
    let data = ExitSignalRequest {
        signal_name: "KILL".into(),
        core_dumped: true,
        error_message: "killed by signal".into(),
        language_tag: "en".into(),
    }
    .encode()
    .unwrap();
    let (req, _) = ExitSignalRequest::decode(&data).unwrap();
    assert_eq!(req.signal_name, "KILL");
    assert!(req.core_dumped);
    assert_eq!(req.error_message, "killed by signal");
    assert_eq!(req.language_tag, "en");
}

#[test]
fn exit_signal_request_codec_no_core_dump() {
    let data = ExitSignalRequest {
        signal_name: "TERM".into(),
        core_dumped: false,
        error_message: "terminated".into(),
        language_tag: "".into(),
    }
    .encode()
    .unwrap();
    let (req, _) = ExitSignalRequest::decode(&data).unwrap();
    assert_eq!(req.signal_name, "TERM");
    assert!(!req.core_dumped);
    assert_eq!(req.error_message, "terminated");
    assert_eq!(req.language_tag, "");
}

fn reread(message: StreamMessage) -> ChannelRequest {
    let bytes = message.encode().unwrap();
    let (message, _) = StreamMessage::decode(&bytes).unwrap();
    match channel_event(message) {
        Some(ChannelEvent::Request {
            request_type,
            want_reply,
            request_data,
        }) => parse_channel_request(&request_type, want_reply, &request_data).unwrap(),
        other => panic!("expected a request, got {other:?}"),
    }
}

#[test]
fn exit_status_channel_request_message() {
    let message = exit_message(&ExitReport {
        signal: None,
        core_dumped: false,
        code: Some(42),
    });
    match reread(message) {
        ChannelRequest::ExitStatus(req) => assert_eq!(req.exit_status, 42),
        other => panic!("expected exit-status ChannelRequest, got {other:?}"),
    }
}

#[test]
fn exit_signal_channel_request_message() {
    let data = ExitSignalRequest {
        signal_name: "TERM".to_string(),
        core_dumped: false,
        error_message: "terminated".to_string(),
        language_tag: "en".to_string(),
    }
    .encode()
    .unwrap();
    let message = StreamMessage::ChannelRequest {
        request_type: "exit-signal".to_string(),
        want_reply: false,
        data,
    };
    match reread(message) {
        ChannelRequest::ExitSignal(req) => {
            assert_eq!(req.signal_name, "TERM");
            assert!(!req.core_dumped);
            assert_eq!(req.error_message, "terminated");
            assert_eq!(req.language_tag, "en");
        }
        other => panic!("expected exit-signal ChannelRequest, got {other:?}"),
    }
}

#[test]
fn end_by_a_signal_is_told_by_its_name() {
    let message = exit_message(&ExitReport {
        signal: Some(Signal::of_number(libc::SIGTERM)),
        core_dumped: false,
        code: None,
    });
    match reread(message) {
        ChannelRequest::ExitSignal(req) => {
            assert_eq!(req.signal_name, "TERM");
            assert!(!req.core_dumped);
            assert_eq!(req.error_message, "");
            assert_eq!(req.language_tag, "");
        }
        other => panic!("expected exit-signal ChannelRequest, got {other:?}"),
    }
}

#[test]
fn exec_request_rejects_oversized_command() {
    let mut request_data = Vec::new();
    encode_varint_sync(
        VarInt::from_u64(MAX_REMOTE_FIELD_SIZE + 1).unwrap(),
        &mut request_data,
    );
    let err = ExecRequest::decode(&request_data).unwrap_err();
    let err_str = err.to_string();
    assert!(
        err_str.contains("exec command length")
            || err_str.contains("field length")
            || err_str.contains("too large")
            || err_str.contains("session codec"),
        "expected error about oversized command, got: {err_str}"
    );
    assert_eq!(err_str, "field length 1048577 is too large");
    request_data.extend(vec![b'a'; 1048577]);
    assert_eq!(
        ExecRequest::decode(&request_data),
        Err(WireError::FieldTooLarge { length: 1048577 })
    );
}

#[test]
fn longest_command_is_accepted() {
    let command = vec![b'a'; MAX_REMOTE_FIELD_SIZE as usize];
    let data = ExecRequest {
        command: command.clone(),
    }
    .encode()
    .unwrap();
    let (request, consumed) = ExecRequest::decode(&data).unwrap();
    assert_eq!(request.command, command);
    assert_eq!(consumed, data.len());
    assert_eq!(ExecRequest::decode(&data[..9]), Err(WireError::Incomplete));
    assert_eq!(
        WireError::InvalidUtf8.to_string(),
        "field text is not valid UTF-8"
    );
    assert_eq!(
        WireError::OutOfRange.to_string(),
        "field number is out of range"
    );
    assert_eq!(WireError::Incomplete.to_string(), "field is incomplete");
}

#[test]
fn exit_without_code_is_told_as_255() {
    let message = exit_message(&ExitReport {
        signal: None,
        core_dumped: false,
        code: None,
    });
    assert_eq!(
        reread(message),
        ChannelRequest::ExitStatus(ExitStatusRequest { exit_status: 255 })
    );
}

#[test]
fn parse_subsystem_name() {
    let (req, _) = SubsystemRequest::decode(&[4, b's', b'f', b't', b'p']).unwrap();
    assert_eq!(req.subsystem_name, "sftp");
}

#[test]
fn handle_request_exit_status() {
    let request = ChannelRequest::ExitStatus(ExitStatusRequest { exit_status: 0 });
    assert_eq!(handle_request(request), (None, None));
}

#[test]
fn handle_request_exit_signal() {
    let request = ChannelRequest::ExitSignal(ExitSignalRequest {
        signal_name: "KILL".into(),
        core_dumped: true,
        error_message: "killed".into(),
        language_tag: "en".into(),
    });
    assert_eq!(handle_request(request), (None, None));
}

#[test]
fn handle_request_pty_req_no_premature_reply() {
    let (action, reply) = handle_request(ChannelRequest::PtyReq {
        want_reply: true,
        request: pty_request(80),
    });
    assert!(
        matches!(action, Some(RequestAction::AllocatePty(_, true))),
        "expected AllocatePty with want_reply=true, got {action:?}"
    );
    assert_eq!(
        reply, None,
        "pty-req must NOT send premature ChannelSuccess; reply is deferred to caller"
    );
}

#[test]
fn handle_request_pty_req_returns_want_reply() {
    for want_reply in [true, false] {
        let (action, _) = handle_request(ChannelRequest::PtyReq {
            want_reply,
            request: PtyRequest {
                term_type: "vt100".into(),
                ..pty_request(80)
            },
        });
        match action {
            Some(RequestAction::AllocatePty(_, wr)) => assert_eq!(wr, want_reply),
            other => panic!("expected AllocatePty, got {other:?}"),
        }
    }
}

#[test]
fn exit_signal_name_maps_extended_rfc_signal_set() {
    assert_eq!(exit_signal_name(libc::SIGPIPE), "PIPE");
    assert_eq!(exit_signal_name(libc::SIGABRT), "ABRT");
    assert_eq!(exit_signal_name(libc::SIGSEGV), "SEGV");
}

#[test]
fn exit_signal_name_preserves_unknown_signal_without_fabricating_term() {
    assert_eq!(exit_signal_name(9999), "signal-9999@genmeta-ssh3");
}

#[test]
fn signals_are_those_of_the_system() {
    let known = [
        (libc::SIGABRT, "ABRT"),
        (libc::SIGALRM, "ALRM"),
        (libc::SIGFPE, "FPE"),
        (libc::SIGHUP, "HUP"),
        (libc::SIGILL, "ILL"),
        (libc::SIGINT, "INT"),
        (libc::SIGQUIT, "QUIT"),
        (libc::SIGKILL, "KILL"),
        (libc::SIGPIPE, "PIPE"),
        (libc::SIGSEGV, "SEGV"),
        (libc::SIGTERM, "TERM"),
        (libc::SIGUSR1, "USR1"),
        (libc::SIGUSR2, "USR2"),
    ];
    for (number, name) in known {
        assert_eq!(signal_number_name(number), Some(name));
    }
    for name in ["HUP", "INT", "QUIT", "KILL", "TERM", "USR1", "USR2"] {
        assert_eq!(signal_number(name).unwrap().name(), Some(name));
    }
    assert_eq!(signal_number("ABRT"), None);
    assert_eq!(signal_number_name(0), None);
    assert_eq!(exit_signal_name(-7), "signal--7@genmeta-ssh3");
}

#[test]
fn signals_are_found_by_the_numbers_of_a_system() {
    let numbers = SignalNumbers {
        abrt: 6,
        alrm: 14,
        fpe: 8,
        hup: 1,
        ill: 4,
        int: 2,
        quit: 3,
        kill: 9,
        pipe: 13,
        segv: 11,
        term: 15,
        usr1: 30,
        usr2: 31,
    };
    assert_eq!(Signal::numbered(&numbers, 30), Signal::Usr1);
    assert_eq!(Signal::numbered(&numbers, 31), Signal::Usr2);
    assert_eq!(Signal::numbered(&numbers, 15), Signal::Term);
    assert_eq!(Signal::numbered(&numbers, 10), Signal::Other(10));
    assert_eq!(Signal::Other(10).told_name(), "signal-10@genmeta-ssh3");
    assert_eq!(Signal::Usr1.told_name(), "USR1");
}

#[test]
fn signals_go_to_a_started_process_only() {
    assert_eq!(deliver_signal(0, "TERM"), None);
    assert_eq!(deliver_signal(10, "TERM"), Some(Signal::Term));
    assert_eq!(deliver_signal(10, "WINCH"), None);
    assert_eq!(after_group_kill(KillResult::Delivered), KillNext::Done);
    assert_eq!(after_group_kill(KillResult::NoSuchProcess), KillNext::KillProcess);
    assert_eq!(after_group_kill(KillResult::Failed), KillNext::Fail);
}

fn end_of(code: Option<i32>, signal: Option<i32>) -> CommandEvent {
    CommandEvent::Exited(Some(ExitReport {
        signal: signal.map(Signal::of_number),
        core_dumped: false,
        code,
    }))
}

#[test]
fn exec_echo() {
    let mut run = CommandRun::new(false);
    let mut messages = run.advance(CommandEvent::Spawned(true));
    messages.extend(run.advance(CommandEvent::Output {
        is_stdout: true,
        data: b"hello\n".to_vec(),
    }));
    messages.extend(run.advance(CommandEvent::OutputEnded(OutputEnd::Closed)));
    messages.extend(run.advance(end_of(Some(0), None)));
    assert_eq!(messages.len(), 4);
    assert_eq!(
        messages[0],
        StreamMessage::ChannelData {
            data: b"hello\n".to_vec()
        }
    );
    assert_eq!(
        reread(messages[1].clone()),
        ChannelRequest::ExitStatus(ExitStatusRequest { exit_status: 0 })
    );
    assert_eq!(messages[2], StreamMessage::ChannelEof);
    assert_eq!(messages[3], StreamMessage::ChannelClose);
    assert!(run.advance(end_of(Some(1), None)).is_empty());
}

#[test]
fn exec_failure() {
    let mut run = CommandRun::new(false);
    run.advance(CommandEvent::Spawned(true));
    run.advance(CommandEvent::OutputEnded(OutputEnd::Closed));
    let messages = run.advance(end_of(Some(127), None));
    assert_eq!(
        reread(messages[0].clone()),
        ChannelRequest::ExitStatus(ExitStatusRequest { exit_status: 127 })
    );
    assert_eq!(messages[1], StreamMessage::ChannelEof);
    assert_eq!(messages[2], StreamMessage::ChannelClose);
}

#[test]
fn command_that_cannot_be_started_is_told() {
    let mut run = CommandRun::new(false);
    assert_eq!(
        run.advance(CommandEvent::Spawned(false)),
        vec![StreamMessage::ChannelFailure]
    );
    assert!(run.advance(end_of(Some(0), None)).is_empty());
}

#[test]
fn exec_stderr_output() {
    let mut run = CommandRun::new(false);
    run.advance(CommandEvent::Spawned(true));
    assert_eq!(
        run.advance(CommandEvent::Output {
            is_stdout: false,
            data: b"stderr_msg\n".to_vec(),
        }),
        vec![StreamMessage::ChannelExtendedData {
            data_type: 1,
            data: b"stderr_msg\n".to_vec(),
        }]
    );
}

#[test]
fn pty_signal_emits_exit_signal_instead_of_exit_status() {
    let mut run = CommandRun::new(true);
    run.advance(CommandEvent::Spawned(true));
    run.advance(CommandEvent::OutputEnded(OutputEnd::TerminalGone));
    let messages = run.advance(end_of(None, Some(libc::SIGTERM)));
    match reread(messages[0].clone()) {
        ChannelRequest::ExitSignal(req) => {
            assert_eq!(req.signal_name, "TERM");
            assert_eq!(req.error_message, "");
            assert_eq!(req.language_tag, "");
        }
        other => panic!("expected exit-signal after PTY signal termination, got {other:?}"),
    }
    assert_eq!(
        messages[1..],
        [StreamMessage::ChannelEof, StreamMessage::ChannelClose],
        "PTY signal termination should not emit exit-status (no double-emission)"
    );
}

#[test]
fn pty_numeric_exit_emits_exit_status() {
    let mut run = CommandRun::new(true);
    run.advance(CommandEvent::Spawned(true));
    run.advance(CommandEvent::OutputEnded(OutputEnd::TerminalGone));
    let messages = run.advance(end_of(Some(42), None));
    assert_eq!(
        reread(messages[0].clone()),
        ChannelRequest::ExitStatus(ExitStatusRequest { exit_status: 42 })
    );
}

#[test]
fn non_pty_signal_emits_exit_signal_instead_of_exit_status() {
    let step = relay_input(
        false,
        100,
        request_event(
            "signal",
            false,
            SignalRequest {
                signal_name: "TERM".into(),
            }
            .encode()
            .unwrap(),
        ),
    );
    assert!(matches!(step, InputStep::Signal(Signal::Term)));
    let mut run = CommandRun::new(false);
    run.advance(CommandEvent::Spawned(true));
    run.advance(CommandEvent::OutputEnded(OutputEnd::Closed));
    let messages = run.advance(end_of(None, Some(libc::SIGTERM)));
    match reread(messages[0].clone()) {
        ChannelRequest::ExitSignal(req) => {
            assert_eq!(req.signal_name, "TERM");
            assert_eq!(req.error_message, "");
            assert_eq!(req.language_tag, "");
        }
        other => panic!("expected exit-signal, got {other:?}"),
    }
    assert_eq!(
        messages[1..],
        [StreamMessage::ChannelEof, StreamMessage::ChannelClose],
        "non-PTY signal termination should not emit exit-status"
    );
}

#[test]
fn terminal_that_is_gone_is_an_error_without_one() {
    let mut run = CommandRun::new(false);
    run.advance(CommandEvent::Spawned(true));
    run.advance(CommandEvent::OutputEnded(OutputEnd::TerminalGone));
    assert!(run.advance(end_of(Some(0), None)).is_empty());
}

#[test]
fn input_is_passed_on_by_kind() {
    assert!(matches!(
        relay_input(false, 1, ChannelEvent::Data(b"x".to_vec())),
        InputStep::Write(data) if data == b"x"
    ));
    assert!(matches!(relay_input(false, 1, ChannelEvent::Eof), InputStep::Stop));
    assert!(matches!(relay_input(false, 1, ChannelEvent::Close), InputStep::Ignore));
    let resize = WindowChangeRequest {
        width_cols: 100,
        height_rows: 50,
        width_px: 1,
        height_px: 2,
    }
    .encode()
    .unwrap();
    let event = request_event("window-change", false, resize.clone());
    assert!(matches!(relay_input(false, 1, event), InputStep::Ignore));
    let event = request_event("window-change", false, resize);
    assert!(matches!(
        relay_input(true, 1, event),
        InputStep::Resize(ws) if ws.ws_col == 100 && ws.ws_row == 50
    ));
    let event = request_event("window-change", false, vec![1]);
    assert!(matches!(relay_input(true, 1, event), InputStep::Ignore));
}

#[test]
fn commands_are_handed_to_the_shell() {
    assert_eq!(
        command_args(Some(b"ls".to_vec())),
        vec![b"-c".to_vec(), b"ls".to_vec()]
    );
    assert!(command_args(None).is_empty());
    assert_eq!(default_shell(None), "/bin/sh");
    assert_eq!(default_shell(Some("/bin/zsh".to_string())), "/bin/zsh");
}

#[test]
fn privilege_transition_uses_strict_order() {
    let mut steps = Vec::new();
    let mut next = Some(start_privilege_transition("alice").unwrap());
    while let Some(op) = next {
        steps.push(op);
        next = apply_privilege_transition(op, true).unwrap();
    }
    assert_eq!(
        steps,
        vec![PrivilegeOp::InitGroups, PrivilegeOp::SetGid, PrivilegeOp::SetUid]
    );
}

#[test]
fn privilege_transition_failure_aborts_session_startup() {
    let first = start_privilege_transition("alice").unwrap();
    assert_eq!(first, PrivilegeOp::InitGroups);
    let second = apply_privilege_transition(first, true).unwrap().unwrap();
    assert_eq!(second, PrivilegeOp::SetGid);
    let result = apply_privilege_transition(second, false);
    assert_eq!(
        result.unwrap_err().to_string(),
        "setgid failed",
        "privilege failure should abort startup"
    );
}

#[test]
fn privilege_errors_are_told() {
    assert_eq!(
        start_privilege_transition("a\0b").unwrap_err().to_string(),
        "invalid username for initgroups"
    );
    for (op, text) in [
        (PrivilegeOp::InitGroups, "initgroups failed"),
        (PrivilegeOp::SetUid, "setuid failed"),
    ] {
        assert_eq!(
            apply_privilege_transition(op, false).unwrap_err().to_string(),
            text
        );
    }
    let first = start_drop_privileges();
    assert_eq!(first, PrivilegeOp::SetGid);
    assert_eq!(
        drop_privileges(first, 0, 1000, Some("denied")).unwrap_err().to_string(),
        "setgid(1000) failed: denied"
    );
    let second = drop_privileges(first, 0, 1000, None).unwrap().unwrap();
    assert_eq!(second, PrivilegeOp::SetUid);
    assert_eq!(
        drop_privileges(second, 0, 1000, Some("denied")).unwrap_err().to_string(),
        "setuid(0) failed: denied"
    );
    assert_eq!(drop_privileges(second, 0, 1000, None).unwrap(), None);
}

#[test]
fn session_driver_handle_channel_rejects_unknown_type() {
    let err = handle_channel("bogus-type").unwrap_err();
    assert!(
        err.to_string().contains("unknown channel type"),
        "error should mention unknown channel type, got: {err:?}"
    );
}

#[test]
fn session_driver_handle_channel_dispatches_direct_tcpip() {
    assert_eq!(
        handle_channel("direct-tcpip").unwrap(),
        ChannelRoute::DirectTcp
    );
}

#[test]
fn handle_channel_global_request_is_explicitly_rejected() {
    assert_eq!(
        handle_channel("global-request").unwrap(),
        ChannelRoute::RejectGlobalRequest
    );
    match reject_legacy_global_request_channel() {
        StreamMessage::ChannelOpenFailure {
            reason_code,
            description,
        } => {
            assert_eq!(reason_code, 3);
            assert!(description.contains("control stream"));
        }
        other => panic!("expected ChannelOpenFailure, got {other:?}"),
    }
}

#[test]
fn session_channels_are_routed_by_type() {
    assert_eq!(handle_channel("session").unwrap(), ChannelRoute::Session);
    assert_eq!(handle_channel("socks5").unwrap(), ChannelRoute::Socks5);
    assert_eq!(
        handle_channel("direct-streamlocal@openssh.com").unwrap(),
        ChannelRoute::DirectStreamlocal
    );
    assert_eq!(
        handle_remote_channel("socks5", false).unwrap(),
        ChannelRoute::Socks5
    );
}

#[test]
fn session_driver_run_session_sends_confirmation_first() {
    assert_eq!(handle_channel("session").unwrap(), ChannelRoute::Session);
    let (_, first) = SessionLoop::driven();
    match first {
        StreamMessage::ChannelOpenConfirmation { max_message_size } => {
            assert_eq!(
                max_message_size, DEFAULT_MAX_MESSAGE_SIZE,
                "max_message_size should match DEFAULT_MAX_MESSAGE_SIZE"
            );
        }
        other => panic!("expected ChannelOpenConfirmation as first message, got {other:?}"),
    }
    assert_eq!(DEFAULT_MAX_MESSAGE_SIZE, 1 << 20);
}

#[test]
fn session_impl_handle_channel_rejects_unknown_type() {
    let err = handle_remote_channel("bogus-type", true).unwrap_err();
    assert_eq!(err.to_string(), "unknown channel type: bogus-type");
}

#[test]
fn session_impl_handle_channel_dispatches_direct_tcpip() {
    assert_eq!(
        handle_remote_channel("direct-tcpip", false).unwrap(),
        ChannelRoute::DirectTcp
    );
}

#[test]
fn handle_channel_global_request_needs_context() {
    let err: SessionError = handle_remote_channel("global-request", false).unwrap_err();
    assert!(err.to_string().contains("global context not initialized"));
    assert_eq!(
        handle_remote_channel("global-request", true).unwrap(),
        ChannelRoute::GlobalRequest
    );
}

#[test]
fn session_driver_byte_bridge_session_echo() {
    let (mut session, _) = SessionLoop::driven();
    let data = ExecRequest {
        command: b"echo hello".to_vec(),
    }
    .encode()
    .unwrap();
    match session.handle_session_requests(request_event("exec", true, data)) {
        LoopStep::Run {
            command,
            in_pty,
            reply,
        } => {
            assert_eq!(command, Some(b"echo hello".to_vec()));
            assert!(!in_pty);
            assert_eq!(reply, Some(StreamMessage::ChannelSuccess));
        }
        other => panic!("expected Run, got {other:?}"),
    }
    let mut run = CommandRun::new(false);
    let mut messages = run.advance(CommandEvent::Spawned(true));
    messages.extend(run.advance(CommandEvent::Output {
        is_stdout: true,
        data: b"hello\n".to_vec(),
    }));
    messages.extend(run.advance(CommandEvent::OutputEnded(OutputEnd::Closed)));
    messages.extend(run.advance(end_of(Some(0), None)));
    assert_eq!(
        messages[0],
        StreamMessage::ChannelData {
            data: b"hello\n".to_vec()
        }
    );
    assert_eq!(
        reread(messages[1].clone()),
        ChannelRequest::ExitStatus(ExitStatusRequest { exit_status: 0 })
    );
    assert!(messages.contains(&StreamMessage::ChannelEof));
    assert!(messages.contains(&StreamMessage::ChannelClose));
}

#[test]
fn terminal_is_made_resized_and_taken_over() {
    let (mut session, _) = SessionLoop::driven();
    let resize = WindowChangeRequest {
        width_cols: 100,
        height_rows: 50,
        width_px: 0,
        height_px: 0,
    }
    .encode()
    .unwrap();
    assert!(matches!(
        session.handle_session_requests(request_event("window-change", false, resize.clone())),
        LoopStep::Continue(None)
    ));
    match session.handle_session_requests(request_event(
        "pty-req",
        true,
        pty_request(80).encode().unwrap(),
    )) {
        LoopStep::AllocatePty {
            request,
            size,
            want_reply,
        } => {
            assert_eq!(request.term_type, "xterm");
            assert_eq!((size.ws_col, size.ws_row), (80, 24));
            assert!(want_reply);
        }
        other => panic!("expected AllocatePty, got {other:?}"),
    }
    assert_eq!(
        session.pty_allocated(true, true),
        Some(StreamMessage::ChannelSuccess)
    );
    assert!(matches!(
        session.handle_session_requests(request_event("window-change", false, resize)),
        LoopStep::Resize(ws) if ws.ws_col == 100
    ));
    assert!(matches!(
        session.handle_session_requests(request_event("shell", false, vec![])),
        LoopStep::Run {
            command: None,
            in_pty: true,
            reply: None,
        }
    ));
}

#[test]
fn terminal_of_an_impossible_size_is_refused() {
    let (mut session, _) = SessionLoop::driven();
    let data = pty_request(70000).encode().unwrap();
    assert!(matches!(
        session.handle_session_requests(request_event("pty-req", true, data.clone())),
        LoopStep::Continue(Some(StreamMessage::ChannelFailure))
    ));
    assert!(matches!(
        session.handle_session_requests(request_event("pty-req", false, data)),
        LoopStep::Continue(None)
    ));
    assert_eq!(
        session.pty_allocated(true, false),
        Some(StreamMessage::ChannelFailure)
    );
}

#[test]
fn ends_of_the_client_are_answered_by_style() {
    let (mut driven, confirmation) = SessionLoop::driven();
    assert_eq!(confirmation, open_confirmation());
    assert!(matches!(
        driven.handle_session_requests(ChannelEvent::Eof),
        LoopStep::End {
            message: None,
            shutdown: false,
        }
    ));
    let (mut remote, _) = SessionLoop::remote();
    assert!(matches!(
        remote.handle_session_requests(ChannelEvent::Eof),
        LoopStep::End {
            message: Some(StreamMessage::ChannelEof),
            shutdown: true,
        }
    ));
    assert!(matches!(
        remote.handle_session_requests(ChannelEvent::Close),
        LoopStep::End {
            message: Some(StreamMessage::ChannelClose),
            shutdown: false,
        }
    ));
    assert_eq!(remote.pty_allocated(true, true), None);
    assert!(matches!(
        remote.handle_session_requests(ChannelEvent::Data(vec![1])),
        LoopStep::Continue(None)
    ));
}

#[test]
fn request_that_cannot_be_read_fails_the_channel() {
    let (mut session, _) = SessionLoop::driven();
    assert!(matches!(
        session.handle_session_requests(request_event("exec", true, vec![])),
        LoopStep::Fail(WireError::Incomplete)
    ));
}

#[test]
fn shell_request_starts() {
    let mut run = CommandRun::new(false);
    let mut messages = run.advance(CommandEvent::Spawned(true));
    messages.extend(run.advance(CommandEvent::OutputEnded(OutputEnd::Closed)));
    messages.extend(run.advance(end_of(Some(0), None)));
    assert_eq!(
        reread(messages[0].clone()),
        ChannelRequest::ExitStatus(ExitStatusRequest { exit_status: 0 })
    );
    assert!(messages.contains(&StreamMessage::ChannelEof));
    assert!(messages.contains(&StreamMessage::ChannelClose));
}

#[test]
fn exec_large_stderr_streams_incrementally() {
    let mut run = CommandRun::new(false);
    let mut messages = run.advance(CommandEvent::Spawned(true));
    for size in [8192, 8192, 3616] {
        messages.extend(run.advance(CommandEvent::Output {
            is_stdout: false,
            data: vec![b'x'; size],
        }));
    }
    messages.extend(run.advance(CommandEvent::OutputEnded(OutputEnd::Closed)));
    messages.extend(run.advance(end_of(Some(0), None)));
    let mut stderr_frames = 0;
    let mut total_stderr = 0;
    for message in &messages {
        if let StreamMessage::ChannelExtendedData { data_type, data } = message {
            assert_eq!(*data_type, 1);
            stderr_frames += 1;
            total_stderr += data.len();
        }
    }
    assert!(stderr_frames > 1);
    assert_eq!(total_stderr, 20000);
    let place = |wanted: fn(&StreamMessage) -> bool| messages.iter().position(wanted).unwrap();
    let exit_pos = place(|m| matches!(m, StreamMessage::ChannelRequest { .. }));
    let eof_pos = place(|m| matches!(m, StreamMessage::ChannelEof));
    let close_pos = place(|m| matches!(m, StreamMessage::ChannelClose));
    assert!(exit_pos < eof_pos, "exit-status should come before EOF");
    assert!(eof_pos < close_pos, "EOF should come before Close");
}

#[test]
fn session_impl_byte_bridge_session_echo() {
    let (mut session, first) = SessionLoop::remote();
    assert!(matches!(
        first,
        StreamMessage::ChannelOpenConfirmation { .. }
    ));
    let request_data = ExecRequest {
        command: b"echo hello".to_vec(),
    }
    .encode()
    .unwrap();
    let event = ChannelEvent::Request {
        request_type: "exec".to_string(),
        want_reply: true,
        request_data,
    };
    match session.handle_session_requests(event) {
        LoopStep::Run {
            command,
            in_pty,
            reply,
        } => {
            assert_eq!(command, Some(b"echo hello".to_vec()));
            assert!(!in_pty);
            assert_eq!(reply, Some(StreamMessage::ChannelSuccess));
        }
        other => panic!("expected the command to run, got {other:?}"),
    }
    let mut run = CommandRun::new(false);
    let mut messages = run.advance(CommandEvent::Spawned(true));
    messages.extend(run.advance(CommandEvent::Output {
        is_stdout: true,
        data: b"hello\n".to_vec(),
    }));
    messages.extend(run.advance(CommandEvent::OutputEnded(OutputEnd::Closed)));
    messages.extend(run.advance(end_of(Some(0), None)));
    assert!(messages.contains(&StreamMessage::ChannelData {
        data: b"hello\n".to_vec()
    }));
    assert_eq!(
        reread(messages[1].clone()),
        ChannelRequest::ExitStatus(ExitStatusRequest { exit_status: 0 })
    );
    assert!(messages.contains(&StreamMessage::ChannelEof));
}

#[test]
fn session_impl_run_session_sends_confirmation_first() {
    let (_, first) = SessionLoop::remote();
    match first {
        StreamMessage::ChannelOpenConfirmation { max_message_size } => {
            assert_eq!(max_message_size, DEFAULT_MAX_MESSAGE_SIZE);
        }
        other => panic!("expected ChannelOpenConfirmation as first message, got {other:?}"),
    }
}

fn init_of_bob() -> SessionInit {
    SessionInit {
        conversation_id: 99,
        username: "bob".to_string(),
        uid: 2000,
        gid: 2000,
        home: PathBuf::from("/home/bob"),
        shell: PathBuf::from("/bin/zsh"),
    }
}

#[test]
fn session_driver_run_session_fields_accessible() {
    let init = init_of_bob();
    assert_eq!(init.conversation_id, 99);
    assert_eq!(init.username, "bob");
    assert_eq!(init.uid, 2000);
    assert_eq!(init.gid, 2000);
    let mut op = start_privilege_transition(&init.username).unwrap();
    while let Some(next) = apply_privilege_transition(op, true).unwrap() {
        op = next;
    }
    assert_eq!(op, PrivilegeOp::SetUid);
}

#[test]
fn session_impl_run_session_fields_accessible() {
    let init = init_of_bob();
    assert_eq!(init.conversation_id, 99);
    assert_eq!(init.username, "bob");
    assert_eq!(init.uid, 2000);
    assert_eq!(init.gid, 2000);
    let mut op = start_drop_privileges();
    while let Some(next) = drop_privileges(op, init.uid, init.gid, None).unwrap() {
        op = next;
    }
    assert_eq!(op, PrivilegeOp::SetUid);
}

#[test]
fn command_whose_last_message_cannot_be_written_has_failed() {
    let mut run = CommandRun::new(false);
    run.advance(CommandEvent::Spawned(true));
    run.advance(CommandEvent::OutputEnded(OutputEnd::Closed));
    assert_eq!(run.advance(end_of(Some(0), None)).len(), 3);
    assert_eq!(run.phase, CommandPhase::Done { failed: false });
    assert!(run.advance(CommandEvent::WriteFailed).is_empty());
    assert_eq!(run.phase, CommandPhase::Done { failed: true });
}

#[test]
fn no_two_signals_are_told_by_the_same_name() {
    let names: Vec<String> = (-70..=70).map(exit_signal_name).collect();
    for (i, name) in names.iter().enumerate() {
        assert!(!names[..i].contains(name), "{name} is told twice");
    }
    assert_eq!(exit_signal_name(-5), "signal--5@genmeta-ssh3");
}
