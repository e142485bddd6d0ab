use ssh3::proto::session::TransportError;
use ssh3::proto::wire::{TcpipForwardRequest, DEFAULT_MAX_MESSAGE_SIZE};
use ssh3::server::channel::{
    encode_reply, finish_socket_bind, finish_tcp_bind, handle_global_request_channel,
    handle_open_channel_request, handle_unknown_channel, open_channel_error, process_global_request,
    reject_legacy_global_request_channel, validate_global_request_port, ControlAction,
    ControlEvent, ControlStream, GlobalRequestContext, GlobalRequestReply, GlobalRequestStep,
    OpenChannelStage,
};
use ssh3::server::forward::reverse_tcp::ReverseTcpForwarder;
use ssh3::server::forward::streamlocal::ReverseStreamlocalForwarder;
use ssh3::server::message::{StreamMessage, StreamMessageError};
use ssh3::server::session::driver::{handle_channel, LoopStep, SessionLoop};
use ssh3::server::session::request::{channel_event, ChannelEvent};

fn context() -> GlobalRequestContext<&'static str> {
    GlobalRequestContext {
        tcp_forwarder: ReverseTcpForwarder::new(),
        streamlocal_forwarder: ReverseStreamlocalForwarder::new(),
        conversation_id: 1,
    }
}

fn over_the_wire(message: StreamMessage) -> StreamMessage {
    let bytes = message.encode().unwrap();
    let (decoded, n) = StreamMessage::decode(&bytes).unwrap();
    assert_eq!(n, bytes.len());
    decoded
}

fn tcp_request(bind_port: u32) -> Vec<u8> {
    TcpipForwardRequest {
        bind_address: "127.0.0.1".to_string(),
        bind_port,
    }
    .encode()
    .unwrap()
}

fn replied(
    message: StreamMessage,
    ctx: Option<&mut GlobalRequestContext<&'static str>>,
) -> StreamMessage {
    let (request_type, want_reply, data) =
        handle_global_request_channel(over_the_wire(message)).unwrap();
    assert!(want_reply);
    match process_global_request(&request_type, &data, ctx).unwrap() {
        GlobalRequestStep::Reply(reply) => over_the_wire(encode_reply(reply)),
        GlobalRequestStep::StoppedTcp { reply, .. }
        | GlobalRequestStep::StoppedSocket { reply, .. } => over_the_wire(encode_reply(reply)),
        _ => panic!("nothing was to be bound"),
    }
}

#[test]
fn unknown_channel_type_sends_failure() {
    match over_the_wire(handle_unknown_channel()) {
        StreamMessage::ChannelOpenFailure {
            reason_code,
            description,
        } => {
            assert_eq!(reason_code, 3, "reason_code should be 3 (unknown channel type)");
            assert_eq!(description, "unknown channel type");
        }
        other => panic!("expected ChannelOpenFailure, got {other:?}"),
    }
}

#[test]
fn session_channel_data_event() {
    let message = over_the_wire(StreamMessage::ChannelData {
        data: b"test-data".to_vec(),
    });
    assert_eq!(
        channel_event(message),
        Some(ChannelEvent::Data(b"test-data".to_vec()))
    );
    assert_eq!(
        channel_event(over_the_wire(StreamMessage::ChannelClose)),
        Some(ChannelEvent::Close)
    );
}

#[test]
fn session_channel_request_event() {
    let message = over_the_wire(StreamMessage::ChannelRequest {
        request_type: "exec".into(),
        want_reply: true,
        data: b"ls -la".to_vec(),
    });
    assert_eq!(
        channel_event(message),
        Some(ChannelEvent::Request {
            request_type: "exec".into(),
            want_reply: true,
            request_data: b"ls -la".to_vec(),
        })
    );
}

#[test]
fn session_channel_eof_event() {
    assert_eq!(
        channel_event(over_the_wire(StreamMessage::ChannelEof)),
        Some(ChannelEvent::Eof)
    );
}

#[test]
fn session_channel_extended_data_event() {
    let message = over_the_wire(StreamMessage::ChannelExtendedData {
        data_type: 1,
        data: b"error output".to_vec(),
    });
    assert_eq!(
        channel_event(message),
        Some(ChannelEvent::ExtendedData {
            data_type: 1,
            data: b"error output".to_vec(),
        })
    );
}

#[test]
fn session_channel_success_failure_logged() {
    assert_eq!(channel_event(over_the_wire(StreamMessage::ChannelSuccess)), None);
    assert_eq!(channel_event(over_the_wire(StreamMessage::ChannelFailure)), None);
    assert_eq!(
        channel_event(over_the_wire(StreamMessage::ChannelData {
            data: b"after".to_vec(),
        })),
        Some(ChannelEvent::Data(b"after".to_vec()))
    );
}

#[test]
fn transport_open_channel_without_working_opener_fails() {
    assert!(matches!(
        open_channel_error(OpenChannelStage::OpenStream),
        TransportError::OpenFailed(_)
    ));
    assert_eq!(
        open_channel_error(OpenChannelStage::WriteHeader).to_string(),
        "failed to write channel header"
    );
    assert_eq!(
        open_channel_error(OpenChannelStage::FlushHeader).to_string(),
        "failed to flush channel header"
    );
}

#[test]
fn global_request_tcpip_forward_rejects_out_of_range_port() {
    let mut ctx = context();
    let reply = replied(
        StreamMessage::GlobalRequest {
            request_type: "tcpip-forward".into(),
            want_reply: true,
            data: tcp_request(u16::MAX as u32 + 1),
        },
        Some(&mut ctx),
    );
    assert!(matches!(reply, StreamMessage::RequestFailure));
}

#[test]
fn global_request_cancel_tcpip_forward_rejects_out_of_range_port() {
    let mut ctx = context();
    let reply = replied(
        StreamMessage::GlobalRequest {
            request_type: "cancel-tcpip-forward".into(),
            want_reply: true,
            data: tcp_request(u16::MAX as u32 + 1),
        },
        Some(&mut ctx),
    );
    assert!(matches!(reply, StreamMessage::RequestFailure));
}

fn request(request_type: &str) -> StreamMessage {
    over_the_wire(StreamMessage::GlobalRequest {
        request_type: request_type.into(),
        want_reply: true,
        data: vec![],
    })
}

#[test]
fn global_request_control_stream_pre_readiness_rejects_without_handler_dispatch() {
    let mut stream = ControlStream::new();
    let rejected = stream.serve_control_stream_global_requests(ControlEvent::Message {
        ready: false,
        message: request("tcpip-forward"),
    });
    assert_eq!(rejected, ControlAction::Write(StreamMessage::RequestFailure));

    let dispatched = stream.serve_control_stream_global_requests(ControlEvent::Message {
        ready: true,
        message: request("tcpip-forward"),
    });
    assert_eq!(
        dispatched,
        ControlAction::Dispatch {
            request_type: "tcpip-forward".to_string(),
            data: vec![],
        }
    );
    stream.serve_control_stream_global_requests(ControlEvent::End);
    assert_eq!(stream.finished(), None);

    let accepted = stream.serve_control_stream_global_requests(ControlEvent::Handled(Some(
        GlobalRequestReply::Success(b"ok".to_vec()),
    )));
    assert_eq!(
        accepted,
        ControlAction::Write(StreamMessage::RequestSuccess {
            data: b"ok".to_vec()
        })
    );
    assert_eq!(stream.finished(), Some(true));
}

#[test]
fn global_request_control_stream_sequential_requests_preserve_reply_order() {
    let mut stream = ControlStream::new();
    for request_type in ["first", "second"] {
        let step = stream.serve_control_stream_global_requests(ControlEvent::Message {
            ready: true,
            message: request(request_type),
        });
        let ControlAction::Dispatch { request_type, .. } = step else {
            panic!("expected Dispatch, got {step:?}");
        };
        let reply = stream.serve_control_stream_global_requests(ControlEvent::Handled(Some(
            GlobalRequestReply::Success(request_type.clone().into_bytes()),
        )));
        assert_eq!(
            reply,
            ControlAction::Write(StreamMessage::RequestSuccess {
                data: request_type.as_bytes().to_vec(),
            })
        );
    }
    stream.serve_control_stream_global_requests(ControlEvent::End);
    assert_eq!(stream.finished(), Some(true));
}

#[test]
fn global_request_control_stream_second_in_flight_request_rejected_before_handler_runs() {
    let mut stream = ControlStream::new();
    let first = stream.serve_control_stream_global_requests(ControlEvent::Message {
        ready: true,
        message: request("first"),
    });
    assert!(matches!(first, ControlAction::Dispatch { .. }));
    let rejected = stream.serve_control_stream_global_requests(ControlEvent::Message {
        ready: true,
        message: request("second"),
    });
    assert_eq!(rejected, ControlAction::Write(StreamMessage::RequestFailure));
    let first_reply = stream.serve_control_stream_global_requests(ControlEvent::Handled(Some(
        GlobalRequestReply::Success(b"first".to_vec()),
    )));
    assert_eq!(
        first_reply,
        ControlAction::Write(StreamMessage::RequestSuccess {
            data: b"first".to_vec(),
        })
    );
}

#[test]
fn global_request_legacy_channel_rejection_is_explicit() {
    match over_the_wire(reject_legacy_global_request_channel()) {
        StreamMessage::ChannelOpenFailure {
            reason_code,
            description,
        } => {
            assert_eq!(reason_code, 3);
            assert!(description.contains("control stream"));
        }
        other => panic!("expected ChannelOpenFailure, got {other:?}"),
    }
}

#[test]
fn control_stream_closes_on_another_message() {
    let mut stream = ControlStream::new();
    stream.serve_control_stream_global_requests(ControlEvent::Message {
        ready: true,
        message: request("first"),
    });
    let step = stream.serve_control_stream_global_requests(ControlEvent::Message {
        ready: true,
        message: StreamMessage::ChannelEof,
    });
    assert_eq!(step, ControlAction::Shutdown);
    assert_eq!(stream.finished(), Some(true));
    assert_eq!(
        stream.serve_control_stream_global_requests(ControlEvent::Handled(None)),
        ControlAction::Wait
    );
}

#[test]
fn control_stream_that_cannot_be_read_fails_after_the_last_answer() {
    let mut stream = ControlStream::new();
    stream.serve_control_stream_global_requests(ControlEvent::Message {
        ready: true,
        message: request("first"),
    });
    stream.serve_control_stream_global_requests(ControlEvent::ReadFailed);
    assert_eq!(stream.finished(), None);
    assert_eq!(
        stream.serve_control_stream_global_requests(ControlEvent::Handled(None)),
        ControlAction::Write(StreamMessage::RequestFailure)
    );
    assert_eq!(stream.finished(), Some(false));
}

#[test]
fn requests_that_want_no_answer_get_none() {
    let mut stream = ControlStream::new();
    let quiet = StreamMessage::GlobalRequest {
        request_type: "x".to_string(),
        want_reply: false,
        data: vec![],
    };
    assert_eq!(
        stream.serve_control_stream_global_requests(ControlEvent::Message {
            ready: false,
            message: quiet.clone(),
        }),
        ControlAction::Wait
    );
    stream.serve_control_stream_global_requests(ControlEvent::Message {
        ready: true,
        message: quiet,
    });
    assert_eq!(
        stream.serve_control_stream_global_requests(ControlEvent::Handled(None)),
        ControlAction::Wait
    );
}

#[test]
fn global_request_without_context_is_refused() {
    let step =
        process_global_request::<()>("tcpip-forward", &tcp_request(80), None).unwrap();
    assert!(matches!(
        step,
        GlobalRequestStep::Reply(GlobalRequestReply::Failure)
    ));
}

#[test]
fn listeners_are_started_and_stopped_by_their_conversation() {
    let mut ctx = context();
    let step = process_global_request("tcpip-forward", &tcp_request(0), Some(&mut ctx)).unwrap();
    match step {
        GlobalRequestStep::BindTcp { address, port } => {
            assert_eq!(address, "127.0.0.1");
            assert_eq!(port, 0);
        }
        _ => panic!("expected BindTcp"),
    }
    let (reply, displaced) = finish_tcp_bind(&mut ctx, "127.0.0.1", Some((49152, "task")));
    assert_eq!(
        reply,
        GlobalRequestReply::Success(vec![0x80, 0x00, 0xc0, 0x00])
    );
    assert!(displaced.is_none());
    assert!(ctx.tcp_forwarder.is_listening("127.0.0.1", 49152));

    ctx.conversation_id = 2;
    let step =
        process_global_request("cancel-tcpip-forward", &tcp_request(49152), Some(&mut ctx)).unwrap();
    assert!(matches!(
        step,
        GlobalRequestStep::Reply(GlobalRequestReply::Failure)
    ));
    ctx.conversation_id = 1;
    let step =
        process_global_request("cancel-tcpip-forward", &tcp_request(49152), Some(&mut ctx)).unwrap();
    match step {
        GlobalRequestStep::StoppedTcp { listener, reply } => {
            assert_eq!(listener.task, "task");
            assert_eq!(reply, GlobalRequestReply::Success(vec![]));
        }
        _ => panic!("expected StoppedTcp"),
    }
    assert!(!ctx.tcp_forwarder.is_listening("127.0.0.1", 49152));
}

#[test]
fn socket_listeners_are_started_and_stopped() {
    let mut ctx = context();
    let data = [2, b'/', b'x'];
    let step = process_global_request("streamlocal-forward@openssh.com", &data, Some(&mut ctx));
    match step.unwrap() {
        GlobalRequestStep::BindSocket { path } => assert_eq!(path, "/x"),
        _ => panic!("expected BindSocket"),
    }
    let (reply, displaced) = finish_socket_bind(&mut ctx, "/x", Some("task"));
    assert_eq!(reply, GlobalRequestReply::Success(vec![]));
    assert!(displaced.is_none());
    let (_, displaced) = finish_socket_bind(&mut ctx, "/x", Some("again"));
    let displaced = displaced.unwrap();
    assert_eq!(displaced.task, "task");
    assert!(!displaced.remove_file, "the file is that of the new listener");
    let step =
        process_global_request("cancel-streamlocal-forward@openssh.com", &data, Some(&mut ctx));
    match step.unwrap() {
        GlobalRequestStep::StoppedSocket { socket, .. } => {
            assert_eq!(socket.socket_path, "/x");
            assert!(socket.remove_file);
        }
        _ => panic!("expected StoppedSocket"),
    }
}

#[test]
fn listeners_that_cannot_be_bound_are_refused() {
    let mut ctx = context();
    assert_eq!(
        finish_tcp_bind(&mut ctx, "127.0.0.1", None).0,
        GlobalRequestReply::Failure
    );
    assert_eq!(
        finish_socket_bind(&mut ctx, "/x", None).0,
        GlobalRequestReply::Failure
    );
    assert_eq!(
        validate_global_request_port(65536),
        Err("bind port 65536 is out of range for a TCP port".to_string())
    );
}

#[test]
fn request_data_that_cannot_be_read_is_an_error() {
    let mut ctx = context();
    assert!(process_global_request("tcpip-forward", &[5, b'a'], Some(&mut ctx)).is_err());
    assert!(process_global_request("cancel-tcpip-forward", &[], Some(&mut ctx)).is_err());
    let step = process_global_request("something-else", &[], Some(&mut ctx)).unwrap();
    assert!(matches!(
        step,
        GlobalRequestStep::Reply(GlobalRequestReply::Failure)
    ));
}

#[test]
fn stream_message_bytes_are_exact() {
    assert_eq!(
        StreamMessage::ChannelData {
            data: b"hi".to_vec()
        }
        .encode()
        .unwrap(),
        vec![0x40, 0x5e, 2, b'h', b'i']
    );
    assert_eq!(
        StreamMessage::decode(&[0x40, 0x5d]),
        Err(StreamMessageError::UnknownMessageType(93))
    );
    assert_eq!(
        StreamMessage::decode(&[0x40, 0x5e, 2, b'h'])
            .unwrap_err()
            .to_string(),
        "message is incomplete"
    );
}

#[test]
fn session_channel_close_event() {
    let close = over_the_wire(StreamMessage::ChannelClose);
    let event = channel_event(close).unwrap();
    assert_eq!(event, ChannelEvent::Close);
    let (mut session, _confirm) = SessionLoop::driven();
    assert!(matches!(
        session.handle_session_requests(event),
        LoopStep::End { .. }
    ));
}

#[test]
fn session_channel_lifecycle() {
    let (mut session, confirm) = SessionLoop::driven();
    match over_the_wire(confirm) {
        StreamMessage::ChannelOpenConfirmation { max_message_size } => {
            assert_eq!(max_message_size, DEFAULT_MAX_MESSAGE_SIZE);
        }
        other => panic!("expected ChannelOpenConfirmation, got {other:?}"),
    }
    let data = over_the_wire(StreamMessage::ChannelData {
        data: b"hello".to_vec(),
    });
    assert!(matches!(
        session.handle_session_requests(channel_event(data).unwrap()),
        LoopStep::Continue(None)
    ));
    let eof = over_the_wire(StreamMessage::ChannelEof);
    assert!(matches!(
        session.handle_session_requests(channel_event(eof).unwrap()),
        LoopStep::End { .. }
    ));
}

#[test]
fn forwarding_channel_types_stub() {
    for channel_type in ["forwarded-tcpip", "forwarded-streamlocal@openssh.com"] {
        assert!(handle_channel(channel_type).is_err());
        let failure = over_the_wire(handle_unknown_channel());
        assert!(
            matches!(
                failure,
                StreamMessage::ChannelOpenFailure { reason_code: 3, .. }
            ),
            "expected ChannelOpenFailure for {channel_type}, got {failure:?}"
        );
    }
}

#[test]
fn control_stream_that_cannot_be_written_goes_on_reading_and_fails() {
    let mut stream = ControlStream::new();
    stream.serve_control_stream_global_requests(ControlEvent::Message {
        ready: false,
        message: request("first"),
    });
    stream.serve_control_stream_global_requests(ControlEvent::WriteFailed);
    assert_eq!(stream.finished(), None);
    let step = stream.serve_control_stream_global_requests(ControlEvent::Message {
        ready: true,
        message: request("second"),
    });
    assert!(matches!(step, ControlAction::Dispatch { .. }));
    let step = stream.serve_control_stream_global_requests(ControlEvent::Message {
        ready: true,
        message: request("third"),
    });
    assert_eq!(step, ControlAction::Wait);
    stream.serve_control_stream_global_requests(ControlEvent::End);
    assert_eq!(stream.finished(), Some(false));
}

#[test]
fn open_channel_request_hides_the_reason() {
    assert_eq!(handle_open_channel_request(Ok(7)).unwrap(), 7);
    let failed: Result<u8, _> =
        handle_open_channel_request(Err(open_channel_error(OpenChannelStage::OpenStream)));
    assert_eq!(failed.unwrap_err().to_string(), "failed to open channel");
}
