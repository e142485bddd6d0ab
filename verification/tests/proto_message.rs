use ssh3::proto::codec::MessageType;
use ssh3::proto::error::CodecError;
use ssh3::proto::message::{
    ChannelCloseMsg, ChannelDataMsg, ChannelEOFMsg, ChannelExtendedDataMsg, ChannelFailureMsg,
    ChannelOpenConfirmationMsg, ChannelOpenFailureMsg, ChannelOpenFailureReason, ChannelOpenMsg,
    ChannelRequestMsg, ChannelRequestType, ChannelSuccessMsg, ChannelType, ChannelWindowAdjustMsg,
    GlobalReplyMsg, GlobalRequestMsg, GlobalRequestType, SshMessage, MSG_GLOBAL_REPLY,
    MSG_GLOBAL_REQUEST,
};


// ── MessageType value sanity ──────────────────────────────────────────────

#[test]
fn message_type_values() {
    assert_eq!(MessageType::new(MessageType::CHANNEL_OPEN).into_inner(), 90);
    assert_eq!(MessageType::new(MessageType::CHANNEL_OPEN_CONFIRMATION).into_inner(), 91);
    assert_eq!(MessageType::new(MessageType::CHANNEL_OPEN_FAILURE).into_inner(), 92);
    assert_eq!(MessageType::new(MessageType::CHANNEL_WINDOW_ADJUST).into_inner(), 93);
    assert_eq!(MessageType::new(MessageType::CHANNEL_DATA).into_inner(), 94);
    assert_eq!(MessageType::new(MessageType::CHANNEL_EXTENDED_DATA).into_inner(), 95);
    assert_eq!(MessageType::new(MessageType::CHANNEL_EOF).into_inner(), 96);
    assert_eq!(MessageType::new(MessageType::CHANNEL_CLOSE).into_inner(), 97);
    assert_eq!(MessageType::new(MessageType::CHANNEL_REQUEST).into_inner(), 98);
    assert_eq!(MessageType::new(MessageType::CHANNEL_SUCCESS).into_inner(), 99);
    assert_eq!(MessageType::new(MessageType::CHANNEL_FAILURE).into_inner(), 100);
}

// ── ChannelType string conversion ─────────────────────────────────────────

#[test]
fn channel_type_as_str() {
    assert_eq!(ChannelType::Session.as_str(), "session");
    assert_eq!(ChannelType::DirectTcp.as_str(), "direct-tcp");
    assert_eq!(ChannelType::ReverseTcp.as_str(), "reverse-tcp");
    assert_eq!(ChannelType::DirectUdp.as_str(), "direct-udp");
    assert_eq!(ChannelType::ReverseUdp.as_str(), "reverse-udp");
}

#[test]
fn channel_type_from_str() {
    assert_eq!(ChannelType::from("session"), ChannelType::Session);
    assert_eq!(ChannelType::from("direct-tcp"), ChannelType::DirectTcp);
    assert_eq!(ChannelType::from("reverse-tcp"), ChannelType::ReverseTcp);
    assert_eq!(ChannelType::from("direct-udp"), ChannelType::DirectUdp);
    assert_eq!(ChannelType::from("reverse-udp"), ChannelType::ReverseUdp);
    assert_eq!(
        ChannelType::from("x11"),
        ChannelType::Other("x11".to_string())
    );
}

#[test]
fn channel_type_roundtrip_str() {
    for ct in [
        ChannelType::Session,
        ChannelType::DirectTcp,
        ChannelType::ReverseTcp,
        ChannelType::DirectUdp,
        ChannelType::ReverseUdp,
    ] {
        assert_eq!(ChannelType::from(ct.as_str()), ct);
    }
}

// ── SshMessage encode/decode roundtrips ───────────────────────────────────

fn roundtrip(msg: SshMessage) -> SshMessage {
    let encoded = msg.encode().expect("encode failed");
    SshMessage::decode(&encoded).expect("decode failed")
}

#[test]
fn channel_open_roundtrip() {
    let msg = SshMessage::ChannelOpen(ChannelOpenMsg {
        channel_type: ChannelType::Session,
        maximum_message_size: 65536,
    });
    let decoded = roundtrip(msg);
    if let SshMessage::ChannelOpen(inner) = decoded {
        assert_eq!(inner.channel_type, ChannelType::Session);
        assert_eq!(inner.maximum_message_size, 65536);
    } else {
        panic!("wrong variant");
    }
}

#[test]
fn channel_open_encode_first_byte_is_90() {
    let msg = SshMessage::ChannelOpen(ChannelOpenMsg {
        channel_type: ChannelType::Session,
        maximum_message_size: 1024,
    });
    let bytes = msg.encode().unwrap();
    assert_eq!(bytes[0], 90);
}

#[test]
fn channel_open_confirmation_roundtrip() {
    let msg = SshMessage::ChannelOpenConfirmation(ChannelOpenConfirmationMsg {
        maximum_message_size: 131072,
    });
    let decoded = roundtrip(msg);
    if let SshMessage::ChannelOpenConfirmation(inner) = decoded {
        assert_eq!(inner.maximum_message_size, 131072);
    } else {
        panic!("wrong variant");
    }
}

#[test]
fn channel_open_failure_roundtrip() {
    let msg = SshMessage::ChannelOpenFailure(ChannelOpenFailureMsg {
        reason_code: ChannelOpenFailureReason::ConnectFailed.code(),
        description: "Connection refused".to_string(),
    });
    let decoded = roundtrip(msg);
    if let SshMessage::ChannelOpenFailure(inner) = decoded {
        assert_eq!(inner.reason_code, 2);
        assert_eq!(inner.description, "Connection refused");
    } else {
        panic!("wrong variant");
    }
}

#[test]
fn channel_window_adjust_roundtrip() {
    let msg = SshMessage::ChannelWindowAdjust(ChannelWindowAdjustMsg {
        bytes_to_add: 1_048_576,
    });
    let decoded = roundtrip(msg);
    if let SshMessage::ChannelWindowAdjust(inner) = decoded {
        assert_eq!(inner.bytes_to_add, 1_048_576);
    } else {
        panic!("wrong variant");
    }
}

#[test]
fn channel_data_roundtrip() {
    let data = b"hello, SSH3!".to_vec();
    let msg = SshMessage::ChannelData(ChannelDataMsg::new(data.clone()));
    let decoded = roundtrip(msg);
    if let SshMessage::ChannelData(inner) = decoded {
        assert_eq!(inner.data, data);
    } else {
        panic!("wrong variant");
    }
}

#[test]
fn channel_extended_data_roundtrip() {
    let msg = SshMessage::ChannelExtendedData(ChannelExtendedDataMsg {
        data_type_code: ChannelExtendedDataMsg::STDERR,
        data: b"error output".to_vec(),
    });
    let decoded = roundtrip(msg);
    if let SshMessage::ChannelExtendedData(inner) = decoded {
        assert_eq!(inner.data_type_code, 1);
        assert_eq!(inner.data, b"error output");
    } else {
        panic!("wrong variant");
    }
}

#[test]
fn channel_eof_roundtrip() {
    let msg = SshMessage::ChannelEOF(ChannelEOFMsg::default());
    let decoded = roundtrip(msg);
    assert!(matches!(decoded, SshMessage::ChannelEOF(_)));
}

#[test]
fn channel_close_roundtrip() {
    let msg = SshMessage::ChannelClose(ChannelCloseMsg::default());
    let decoded = roundtrip(msg);
    assert!(matches!(decoded, SshMessage::ChannelClose(_)));
}

#[test]
fn channel_success_roundtrip() {
    let msg = SshMessage::ChannelSuccess(ChannelSuccessMsg::default());
    let decoded = roundtrip(msg);
    assert!(matches!(decoded, SshMessage::ChannelSuccess(_)));
}

#[test]
fn channel_failure_roundtrip() {
    let msg = SshMessage::ChannelFailure(ChannelFailureMsg::default());
    let decoded = roundtrip(msg);
    assert!(matches!(decoded, SshMessage::ChannelFailure(_)));
}

// ── ChannelRequestType variants ───────────────────────────────────────────

fn roundtrip_request(req_type: ChannelRequestType) -> ChannelRequestType {
    let msg = SshMessage::ChannelRequest(ChannelRequestMsg {
        want_reply: true,
        request: req_type,
    });
    let decoded = roundtrip(msg);
    if let SshMessage::ChannelRequest(inner) = decoded {
        assert!(inner.want_reply);
        inner.request
    } else {
        panic!("wrong variant");
    }
}

#[test]
fn channel_request_pty_req_roundtrip() {
    let req = ChannelRequestType::PtyReq {
        term: "xterm-256color".to_string(),
        width_chars: 80,
        height_rows: 24,
        width_px: 0,
        height_px: 0,
        modes: vec![0x80, 0x00, 0x00, 0x25, 0x80, 0x00],
    };
    let decoded = roundtrip_request(req);
    if let ChannelRequestType::PtyReq {
        term,
        width_chars,
        height_rows,
        ..
    } = decoded
    {
        assert_eq!(term, "xterm-256color");
        assert_eq!(width_chars, 80);
        assert_eq!(height_rows, 24);
    } else {
        panic!("wrong variant");
    }
}

#[test]
fn channel_request_shell_roundtrip() {
    let req = ChannelRequestType::Shell;
    let decoded = roundtrip_request(req);
    assert!(matches!(decoded, ChannelRequestType::Shell));
}

#[test]
fn channel_request_exec_roundtrip() {
    let req = ChannelRequestType::Exec {
        command: "ls -la /tmp".to_string(),
    };
    let decoded = roundtrip_request(req);
    if let ChannelRequestType::Exec { command } = decoded {
        assert_eq!(command, "ls -la /tmp");
    } else {
        panic!("wrong variant");
    }
}

#[test]
fn channel_request_subsystem_roundtrip() {
    let req = ChannelRequestType::Subsystem {
        subsystem: "sftp".to_string(),
    };
    let decoded = roundtrip_request(req);
    if let ChannelRequestType::Subsystem { subsystem } = decoded {
        assert_eq!(subsystem, "sftp");
    } else {
        panic!("wrong variant");
    }
}

#[test]
fn channel_request_window_change_roundtrip() {
    let req = ChannelRequestType::WindowChange {
        width_chars: 120,
        height_rows: 40,
        width_px: 960,
        height_px: 640,
    };
    let decoded = roundtrip_request(req);
    if let ChannelRequestType::WindowChange {
        width_chars,
        height_rows,
        width_px,
        height_px,
    } = decoded
    {
        assert_eq!(width_chars, 120);
        assert_eq!(height_rows, 40);
        assert_eq!(width_px, 960);
        assert_eq!(height_px, 640);
    } else {
        panic!("wrong variant");
    }
}

#[test]
fn channel_request_signal_roundtrip() {
    let req = ChannelRequestType::Signal {
        signal: "KILL".to_string(),
    };
    let decoded = roundtrip_request(req);
    if let ChannelRequestType::Signal { signal } = decoded {
        assert_eq!(signal, "KILL");
    } else {
        panic!("wrong variant");
    }
}

#[test]
fn channel_request_exit_status_roundtrip() {
    let req = ChannelRequestType::ExitStatus { exit_status: 42 };
    let decoded = roundtrip_request(req);
    if let ChannelRequestType::ExitStatus { exit_status } = decoded {
        assert_eq!(exit_status, 42);
    } else {
        panic!("wrong variant");
    }
}

#[test]
fn channel_request_exit_signal_roundtrip() {
    let req = ChannelRequestType::ExitSignal {
        signal: "SEGV".to_string(),
        core_dumped: true,
        error_message: "Segmentation fault".to_string(),
        language_tag: "en".to_string(),
    };
    let decoded = roundtrip_request(req);
    if let ChannelRequestType::ExitSignal {
        signal,
        core_dumped,
        error_message,
        language_tag,
    } = decoded
    {
        assert_eq!(signal, "SEGV");
        assert!(core_dumped);
        assert_eq!(error_message, "Segmentation fault");
        assert_eq!(language_tag, "en");
    } else {
        panic!("wrong variant");
    }
}

#[test]
fn channel_request_env_roundtrip() {
    let req = ChannelRequestType::Env {
        name: "LANG".to_string(),
        value: "en_US.UTF-8".to_string(),
    };
    let decoded = roundtrip_request(req);
    if let ChannelRequestType::Env { name, value } = decoded {
        assert_eq!(name, "LANG");
        assert_eq!(value, "en_US.UTF-8");
    } else {
        panic!("wrong variant");
    }
}

// ── GlobalRequest / GlobalReply ───────────────────────────────────────────

#[test]
fn global_request_tcpip_forward_roundtrip() {
    let msg = SshMessage::GlobalRequest(GlobalRequestMsg {
        want_reply: true,
        request: GlobalRequestType::TcpipForward {
            bind_host: "0.0.0.0".to_string(),
            bind_port: 8080,
        },
    });
    let decoded = roundtrip(msg);
    if let SshMessage::GlobalRequest(inner) = decoded {
        assert!(inner.want_reply);
        if let GlobalRequestType::TcpipForward {
            bind_host,
            bind_port,
        } = inner.request
        {
            assert_eq!(bind_host, "0.0.0.0");
            assert_eq!(bind_port, 8080);
        } else {
            panic!("wrong request type");
        }
    } else {
        panic!("wrong variant");
    }
}

#[test]
fn global_request_cancel_tcpip_forward_roundtrip() {
    let msg = SshMessage::GlobalRequest(GlobalRequestMsg {
        want_reply: false,
        request: GlobalRequestType::CancelTcpipForward {
            bind_host: "127.0.0.1".to_string(),
            bind_port: 2222,
        },
    });
    let decoded = roundtrip(msg);
    if let SshMessage::GlobalRequest(inner) = decoded {
        if let GlobalRequestType::CancelTcpipForward {
            bind_host,
            bind_port,
        } = inner.request
        {
            assert_eq!(bind_host, "127.0.0.1");
            assert_eq!(bind_port, 2222);
        } else {
            panic!("wrong request type");
        }
    } else {
        panic!("wrong variant");
    }
}

#[test]
fn global_request_streamlocal_forward_roundtrip() {
    let msg = SshMessage::GlobalRequest(GlobalRequestMsg {
        want_reply: true,
        request: GlobalRequestType::StreamlocalForward {
            socket_path: "/tmp/test.sock".to_string(),
        },
    });
    let decoded = roundtrip(msg);
    if let SshMessage::GlobalRequest(inner) = decoded {
        if let GlobalRequestType::StreamlocalForward { socket_path } = inner.request {
            assert_eq!(socket_path, "/tmp/test.sock");
        } else {
            panic!("wrong request type");
        }
    } else {
        panic!("wrong variant");
    }
}

#[test]
fn global_request_cancel_streamlocal_roundtrip() {
    let msg = SshMessage::GlobalRequest(GlobalRequestMsg {
        want_reply: false,
        request: GlobalRequestType::CancelStreamlocalForward {
            socket_path: "/run/app.sock".to_string(),
        },
    });
    let decoded = roundtrip(msg);
    if let SshMessage::GlobalRequest(inner) = decoded {
        if let GlobalRequestType::CancelStreamlocalForward { socket_path } = inner.request {
            assert_eq!(socket_path, "/run/app.sock");
        } else {
            panic!("wrong request type");
        }
    } else {
        panic!("wrong variant");
    }
}

#[test]
fn global_reply_success_roundtrip() {
    let msg = SshMessage::GlobalReply(GlobalReplyMsg {
        success: true,
        bound_port: Some(12345),
    });
    let decoded = roundtrip(msg);
    if let SshMessage::GlobalReply(inner) = decoded {
        assert!(inner.success);
        assert_eq!(inner.bound_port, Some(12345));
    } else {
        panic!("wrong variant");
    }
}

#[test]
fn global_reply_failure_roundtrip() {
    let msg = SshMessage::GlobalReply(GlobalReplyMsg {
        success: false,
        bound_port: None,
    });
    let decoded = roundtrip(msg);
    if let SshMessage::GlobalReply(inner) = decoded {
        assert!(!inner.success);
        assert_eq!(inner.bound_port, None);
    } else {
        panic!("wrong variant");
    }
}

// ── Error cases ───────────────────────────────────────────────────────────

#[test]
fn decode_empty_returns_incomplete() {
    let result = SshMessage::decode(&[]);
    assert!(matches!(result, Err(CodecError::Incomplete)));
}

#[test]
fn decode_unknown_message_type() {
    let result = SshMessage::decode(&[0x01]);
    assert!(matches!(
        result,
        Err(CodecError::UnknownMessageType { value: 1 })
    ));
}

#[test]
fn decode_truncated_body_returns_error() {
    // Encode a valid message, then truncate the body
    let msg = SshMessage::ChannelData(ChannelDataMsg::new(b"hello".to_vec()));
    let encoded = msg.encode().unwrap();
    // Only keep the type byte — empty body should fail CBOR decode
    let truncated = &encoded[..1];
    let result = SshMessage::decode(truncated);
    assert!(result.is_err());
}

// ── First byte of encoded messages matches expected type ──────────────────

#[test]
fn encoded_first_bytes_match_types() {
    let cases: &[(SshMessage, u8)] = &[
        (
            SshMessage::ChannelOpen(ChannelOpenMsg {
                channel_type: ChannelType::Session,
                maximum_message_size: 1024,
            }),
            90,
        ),
        (
            SshMessage::ChannelOpenConfirmation(ChannelOpenConfirmationMsg {
                maximum_message_size: 1024,
            }),
            91,
        ),
        (
            SshMessage::ChannelOpenFailure(ChannelOpenFailureMsg {
                reason_code: 1,
                description: String::new(),
            }),
            92,
        ),
        (
            SshMessage::ChannelWindowAdjust(ChannelWindowAdjustMsg { bytes_to_add: 0 }),
            93,
        ),
        (SshMessage::ChannelData(ChannelDataMsg::new(vec![])), 94),
        (
            SshMessage::ChannelExtendedData(ChannelExtendedDataMsg {
                data_type_code: 1,
                data: vec![],
            }),
            95,
        ),
        (SshMessage::ChannelEOF(ChannelEOFMsg::default()), 96),
        (SshMessage::ChannelClose(ChannelCloseMsg::default()), 97),
        (
            SshMessage::ChannelRequest(ChannelRequestMsg {
                want_reply: false,
                request: ChannelRequestType::Shell,
            }),
            98,
        ),
        (SshMessage::ChannelSuccess(ChannelSuccessMsg::default()), 99),
        (
            SshMessage::ChannelFailure(ChannelFailureMsg::default()),
            100,
        ),
        (
            SshMessage::GlobalRequest(GlobalRequestMsg {
                want_reply: false,
                request: GlobalRequestType::TcpipForward {
                    bind_host: "0.0.0.0".to_string(),
                    bind_port: 22,
                },
            }),
            MSG_GLOBAL_REQUEST,
        ),
        (
            SshMessage::GlobalReply(GlobalReplyMsg {
                success: true,
                bound_port: None,
            }),
            MSG_GLOBAL_REPLY,
        ),
    ];

    for (msg, expected_type) in cases {
        let encoded = msg.encode().unwrap();
        assert_eq!(encoded[0], *expected_type, "wrong type byte for {:?}", msg);
    }
}

#[test]
fn requests_have_the_names_of_the_connection_protocol() {
    let named: Vec<(ChannelRequestType, &str)> = vec![
        (ChannelRequestType::Shell, "shell"),
        (
            ChannelRequestType::Subsystem {
                subsystem: "sftp".to_string(),
            },
            "subsystem",
        ),
    ];
    for (request, name) in named {
        assert_eq!(request.request_type_str(), name);
    }
}
