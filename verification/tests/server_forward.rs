use ssh3::proto::codec::{ChannelStreamHeader, ConversationId};
use ssh3::proto::wire::{
    DirectStreamlocalRequest, DirectTcpRequest, ForwardedStreamlocalRequest, ForwardedTcpipRequest,
    StreamlocalForwardRequest, TcpipForwardReply, TcpipForwardRequest, WireError,
    DEFAULT_MAX_MESSAGE_SIZE,
};
use ssh3::server::forward::direct_tcp::{
    connect_reply, handle_direct_tcp, join_host_port, validate_port, ForwardPlan,
};
use ssh3::server::forward::reverse_tcp::{
    forwarded_answer, forwarded_tcpip_opening, ForwardedAnswer, ReverseTcpForwarder,
};
use ssh3::server::forward::streamlocal::{
    forwarded_streamlocal_opening, handle_direct_streamlocal, ReverseStreamlocalForwarder,
};
use ssh3::server::forward::tasks::TrackedConnectionTasks;
use ssh3::server::message::{open_failure, StreamMessage, CONNECT_FAILED};

fn encode_request_data(
    dest_host: &str,
    dest_port: u64,
    originator_host: &str,
    originator_port: u64,
) -> Vec<u8> {
    DirectTcpRequest {
        dest_host: dest_host.to_string(),
        dest_port,
        originator_host: originator_host.to_string(),
        originator_port,
    }
    .encode()
    .unwrap()
}

#[test]
fn direct_tcp_request_data_roundtrip() {
    let data = encode_request_data("example.com", 8080, "192.168.1.1", 54321);
    let (request, n) = DirectTcpRequest::decode(&data).unwrap();
    assert_eq!(n, data.len());
    assert_eq!(request.dest_host, "example.com");
    assert_eq!(request.dest_port, 8080);
    assert_eq!(request.originator_host, "192.168.1.1");
    assert_eq!(request.originator_port, 54321);
}

#[test]
fn direct_tcp_request_data_hex_dump() {
    let data = encode_request_data("hi", 80, "lo", 22);
    assert_eq!(
        data,
        vec![
            0x02, 0x68, 0x69, // "hi"
            0x40, 0x50, // port 80
            0x02, 0x6c, 0x6f, // "lo"
            0x16, // port 22
        ]
    );
}

#[test]
fn direct_tcp_roundtrip() {
    let mut data = encode_request_data("127.0.0.1", 8080, "127.0.0.1", 12345);
    let length = data.len();
    data.extend_from_slice(b"hello");
    assert_eq!(
        handle_direct_tcp(&data),
        Ok(ForwardPlan::Connect {
            address: "127.0.0.1:8080".to_string(),
            consumed: length,
        })
    );
    assert_eq!(
        connect_reply(true),
        StreamMessage::ChannelOpenConfirmation {
            max_message_size: DEFAULT_MAX_MESSAGE_SIZE
        }
    );
    assert_eq!(&data[length..], b"hello");
}

#[test]
fn tcp_connect_failure() {
    match connect_reply(false) {
        StreamMessage::ChannelOpenFailure {
            reason_code,
            description,
        } => {
            assert_eq!(
                reason_code, CONNECT_FAILED,
                "reason_code should be 2 (SSH_OPEN_CONNECT_FAILED)"
            );
            assert_eq!(reason_code, 2);
            assert!(
                description.contains("connect failed"),
                "description should mention connect failure, got: {description}"
            );
        }
        other => panic!("expected ChannelOpenFailure, got {other:?}"),
    }
}

#[test]
fn out_of_range_port_is_rejected_instead_of_truncated() {
    let overflow_port = 8080u64 + (u16::MAX as u64) + 1;
    let data = encode_request_data("127.0.0.1", overflow_port, "127.0.0.1", 11111);
    match handle_direct_tcp(&data) {
        Ok(ForwardPlan::Refuse(StreamMessage::ChannelOpenFailure {
            reason_code,
            description,
        })) => {
            assert_eq!(reason_code, 2);
            assert!(
                description.contains("out of range"),
                "unexpected description: {description}"
            );
        }
        other => panic!("expected ChannelOpenFailure for out-of-range port, got {other:?}"),
    }
}

#[test]
fn ports_are_checked_by_name() {
    assert_eq!(validate_port(65535, "port"), Ok(65535));
    assert_eq!(
        validate_port(65536, "destination port"),
        Err("destination port 65536 is out of range for a TCP port".to_string())
    );
    assert_eq!(join_host_port("::1", 80), "::1:80");
}

#[test]
fn direct_tcp_request_that_is_cut_off_needs_more() {
    let data = encode_request_data("127.0.0.1", 8080, "127.0.0.1", 12345);
    for n in 0..data.len() {
        assert_eq!(handle_direct_tcp(&data[..n]), Err(WireError::Incomplete));
    }
    assert_eq!(handle_direct_tcp(&[1, 0xff]), Err(WireError::InvalidUtf8));
}

#[test]
fn tcpip_forward_request_roundtrip() {
    let req = TcpipForwardRequest {
        bind_address: "0.0.0.0".into(),
        bind_port: 8080,
    };
    let bytes = req.encode().unwrap();
    let (decoded, _) = TcpipForwardRequest::decode(&bytes).unwrap();
    assert_eq!(decoded, req);
}

#[test]
fn tcpip_forward_request_hex_dump() {
    let req = TcpipForwardRequest {
        bind_address: "hi".into(),
        bind_port: 22,
    };
    assert_eq!(req.encode().unwrap(), vec![0x02, 0x68, 0x69, 0x16]);
}

#[test]
fn cancel_tcpip_forward_request_roundtrip() {
    let req = TcpipForwardRequest {
        bind_address: "127.0.0.1".into(),
        bind_port: 3000,
    };
    let bytes = req.encode().unwrap();
    let (decoded, _) = TcpipForwardRequest::decode(&bytes).unwrap();
    assert_eq!(decoded, req);
}

#[test]
fn tcpip_forward_reply_roundtrip() {
    let reply = TcpipForwardReply {
        allocated_port: 49152,
    };
    let bytes = reply.encode().unwrap();
    let (decoded, _) = TcpipForwardReply::decode(&bytes).unwrap();
    assert_eq!(decoded, reply);
}

#[test]
fn numbers_that_are_too_large_are_rejected() {
    assert_eq!(
        TcpipForwardReply::decode(&[0xc0, 0, 0, 1, 0, 0, 0, 0]),
        Err(WireError::OutOfRange)
    );
    let request = DirectTcpRequest {
        dest_host: String::new(),
        dest_port: u64::MAX,
        originator_host: String::new(),
        originator_port: 0,
    };
    assert_eq!(request.encode(), None);
}

#[test]
fn reverse_tcp_forwarder_start_stop() {
    let mut forwarder = ReverseTcpForwarder::new();
    let port = 40001;
    assert!(forwarder.start_listening("127.0.0.1", port, 1, ()).is_none());
    assert!(forwarder.is_listening("127.0.0.1", port));
    let stopped = forwarder.stop_listening("127.0.0.1", port, 1).is_some();
    assert!(stopped, "should return true when listener exists");
    assert!(!forwarder.is_listening("127.0.0.1", port));
    let stopped_again = forwarder.stop_listening("127.0.0.1", port, 1).is_some();
    assert!(!stopped_again, "should return false when listener doesn't exist");
}

#[test]
fn listener_at_a_taken_place_displaces_the_earlier_one() {
    let mut forwarder = ReverseTcpForwarder::new();
    assert!(forwarder.start_listening("127.0.0.1", 1, 1, "a").is_none());
    let displaced = forwarder.start_listening("127.0.0.1", 1, 2, "b").unwrap();
    assert_eq!((displaced.owner, displaced.task), (1, "a"));
    assert!(forwarder.stop_listening("127.0.0.1", 1, 1).is_none());
    assert!(forwarder.stop_listening("127.0.0.1", 1, 2).is_some());
}

#[test]
fn non_owner_cannot_stop_listener() {
    let mut forwarder = ReverseTcpForwarder::new();
    forwarder.start_listening("127.0.0.1", 40002, 7, ());
    let stopped = forwarder.stop_listening("127.0.0.1", 40002, 8).is_some();
    assert!(!stopped, "non-owner should not stop listener");
    assert!(forwarder.is_listening("127.0.0.1", 40002));
    forwarder.cleanup_for_owner(7);
}

#[test]
fn cleanup_for_owner_is_idempotent() {
    let mut forwarder = ReverseTcpForwarder::new();
    forwarder.start_listening("127.0.0.1", 40003, 9, ());
    assert_eq!(forwarder.cleanup_for_owner(9).len(), 1);
    assert_eq!(forwarder.cleanup_for_owner(9).len(), 0);
    assert!(!forwarder.is_listening("127.0.0.1", 40003));
}

#[test]
fn cleanup_for_owner_preserves_other_owner_listener() {
    let mut forwarder = ReverseTcpForwarder::new();
    forwarder.start_listening("127.0.0.1", 40004, 10, ());
    forwarder.start_listening("127.0.0.1", 40005, 11, ());
    forwarder.cleanup_for_owner(10);
    forwarder.cleanup_for_owner(10);
    assert!(
        !forwarder.is_listening("127.0.0.1", 40004),
        "owned listener should be removed"
    );
    assert!(
        forwarder.is_listening("127.0.0.1", 40005),
        "other owner's listener must remain registered"
    );
    forwarder.cleanup_for_owner(11);
}

#[test]
fn reverse_tcp_cleanup_after_stop_listening_aborts_tracked_connection_tasks() {
    let mut tasks = TrackedConnectionTasks::new();
    assert_eq!(tasks.register_tracked_connection(1), None);
    assert_eq!(tasks.register_tracked_connection(2), None);
    assert_eq!(tasks.abort_tracked_connections(), vec![1, 2]);
    assert_eq!(tasks.abort_tracked_connections(), Vec::<i32>::new());
    assert_eq!(
        tasks.register_tracked_connection(3),
        Some(3),
        "a task that comes late is to be aborted"
    );
}

#[test]
fn forwarded_tcpip_channel_lifecycle() {
    let request = ForwardedTcpipRequest {
        connected_address: "192.168.1.100".into(),
        connected_port: 80,
        originator_address: "10.0.0.1".into(),
        originator_port: 54321,
    };
    let opening = forwarded_tcpip_opening(42, &request).unwrap();
    let (header, n) = ChannelStreamHeader::decode_from_slice(&opening).unwrap();
    assert_eq!(header.conversation_id, ConversationId::new(42));
    assert_eq!(header.max_message_size, DEFAULT_MAX_MESSAGE_SIZE);
    assert_eq!(header.channel_type, "forwarded-tcpip");
    let (decoded, m) = ForwardedTcpipRequest::decode(&opening[n..]).unwrap();
    assert_eq!(decoded, request);
    assert_eq!(n + m, opening.len());
    let confirm = StreamMessage::ChannelOpenConfirmation {
        max_message_size: DEFAULT_MAX_MESSAGE_SIZE,
    };
    assert_eq!(forwarded_answer(&confirm), ForwardedAnswer::Bridge);
}

#[test]
fn forwarded_tcpip_channel_rejected() {
    let failure = open_failure(1, "administratively prohibited");
    assert_eq!(forwarded_answer(&failure), ForwardedAnswer::Close);
    assert_eq!(
        forwarded_answer(&StreamMessage::ChannelEof),
        ForwardedAnswer::Unexpected
    );
}

fn encode_socket_request(socket_path: &str, reserved_string: &str, reserved_number: u64) -> Vec<u8> {
    DirectStreamlocalRequest {
        socket_path: socket_path.to_string(),
        reserved_string: reserved_string.to_string(),
        reserved_number,
    }
    .encode()
    .unwrap()
}

#[test]
fn direct_streamlocal_request_data_roundtrip() {
    let data = encode_socket_request("/var/run/app.sock", "", 0);
    let (request, _) = DirectStreamlocalRequest::decode(&data).unwrap();
    assert_eq!(request.socket_path, "/var/run/app.sock");
    assert_eq!(request.reserved_string, "");
    assert_eq!(request.reserved_number, 0);
}

#[test]
fn direct_streamlocal_request_data_hex_dump() {
    let data = encode_socket_request("/x", "", 0);
    assert_eq!(
        data,
        vec![
            0x02, 0x2f, 0x78, // "/x"
            0x00, // ""
            0x00, // 0
        ]
    );
}

#[test]
fn direct_streamlocal_roundtrip() {
    let mut data = encode_socket_request("/tmp/a.sock", "", 0);
    let length = data.len();
    data.extend_from_slice(b"hello");
    assert_eq!(
        handle_direct_streamlocal(&data),
        Ok(("/tmp/a.sock".to_string(), length))
    );
}

#[test]
fn streamlocal_forward_request_roundtrip() {
    let req = StreamlocalForwardRequest {
        socket_path: "/var/run/my.sock".into(),
    };
    let bytes = req.encode().unwrap();
    let (decoded, _) = StreamlocalForwardRequest::decode(&bytes).unwrap();
    assert_eq!(decoded, req);
}

#[test]
fn cancel_streamlocal_forward_request_roundtrip() {
    let req = StreamlocalForwardRequest {
        socket_path: "/tmp/agent.sock".into(),
    };
    let bytes = req.encode().unwrap();
    let (decoded, _) = StreamlocalForwardRequest::decode(&bytes).unwrap();
    assert_eq!(decoded, req);
}

#[test]
fn streamlocal_forwarder_start_stop() {
    let mut forwarder = ReverseStreamlocalForwarder::new();
    assert!(forwarder.start_listening("/tmp/s.sock", 1, ()).is_none());
    assert!(forwarder.is_listening("/tmp/s.sock"));
    let stopped = forwarder.stop_listening("/tmp/s.sock", 1);
    assert!(stopped.is_some_and(|s| s.remove_file));
    assert!(!forwarder.is_listening("/tmp/s.sock"));
    assert!(
        forwarder.stop_listening("/tmp/s.sock", 1).is_none(),
        "should return false when listener doesn't exist"
    );
}

#[test]
fn non_owner_cannot_remove_streamlocal_listener() {
    let mut forwarder = ReverseStreamlocalForwarder::new();
    forwarder.start_listening("/tmp/n.sock", 7, ());
    assert!(
        forwarder.stop_listening("/tmp/n.sock", 8).is_none(),
        "non-owner should not stop streamlocal listener"
    );
    assert!(forwarder.is_listening("/tmp/n.sock"));
    forwarder.cleanup_for_owner(7);
}

#[test]
fn cleanup_for_owner_is_idempotent_and_preserves_non_owned_socket() {
    let mut forwarder = ReverseStreamlocalForwarder::new();
    forwarder.start_listening("/tmp/c.sock", 9, ());
    let stopped = forwarder.cleanup_for_owner(9);
    assert_eq!(stopped.len(), 1);
    assert_eq!(stopped[0].address, "/tmp/c.sock");
    assert!(forwarder.cleanup_for_owner(9).is_empty());
    assert!(!forwarder.is_listening("/tmp/c.sock"));
}

#[test]
fn cleanup_for_owner_preserves_other_owner_listener_and_socket() {
    let mut forwarder = ReverseStreamlocalForwarder::new();
    forwarder.start_listening("/tmp/owned.sock", 10, ());
    forwarder.start_listening("/tmp/other.sock", 11, ());
    forwarder.cleanup_for_owner(10);
    forwarder.cleanup_for_owner(10);
    assert!(
        !forwarder.is_listening("/tmp/owned.sock"),
        "owned listener should be removed"
    );
    assert!(
        forwarder.is_listening("/tmp/other.sock"),
        "other owner's listener must remain registered"
    );
    forwarder.cleanup_for_owner(11);
}

#[test]
fn forwarded_streamlocal_channel_lifecycle() {
    let request = ForwardedStreamlocalRequest {
        socket_path: "/tmp/f.sock".into(),
        reserved: String::new(),
    };
    let opening = forwarded_streamlocal_opening(42, &request).unwrap();
    let (header, n) = ChannelStreamHeader::decode_from_slice(&opening).unwrap();
    assert_eq!(header.conversation_id, ConversationId::new(42));
    assert_eq!(header.max_message_size, DEFAULT_MAX_MESSAGE_SIZE);
    assert_eq!(header.channel_type, "forwarded-streamlocal@openssh.com");
    let (decoded, _) = ForwardedStreamlocalRequest::decode(&opening[n..]).unwrap();
    assert_eq!(decoded, request);
}

#[test]
fn streamlocal_connect_failure() {
    let request_data = encode_socket_request("/tmp/missing.sock", "", 0);
    let (path, consumed) = handle_direct_streamlocal(&request_data).unwrap();
    assert_eq!(path, "/tmp/missing.sock");
    assert_eq!(consumed, request_data.len());
    match connect_reply(false) {
        StreamMessage::ChannelOpenFailure {
            reason_code,
            description,
        } => {
            assert_eq!(reason_code, 2);
            assert!(description.contains("connect failed"));
        }
        other => panic!("expected ChannelOpenFailure, got {other:?}"),
    }
}

#[test]
fn streamlocal_cleanup_after_stop_listening_aborts_tracked_connection_tasks() {
    let mut tasks = TrackedConnectionTasks::new();
    assert_eq!(tasks.register_tracked_connection(1), None);
    let mut forwarder = ReverseStreamlocalForwarder::new();
    forwarder.start_listening("/tmp/partial-cleanup.sock", 12, tasks);
    let mut stopped = forwarder
        .stop_listening("/tmp/partial-cleanup.sock", 12)
        .unwrap();
    assert!(forwarder.cleanup_for_owner(12).is_empty());
    assert!(forwarder.cleanup_for_owner(12).is_empty());
    assert_eq!(stopped.task.abort_tracked_connections(), vec![1]);
    assert!(
        stopped.remove_file,
        "socket should be removed after stop + cleanup"
    );
}
