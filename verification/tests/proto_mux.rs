use ssh3::proto::mux::{
    next_item, receive_item, ChannelError, Message, Mux, MuxContext, NewChannel, ReceiveError, Received,
    Role, Sender, Step, TaskAction, TaskEvent, Token,
};

#[test]
fn tokens_hold_role_and_sequence_number() {
    let token = Token::new(Role::Client, 5);
    assert_eq!(token.into_inner(), 11);
    assert_eq!(token.seq(), 5);
    assert_eq!(token.role(), Role::Client);
    assert_eq!(token.next(), Token::new(Role::Client, 6));
    assert_eq!(Token::new(Role::Server, 5).into_inner(), 10);
    assert_eq!(Token::new(Role::Server, 5).role(), Role::Server);
    assert_eq!(Token::new(Role::Server, u64::MAX).into_inner(), u64::MAX - 1);
    assert_eq!(token.to_string(), "11");
    assert_eq!(Role::Client.to_string(), "Client");
}

#[test]
fn requests_open_channels_on_both_sides() {
    let mut client = Mux::new(Role::Client);
    let mut server = Mux::new(Role::Server);
    let (token, message) = client.request("run", 7).unwrap();
    assert_eq!(token, Token::new(Role::Client, 0));
    assert_eq!(client.receiver_of(token), Some(7));
    assert_eq!(
        server.receive(message.clone(), 9),
        Ok(Received::Opened(NewChannel {
            token,
            request: "run",
            sender: Sender::new(token),
            receiver: 9,
        }))
    );
    assert_eq!(server.receiver_of(token), Some(9));
    assert_eq!(
        server.receive(message, 9),
        Err(ChannelError::ChannelAlreadyOpen { token })
    );
    let data = Sender::new(token).data::<&str>(b"hi".to_vec());
    assert_eq!(
        server.receive(data, 0),
        Ok(Received::Forward {
            token,
            receiver: 9,
            item: Ok(b"hi".to_vec()),
            keep: false,
        })
    );
    let (second, _) = client.request("run", 8).unwrap();
    assert_eq!(second, token.next());
}

#[test]
fn requests_of_the_own_role_are_refused() {
    let mut server = Mux::new(Role::Server);
    let token = Token::new(Role::Server, 3);
    let error = server
        .receive(Message::Request { token, request: () }, 1)
        .unwrap_err();
    assert_eq!(
        error.to_string(),
        "Peer has the same role with local when routing for 6"
    );
    assert_eq!(server.receiver_of(token), None);
}

#[test]
fn messages_for_channels_that_are_not_open_are_ignored() {
    let mut server = Mux::new(Role::Server);
    let sender = Sender::new(Token::new(Role::Client, 1));
    for message in [
        sender.data::<()>(vec![1]),
        sender.cancel("x".to_string()),
        sender.close(),
        Message::Heartbeat,
    ] {
        assert_eq!(server.receive(message, 1), Ok(Received::Ignored));
    }
}

#[test]
fn errors_and_ends_are_handed_on() {
    let mut server = Mux::new(Role::Server);
    let token = Token::new(Role::Client, 1);
    server
        .receive(Message::Request { token, request: () }, 4)
        .unwrap();
    let sender = Sender::new(token);
    assert_eq!(sender.token(), token);
    assert_eq!(
        server.receive(sender.data::<()>(vec![]), 0),
        Ok(Received::Ignored)
    );
    assert_eq!(
        server.receive(sender.cancel::<()>("bad".to_string()), 0),
        Ok(Received::Forward {
            token,
            receiver: 4,
            item: Err("bad".to_string()),
            keep: true,
        })
    );
    assert_eq!(
        server.receive(sender.close::<()>(), 0),
        Ok(Received::Forward {
            token,
            receiver: 4,
            item: Ok(vec![]),
            keep: true,
        })
    );
    assert_eq!(server.receiver_of(token), Some(4));
    server.forget(token);
    assert_eq!(server.receiver_of(token), None);
    assert_eq!(
        sender.close_failed().to_string(),
        "Failed to send close message for 3"
    );
}

#[test]
fn closing_forgets_every_channel() {
    let mut client = Mux::new(Role::Client);
    let (a, _) = client.request((), 1).unwrap();
    let (b, _) = client.request((), 2).unwrap();
    client.close();
    assert_eq!(client.receiver_of(a), None);
    assert_eq!(client.receiver_of(b), None);
}

#[test]
fn receiving_ends_at_the_first_error() {
    let mut server = Mux::new(Role::Server);
    let own = Message::Request {
        token: Token::new(Role::Server, 0),
        request: (),
    };
    match receive_item::<(), &str>(&mut server, Ok(own), 1) {
        Step::Stop(error) => {
            assert!(matches!(error, ReceiveError::AcceptChannel { .. }));
            assert_eq!(error.to_string(), "Accept channel failed");
        }
        other => panic!("expected Stop, got {other:?}"),
    }
    match receive_item::<(), &str>(&mut server, Err("gone"), 1) {
        Step::Stop(error) => assert_eq!(error.to_string(), "Message stream closed"),
        other => panic!("expected Stop, got {other:?}"),
    }
    assert!(matches!(
        receive_item::<(), &str>(&mut server, Ok(Message::Heartbeat), 1),
        Step::Continue(Received::Ignored)
    ));
}

#[test]
fn empty_data_is_the_end() {
    assert_eq!(next_item(Ok(vec![])), None);
    assert_eq!(next_item(Ok(vec![1])), Some(Ok(vec![1])));
    assert_eq!(next_item(Err("x".to_string())), Some(Err("x".to_string())));
}

#[test]
fn channel_errors_are_told() {
    let token = Token::new(Role::Client, 0);
    assert_eq!(
        ChannelError::ChannelAlreadyOpen { token }.to_string(),
        "Channel 1 already be opened"
    );
    assert_eq!(
        ChannelError::ChannelClosed { token }.to_string(),
        "Channel 1 already be closed"
    );
    assert_eq!(
        ChannelError::SendRequest { token }.to_string(),
        "Failed to send request message for 1"
    );
}

#[test]
fn the_task_runs_until_the_stream_ends() {
    let mut context = MuxContext::new(Role::Server);
    let token = Token::new(Role::Client, 0);
    let request = Message::Request {
        token,
        request: "run",
    };
    assert!(matches!(
        context.advance::<_, ()>(TaskEvent::Item(Ok(request)), 4),
        TaskAction::Deliver(Received::Opened(NewChannel {
            request: "run",
            receiver: 4,
            ..
        }))
    ));
    assert_eq!(context.mux().receiver_of(token), Some(4));
    assert!(matches!(
        context.advance::<&str, ()>(TaskEvent::HeartbeatDue, 0),
        TaskAction::Queue(Message::Heartbeat)
    ));
    assert!(matches!(
        context.advance::<&str, ()>(TaskEvent::Waiting(Message::Close { token }), 0),
        TaskAction::Send(Message::Close { .. })
    ));
    assert!(matches!(
        context.advance::<&str, ()>(TaskEvent::Ended, 0),
        TaskAction::Close
    ));
    assert!(matches!(
        context.advance::<&str, ()>(TaskEvent::HeartbeatDue, 0),
        TaskAction::Nothing
    ));
}

#[test]
fn the_task_ends_on_errors_and_on_shutdown() {
    let own = Token::new(Role::Client, 0);
    let mut context = MuxContext::new(Role::Client);
    let request = Message::Request {
        token: own,
        request: (),
    };
    assert!(matches!(
        context.advance::<_, ()>(TaskEvent::Item(Ok(request)), 0),
        TaskAction::Report(ReceiveError::AcceptChannel {
            source: ChannelError::SameRole { .. },
        })
    ));
    let mut context = MuxContext::new(Role::Client);
    assert!(matches!(
        context.advance::<(), _>(TaskEvent::Item(Err("broken")), 0),
        TaskAction::Report(ReceiveError::StreamClosed { source: "broken" })
    ));
    let mut context = MuxContext::new(Role::Client);
    let waiting: Vec<Message<()>> = vec![Message::Heartbeat, Message::Close { token: own }];
    match context.advance::<(), ()>(TaskEvent::Shutdown(waiting.clone()), 0) {
        TaskAction::Flush(messages) => assert_eq!(messages, waiting),
        _ => panic!("the waiting messages are sent"),
    }
    assert!(matches!(
        context.advance::<(), ()>(TaskEvent::SendFailed, 0),
        TaskAction::Nothing
    ));
    let mut context = MuxContext::new(Role::Client);
    assert!(matches!(
        context.advance::<(), ()>(TaskEvent::NoSenders, 0),
        TaskAction::Close
    ));
}

#[test]
fn a_request_that_cannot_be_sent_fails() {
    let token = Token::new(Role::Client, 3);
    let (opened, sender) = Mux::requested(token, true).unwrap();
    assert_eq!(opened, token);
    assert_eq!(sender.token(), token);
    assert_eq!(
        Mux::requested(token, false),
        Err(ChannelError::SendRequest { token })
    );
}

#[test]
fn a_new_channel_is_relayed_to_another_peer() {
    let mut server = Mux::new(Role::Server);
    let mut slave = Mux::new(Role::Client);
    let message = Message::Request {
        token: Token::new(Role::Client, 7),
        request: "run",
    };
    let Ok(Received::Opened(channel)) = server.receive(message, 1) else {
        panic!("expected a new channel");
    };
    let (token, message) = channel.relay(&mut slave, 5).unwrap();
    assert_eq!(token, Token::new(Role::Client, 0));
    assert_eq!(
        message,
        Message::Request {
            token,
            request: "run"
        }
    );
    assert_eq!(slave.receiver_of(token), Some(5));
}
