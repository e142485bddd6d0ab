use http::{HeaderMap, HeaderValue, Method};
use ssh3::proto::auth::AuthCredential;
use ssh3::proto::session::{deserialize_stream_id, AuthResult};
use ssh3::server::error::ServerError;
use ssh3::server::handler::{
    bootstrap_credential, evaluate_connect, receive_auth_result, unauthorized_header,
    AcceptedConnect, AuthOutcome, AuthReply, ConnectAction, ConnectDecision, ConnectEvent,
    Ssh3ConnectHandler,
};
use ssh3::server::protocol::{ConversationState, Ssh3Protocol};
use std::path::PathBuf;

fn headers_with_pairs(pairs: &[(&str, &str)]) -> HeaderMap {
    let mut map = HeaderMap::new();
    for &(name, value) in pairs {
        map.insert(
            http::HeaderName::from_bytes(name.as_bytes()).unwrap(),
            HeaderValue::from_str(value).unwrap(),
        );
    }
    map
}

/// Valid CONNECT with ssh3 protocol + valid version + valid Basic auth → Ok with ssh-version.
#[test]
fn valid_connect_returns_ok() {
    // "user:pass" → base64 "dXNlcjpwYXNz"
    let headers = headers_with_pairs(&[
        ("ssh-version", "michel-ssh3-00"),
        ("authorization", "Basic dXNlcjpwYXNz"),
    ]);

    let decision = evaluate_connect(Method::CONNECT.as_str(), Some("ssh3"), &headers);

    match decision {
        ConnectDecision::Accepted { version_header, .. } => {
            assert_eq!(version_header.to_str().unwrap(), "michel-ssh3-00");
        }
        other => panic!("expected Ok, got {other:?}"),
    }
}

/// Missing ssh-version header → BadRequest.
#[test]
fn missing_version_returns_bad_request() {
    let headers = headers_with_pairs(&[
        ("authorization", "Basic dXNlcjpwYXNz"),
    ]);

    let decision = evaluate_connect(Method::CONNECT.as_str(), Some("ssh3"), &headers);

    match decision {
        ConnectDecision::BadRequest(msg) => {
            assert!(msg.contains("version negotiation failed"), "msg: {msg}");
        }
        other => panic!("expected BadRequest, got {other:?}"),
    }
}

/// Invalid ssh-version header → BadRequest.
#[test]
fn invalid_version_returns_bad_request() {
    let headers = headers_with_pairs(&[
        ("ssh-version", "unknown-version-99"),
        ("authorization", "Basic dXNlcjpwYXNz"),
    ]);

    let decision = evaluate_connect(Method::CONNECT.as_str(), Some("ssh3"), &headers);

    match decision {
        ConnectDecision::BadRequest(msg) => {
            assert!(msg.contains("version negotiation failed"), "msg: {msg}");
        }
        other => panic!("expected BadRequest, got {other:?}"),
    }
}

/// Missing auth header → Unauthorized with WWW-Authenticate: Basic.
#[test]
fn missing_auth_returns_unauthorized() {
    let headers = headers_with_pairs(&[
        ("ssh-version", "michel-ssh3-00"),
    ]);

    let decision = evaluate_connect(Method::CONNECT.as_str(), Some("ssh3"), &headers);

    match decision {
        ConnectDecision::Unauthorized { www_authenticate } => {
            assert_eq!(www_authenticate, "Basic");
        }
        other => panic!("expected Unauthorized, got {other:?}"),
    }
}

/// Bearer auth → Unauthorized (only Basic is supported).
#[test]
fn bearer_auth_returns_unauthorized() {
    let headers = headers_with_pairs(&[
        ("ssh-version", "michel-ssh3-00"),
        ("authorization", "Bearer some-token"),
    ]);

    let decision = evaluate_connect(Method::CONNECT.as_str(), Some("ssh3"), &headers);

    match decision {
        ConnectDecision::Unauthorized { www_authenticate } => {
            assert_eq!(www_authenticate, "Basic");
        }
        other => panic!("expected Unauthorized, got {other:?}"),
    }
}

/// Non-CONNECT method → BadRequest.
#[test]
fn non_connect_method_rejected() {
    let headers = headers_with_pairs(&[
        ("ssh-version", "michel-ssh3-00"),
        ("authorization", "Basic dXNlcjpwYXNz"),
    ]);

    let decision = evaluate_connect(Method::GET.as_str(), Some("ssh3"), &headers);

    match decision {
        ConnectDecision::BadRequest(msg) => {
            assert!(msg.contains("expected CONNECT"), "msg: {msg}");
        }
        other => panic!("expected BadRequest, got {other:?}"),
    }
}

/// POST method → BadRequest.
#[test]
fn post_method_rejected() {
    let headers = headers_with_pairs(&[
        ("ssh-version", "michel-ssh3-00"),
        ("authorization", "Basic dXNlcjpwYXNz"),
    ]);

    let decision = evaluate_connect(Method::POST.as_str(), Some("ssh3"), &headers);

    match decision {
        ConnectDecision::BadRequest(msg) => {
            assert!(msg.contains("expected CONNECT"), "msg: {msg}");
        }
        other => panic!("expected BadRequest, got {other:?}"),
    }
}

/// Missing :protocol pseudo-header → BadRequest.
#[test]
fn missing_protocol_rejected() {
    let headers = headers_with_pairs(&[
        ("ssh-version", "michel-ssh3-00"),
        ("authorization", "Basic dXNlcjpwYXNz"),
    ]);

    let decision = evaluate_connect(Method::CONNECT.as_str(), None, &headers);

    match decision {
        ConnectDecision::BadRequest(msg) => {
            assert!(msg.contains("missing :protocol"), "msg: {msg}");
        }
        other => panic!("expected BadRequest, got {other:?}"),
    }
}

/// Wrong :protocol value → BadRequest.
#[test]
fn wrong_protocol_rejected() {
    let headers = headers_with_pairs(&[
        ("ssh-version", "michel-ssh3-00"),
        ("authorization", "Basic dXNlcjpwYXNz"),
    ]);

    let decision = evaluate_connect(Method::CONNECT.as_str(), Some("websocket"), &headers);

    match decision {
        ConnectDecision::BadRequest(msg) => {
            assert!(msg.contains("expected :protocol \"ssh3\""), "msg: {msg}");
        }
        other => panic!("expected BadRequest, got {other:?}"),
    }
}

/// StreamId is used as conversation ID from request extensions.
#[test]
fn handler_uses_stream_id() {
    // The handler struct no longer carries an atomic counter.
    let _handler = Ssh3ConnectHandler::new();
    // StreamId wraps a VarInt — verify the conversion to u64.
    let stream_id = deserialize_stream_id(42u64).unwrap();
    let conversation_id = stream_id;
    assert_eq!(conversation_id, deserialize_stream_id(42u64).unwrap());
}

#[test]
fn challenge_that_cannot_stand_in_a_header_becomes_basic() {
    assert_eq!(unauthorized_header("Digest").as_bytes(), b"Digest");
    assert_eq!(unauthorized_header("a\nb").as_bytes(), b"Basic");
}

#[test]
fn missing_parts_are_told_in_order() {
    let handler = Ssh3ConnectHandler::new();
    assert!(matches!(
        handler.missing_part(false, false, false),
        Some(ServerError::MissingProtocols)
    ));
    assert!(matches!(
        handler.missing_part(true, false, false),
        Some(ServerError::MissingSsh3Protocol)
    ));
    assert!(matches!(
        handler.missing_part(true, true, false),
        Some(ServerError::MissingStreamId)
    ));
    assert!(handler.missing_part(true, true, true).is_none());
}

#[test]
fn only_a_verdict_of_success_lets_a_user_in() {
    let success = AuthReply::Result(AuthResult::Success {
        uid: 1,
        gid: 1,
        home: PathBuf::from("/"),
        shell: PathBuf::from("/bin/sh"),
    });
    let failure = AuthReply::Result(AuthResult::Failure {
        reason: "no".to_string(),
    });
    assert_eq!(receive_auth_result(&success), AuthOutcome::Success);
    for reply in [failure, AuthReply::Closed, AuthReply::Failed, AuthReply::TimedOut] {
        assert_eq!(receive_auth_result(&reply), AuthOutcome::Unauthorized);
    }
}

fn run(events: &[ConnectEvent]) -> (Vec<ConnectAction>, Ssh3Protocol, bool) {
    let mut protocol = Ssh3Protocol::new();
    let (mut connect, mut done) = AcceptedConnect::handle_accepted_connect(&mut protocol, 4);
    for event in events {
        let (next, actions) = connect.advance(*event, &mut protocol);
        connect = next;
        done.extend(actions);
    }
    let over = matches!(connect, AcceptedConnect::Done);
    (done, protocol, over)
}

#[test]
fn accepted_connect_runs_its_course() {
    let steps = [
        ConnectEvent::Located(true),
        ConnectEvent::Spawned(true),
        ConnectEvent::BootstrapSent(true),
        ConnectEvent::Authenticated(AuthOutcome::Success),
        ConnectEvent::ControlStarted(true),
    ];
    let (actions, protocol, over) = run(&steps);
    assert_eq!(
        actions,
        vec![
            ConnectAction::LocateSessionBinary,
            ConnectAction::SpawnChild,
            ConnectAction::ServeTransport,
            ConnectAction::SendBootstrap,
            ConnectAction::AwaitAuth,
            ConnectAction::Respond(200),
            ConnectAction::StartControl,
            ConnectAction::AwaitControlStart,
            ConnectAction::SetReady(true),
            ConnectAction::AwaitExit,
        ]
    );
    assert!(!over);
    assert_eq!(protocol.state(4), Some(ConversationState::Active));
    let mut all = steps.to_vec();
    all.push(ConnectEvent::Exited);
    let (actions, protocol, over) = run(&all);
    assert_eq!(
        actions[10..],
        [
            ConnectAction::SetReady(false),
            ConnectAction::AbortTransport,
            ConnectAction::AbortControl,
            ConnectAction::KillChild,
            ConnectAction::CleanupListeners,
        ]
    );
    assert!(over);
    assert_eq!(protocol.state(4), None);
}

#[test]
fn accepted_connect_that_fails_is_answered_and_given_up() {
    let steps = [
        ConnectEvent::Located(true),
        ConnectEvent::Spawned(true),
        ConnectEvent::BootstrapSent(true),
    ];
    let failures = [
        (0, ConnectEvent::Located(false), 500),
        (1, ConnectEvent::Spawned(false), 500),
        (2, ConnectEvent::BootstrapSent(false), 500),
        (3, ConnectEvent::Authenticated(AuthOutcome::Unauthorized), 401),
    ];
    for (before, failure, status) in failures {
        let mut events = steps[..before].to_vec();
        events.push(failure);
        let (actions, protocol, over) = run(&events);
        let responses: Vec<&ConnectAction> = actions
            .iter()
            .filter(|a| matches!(a, ConnectAction::Respond(_)))
            .collect();
        assert_eq!(responses, vec![&ConnectAction::Respond(status)]);
        assert_eq!(
            actions.contains(&ConnectAction::KillChild),
            before >= 2,
            "a child is killed exactly where one was started"
        );
        assert!(over);
        assert_eq!(protocol.state(4), None);
    }
}

#[test]
fn accepted_connect_whose_control_stream_fails_is_given_up() {
    let (actions, protocol, over) = run(&[
        ConnectEvent::Located(true),
        ConnectEvent::Spawned(true),
        ConnectEvent::BootstrapSent(true),
        ConnectEvent::Authenticated(AuthOutcome::Success),
        ConnectEvent::ControlStarted(false),
    ]);
    assert_eq!(
        actions[8..],
        [ConnectAction::AbortControl, ConnectAction::KillChild]
    );
    assert!(!actions.contains(&ConnectAction::SetReady(true)));
    assert!(over);
    assert_eq!(protocol.state(4), None);
}

#[test]
fn streams_go_to_the_slot_of_the_request() {
    let mut protocol = Ssh3Protocol::new();
    let (connect, _) = AcceptedConnect::handle_accepted_connect(&mut protocol, 4);
    let (other, _) = AcceptedConnect::handle_accepted_connect(&mut protocol, 8);
    let slot = connect.slot().unwrap();
    assert_ne!(other.slot(), Some(slot));
    let (connect, _) = connect.advance(ConnectEvent::Located(true), &mut protocol);
    assert_eq!(connect.slot(), Some(slot));
    let (connect, _) = connect.advance(ConnectEvent::Spawned(false), &mut protocol);
    assert_eq!(connect.slot(), None);
}

#[test]
fn session_is_told_the_credential_or_an_empty_one() {
    for (given, user, pass) in [(Some(("user", "pass")), "user", "pass"), (None, "", "")] {
        let credential = given.map(|(username, password): (&str, &str)| AuthCredential::Basic {
            username: username.to_string(),
            password: password.to_string(),
        });
        let AuthCredential::Basic { username, password } = bootstrap_credential(credential);
        assert_eq!(username, user);
        assert_eq!(password, pass);
    }
}
