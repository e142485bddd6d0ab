use ssh3::server::byte_channel::{next_chunk, ChunkStep};
use ssh3::server::config::{ssh3_session_binary, ServerConfig};
use ssh3::server::session::command::{
    file_name, handle_client_message, new_command, wait_child_exit, ClientSessionMessage, Relay,
    RelayAction, RelayEvent, ServerSessionMessage, UserContext, WaitStatus,
};
use ssh3::server::session::driver::PrivilegeOp;
use ssh3::server::session::record_login::{copy_string_to_c_array, login_log_line, Utmp};

#[test]
fn text_is_copied_with_a_zero_byte() {
    let mut dest = vec![9; 6];
    copy_string_to_c_array("abc", &mut dest);
    assert_eq!(dest, vec![b'a', b'b', b'c', 0, 9, 9]);
    let mut small = vec![9; 3];
    copy_string_to_c_array("abcdef", &mut small);
    assert_eq!(small, vec![b'a', b'b', 0]);
    let mut none: Vec<u8> = vec![];
    copy_string_to_c_array("abc", &mut none);
    assert!(none.is_empty());
}

#[test]
fn login_record_holds_user_and_host() {
    let entry = Utmp::entry(77, "alice", "client", 5, 6);
    assert_eq!(entry.ut_type, 7);
    assert_eq!(entry.ut_pid, 77);
    assert_eq!(entry.ut_session, 77);
    assert_eq!(&entry.ut_user[..6], b"alice\0");
    assert_eq!(entry.ut_user.len(), 32);
    assert_eq!(&entry.ut_host[..7], b"client\0");
    assert_eq!(entry.ut_host.len(), 256);
    assert_eq!((entry.tv_sec, entry.tv_usec), (5, 6));
}

#[test]
fn login_is_logged_in_one_line() {
    assert_eq!(
        login_log_line(1700000000, "host", 42, "alice", "client"),
        "1700000000 host sshd3[42]: Accepted session for alice from client port unknown ssh3\n"
    );
}

#[test]
fn file_names_are_those_of_paths() {
    for path in [
        "/bin/sh", "sh", "/bin/sh/", "/bin/sh/.", "/bin//sh", "/bin/..", "/", "", ".", "./sh", "..",
        "a/./.", "/bin/.../", "./",
    ] {
        let expected = std::path::Path::new(path)
            .file_name()
            .map(|name| name.to_str().unwrap().to_string());
        assert_eq!(file_name(path), expected, "for {path:?}");
    }
}

fn user(shell: &str) -> UserContext {
    UserContext {
        name: "alice".to_string(),
        dir: "/home/alice".to_string(),
        shell: shell.to_string(),
    }
}

#[test]
fn command_has_the_user_s_surroundings() {
    let plan = new_command(
        &user("/bin/bash"),
        Some("ls"),
        Some("UTC"),
        vec![("P".to_string(), "1".to_string())],
        vec![("C".to_string(), "2".to_string())],
    )
    .unwrap();
    assert_eq!(plan.program, "/bin/bash");
    assert_eq!(plan.arg0, "bash");
    assert_eq!(plan.dir, "/home/alice");
    assert_eq!(plan.args, vec!["-c", "ls"]);
    assert_eq!(
        plan.rights,
        vec![
            PrivilegeOp::SetGid,
            PrivilegeOp::InitGroups,
            PrivilegeOp::SetUid,
        ]
    );
    let env: Vec<(&str, &str)> = plan
        .env
        .iter()
        .map(|(name, value)| (name.as_str(), value.as_str()))
        .collect();
    assert_eq!(
        env,
        vec![
            ("USER", "alice"),
            ("LOGNAME", "alice"),
            ("HOME", "/home/alice"),
            ("PATH", "/usr/bin:/bin:/usr/sbin:/sbin"),
            ("SHELL", "/bin/bash"),
            ("TZ", "UTC"),
            ("P", "1"),
            ("C", "2"),
        ]
    );
}

#[test]
fn command_without_a_shell_is_run_as_sh() {
    let plan = new_command(&user(""), None, None, vec![], vec![]).unwrap();
    assert_eq!(plan.arg0, "sh");
    assert_eq!(plan.program, "");
    assert!(plan.args.is_empty());
    assert!(plan.env.contains(&("SHELL".to_string(), "/bin/sh".to_string())));
}

#[test]
fn command_needs_a_name_without_zero_bytes() {
    let mut someone = user("/bin/sh");
    someone.name = "a\0b".to_string();
    assert_eq!(
        new_command(&someone, None, None, vec![], vec![]),
        Err("Failed to convert username to c-style string".to_string())
    );
}

#[test]
fn ends_of_programs_are_told() {
    assert_eq!(wait_child_exit(WaitStatus::Exited(3)), Some(3));
    assert_eq!(wait_child_exit(WaitStatus::Signaled(9)), Some(137));
    assert_eq!(wait_child_exit(WaitStatus::Other), None);
}

#[test]
fn roundtrip() {
    let data = b"hello, byte channel!";
    assert_eq!(
        next_chunk(Ok(Some(data.to_vec()))),
        ChunkStep::Bytes(data.to_vec())
    );
}

#[test]
fn eof_on_sender_drop() {
    assert_eq!(next_chunk(Ok(None)), ChunkStep::End);
}

#[test]
fn empty_chunks_are_not_the_end() {
    assert_eq!(next_chunk(Ok(Some(vec![]))), ChunkStep::Again);
    assert_eq!(next_chunk(Err(())), ChunkStep::BrokenPipe);
}

#[test]
fn server_needs_a_certificate_and_its_key() {
    let path = || Some("p".to_string());
    assert_eq!(
        ServerConfig::from_vars(None, None, None),
        Err("error: SSH3_CERT_PATH environment variable is not set".to_string())
    );
    assert_eq!(
        ServerConfig::from_vars(path(), None, None),
        Err("error: SSH3_KEY_PATH environment variable is not set".to_string())
    );
    let config = ServerConfig::from_vars(path(), path(), None).unwrap();
    assert_eq!(config.bind_uri(), "inet://0.0.0.0:443");
    let config = ServerConfig::from_vars(path(), path(), Some("[::1]:4433".to_string())).unwrap();
    assert_eq!(config.bind_uri(), "inet://[::1]:4433");
}

#[test]
fn session_program_is_found_in_order() {
    let named = ssh3_session_binary(Some("n".into()), "b".into(), true, "a".into());
    assert_eq!(named, "n");
    assert_eq!(ssh3_session_binary(None, "b".into(), true, "a".into()), "b");
    assert_eq!(ssh3_session_binary(None, "b".into(), false, "a".into()), "a");
}

#[test]
fn programs_are_relayed_until_they_end() {
    let mut relay = Relay::new();
    match relay.relay(RelayEvent::Input(ClientSessionMessage::WindowSize {
        rows: 24,
        cols: 80,
        width: 640,
        height: 480,
    })) {
        RelayAction::Resize(size) => {
            assert_eq!((size.ws_row, size.ws_col), (24, 80));
            assert_eq!((size.ws_xpixel, size.ws_ypixel), (640, 480));
        }
        _ => panic!("the terminal gets the size"),
    }
    match handle_client_message(ClientSessionMessage::Terminal(vec![1, 2])) {
        RelayAction::Write(data) => assert_eq!(data, vec![1, 2]),
        _ => panic!("the program gets the input"),
    }
    match relay.relay(RelayEvent::Output {
        stderr: true,
        data: vec![3],
    }) {
        RelayAction::Send(message) => assert_eq!(
            message,
            ServerSessionMessage::Terminal {
                stderr: true,
                data: vec![3],
            }
        ),
        _ => panic!("the client gets the output"),
    }
    assert!(matches!(
        relay.relay(RelayEvent::Exited(Some(3))),
        RelayAction::Finish(Some(ServerSessionMessage::Exit { code: 3 }))
    ));
    assert!(matches!(
        relay.relay(RelayEvent::InputEnded),
        RelayAction::Nothing
    ));
    let mut relay = Relay::new();
    assert!(matches!(
        relay.relay(RelayEvent::InputEnded),
        RelayAction::Finish(None)
    ));
    let mut relay = Relay::new();
    match relay.relay(RelayEvent::Exited(None)) {
        RelayAction::Cancel(error) => assert_eq!(error, "Server internal error"),
        _ => panic!("the client is told of the error"),
    }
}

#[test]
fn multiple_chunks() {
    let chunks: Vec<Vec<u8>> = vec![b"chunk1".to_vec(), b"chunk2".to_vec(), b"chunk3".to_vec()];
    let mut output = Vec::new();
    for chunk in &chunks {
        match next_chunk(Ok(Some(chunk.clone()))) {
            ChunkStep::Bytes(data) => output.extend_from_slice(&data),
            other => panic!("expected bytes, got {other:?}"),
        }
    }
    assert_eq!(next_chunk(Ok(None)), ChunkStep::End);
    let expected: Vec<u8> = chunks.into_iter().flatten().collect();
    assert_eq!(output, expected);
}
