use ssh3::proto::codec::{ChannelId, ChannelStreamHeader, ConversationId};
use ssh3::proto::conversation::{ChannelError, LocalConversation};
use ssh3::proto::session::{
    deserialize_stream_id, AuthResult, IoErrorKind, SessionError, TransportError,
};
use ssh3::server::session::driver::session_init;
use std::path::PathBuf;

#[test]
fn session_error_display() {
    let err = SessionError::new("something went wrong");
    assert_eq!(err.to_string(), "something went wrong");
}

#[test]
fn conversation_id_usage() {
    let conv_id = ConversationId::new(42);
    assert_eq!(conv_id.into_inner(), 42);
}

#[test]
fn channel_id_allocation() {
    let mut conversation = LocalConversation::new(ConversationId::new(1));
    let (id0, _) = conversation.open_channel("session", 1);
    let header = ChannelStreamHeader::new(ConversationId::new(1), "session".to_string(), 1);
    let (id1, _) = conversation.accept_channel(Some(header)).unwrap();
    assert_eq!(id0.into_inner(), 0);
    assert_eq!(id1.into_inner(), 1);
    assert_eq!(id1, ChannelId::new(1));
}

#[test]
fn channel_stream_header_with_conversation() {
    let conv_id = ConversationId::new(100);
    let header = ChannelStreamHeader::new(conv_id, "session".to_string(), 65536);
    let encoded = header.encode_to_vec().unwrap();
    let (decoded, _) = ChannelStreamHeader::decode_from_slice(&encoded).unwrap();
    assert_eq!(decoded.conversation_id, conv_id);
    assert_eq!(decoded.channel_type, "session");
    assert_eq!(decoded.max_message_size, 65536);
}

#[test]
fn opened_channels_start_with_their_header() {
    let mut conversation = LocalConversation::new(ConversationId::new(100));
    assert_eq!(conversation.conversation_id(), ConversationId::new(100));
    let (_, header) = conversation.open_channel("session", 65536);
    let (decoded, _) = ChannelStreamHeader::decode_from_slice(&header.unwrap()).unwrap();
    assert_eq!(decoded.conversation_id, ConversationId::new(100));
    assert_eq!(decoded.channel_type, "session");
    let (_, refused) = conversation.open_channel("session", u64::MAX);
    assert_eq!(
        refused,
        Err(ChannelError::OpenFailed {
            reason: "value overflows QUIC VarInt range".to_string()
        })
    );
    assert_eq!(
        conversation.accept_channel(None),
        Err(ChannelError::OpenFailed {
            reason: "conversation closed".to_string()
        })
    );
    let (id, channel_type) = conversation.accept_channel(Some(decoded)).unwrap();
    assert_eq!(id.into_inner(), 2);
    assert_eq!(channel_type, "session");
}

#[test]
fn stream_numbers_have_an_end() {
    assert_eq!(deserialize_stream_id(0), Some(0));
    assert_eq!(
        deserialize_stream_id(0x3fff_ffff_ffff_ffff),
        Some(0x3fff_ffff_ffff_ffff)
    );
    assert_eq!(deserialize_stream_id(0x4000_0000_0000_0000), None);
}

#[test]
fn errors_of_input_and_output_keep_their_kind() {
    let error = std::io::Error::new(std::io::ErrorKind::BrokenPipe, "x");
    assert_eq!(SessionError::from(error).to_string(), "broken pipe");
    let kinds = [
        (std::io::ErrorKind::NotFound, IoErrorKind::NotFound, "not found"),
        (
            std::io::ErrorKind::UnexpectedEof,
            IoErrorKind::UnexpectedEof,
            "unexpected end of file",
        ),
        (
            std::io::ErrorKind::WouldBlock,
            IoErrorKind::WouldBlock,
            "operation would block",
        ),
        (std::io::ErrorKind::Other, IoErrorKind::Other, "other I/O error"),
        (
            std::io::ErrorKind::DirectoryNotEmpty,
            IoErrorKind::Other,
            "other I/O error",
        ),
    ];
    for (kind, expected, text) in kinds {
        assert_eq!(IoErrorKind::from(kind), expected);
        assert_eq!(expected.to_string(), text);
    }
}

#[test]
fn errors_of_remote_calls_keep_their_text() {
    let error = remoc::rtc::CallError::Dropped;
    let text = error.to_string();
    assert_eq!(TransportError::from(error).to_string(), text);
    let error = SessionError::from(remoc::rtc::CallError::NotServed);
    assert_eq!(error.to_string(), remoc::rtc::CallError::NotServed.to_string());
}

#[test]
fn transport_errors_are_told() {
    assert_eq!(TransportError::ChannelClosed("gone".into()).to_string(), "gone");
    assert_eq!(TransportError::OpenFailed("refused".into()).to_string(), "refused");
    assert_eq!(TransportError::Timeout.to_string(), "timeout");
    assert_eq!(
        SessionError::from(TransportError::Other("oops".into())).to_string(),
        "oops"
    );
}

#[test]
fn session_is_set_up_for_a_user_who_was_let_in() {
    let result = AuthResult::Success {
        uid: 1000,
        gid: 1001,
        home: PathBuf::from("/home/alice"),
        shell: PathBuf::from("/bin/bash"),
    };
    let init = session_init(42, "alice".into(), result).unwrap();
    assert_eq!(init.conversation_id, 42);
    assert_eq!(init.username, "alice");
    assert_eq!((init.uid, init.gid), (1000, 1001));
    assert_eq!(init.home, PathBuf::from("/home/alice"));
    assert_eq!(init.shell, PathBuf::from("/bin/bash"));
    let refused = AuthResult::Failure {
        reason: "no".into(),
    };
    assert!(session_init(42, "alice".into(), refused).is_none());
}
