use ssh3::proto::error::Ssh3Error;


#[test]
fn test_codec_error_display() {
    let err = Ssh3Error::Codec {
        message: "varint too large".into(),
    };
    assert_eq!(err.to_string(), "varint too large");
}

#[test]
fn test_protocol_error_display() {
    let err = Ssh3Error::Protocol {
        message: "unknown channel type".into(),
    };
    assert_eq!(err.to_string(), "unknown channel type");
}

#[test]
fn test_auth_error_display() {
    let err = Ssh3Error::Auth {
        message: "invalid credentials".into(),
    };
    assert_eq!(err.to_string(), "invalid credentials");
}

#[test]
fn test_channel_error_display() {
    let err = Ssh3Error::Channel {
        message: "channel closed".into(),
    };
    assert_eq!(err.to_string(), "channel closed");
}

#[test]
fn test_session_error_display() {
    let err = Ssh3Error::Session {
        message: "exec failed".into(),
    };
    assert_eq!(err.to_string(), "exec failed");
}

#[test]
fn test_io_error_conversion() {
    let io_err = std::io::Error::new(std::io::ErrorKind::BrokenPipe, "pipe broken");
    let err = Ssh3Error::Io { source: io_err };
    assert_eq!(err.to_string(), "I/O error");
}

#[test]
fn test_from_io_error() {
    let io_err = std::io::Error::new(std::io::ErrorKind::ConnectionReset, "reset");
    let err: Ssh3Error = Ssh3Error::Io { source: io_err };
    match err {
        Ssh3Error::Io { source } => {
            assert_eq!(source.kind(), std::io::ErrorKind::ConnectionReset);
        }
        _ => panic!("expected Io variant"),
    }
}
