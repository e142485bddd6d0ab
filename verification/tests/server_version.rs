use ssh3::server::version::{
    negotiate_version, version_response_header, SshVersion, SSH_VERSION,
};


fn headers_with(name: &str, value: &str) -> http::HeaderMap {
    let mut map = http::HeaderMap::new();
    map.insert(
        http::HeaderName::from_bytes(name.as_bytes()).unwrap(),
        http::HeaderValue::from_str(value).unwrap(),
    );
    map
}

#[test]
fn test_version_negotiate_single_valid() {
    let hdrs = headers_with("ssh-version", SSH_VERSION);
    let v = negotiate_version(&hdrs).unwrap();
    assert_eq!(v.version_string, SSH_VERSION);
}

#[test]
fn test_version_negotiate_multiple_picks_supported() {
    let hdrs = headers_with("ssh-version", &format!("genmeta-ssh3-01,{SSH_VERSION}"));
    let v = negotiate_version(&hdrs).unwrap();
    assert_eq!(v.version_string, SSH_VERSION);
}

#[test]
fn test_version_negotiate_missing_header() {
    let hdrs = http::HeaderMap::new();
    let err = negotiate_version(&hdrs).unwrap_err();
    assert!(err.to_string().contains("missing ssh-version header"));
}

#[test]
fn test_version_negotiate_no_match() {
    let hdrs = headers_with("ssh-version", "genmeta-ssh3-99");
    let err = negotiate_version(&hdrs).unwrap_err();
    assert!(err.to_string().contains("no supported ssh-version"));
}

#[test]
fn test_version_negotiate_whitespace_handling() {
    let hdrs = headers_with("ssh-version", &format!("{SSH_VERSION} , genmeta-ssh3-01"));
    let v = negotiate_version(&hdrs).unwrap();
    assert_eq!(v.version_string, SSH_VERSION);
}

#[test]
fn test_version_negotiate_whitespace_around_supported() {
    let hdrs = headers_with("ssh-version", &format!(" genmeta-ssh3-01 , {SSH_VERSION} "));
    let v = negotiate_version(&hdrs).unwrap();
    assert_eq!(v.version_string, SSH_VERSION);
}

#[test]
fn test_version_negotiate_empty_header() {
    let hdrs = headers_with("ssh-version", "");
    let err = negotiate_version(&hdrs).unwrap_err();
    assert!(err.to_string().contains("empty ssh-version header"));
}

#[test]
fn test_version_response_header() {
    let v = SshVersion {
        version_string: SSH_VERSION.into(),
    };
    let hv = version_response_header(&v);
    assert_eq!(hv.to_str().unwrap(), SSH_VERSION);
}

#[test]
fn version_header_that_is_not_text_is_rejected() {
    let mut map = http::HeaderMap::new();
    map.insert(
        "ssh-version",
        http::HeaderValue::from_bytes(b"\xff").unwrap(),
    );
    assert_eq!(
        negotiate_version(&map).unwrap_err().to_string(),
        "invalid ssh-version header value"
    );
}
