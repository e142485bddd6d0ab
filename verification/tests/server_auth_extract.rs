use ssh3::proto::auth::AuthCredential;
use ssh3::server::auth::extract_auth_credential;


fn headers_with(name: &str, value: &str) -> http::HeaderMap {
    let mut map = http::HeaderMap::new();
    map.insert(
        http::HeaderName::from_bytes(name.as_bytes()).unwrap(),
        http::HeaderValue::from_str(value).unwrap(),
    );
    map
}

#[test]
fn test_auth_extract_valid_basic() {
    // "user:pass" → base64 "dXNlcjpwYXNz"
    let hdrs = headers_with("authorization", "Basic dXNlcjpwYXNz");
    let cred = extract_auth_credential(&hdrs).unwrap();
    assert_eq!(
        cred,
        AuthCredential::Basic {
            username: "user".into(),
            password: "pass".into(),
        }
    );
}

#[test]
fn test_auth_extract_missing_header() {
    let hdrs = http::HeaderMap::new();
    let err = extract_auth_credential(&hdrs).unwrap_err();
    assert_eq!(err.status, http::StatusCode::UNAUTHORIZED.as_u16());
    assert_eq!(err.www_authenticate, "Basic");
}

#[test]
fn test_auth_extract_bearer_rejected() {
    let hdrs = headers_with("authorization", "Bearer some-token");
    let err = extract_auth_credential(&hdrs).unwrap_err();
    assert_eq!(err.status, http::StatusCode::UNAUTHORIZED.as_u16());
    assert_eq!(err.www_authenticate, "Basic");
}

#[test]
fn test_auth_extract_malformed_base64() {
    let hdrs = headers_with("authorization", "Basic !!!invalid!!!");
    let err = extract_auth_credential(&hdrs).unwrap_err();
    assert_eq!(err.status, http::StatusCode::UNAUTHORIZED.as_u16());
    assert_eq!(err.www_authenticate, "Basic");
}

#[test]
fn test_auth_extract_missing_colon_in_decoded() {
    // "userpass" (no colon) → base64 "dXNlcnBhc3M="
    let hdrs = headers_with("authorization", "Basic dXNlcnBhc3M=");
    let err = extract_auth_credential(&hdrs).unwrap_err();
    assert_eq!(err.status, http::StatusCode::UNAUTHORIZED.as_u16());
    assert_eq!(err.www_authenticate, "Basic");
}

#[test]
fn test_auth_extract_password_with_colons() {
    // "user:p:a:ss" → base64 "dXNlcjpwOmE6c3M="
    let hdrs = headers_with("authorization", "Basic dXNlcjpwOmE6c3M=");
    let cred = extract_auth_credential(&hdrs).unwrap();
    assert_eq!(
        cred,
        AuthCredential::Basic {
            username: "user".into(),
            password: "p:a:ss".into(),
        }
    );
}
