use ssh3::proto::auth::{parse_authorization_header, AuthCredential, AuthScheme};


#[test]
fn test_parse_basic_auth_valid() {
    // "user:pass" → base64 "dXNlcjpwYXNz"
    let cred = parse_authorization_header("Basic dXNlcjpwYXNz").unwrap();
    assert_eq!(
        cred,
        AuthCredential::Basic {
            username: "user".into(),
            password: "pass".into(),
        }
    );
}

#[test]
fn test_parse_basic_auth_case_insensitive() {
    let cred = parse_authorization_header("basic dXNlcjpwYXNz").unwrap();
    assert_eq!(
        cred,
        AuthCredential::Basic {
            username: "user".into(),
            password: "pass".into(),
        }
    );
}

#[test]
fn test_parse_non_basic_scheme_rejected() {
    let result = parse_authorization_header("Bearer xxx");
    assert!(result.is_err());
    let err = result.unwrap_err();
    assert!(err.to_string().contains("unsupported auth scheme"));
}

#[test]
fn test_parse_malformed_base64() {
    let result = parse_authorization_header("Basic !!!not-base64!!!");
    assert!(result.is_err());
    let err = result.unwrap_err();
    assert!(err.to_string().contains("invalid base64"));
}

#[test]
fn test_parse_missing_colon() {
    // "userpass" (no colon) → base64 "dXNlcnBhc3M="
    let result = parse_authorization_header("Basic dXNlcnBhc3M=");
    assert!(result.is_err());
    let err = result.unwrap_err();
    assert!(err.to_string().contains("missing ':'"));
}

#[test]
fn test_parse_empty_header() {
    let result = parse_authorization_header("");
    assert!(result.is_err());
}

#[test]
fn test_parse_empty_credentials() {
    let result = parse_authorization_header("Basic ");
    assert!(result.is_err());
    let err = result.unwrap_err();
    assert!(err.to_string().contains("empty credentials"));
}

#[test]
fn test_parse_password_with_colons() {
    // "user:p:a:ss" → base64 "dXNlcjpwOmE6c3M="
    let cred = parse_authorization_header("Basic dXNlcjpwOmE6c3M=").unwrap();
    assert_eq!(
        cred,
        AuthCredential::Basic {
            username: "user".into(),
            password: "p:a:ss".into(),
        }
    );
}

#[test]
fn test_auth_scheme_debug() {
    assert_eq!(format!("{:?}", AuthScheme::Basic), "Basic");
}

#[test]
fn credentials_that_are_not_utf8_are_rejected() {
    // The bytes ff 3a.
    let result = parse_authorization_header("Basic /zo=");
    assert!(result.is_err());
}

#[test]
fn base64_has_to_be_padded() {
    let result = parse_authorization_header("Basic dXNlcnBhc3M");
    assert!(result.unwrap_err().to_string().contains("invalid base64"));
}
