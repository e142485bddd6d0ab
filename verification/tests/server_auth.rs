use http::HeaderValue;
use ssh3::encoding::decode_base64_standard;
use ssh3::proto::session::AuthCredential;
use ssh3::server::auth::{parse_authorization, AuthParseError};


fn hv(s: &'static str) -> HeaderValue {
    HeaderValue::from_static(s)
}

fn b64_encode(s: &str) -> String {
    // Minimal base64 encoder for tests only.
    const CHARS: &[u8] = b"ABCDEFGHIJKLMNOPQRSTUVWXYZabcdefghijklmnopqrstuvwxyz0123456789+/";
    let bytes = s.as_bytes();
    let mut out = String::new();
    for chunk in bytes.chunks(3) {
        let b0 = chunk[0] as u32;
        let b1 = if chunk.len() > 1 { chunk[1] as u32 } else { 0 };
        let b2 = if chunk.len() > 2 { chunk[2] as u32 } else { 0 };
        let triple = (b0 << 16) | (b1 << 8) | b2;
        out.push(CHARS[((triple >> 18) & 0x3f) as usize] as char);
        out.push(CHARS[((triple >> 12) & 0x3f) as usize] as char);
        if chunk.len() > 1 {
            out.push(CHARS[((triple >> 6) & 0x3f) as usize] as char);
        } else {
            out.push('=');
        }
        if chunk.len() > 2 {
            out.push(CHARS[(triple & 0x3f) as usize] as char);
        } else {
            out.push('=');
        }
    }
    out
}

#[test]
fn parse_basic_valid() {
    // "user:pass" base64 → "dXNlcjpwYXNz"
    let result = parse_authorization(&hv("Basic dXNlcjpwYXNz")).unwrap();
    assert_eq!(result.username, "user");
    assert!(matches!(result.credential, AuthCredential::Password(p) if p == "pass"));
}

#[test]
fn parse_basic_password_with_colon() {
    let b64 = b64_encode("user:pa:ss");
    let hv_str = format!("Basic {b64}");
    let hv = HeaderValue::from_str(&hv_str).unwrap();
    let result = parse_authorization(&hv).unwrap();
    assert_eq!(result.username, "user");
    assert!(matches!(result.credential, AuthCredential::Password(p) if p == "pa:ss"));
}

#[test]
fn parse_basic_empty_password() {
    let b64 = b64_encode("user:");
    let hv_str = format!("Basic {b64}");
    let hv = HeaderValue::from_str(&hv_str).unwrap();
    let result = parse_authorization(&hv).unwrap();
    assert_eq!(result.username, "user");
    assert!(matches!(result.credential, AuthCredential::Password(p) if p.is_empty()));
}

#[test]
fn parse_basic_invalid_base64() {
    let err = parse_authorization(&hv("Basic not!@#$")).unwrap_err();
    assert_eq!(err, AuthParseError::InvalidBase64);
}

#[test]
fn parse_basic_missing_colon() {
    let b64 = b64_encode("usernameonly");
    let hv_str = format!("Basic {b64}");
    let hv = HeaderValue::from_str(&hv_str).unwrap();
    let err = parse_authorization(&hv).unwrap_err();
    assert_eq!(err, AuthParseError::MissingColon);
}

#[test]
fn parse_basic_empty_username() {
    let b64 = b64_encode(":password");
    let hv_str = format!("Basic {b64}");
    let hv = HeaderValue::from_str(&hv_str).unwrap();
    let err = parse_authorization(&hv).unwrap_err();
    assert_eq!(err, AuthParseError::EmptyUsername);
}

#[test]
fn unsupported_scheme_bearer() {
    let err = parse_authorization(&hv("Bearer some.jwt.token")).unwrap_err();
    assert!(matches!(err, AuthParseError::UnsupportedScheme { scheme } if scheme == "Bearer"));
}

#[test]
fn unsupported_scheme_unknown() {
    let err = parse_authorization(&hv("Negotiate somecreds")).unwrap_err();
    assert!(
        matches!(err, AuthParseError::UnsupportedScheme { scheme } if scheme == "Negotiate")
    );
}

#[test]
fn missing_scheme() {
    let b64 = b64_encode("user:pass");
    let hv = HeaderValue::from_str(&b64).unwrap();
    let err = parse_authorization(&hv).unwrap_err();
    assert_eq!(err, AuthParseError::MissingScheme);
}

#[test]
fn base64_decode_roundtrip() {
    let cases = ["hello", "user:pass", "a:b:c", "", "x"];
    for s in cases {
        let encoded = b64_encode(s);
        let decoded = decode_base64_standard(&encoded).unwrap();
        assert_eq!(
            std::str::from_utf8(&decoded).unwrap(),
            s,
            "failed for {s:?}"
        );
    }
}

#[test]
fn header_that_is_not_text_is_rejected() {
    let value = HeaderValue::from_bytes(b"Basic \xff").unwrap();
    assert_eq!(
        parse_authorization(&value).unwrap_err(),
        AuthParseError::InvalidEncoding
    );
}

#[test]
fn credentials_that_are_not_text_are_rejected() {
    // The bytes ff 3a 61.
    assert_eq!(
        parse_authorization(&hv("Basic /zph")).unwrap_err(),
        AuthParseError::InvalidUtf8
    );
}

#[test]
fn padding_stands_only_at_the_end() {
    assert_eq!(decode_base64_standard("AA=A"), Err(()));
    assert_eq!(decode_base64_standard("AAA=AAAA"), Err(()));
    assert_eq!(decode_base64_standard("A==="), Err(()));
    assert_eq!(decode_base64_standard("===="), Err(()));
    assert_eq!(decode_base64_standard("AA=="), Ok(vec![0]));
    assert_eq!(decode_base64_standard("AAA="), Ok(vec![0, 0]));
    assert_eq!(decode_base64_standard("AAAA"), Ok(vec![0, 0, 0]));
    assert_eq!(decode_base64_standard(""), Ok(vec![]));
    assert_eq!(decode_base64_standard("AAA"), Err(()));
    assert_eq!(decode_base64_standard("AA-A"), Err(()));
}
