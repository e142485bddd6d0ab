//! The `Authorization` header of a CONNECT request.

use crate::encoding;
use crate::encoding::decode_base64_standard;
use crate::outside;
use crate::outside::{header_get, header_value_as_bytes, string_from_utf8};
use crate::proto::auth;
use crate::proto::auth::{parse_authorization_header, AuthCredential};
use crate::proto::session;
use crate::text;
use crate::text::{ascii_string, join2, same_text, split_once_char, trim_blanks};
use vstd::prelude::*;
use vstd::string::*;
use vstd::utf8::*;

verus! {

/// A byte that can be shown: a visible ASCII character, a space or a tab.
pub open spec fn is_visible(b: u8) -> bool {
    32 <= b < 127 || b == 9
}

/// The text of a header value, where all its bytes can be shown.
pub open spec fn header_text(bytes: Seq<u8>) -> Option<Seq<char>> {
    if forall|i: int| 0 <= i < bytes.len() ==> is_visible(#[trigger] bytes[i]) {
        Some(text::ascii_chars(bytes))
    } else {
        None
    }
}

/// The text of a header value.
pub fn header_to_str(value: &http::HeaderValue) -> (r: Option<String>)
    ensures
        match r {
            Some(s) => header_text(outside::header_value_bytes(*value)) == Some(s@),
            None => header_text(outside::header_value_bytes(*value)) is None,
        },
{
    let bytes = header_value_as_bytes(value);
    let mut i: usize = 0;
    while i < bytes.len()
        invariant
            i <= bytes@.len(),
            bytes@ == outside::header_value_bytes(*value),
            forall|j: int| 0 <= j < i ==> is_visible(#[trigger] bytes@[j]),
        decreases bytes@.len() - i,
    {
        let b: u8 = bytes[i];
        if !((32 <= b && b < 127) || b == 9) {
            assert(!is_visible(bytes@[i as int]));
            return None;
        }
        i = i + 1;
    }
    Some(ascii_string(bytes))
}

/// A user name and a credential.
#[derive(Debug, Clone, PartialEq, Eq)]
pub struct AuthResult {
    pub username: String,
    pub credential: session::AuthCredential,
}

/// Why an `Authorization` header cannot be read.
#[derive(Debug, Clone, PartialEq, Eq)]
pub enum AuthParseError {
    /// The header is not text.
    InvalidEncoding,
    /// The header names no scheme.
    MissingScheme,
    /// The scheme is not supported.
    UnsupportedScheme { scheme: String },
    /// The credentials are not base64.
    InvalidBase64,
    /// The decoded credentials hold no colon.
    MissingColon,
    /// The decoded credentials are not UTF-8.
    InvalidUtf8,
    /// The user name is empty.
    EmptyUsername,
}

/// What an `AuthParseError` says.
pub enum AuthParseFault {
    InvalidEncoding,
    MissingScheme,
    UnsupportedScheme { scheme: Seq<char> },
    InvalidBase64,
    MissingColon,
    InvalidUtf8,
    EmptyUsername,
}

impl View for AuthParseError {
    type V = AuthParseFault;

    open spec fn view(&self) -> AuthParseFault {
        match self {
            AuthParseError::InvalidEncoding => AuthParseFault::InvalidEncoding,
            AuthParseError::MissingScheme => AuthParseFault::MissingScheme,
            AuthParseError::UnsupportedScheme { scheme } => AuthParseFault::UnsupportedScheme {
                scheme: scheme@,
            },
            AuthParseError::InvalidBase64 => AuthParseFault::InvalidBase64,
            AuthParseError::MissingColon => AuthParseFault::MissingColon,
            AuthParseError::InvalidUtf8 => AuthParseFault::InvalidUtf8,
            AuthParseError::EmptyUsername => AuthParseFault::EmptyUsername,
        }
    }
}

impl AuthParseError {
    pub open spec fn message(self) -> Seq<char> {
        match self {
            AuthParseError::InvalidEncoding => "Authorization header is not valid ASCII"@,
            AuthParseError::MissingScheme => "Authorization header is missing the scheme prefix"@,
            AuthParseError::UnsupportedScheme { scheme } => "Unsupported authentication scheme: "@
                + scheme@,
            AuthParseError::InvalidBase64 => "Basic credentials contain invalid base64"@,
            AuthParseError::MissingColon => "Basic credentials are missing the ':' separator"@,
            AuthParseError::InvalidUtf8 => "Basic credentials contain invalid UTF-8"@,
            AuthParseError::EmptyUsername => "Basic credentials have an empty username"@,
        }
    }

    /// The error as text.
    pub fn to_string(&self) -> (r: String)
        ensures
            r@ == self.message(),
    {
        match self {
            AuthParseError::InvalidEncoding => "Authorization header is not valid ASCII".to_owned(),
            AuthParseError::MissingScheme => {
                "Authorization header is missing the scheme prefix".to_owned()
            },
            AuthParseError::UnsupportedScheme { scheme } => join2(
                "Unsupported authentication scheme: ",
                scheme.as_str(),
            ),
            AuthParseError::InvalidBase64 => "Basic credentials contain invalid base64".to_owned(),
            AuthParseError::MissingColon => {
                "Basic credentials are missing the ':' separator".to_owned()
            },
            AuthParseError::InvalidUtf8 => "Basic credentials contain invalid UTF-8".to_owned(),
            AuthParseError::EmptyUsername => "Basic credentials have an empty username".to_owned(),
        }
    }
}

/// The user name and password in base64 credentials, or what is wrong with them.
/// Blanks around the credentials do not count.
pub open spec fn basic_of(credentials: Seq<char>) -> Result<
    (Seq<char>, Seq<char>),
    AuthParseFault,
> {
    match encoding::base64_bytes(encode_utf8(text::trimmed(credentials))) {
        None => Err(AuthParseFault::InvalidBase64),
        Some(bytes) => if !valid_utf8(bytes) {
            Err(AuthParseFault::InvalidUtf8)
        } else {
            match text::split_first(decode_utf8(bytes), ':') {
                None => Err(AuthParseFault::MissingColon),
                Some((username, password)) => if username.len() == 0 {
                    Err(AuthParseFault::EmptyUsername)
                } else {
                    Ok((username, password))
                },
            }
        },
    }
}

/// The user name and password in the text of an `Authorization` header, or what is
/// wrong with it.
pub open spec fn authorization_of(header: Seq<char>) -> Result<
    (Seq<char>, Seq<char>),
    AuthParseFault,
> {
    match text::split_first(header, ' ') {
        None => Err(AuthParseFault::MissingScheme),
        Some((scheme, rest)) => if scheme == "Basic"@ {
            basic_of(rest)
        } else {
            Err(AuthParseFault::UnsupportedScheme { scheme })
        },
    }
}

/// A header that carries a user name, not empty and without a colon, and a password
/// is read back as that user name and that password.
pub proof fn lemma_authorization_roundtrip(username: Seq<char>, password: Seq<char>)
    requires
        username.len() > 0,
        !username.contains(':'),
    ensures
        authorization_of(auth::basic_header(username, password)) == Ok::<_, AuthParseFault>(
            (username, password),
        ),
{
    let joined = username + seq![':'] + password;
    let bytes = encode_utf8(joined);
    let symbols = encoding::base64_text(bytes);
    let credentials = text::ascii_chars(symbols);
    reveal_strlit("Basic ");
    reveal_strlit("Basic");
    assert("Basic "@ =~= "Basic"@ + seq![' ']);
    assert(!"Basic"@.contains(' '));
    text::lemma_split_joined("Basic"@, ' ', credentials);
    assert(auth::basic_header(username, password) =~= "Basic"@ + seq![' '] + credentials);
    encoding::lemma_base64_ascii(bytes);
    text::lemma_ascii_utf8(symbols);
    if credentials.len() > 0 {
        assert(32 < symbols[0] < 127);
        assert(32 < symbols[symbols.len() - 1] < 127);
    }
    text::lemma_trimmed_unchanged(credentials);
    encoding::lemma_base64_roundtrip(bytes);
    encode_utf8_valid_utf8(joined);
    encode_utf8_decode_utf8(joined);
    text::lemma_split_joined(username, ':', password);
}

fn parse_basic(credentials: &str) -> (r: Result<AuthResult, AuthParseError>)
    ensures
        match r {
            Ok(AuthResult { username, credential: session::AuthCredential::Password(password) }) => {
                basic_of(credentials@) == Ok::<_, AuthParseFault>((username@, password@))
            },
            Err(e) => basic_of(credentials@) == Err::<(Seq<char>, Seq<char>), _>(e@),
        },
{
    let bytes = match decode_base64_standard(trim_blanks(credentials)) {
        Ok(bytes) => bytes,
        Err(_) => return Err(AuthParseError::InvalidBase64),
    };
    let decoded = match string_from_utf8(bytes) {
        Ok(s) => s,
        Err(_) => return Err(AuthParseError::InvalidUtf8),
    };
    match split_once_char(decoded.as_str(), ':') {
        None => Err(AuthParseError::MissingColon),
        Some((username, password)) => {
            if username.is_empty() {
                return Err(AuthParseError::EmptyUsername);
            }
            Ok(
                AuthResult {
                    username: username.to_owned(),
                    credential: session::AuthCredential::Password(password.to_owned()),
                },
            )
        },
    }
}

/// Reads an `Authorization` header: the scheme `Basic`, then the credentials in
/// base64.
pub fn parse_authorization(header: &http::HeaderValue) -> (r: Result<AuthResult, AuthParseError>)
    ensures
        match header_text(outside::header_value_bytes(*header)) {
            None => r == Err::<AuthResult, AuthParseError>(AuthParseError::InvalidEncoding),
            Some(text) => match r {
                Ok(
                    AuthResult {
                        username,
                        credential: session::AuthCredential::Password(password),
                    },
                ) => authorization_of(text) == Ok::<_, AuthParseFault>((username@, password@)),
                Err(e) => authorization_of(text) == Err::<(Seq<char>, Seq<char>), _>(e@),
            },
        },
{
    let raw = match header_to_str(header) {
        Some(raw) => raw,
        None => return Err(AuthParseError::InvalidEncoding),
    };
    match split_once_char(raw.as_str(), ' ') {
        None => Err(AuthParseError::MissingScheme),
        Some((scheme, rest)) => if same_text(scheme, "Basic") {
            parse_basic(rest)
        } else {
            Err(AuthParseError::UnsupportedScheme { scheme: scheme.to_owned() })
        },
    }
}

/// What an unauthorized client is told: the status of the answer, and the scheme to
/// authenticate with.
#[derive(Debug, Clone, PartialEq, Eq)]
pub struct AuthChallenge {
    pub status: u16,
    pub www_authenticate: String,
}

/// The value of the first `Authorization` header of a request, where it is text.
pub open spec fn authorization_header(headers: http::HeaderMap) -> Option<Seq<char>> {
    let values = outside::header_values(headers);
    if values.contains_key("authorization"@) {
        header_text(values["authorization"@][0])
    } else {
        None
    }
}

/// The user name and password that a request carries.
pub open spec fn request_credentials(headers: http::HeaderMap) -> Option<(Seq<char>, Seq<char>)> {
    match authorization_header(headers) {
        None => None,
        Some(header) => match auth::basic_credentials(header) {
            Ok(pair) => Some(pair),
            Err(_) => None,
        },
    }
}

/// Reads the credential of a request. Without one that can be read, the client is
/// told to authenticate with the scheme `Basic`.
pub fn extract_auth_credential(headers: &http::HeaderMap) -> (r: Result<
    AuthCredential,
    AuthChallenge,
>)
    ensures
        match r {
            Ok(AuthCredential::Basic { username, password }) => request_credentials(*headers)
                == Some((username@, password@)),
            Err(challenge) => {
                &&& request_credentials(*headers) is None
                &&& challenge.status == 401
                &&& challenge.www_authenticate@ == "Basic"@
            },
        },
{
    proof {
        reveal_strlit("authorization");
    }
    if let Some(value) = header_get(headers, "authorization") {
        if let Some(text) = header_to_str(value) {
            if let Ok(credential) = parse_authorization_header(text.as_str()) {
                return Ok(credential);
            }
        }
    }
    Err(AuthChallenge { status: 401, www_authenticate: "Basic".to_owned() })
}

} // verus!
