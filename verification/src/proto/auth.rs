//! Credentials, and the `Authorization` header that carries them.

use crate::encoding;
use crate::outside;
use crate::outside::{base64_standard_decode, string_from_utf8};
use crate::proto::error::Ssh3Error;
use crate::text;
use crate::text::{eq_ignore_ascii_case, join2, split_once_char};
use vstd::prelude::*;
use vstd::string::*;
use vstd::utf8::*;

verus! {

/// A credential.
#[derive(Debug, Clone, PartialEq, Eq)]
pub enum AuthCredential {
    Basic { username: String, password: String },
}

/// A way to authenticate.
#[derive(Debug, Clone, Copy, PartialEq, Eq, Structural)]
pub enum AuthScheme {
    Basic,
}

/// The bytes that a text is the base64 encoding of.
pub open spec fn strict_base64(text: Seq<char>) -> Option<Seq<u8>> {
    if exists|v: Seq<u8>| #[trigger] encoding::base64_text(v) == encode_utf8(text) {
        Some(choose|v: Seq<u8>| #[trigger] encoding::base64_text(v) == encode_utf8(text))
    } else {
        None
    }
}

/// The user name and password that decoded credentials hold, or what is wrong.
pub open spec fn decoded_credentials(bytes: Seq<u8>) -> Result<
    (Seq<char>, Seq<char>),
    Seq<char>,
> {
    if !valid_utf8(bytes) {
        Err("credentials are not valid UTF-8: "@ + outside::utf8_error_text(bytes))
    } else {
        match text::split_first(decode_utf8(bytes), ':') {
            None => Err("missing ':' separator in decoded credentials"@),
            Some(parts) => Ok(parts),
        }
    }
}

/// The user name and password that an `Authorization` header holds, or what is
/// wrong with it.
pub open spec fn basic_credentials(header: Seq<char>) -> Result<
    (Seq<char>, Seq<char>),
    Seq<char>,
> {
    match text::split_first(header, ' ') {
        None => Err("missing scheme/credentials separator"@),
        Some((scheme, credentials)) => if !text::same_ignoring_case(scheme, "Basic"@) {
            Err("unsupported auth scheme: "@ + scheme)
        } else if credentials.len() == 0 {
            Err("empty credentials"@)
        } else {
            match strict_base64(credentials) {
                None => Err("invalid base64: "@ + outside::base64_error_text(credentials)),
                Some(bytes) => decoded_credentials(bytes),
            }
        },
    }
}

/// The header that carries a user name and a password.
pub open spec fn basic_header(username: Seq<char>, password: Seq<char>) -> Seq<char> {
    "Basic "@ + text::ascii_chars(
        encoding::base64_text(encode_utf8(username + seq![':'] + password)),
    )
}

/// A header that carries a user name without a colon and a password is read back
/// as that user name and that password.
pub proof fn lemma_basic_header_roundtrip(username: Seq<char>, password: Seq<char>)
    requires
        !username.contains(':'),
    ensures
        basic_credentials(basic_header(username, password)) == Ok::<_, Seq<char>>(
            (username, password),
        ),
{
    let joined = username + seq![':'] + password;
    let bytes = encode_utf8(joined);
    let symbols = encoding::base64_text(bytes);
    let credentials = text::ascii_chars(symbols);
    reveal_strlit("Basic ");
    reveal_strlit("Basic");
    assert("Basic "@ =~= "Basic"@ + seq![' ']);
    assert(!"Basic"@.contains(' '));
    text::lemma_split_joined("Basic"@, ' ', credentials);
    assert(basic_header(username, password) =~= "Basic"@ + seq![' '] + credentials);
    encoding::lemma_base64_ascii(bytes);
    text::lemma_ascii_utf8(symbols);
    encoding::lemma_base64_len(bytes);
    assert(credentials.len() > 0) by {
        if bytes.len() == 0 {
            encode_utf8_decode_utf8(joined);
            assert(bytes =~= Seq::<u8>::empty());
            assert(joined[username.len() as int] == ':');
        }
    }
    let found = choose|v: Seq<u8>|
        #[trigger] encoding::base64_text(v) == encode_utf8(credentials);
    assert(encoding::base64_text(bytes) == encode_utf8(credentials));
    encoding::lemma_base64_injective(found, bytes);
    encode_utf8_valid_utf8(joined);
    encode_utf8_decode_utf8(joined);
    text::lemma_split_joined(username, ':', password);
}

/// Reads the decoded credentials: a user name and a password, separated by the
/// first colon.
pub fn parse_decoded_credentials(bytes: Vec<u8>) -> (r: Result<AuthCredential, Ssh3Error>)
    ensures
        match r {
            Ok(AuthCredential::Basic { username, password }) => decoded_credentials(bytes@) == Ok::<
                _,
                Seq<char>,
            >((username@, password@)),
            Err(Ssh3Error::Auth { message }) => decoded_credentials(bytes@) == Err::<
                (Seq<char>, Seq<char>),
                _,
            >(message@),
            Err(_) => false,
        },
{
    let decoded = match string_from_utf8(bytes) {
        Ok(s) => s,
        Err(e) => return Err(
            Ssh3Error::Auth {
                message: join2("credentials are not valid UTF-8: ", e.as_str()),
            },
        ),
    };
    match split_once_char(decoded.as_str(), ':') {
        Some((username, password)) => Ok(
            AuthCredential::Basic {
                username: username.to_owned(),
                password: password.to_owned(),
            },
        ),
        None => Err(
            Ssh3Error::Auth {
                message: "missing ':' separator in decoded credentials".to_owned(),
            },
        ),
    }
}

/// Reads an `Authorization` header: the scheme `Basic`, in any case, then the
/// credentials in base64.
pub fn parse_authorization_header(header_value: &str) -> (r: Result<AuthCredential, Ssh3Error>)
    ensures
        match r {
            Ok(AuthCredential::Basic { username, password }) => basic_credentials(header_value@)
                == Ok::<_, Seq<char>>((username@, password@)),
            Err(Ssh3Error::Auth { message }) => basic_credentials(header_value@) == Err::<
                (Seq<char>, Seq<char>),
                _,
            >(message@),
            Err(_) => false,
        },
{
    let (scheme, credentials) = match split_once_char(header_value, ' ') {
        Some(parts) => parts,
        None => return Err(
            Ssh3Error::Auth { message: "missing scheme/credentials separator".to_owned() },
        ),
    };
    if !eq_ignore_ascii_case(scheme, "Basic") {
        return Err(Ssh3Error::Auth { message: join2("unsupported auth scheme: ", scheme) });
    }
    if credentials.is_empty() {
        return Err(Ssh3Error::Auth { message: "empty credentials".to_owned() });
    }
    match base64_standard_decode(credentials) {
        Ok(bytes) => {
            proof {
                let found = choose|v: Seq<u8>|
                    #[trigger] encoding::base64_text(v) == encode_utf8(credentials@);
                assert(encoding::base64_text(bytes@) == encode_utf8(credentials@));
                encoding::lemma_base64_injective(found, bytes@);
            }
            parse_decoded_credentials(bytes)
        },
        Err(e) => Err(Ssh3Error::Auth { message: join2("invalid base64: ", e.as_str()) }),
    }
}

} // verus!
