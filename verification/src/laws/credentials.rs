//! Credentials and versions in the headers of a request, taken apart one by one.

use crate::encoding;
use crate::laws::connect;
use crate::outside;
use crate::proto::auth;
use crate::proto::auth::AuthCredential;
use crate::proto::error::Ssh3Error;
use crate::proto::session;
use crate::server::auth as request_auth;
use crate::server::auth::{AuthChallenge, AuthParseError};
use crate::server::handler;
use crate::server::handler::ConnectDecision;
use crate::server::version;
use crate::server::version::SshVersion;
use crate::text;
use vstd::prelude::*;
use vstd::string::*;
use vstd::utf8::*;

verus! {

proof fn lemma_named(scheme: Seq<char>)
    requires
        connect::names_basic(scheme),
    ensures
        text::same_ignoring_case(scheme, "Basic"@),
        !scheme.contains(' '),
{
    reveal_strlit("Basic");
    let b = "Basic"@;
    assert forall|i: int| 0 <= i < scheme.len() implies text::to_lower(#[trigger] scheme[i])
        == text::to_lower(b[i]) by {
        assert(i == 0 || i == 1 || i == 2 || i == 3 || i == 4);
    }
}

/// The name of the scheme can be written in any case.
pub proof fn law_scheme_in_any_case(
    header: &str,
    scheme: Seq<char>,
    username: Seq<char>,
    password: Seq<char>,
    r: Result<AuthCredential, Ssh3Error>,
)
    requires
        call_ensures(auth::parse_authorization_header, (header,), r),
        connect::names_basic(scheme),
        !username.contains(':'),
        header@ == scheme + seq![' '] + connect::basic_text(username, password),
    ensures
        r matches Ok(AuthCredential::Basic { username: u, password: p }) && u@ == username && p@
            == password,
{
    lemma_named(scheme);
    let credentials = connect::basic_text(username, password);
    text::lemma_split_joined(scheme, ' ', credentials);
    auth::lemma_basic_header_roundtrip(username, password);
    reveal_strlit("Basic ");
    reveal_strlit("Basic");
    assert("Basic "@ + credentials =~= "Basic"@ + seq![' '] + credentials);
    assert(!"Basic"@.contains(' '));
    text::lemma_split_joined("Basic"@, ' ', credentials);
    assert(text::same_ignoring_case("Basic"@, "Basic"@));
}

/// A header without a space, with another scheme or without credentials is refused, and the
/// error says which it is.
pub proof fn law_bad_header_refused(
    header: &str,
    scheme: Seq<char>,
    rest: Seq<char>,
    r: Result<AuthCredential, Ssh3Error>,
)
    requires
        call_ensures(auth::parse_authorization_header, (header,), r),
        !scheme.contains(' '),
    ensures
        !header@.contains(' ') ==> (r matches Err(Ssh3Error::Auth { message }) && message@
            == "missing scheme/credentials separator"@),
        header@ == scheme + seq![' '] + rest && !connect::names_basic(scheme) ==> (r matches Err(
            Ssh3Error::Auth { message },
        ) && message@ == "unsupported auth scheme: "@ + scheme),
        header@ == scheme + seq![' '] && connect::names_basic(scheme) ==> (r matches Err(
            Ssh3Error::Auth { message },
        ) && message@ == "empty credentials"@),
{
    text::lemma_find_char(header@, ' ');
    if header@ == scheme + seq![' '] + rest {
        text::lemma_split_joined(scheme, ' ', rest);
        if text::same_ignoring_case(scheme, "Basic"@) {
            connect::lemma_same_as_basic(scheme);
        }
    }
    if header@ == scheme + seq![' '] && connect::names_basic(scheme) {
        assert(header@ =~= scheme + seq![' '] + Seq::<char>::empty());
        text::lemma_split_joined(scheme, ' ', Seq::empty());
        lemma_named(scheme);
    }
}

/// The decoded credentials are a user name and a password with a colon between them: the
/// first colon, so that a password may hold more.
pub proof fn law_decoded_credentials(
    bytes: Vec<u8>,
    username: Seq<char>,
    password: Seq<char>,
    r: Result<AuthCredential, Ssh3Error>,
)
    requires
        call_ensures(auth::parse_decoded_credentials, (bytes,), r),
        !username.contains(':'),
    ensures
        bytes@ == encode_utf8(username + seq![':'] + password) ==> (r matches Ok(
            AuthCredential::Basic { username: u, password: p },
        ) && u@ == username && p@ == password),
        bytes@ == encode_utf8(username) ==> (r matches Err(Ssh3Error::Auth { message }) && message@
            == "missing ':' separator in decoded credentials"@),
        !valid_utf8(bytes@) ==> r is Err,
{
    let joined = username + seq![':'] + password;
    encode_utf8_valid_utf8(joined);
    encode_utf8_decode_utf8(joined);
    text::lemma_split_joined(username, ':', password);
    encode_utf8_valid_utf8(username);
    encode_utf8_decode_utf8(username);
    text::lemma_find_char(username, ':');
}

/// The stricter reader tells what is wrong: no scheme, another scheme, no base64, no text,
/// no colon.
pub proof fn law_strict_reader_refuses(
    value: &http::HeaderValue,
    header: Seq<char>,
    scheme: Seq<char>,
    rest: Seq<char>,
    bytes: Seq<u8>,
    r: Result<request_auth::AuthResult, AuthParseError>,
)
    requires
        call_ensures(request_auth::parse_authorization, (value,), r),
        connect::printable(header),
        outside::header_value_bytes(*value) == encode_utf8(header),
        !scheme.contains(' '),
    ensures
        !header.contains(' ') ==> r == Err::<request_auth::AuthResult, AuthParseError>(
            AuthParseError::MissingScheme,
        ),
        header == scheme + seq![' '] + rest && scheme != "Basic"@ ==> (r matches Err(
            AuthParseError::UnsupportedScheme { scheme: s },
        ) && s@ == scheme),
        header == "Basic "@ + text::ascii_chars(encoding::base64_text(bytes)) && !valid_utf8(bytes)
            ==> r == Err::<request_auth::AuthResult, AuthParseError>(AuthParseError::InvalidUtf8),
        header == "Basic "@ + text::ascii_chars(encoding::base64_text(bytes)) && valid_utf8(bytes)
            && !decode_utf8(bytes).contains(':') ==> r == Err::<
            request_auth::AuthResult,
            AuthParseError,
        >(AuthParseError::MissingColon),
{
    connect::lemma_shown(header);
    text::lemma_find_char(header, ' ');
    if header == scheme + seq![' '] + rest {
        text::lemma_split_joined(scheme, ' ', rest);
    }
    let symbols = encoding::base64_text(bytes);
    let credentials = text::ascii_chars(symbols);
    if header == "Basic "@ + credentials {
        reveal_strlit("Basic ");
        reveal_strlit("Basic");
        assert(!"Basic"@.contains(' '));
        text::lemma_split_joined("Basic"@, ' ', credentials);
        assert("Basic "@ + credentials =~= "Basic"@ + seq![' '] + credentials);
        encoding::lemma_base64_ascii(bytes);
        text::lemma_ascii_utf8(symbols);
        if credentials.len() > 0 {
            assert(32 < symbols[0] < 127);
            assert(32 < symbols[symbols.len() - 1] < 127);
        }
        text::lemma_trimmed_unchanged(credentials);
        encoding::lemma_base64_roundtrip(bytes);
        if valid_utf8(bytes) {
            text::lemma_find_char(decode_utf8(bytes), ':');
        }
    }
}

proof fn lemma_padding_taken_away(word: Seq<char>, part: Seq<char>, n: int)
    requires
        connect::padded(word, part, n),
        part.len() > 0,
        !text::is_blank(part[0]) && !text::is_blank(part.last()),
    ensures
        text::trimmed(word) == part,
{
    let len = part.len() as int;
    assert forall|i: int| n <= i < n + len implies #[trigger] word[i] == part[i - n] by {
        assert(word.subrange(n, n + len)[i - n] == word[i]);
    }
    text::lemma_leading_blanks(word);
    let k = text::leading_blanks(word) as int;
    assert(!text::is_blank(word[n]));
    if k < n {
        assert(text::is_blank(word[k]));
    }
    let t = word.subrange(n, word.len() as int);
    text::lemma_trailing_blanks(t);
    let m = t.len() - text::trailing_blanks(t);
    assert(t[len - 1] == word[n + len - 1]);
    assert(!text::is_blank(t[len - 1]));
    if m > len {
        assert(t[m - 1] == word[n + m - 1]);
    }
    assert(t.subrange(0, len) =~= part);
}

/// To the stricter reader blanks around the credentials say nothing.
pub proof fn law_blanks_around_credentials(
    value: &http::HeaderValue,
    word: Seq<char>,
    n: int,
    username: Seq<char>,
    password: Seq<char>,
    r: Result<request_auth::AuthResult, AuthParseError>,
)
    requires
        call_ensures(request_auth::parse_authorization, (value,), r),
        username.len() > 0 && !username.contains(':'),
        connect::padded(word, connect::basic_text(username, password), n),
        connect::printable(word),
        outside::header_value_bytes(*value) == encode_utf8("Basic "@ + word),
    ensures
        r matches Ok(request_auth::AuthResult {
            username: u,
            credential: session::AuthCredential::Password(p),
        }) && u@ == username && p@ == password,
{
    reveal_strlit("Basic ");
    reveal_strlit("Basic");
    let sent = "Basic "@ + word;
    assert forall|i: int| 0 <= i < sent.len() implies (' ' <= #[trigger] sent[i] <= '~' || sent[i]
        == '\t') by {
        if i >= 6 {
            assert(sent[i] == word[i - 6]);
        }
    }
    connect::lemma_shown(sent);
    assert(!"Basic"@.contains(' '));
    assert(sent =~= "Basic"@ + seq![' '] + word);
    text::lemma_split_joined("Basic"@, ' ', word);
    let joined = username + seq![':'] + password;
    let bytes = encode_utf8(joined);
    let symbols = encoding::base64_text(bytes);
    let credentials = text::ascii_chars(symbols);
    encoding::lemma_base64_ascii(bytes);
    encoding::lemma_base64_len(bytes);
    text::lemma_ascii_utf8(symbols);
    encode_utf8_valid_utf8(joined);
    encode_utf8_decode_utf8(joined);
    assert(credentials.len() > 0) by {
        if bytes.len() == 0 {
            assert(bytes =~= Seq::<u8>::empty());
            assert(joined[username.len() as int] == ':');
        }
    }
    assert(32 < symbols[0] < 127);
    assert(32 < symbols[symbols.len() - 1] < 127);
    assert(credentials[0] == symbols[0] as char);
    assert(credentials.last() == symbols[symbols.len() - 1] as char);
    lemma_padding_taken_away(word, credentials, n);
    encoding::lemma_base64_roundtrip(bytes);
    text::lemma_split_joined(username, ':', password);
}

/// A request is accepted exactly where it is a CONNECT request for this protocol from which
/// a version and a credential can be had, and then with that credential and that version.
pub proof fn law_accepted_with_what_was_read(
    method: &str,
    protocol: Option<&str>,
    headers: &http::HeaderMap,
    decision: ConnectDecision,
    picked: Result<SshVersion, Ssh3Error>,
    credential: Result<AuthCredential, AuthChallenge>,
)
    requires
        call_ensures(handler::evaluate_connect, (method, protocol, headers), decision),
        call_ensures(version::negotiate_version, (headers,), picked),
        call_ensures(request_auth::extract_auth_credential, (headers,), credential),
    ensures
        decision is Accepted <==> method@ == "CONNECT"@ && (protocol matches Some(p) && p@
            == "ssh3"@) && picked is Ok && credential is Ok,
        decision is Unauthorized <==> method@ == "CONNECT"@ && (protocol matches Some(p) && p@
            == "ssh3"@) && picked is Ok && credential is Err,
        decision matches ConnectDecision::Accepted { version_header, credential: c } ==> {
            &&& c matches Some(AuthCredential::Basic { username: u, password: p })
            &&& credential matches Ok(AuthCredential::Basic { username, password })
            &&& u@ == username@ && p@ == password@
            &&& outside::header_value_bytes(version_header) == encode_utf8(
                picked->Ok_0.version_string@,
            )
        },
        credential matches Err(challenge) ==> challenge.status == 401
            && challenge.www_authenticate@ == "Basic"@,
{
    if method@ == "CONNECT"@ && (protocol matches Some(p) && p@ == "ssh3"@) {
        let v = choose|v: Result<SshVersion, Ssh3Error>|
            #[trigger] version::version_ends(*headers, v) && match v {
                Err(e) => decision matches ConnectDecision::BadRequest(m) && m@
                    == "version negotiation failed: "@ + e.message(),
                Ok(chosen) => match request_auth::request_credentials(*headers) {
                    None => decision matches ConnectDecision::Unauthorized { www_authenticate }
                        && www_authenticate@ == "Basic"@,
                    Some((name, word)) => {
                        &&& decision matches ConnectDecision::Accepted {
                            version_header,
                            credential: c,
                        }
                        &&& outside::header_value_bytes(version_header) == encode_utf8(
                            chosen.version_string@,
                        )
                        &&& c matches Some(AuthCredential::Basic { username: u, password: p })
                        &&& u@ == name
                        &&& p@ == word
                    },
                },
            };
        assert(version::version_ends(*headers, v));
        assert(version::version_ends(*headers, picked));
    }
}

/// The version comes from the header `ssh-version`, and the credential from the header
/// `authorization`.
pub proof fn law_headers_read(
    headers: &http::HeaderMap,
    offers: Seq<char>,
    username: Seq<char>,
    password: Seq<char>,
    picked: Result<SshVersion, Ssh3Error>,
    credential: Result<AuthCredential, AuthChallenge>,
)
    requires
        call_ensures(version::negotiate_version, (headers,), picked),
        call_ensures(request_auth::extract_auth_credential, (headers,), credential),
        !username.contains(':'),
    ensures
        connect::carries(*headers, "ssh-version"@, offers) && connect::is_offered(
            "michel-ssh3-00"@,
            offers,
        ) ==> (picked matches Ok(v) && v.version_string@ == "michel-ssh3-00"@),
        !outside::header_values(*headers).contains_key("ssh-version"@) ==> picked == Err::<
            SshVersion,
            Ssh3Error,
        >(Ssh3Error::MissingSshVersionHeader),
        connect::carries(
            *headers,
            "authorization"@,
            "Basic "@ + connect::basic_text(username, password),
        ) ==> (credential matches Ok(AuthCredential::Basic { username: u, password: p }) && u@
            == username && p@ == password),
        !outside::header_values(*headers).contains_key("authorization"@) ==> credential is Err,
{
    if connect::carries(*headers, "ssh-version"@, offers) {
        connect::lemma_shown(offers);
        if connect::is_offered("michel-ssh3-00"@, offers) {
            connect::lemma_version_ends(offers, picked);
        }
    }
    let sent = "Basic "@ + connect::basic_text(username, password);
    if connect::carries(*headers, "authorization"@, sent) {
        connect::lemma_shown(sent);
        auth::lemma_basic_header_roundtrip(username, password);
    }
}

/// The text of a header is read as it was written, where it is printable, and nothing else
/// is read.
pub proof fn law_header_text(value: &http::HeaderValue, s: Seq<char>, i: int, r: Option<String>)
    requires
        call_ensures(request_auth::header_to_str, (value,), r),
    ensures
        connect::printable(s) && outside::header_value_bytes(*value) == encode_utf8(s) ==> (
        r matches Some(t) && t@ == s),
        ({
            let b = outside::header_value_bytes(*value);
            0 <= i < b.len() && (b[i] < 32 && b[i] != 9 || b[i] > 126) ==> r is None
        }),
{
    if connect::printable(s) && outside::header_value_bytes(*value) == encode_utf8(s) {
        connect::lemma_shown(s);
    }
    let b = outside::header_value_bytes(*value);
    if 0 <= i < b.len() && (b[i] < 32 && b[i] != 9 || b[i] > 126) {
        assert(!request_auth::is_visible(b[i]));
    }
}

/// The headers of the answers hold what they are to say.
pub proof fn law_answer_headers(
    v: &SshVersion,
    version_header: http::HeaderValue,
    challenge: &str,
    challenge_header: http::HeaderValue,
)
    requires
        call_ensures(version::version_response_header, (v,), version_header),
        call_ensures(handler::unauthorized_header, (challenge,), challenge_header),
    ensures
        outside::header_value_bytes(version_header) == encode_utf8(v.version_string@),
        connect::printable(challenge@) ==> outside::header_value_bytes(challenge_header)
            == encode_utf8(challenge@),
        is_ascii_chars(challenge@) && challenge@.contains('\n') ==> outside::header_value_bytes(
            challenge_header,
        ) == encode_utf8("Basic"@),
{
    let b = challenge.spec_bytes();
    if connect::printable(challenge@) {
        assert(is_ascii_chars(challenge@));
        is_ascii_chars_encode_utf8(challenge@);
        assert forall|i: int| 0 <= i < b.len() implies outside::is_header_byte(#[trigger] b[i]) by {
            assert(b[i] == challenge@[i] as u8);
            assert(' ' <= challenge@[i] <= '~' || challenge@[i] == '\t');
        }
    }
    if challenge@.contains('\n') && is_ascii_chars(challenge@) {
        is_ascii_chars_encode_utf8(challenge@);
        let i = choose|i: int| 0 <= i < challenge@.len() && challenge@[i] == '\n';
        assert(b[i] == challenge@[i] as u8);
        assert(!outside::is_header_byte(b[i]));
    }
}

} // verus!
