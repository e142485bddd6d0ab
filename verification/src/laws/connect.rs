//! The answer to a CONNECT request.

use crate::encoding;
use crate::outside;
use crate::proto::auth;
use crate::proto::auth::AuthCredential;
use crate::proto::error::Ssh3Error;
use crate::proto::session;
use crate::server::auth as request_auth;
use crate::server::handler;
use crate::server::handler::{AuthOutcome, AuthReply, ConnectDecision};
use crate::server::version;
use crate::server::version::SshVersion;
use crate::text;
use vstd::prelude::*;
use vstd::string::*;
use vstd::utf8::*;

verus! {

/// The text can be shown: it is printable ASCII, spaces and tabs.
pub open spec fn printable(s: Seq<char>) -> bool {
    forall|i: int| 0 <= i < s.len() ==> (' ' <= #[trigger] s[i] <= '~' || s[i] == '\t')
}

/// The first header of this name carries this text.
pub open spec fn carries(headers: http::HeaderMap, name: Seq<char>, s: Seq<char>) -> bool {
    &&& printable(s)
    &&& outside::header_values(headers).contains_key(name)
    &&& outside::header_values(headers)[name][0] == encode_utf8(s)
}

/// The text stands somewhere in the other.
pub open spec fn stands_in(part: Seq<char>, whole: Seq<char>) -> bool {
    exists|i: int|
        0 <= i <= whole.len() - part.len() && #[trigger] whole.subrange(i, i + part.len()) == part
}

/// The word is the text, which starts at the given place, with blanks around it.
pub open spec fn padded(word: Seq<char>, part: Seq<char>, n: int) -> bool {
    &&& 0 <= n <= word.len() - part.len()
    &&& word.subrange(n, n + part.len()) == part
    &&& forall|i: int|
        0 <= i < n || n + part.len() <= i < word.len() ==> (#[trigger] word[i] == ' ' || word[i]
            == '\t')
}

/// The text stands between commas, or the ends, of the other, with nothing but blanks
/// around it.
pub open spec fn is_offered(part: Seq<char>, whole: Seq<char>) -> bool {
    exists|before: Seq<char>, word: Seq<char>, after: Seq<char>, n: int|
        whole == #[trigger] (before + word + after) && #[trigger] padded(word, part, n) && (
        before.len() == 0 || before.last() == ',') && (after.len() == 0 || after[0] == ',')
}

/// What a client writes for a user name and a password.
pub open spec fn basic_text(username: Seq<char>, password: Seq<char>) -> Seq<char> {
    text::ascii_chars(encoding::base64_text(encode_utf8(username + seq![':'] + password)))
}

/// Printable text is what the bytes of a header say.
pub proof fn lemma_shown(s: Seq<char>)
    requires
        printable(s),
    ensures
        request_auth::header_text(encode_utf8(s)) == Some(s),
{
    assert(is_ascii_chars(s));
    is_ascii_chars_encode_utf8(s);
    let bytes = encode_utf8(s);
    assert forall|i: int| 0 <= i < bytes.len() implies request_auth::is_visible(
        #[trigger] bytes[i],
    ) by {
        assert(bytes[i] == s[i] as u8);
        assert(' ' <= s[i] <= '~' || s[i] == '\t');
    }
    assert(text::ascii_chars(bytes) =~= s);
}

proof fn lemma_version_chars()
    ensures
        version::SSH_VERSION@ == "michel-ssh3-00"@,
        "michel-ssh3-00"@.len() == 14,
        !"michel-ssh3-00"@.contains(','),
        text::trimmed("michel-ssh3-00"@) == "michel-ssh3-00"@,
{
    reveal_strlit("michel-ssh3-00");
    text::lemma_trimmed_unchanged("michel-ssh3-00"@);
}

proof fn lemma_padded(word: Seq<char>, n: int)
    requires
        padded(word, "michel-ssh3-00"@, n),
    ensures
        text::trimmed(word) == "michel-ssh3-00"@,
        forall|i: int| 0 <= i < word.len() ==> #[trigger] word[i] != ',',
{
    lemma_version_chars();
    reveal_strlit("michel-ssh3-00");
    let v = "michel-ssh3-00"@;
    assert forall|i: int| n <= i < n + 14 implies #[trigger] word[i] == v[i - n] by {
        assert(word.subrange(n, n + 14)[i - n] == word[i]);
    }
    assert forall|i: int| 0 <= i < word.len() implies #[trigger] word[i] != ',' by {
        if n <= i < n + 14 {
            assert(word[i] == v[i - n]);
        }
    }
    text::lemma_leading_blanks(word);
    let k = text::leading_blanks(word) as int;
    assert(!text::is_blank(word[n]));
    if k < n {
        assert(text::is_blank(word[k]));
    }
    let t = word.subrange(n, word.len() as int);
    text::lemma_trailing_blanks(t);
    let m = t.len() - text::trailing_blanks(t);
    assert(t[13] == word[n + 13]);
    assert(!text::is_blank(t[13]));
    if m > 14 {
        assert(t[m - 1] == word[n + m - 1]);
    }
    assert(t.subrange(0, 14) =~= v);
}

proof fn lemma_offer_among_parts(before: Seq<char>, word: Seq<char>, after: Seq<char>,
    n: int) -> (i:
    int)
    requires
        padded(word, "michel-ssh3-00"@, n),
        before.len() == 0 || before.last() == ',',
        after.len() == 0 || after[0] == ',',
    ensures
        ({
            let parts = version::split_all(before + word + after, ',');
            0 <= i < parts.len() && text::trimmed(parts[i]) == "michel-ssh3-00"@
        }),
    decreases before.len(),
{
    lemma_padded(word, n);
    let s = before + word + after;
    let at = text::find_char(s, ',');
    text::lemma_find_char(s, ',');
    if before.len() == 0 {
        assert forall|j: int| 0 <= j < word.len() implies s[j] != ',' by {
            assert(s[j] == word[j]);
        }
        if after.len() > 0 {
            assert(s[word.len() as int] == ',');
            assert(s.subrange(0, word.len() as int) =~= word);
        } else {
            assert(s =~= word);
        }
        0
    } else {
        assert(s[before.len() - 1] == ',');
        assert(at < before.len());
        let left = before.subrange(at as int + 1, before.len() as int);
        let rest = s.subrange(at as int + 1, s.len() as int);
        assert(rest =~= left + word + after);
        let j = lemma_offer_among_parts(left, word, after, n);
        let parts = version::split_all(s, ',');
        assert(parts[j + 1] == version::split_all(rest, ',')[j]);
        j + 1
    }
}

proof fn lemma_parts_stand_in(s: Seq<char>, i: int) -> (at: int)
    requires
        0 <= i < version::split_all(s, ',').len(),
    ensures
        ({
            let part = version::split_all(s, ',')[i];
            0 <= at <= s.len() - part.len() && s.subrange(at, at + part.len()) == part
        }),
    decreases s.len(),
{
    text::lemma_find_char(s, ',');
    let parts = version::split_all(s, ',');
    match text::split_first(s, ',') {
        None => {
            assert(s.subrange(0, s.len() as int) =~= s);
            0
        },
        Some((first, rest)) => {
            if i == 0 {
                assert(parts[0] == first);
                0
            } else {
                assert(parts[i] == version::split_all(rest, ',')[i - 1]);
                let at = lemma_parts_stand_in(rest, i - 1);
                let skipped = s.len() - rest.len();
                assert(s.subrange(skipped + at, skipped + at + parts[i].len()) =~= rest.subrange(
                    at,
                    at + parts[i].len(),
                ));
                skipped + at
            }
        },
    }
}

/// A version that is offered anywhere in the list is picked, where it is the one that is
/// spoken here; and what is picked was offered, and is that one.
pub proof fn law_version_picked(header: &str, r: Result<SshVersion, Ssh3Error>)
    requires
        call_ensures(version::select_version, (header,), r),
    ensures
        is_offered("michel-ssh3-00"@, header@) ==> r is Ok,
        r matches Ok(v) ==> v.version_string@ == "michel-ssh3-00"@ && stands_in(
            "michel-ssh3-00"@,
            header@,
        ),
        r matches Err(e) ==> if header@.len() == 0 {
            e is EmptySshVersionHeader
        } else {
            e matches Ssh3Error::UnsupportedSshVersion { offered } && offered@ == header@
        },
{
    let v = "michel-ssh3-00"@;
    let parts = version::split_all(header@, ',');
    lemma_version_chars();
    version::lemma_first_supported(parts);
    if is_offered(v, header@) {
        let (before, word, after, n) = choose|
            before: Seq<char>,
            word: Seq<char>,
            after: Seq<char>,
            n: int,
        |
            header@ == #[trigger] (before + word + after) && #[trigger] padded(word, v, n) && (
            before.len() == 0 || before.last() == ',') && (after.len() == 0 || after[0] == ',');
        let i = lemma_offer_among_parts(before, word, after, n);
        assert(version::is_supported(text::trimmed(parts[i])));
    }
    if r is Ok {
        let i = choose|i: int|
            0 <= i < parts.len() && text::trimmed(#[trigger] parts[i]) == v && forall|j: int|
                0 <= j < i ==> !version::is_supported(text::trimmed(#[trigger] parts[j]));
        let at = lemma_parts_stand_in(header@, i);
        let part = parts[i];
        let n = text::leading_blanks(part);
        text::lemma_leading_blanks(part);
        let t = part.subrange(n as int, part.len() as int);
        text::lemma_trailing_blanks(t);
        assert(header@.subrange(at + n, at + n + 14) =~= v) by {
            assert forall|k: int| 0 <= k < 14 implies header@[at + n + k] == v[k] by {
                assert(text::trimmed(part)[k] == part[n + k]);
                assert(header@.subrange(at, at + part.len())[n + k] == part[n + k]);
            }
        }
        assert(stands_in(v, header@));
    }
}

/// A request for this protocol that offers the version that is spoken here and carries a
/// user name without a colon and a password is accepted, with that version, that user
/// name and that password.
pub proof fn law_connect_accepted(
    method: &str,
    protocol: &str,
    headers: &http::HeaderMap,
    offers: Seq<char>,
    username: Seq<char>,
    password: Seq<char>,
    r: ConnectDecision,
)
    requires
        call_ensures(handler::evaluate_connect, (method, Some(protocol), headers), r),
        method@ == "CONNECT"@,
        protocol@ == "ssh3"@,
        carries(*headers, "ssh-version"@, offers),
        is_offered("michel-ssh3-00"@, offers),
        !username.contains(':'),
        carries(*headers, "authorization"@, "Basic "@ + basic_text(username, password)),
    ensures
        r matches ConnectDecision::Accepted {
            version_header,
            credential: Some(AuthCredential::Basic { username: u, password: p }),
        } && u@ == username && p@ == password && outside::header_value_bytes(version_header)
            == encode_utf8("michel-ssh3-00"@),
{
    lemma_shown(offers);
    lemma_shown("Basic "@ + basic_text(username, password));
    auth::lemma_basic_header_roundtrip(username, password);
    let v = choose|v: Result<SshVersion, Ssh3Error>|
        #[trigger] version::version_ends(*headers, v) && match v {
            Err(e) => r matches ConnectDecision::BadRequest(m) && m@
                == "version negotiation failed: "@ + e.message(),
            Ok(chosen) => match request_auth::request_credentials(*headers) {
                None => r matches ConnectDecision::Unauthorized { www_authenticate }
                    && www_authenticate@ == "Basic"@,
                Some((name, word)) => {
                    &&& r matches ConnectDecision::Accepted { version_header, credential }
                    &&& outside::header_value_bytes(version_header) == encode_utf8(
                        chosen.version_string@,
                    )
                    &&& credential matches Some(AuthCredential::Basic { username: u, password: p })
                    &&& u@ == name
                    &&& p@ == word
                },
            },
        };
    assert(version::negotiation_ends(offers, v));
    lemma_version_ends(offers, v);
}

/// A version that is offered is picked.
pub proof fn lemma_version_ends(offers: Seq<char>, v: Result<SshVersion, Ssh3Error>)
    requires
        version::negotiation_ends(offers, v),
        is_offered("michel-ssh3-00"@, offers),
    ensures
        v matches Ok(chosen) && chosen.version_string@ == "michel-ssh3-00"@,
{
    let name = "michel-ssh3-00"@;
    lemma_version_chars();
    let (before, word, after, n) = choose|
        before: Seq<char>,
        word: Seq<char>,
        after: Seq<char>,
        n: int,
    |
        offers == #[trigger] (before + word + after) && #[trigger] padded(word, name, n) && (
        before.len() == 0 || before.last() == ',') && (after.len() == 0 || after[0] == ',');
    let i = lemma_offer_among_parts(before, word, after, n);
    version::lemma_first_supported(version::split_all(offers, ','));
    assert(version::is_supported(text::trimmed(version::split_all(offers, ',')[i])));
}

/// The text is the name of the scheme, in any case.
pub open spec fn names_basic(scheme: Seq<char>) -> bool {
    &&& scheme.len() == 5
    &&& scheme[0] == 'B' || scheme[0] == 'b'
    &&& scheme[1] == 'A' || scheme[1] == 'a'
    &&& scheme[2] == 'S' || scheme[2] == 's'
    &&& scheme[3] == 'I' || scheme[3] == 'i'
    &&& scheme[4] == 'C' || scheme[4] == 'c'
}

/// What is the same as the name of the scheme but for case names it.
pub proof fn lemma_same_as_basic(scheme: Seq<char>)
    requires
        text::same_ignoring_case(scheme, "Basic"@),
    ensures
        names_basic(scheme),
{
    reveal_strlit("Basic");
    assert(scheme.len() == 5);
    assert(text::to_lower(scheme[0]) == text::to_lower('B'));
    assert(text::to_lower(scheme[1]) == text::to_lower('a'));
    assert(text::to_lower(scheme[2]) == text::to_lower('s'));
    assert(text::to_lower(scheme[3]) == text::to_lower('i'));
    assert(text::to_lower(scheme[4]) == text::to_lower('c'));
}

proof fn lemma_credentials_written(header: Seq<char>, username: Seq<char>, password: Seq<char>) -> (
    scheme: Seq<char>)
    requires
        auth::basic_credentials(header) == Ok::<_, Seq<char>>((username, password)),
    ensures
        names_basic(scheme),
        header == scheme + seq![' '] + basic_text(username, password),
        !username.contains(':'),
{
    let (scheme, credentials) = text::split_first(header, ' ')->0;
    text::lemma_find_char(header, ' ');
    lemma_same_as_basic(scheme);
    let bytes = auth::strict_base64(credentials)->0;
    assert(encoding::base64_text(bytes) == encode_utf8(credentials));
    encoding::lemma_base64_ascii(bytes);
    text::lemma_ascii_utf8(encoding::base64_text(bytes));
    text::lemma_encode_utf8_injective(text::ascii_chars(encoding::base64_text(bytes)), credentials);
    let joined = decode_utf8(bytes);
    text::lemma_find_char(joined, ':');
    decode_utf8_encode_utf8(bytes);
    assert(joined =~= username + seq![':'] + password);
    assert(header =~= scheme + seq![' '] + credentials);
    assert forall|k: int| 0 <= k < username.len() implies username[k] != ':' by {
        assert(username[k] == joined[k]);
    }
    scheme
}

proof fn lemma_text_shown(bytes: Seq<u8>)
    requires
        request_auth::header_text(bytes) is Some,
    ensures
        encode_utf8(request_auth::header_text(bytes)->0) == bytes,
{
    assert forall|i: int| 0 <= i < bytes.len() implies #[trigger] bytes[i] < 128 by {
        assert(request_auth::is_visible(bytes[i]));
    }
    text::lemma_ascii_utf8(bytes);
}

/// Only a request for this protocol that offers the version that is spoken here is
/// accepted, and the user name and password are those that it carries.
pub proof fn law_connect_accepts_nothing_else(
    method: &str,
    protocol: Option<&str>,
    headers: &http::HeaderMap,
    r: ConnectDecision,
)
    requires
        call_ensures(handler::evaluate_connect, (method, protocol, headers), r),
    ensures
        r matches ConnectDecision::Accepted { version_header, credential } ==> {
            let values = outside::header_values(*headers);
            &&& method@ == "CONNECT"@
            &&& protocol matches Some(p) && p@ == "ssh3"@
            &&& values.contains_key("ssh-version"@) && values.contains_key("authorization"@)
            &&& exists|offers: Seq<char>|
                values["ssh-version"@][0] == #[trigger] encode_utf8(offers) && stands_in(
                    "michel-ssh3-00"@,
                    offers,
                )
            &&& credential matches Some(AuthCredential::Basic { username, password })
                && !username@.contains(':') && exists|scheme: Seq<char>|
                names_basic(scheme) && values["authorization"@][0] == encode_utf8(
                    #[trigger] (scheme + seq![' ']) + basic_text(username@, password@),
                )
        },
{
    if r is Accepted {
        let values = outside::header_values(*headers);
        let shown = request_auth::header_text(values["authorization"@][0])->0;
        lemma_text_shown(values["authorization"@][0]);
        let (username, password) = request_auth::request_credentials(*headers)->0;
        let scheme = lemma_credentials_written(shown, username, password);
        assert(names_basic(scheme) && values["authorization"@][0] == encode_utf8(
            (scheme + seq![' ']) + basic_text(username, password),
        ));
        let v = choose|v: Result<SshVersion, Ssh3Error>|
            #[trigger] version::version_ends(*headers, v) && v is Ok;
        let offers = request_auth::header_text(values["ssh-version"@][0])->0;
        lemma_text_shown(values["ssh-version"@][0]);
        lemma_picked_stands_in(offers, v);
    }
}

proof fn lemma_picked_stands_in(offers: Seq<char>, r: Result<SshVersion, Ssh3Error>)
    requires
        version::negotiation_ends(offers, r),
        r is Ok,
    ensures
        stands_in("michel-ssh3-00"@, offers),
{
    let v = "michel-ssh3-00"@;
    let parts = version::split_all(offers, ',');
    lemma_version_chars();
    version::lemma_first_supported(parts);
    let i = choose|i: int|
        0 <= i < parts.len() && text::trimmed(#[trigger] parts[i]) == v && forall|j: int|
            0 <= j < i ==> !version::is_supported(text::trimmed(#[trigger] parts[j]));
    let at = lemma_parts_stand_in(offers, i);
    let part = parts[i];
    let n = text::leading_blanks(part);
    text::lemma_leading_blanks(part);
    let t = part.subrange(n as int, part.len() as int);
    text::lemma_trailing_blanks(t);
    assert(offers.subrange(at + n, at + n + 14) =~= v) by {
        assert forall|k: int| 0 <= k < 14 implies offers[at + n + k] == v[k] by {
            assert(text::trimmed(part)[k] == part[n + k]);
            assert(offers.subrange(at, at + part.len())[n + k] == part[n + k]);
        }
    }
}

/// A request of another method, or for no or another protocol, is called wrong, and the
/// answer says how; one that offers no version is too, and one without a user name and
/// password that can be read is told to authenticate.
pub proof fn law_connect_refused(
    method: &str,
    protocol: Option<&str>,
    headers: &http::HeaderMap,
    offers: Seq<char>,
    r: ConnectDecision,
)
    requires
        call_ensures(handler::evaluate_connect, (method, protocol, headers), r),
    ensures
        method@ != "CONNECT"@ ==> (r matches ConnectDecision::BadRequest(m) && m@
            == "expected CONNECT method, got "@ + method@),
        method@ == "CONNECT"@ && protocol is None ==> (r matches ConnectDecision::BadRequest(m)
            && m@ == "missing :protocol pseudo-header"@),
        method@ == "CONNECT"@ && (protocol matches Some(p) && p@ != "ssh3"@) ==> (
        r matches ConnectDecision::BadRequest(m) && m@ == "expected :protocol \"ssh3\", got \""@
            + protocol->0@ + "\""@),
        method@ == "CONNECT"@ && (protocol matches Some(p) && p@ == "ssh3"@)
            && !outside::header_values(*headers).contains_key("ssh-version"@) ==> r is BadRequest,
        method@ == "CONNECT"@ && (protocol matches Some(p) && p@ == "ssh3"@) && carries(
            *headers,
            "ssh-version"@,
            offers,
        ) ==> (r is BadRequest ==> !is_offered("michel-ssh3-00"@, offers)) && (!stands_in(
            "michel-ssh3-00"@,
            offers,
        ) ==> r is BadRequest) && (is_offered("michel-ssh3-00"@, offers)
            && !outside::header_values(*headers).contains_key("authorization"@)
            ==> r is Unauthorized),
        r matches ConnectDecision::Unauthorized { www_authenticate } ==> www_authenticate@
            == "Basic"@,
{
    if method@ == "CONNECT"@ && (protocol matches Some(p) && p@ == "ssh3"@) {
        if carries(*headers, "ssh-version"@, offers) {
            lemma_shown(offers);
            let v = choose|v: Result<SshVersion, Ssh3Error>|
                #[trigger] version::version_ends(*headers, v) && (v is Err ==> r is BadRequest) && (
                v is Ok ==> (r is Unauthorized || r is Accepted)) && (v is Ok
                    && request_auth::request_credentials(*headers) is None ==> r is Unauthorized);
            assert(version::version_ends(*headers, v));
            if is_offered("michel-ssh3-00"@, offers) {
                lemma_version_ends(offers, v);
            }
            if v is Ok {
                lemma_picked_stands_in(offers, v);
            }
        }
    }
}

/// A user name without a colon and a password are read back from what a client writes
/// for them, by either reader of such headers; a user name that is not empty by the
/// stricter one.
pub proof fn law_credentials_read(
    header: &str,
    value: &http::HeaderValue,
    username: Seq<char>,
    password: Seq<char>,
    r: Result<AuthCredential, Ssh3Error>,
    strict: Result<request_auth::AuthResult, request_auth::AuthParseError>,
)
    requires
        !username.contains(':'),
        call_ensures(auth::parse_authorization_header, (header,), r),
        call_ensures(request_auth::parse_authorization, (value,), strict),
    ensures
        header@ == "Basic "@ + basic_text(username, password) ==> (r matches Ok(
            AuthCredential::Basic { username: u, password: p },
        ) && u@ == username && p@ == password),
        outside::header_value_bytes(*value) == encode_utf8(
            "Basic "@ + basic_text(username, password),
        ) && username.len() > 0 ==> (strict matches Ok(
            request_auth::AuthResult {
                username: u,
                credential: session::AuthCredential::Password(p),
            },
        ) && u@ == username && p@ == password),
        outside::header_value_bytes(*value) == encode_utf8(
            "Basic "@ + basic_text(username, password),
        ) && username.len() == 0 ==> strict == Err::<request_auth::AuthResult, _>(
            request_auth::AuthParseError::EmptyUsername,
        ),
{
    auth::lemma_basic_header_roundtrip(username, password);
    let sent = "Basic "@ + basic_text(username, password);
    let joined = encode_utf8(username + seq![':'] + password);
    encoding::lemma_base64_ascii(joined);
    reveal_strlit("Basic ");
    let symbols = encoding::base64_text(joined);
    assert(printable(sent)) by {
        assert forall|i: int| 0 <= i < sent.len() implies (' ' <= #[trigger] sent[i] <= '~' || sent[i]
            == '\t') by {
            if i >= 6 {
                assert(32 < symbols[i - 6] < 127);
                assert(sent[i] == symbols[i - 6] as char);
            }
        }
    }
    lemma_shown(sent);
    if username.len() > 0 {
        request_auth::lemma_authorization_roundtrip(username, password);
    } else {
        lemma_empty_username(password);
        assert(username =~= Seq::<char>::empty());
    }
}

proof fn lemma_empty_username(password: Seq<char>)
    ensures
        request_auth::authorization_of("Basic "@ + basic_text(Seq::empty(), password)) == Err::<
            (Seq<char>, Seq<char>),
            _,
        >(request_auth::AuthParseFault::EmptyUsername),
{
    let joined = Seq::<char>::empty() + seq![':'] + password;
    let bytes = encode_utf8(joined);
    let symbols = encoding::base64_text(bytes);
    let credentials = text::ascii_chars(symbols);
    reveal_strlit("Basic ");
    reveal_strlit("Basic");
    assert(!"Basic"@.contains(' '));
    text::lemma_split_joined("Basic"@, ' ', credentials);
    assert("Basic "@ + credentials =~= "Basic"@ + seq![' '] + credentials);
    encoding::lemma_base64_ascii(bytes);
    text::lemma_ascii_utf8(symbols);
    if credentials.len() > 0 {
        assert(32 < symbols[0] < 127);
        assert(32 < symbols[symbols.len() - 1] < 127);
    }
    text::lemma_trimmed_unchanged(credentials);
    encoding::lemma_base64_roundtrip(bytes);
    encode_utf8_valid_utf8(joined);
    encode_utf8_decode_utf8(joined);
    text::lemma_split_joined(Seq::empty(), ':', password);
}

/// A user is let in on a verdict that says so, and on nothing else.
pub proof fn law_let_in_only_on_success(reply: &AuthReply, r: AuthOutcome)
    requires
        call_ensures(handler::receive_auth_result, (reply,), r),
    ensures
        r == AuthOutcome::Success <==> (reply matches AuthReply::Result(
            session::AuthResult::Success { .. },
        )),
{
}

/// The session process is told the very credential that the request carried.
pub proof fn law_credential_passed_on(credential: AuthCredential, r: AuthCredential)
    requires
        call_ensures(handler::bootstrap_credential, (Some(credential),), r),
    ensures
        r == credential,
{
}

} // verus!
