//! Which version of the protocol is spoken.
//!
//! The client offers a list of versions, separated by commas, in the `ssh-version`
//! header of its request. The server picks the first one that it supports too and
//! names it in the header of its answer.

use crate::outside;
use crate::outside::{header_get, header_value_from_str};
use crate::proto::error::Ssh3Error;
use crate::server::auth;
use crate::server::auth::header_to_str;
use crate::text;
use crate::text::{same_text, split_once_char, trim_blanks};
use vstd::prelude::*;
use vstd::string::*;

verus! {

/// The version that is spoken here.
pub const SSH_VERSION: &'static str = "michel-ssh3-00";

/// A version that both sides speak.
#[derive(Debug, Clone, PartialEq, Eq)]
pub struct SshVersion {
    pub version_string: String,
}

/// The version is supported.
pub open spec fn is_supported(version: Seq<char>) -> bool {
    version == SSH_VERSION@
}

/// The parts of a text between occurrences of a character.
pub open spec fn split_all(s: Seq<char>, c: char) -> Seq<Seq<char>>
    decreases s.len(),
{
    match text::split_first(s, c) {
        None => seq![s],
        Some((first, rest)) => if rest.len() < s.len() {
            seq![first] + split_all(rest, c)
        } else {
            seq![s]
        },
    }
}

/// The first version in a list that is supported, blanks around it not counting.
pub open spec fn first_supported(offers: Seq<Seq<char>>) -> Option<Seq<char>>
    decreases offers.len(),
{
    if offers.len() == 0 {
        None
    } else if is_supported(text::trimmed(offers[0])) {
        Some(text::trimmed(offers[0]))
    } else {
        first_supported(offers.drop_first())
    }
}

/// The version that is picked is supported, stands in the list, and no earlier one
/// is supported; where none is picked, none in the list is supported.
pub proof fn lemma_first_supported(offers: Seq<Seq<char>>)
    ensures
        match first_supported(offers) {
            Some(v) => is_supported(v) && exists|i: int|
                0 <= i < offers.len() && text::trimmed(#[trigger] offers[i]) == v && forall|j: int|
                    0 <= j < i ==> !is_supported(text::trimmed(#[trigger] offers[j])),
            None => forall|i: int|
                0 <= i < offers.len() ==> !is_supported(text::trimmed(#[trigger] offers[i])),
        },
    decreases offers.len(),
{
    if offers.len() > 0 {
        let rest = offers.drop_first();
        assert(text::trimmed(offers[0]) == text::trimmed(offers[0]));
        if !is_supported(text::trimmed(offers[0])) {
            lemma_first_supported(rest);
            match first_supported(offers) {
                Some(v) => {
                    let i = choose|i: int|
                        0 <= i < rest.len() && text::trimmed(#[trigger] rest[i]) == v && forall|
                            j: int,
                        |
                            0 <= j < i ==> !is_supported(text::trimmed(#[trigger] rest[j]));
                    assert(offers[i + 1] == rest[i]);
                    assert forall|j: int| 0 <= j < i + 1 implies !is_supported(
                        text::trimmed(#[trigger] offers[j]),
                    ) by {
                        if j > 0 {
                            assert(offers[j] == rest[j - 1]);
                        }
                    }
                },
                None => {
                    assert forall|i: int| 0 <= i < offers.len() implies !is_supported(
                        text::trimmed(#[trigger] offers[i]),
                    ) by {
                        if i > 0 {
                            assert(offers[i] == rest[i - 1]);
                        }
                    }
                },
            }
        }
    }
}

/// What comes of the text of a `ssh-version` header: the version that is picked, or
/// why there is none.
pub open spec fn negotiation_ends(header: Seq<char>, r: Result<SshVersion, Ssh3Error>) -> bool {
    if header.len() == 0 {
        r matches Err(Ssh3Error::EmptySshVersionHeader)
    } else {
        match first_supported(split_all(header, ',')) {
            Some(v) => r matches Ok(version) && version.version_string@ == v,
            None => r matches Err(Ssh3Error::UnsupportedSshVersion { offered }) && offered@
                == header,
        }
    }
}

/// The name of the header that carries versions.
pub open spec fn version_header_name() -> Seq<char> {
    "ssh-version"@
}

/// Picks the first offered version that is supported.
pub fn select_version(header: &str) -> (r: Result<SshVersion, Ssh3Error>)
    ensures
        negotiation_ends(header@, r),
{
    if header.is_empty() {
        return Err(Ssh3Error::EmptySshVersionHeader);
    }
    let mut rest: &str = header;
    let mut offered: Option<(&str, &str)> = split_once_char(rest, ',');
    while offered.is_some()
        invariant
            header@.len() > 0,
            match offered {
                Some((a, b)) => text::split_first(rest@, ',') == Some((a@, b@)),
                None => text::split_first(rest@, ',') is None,
            },
            first_supported(split_all(header@, ',')) == first_supported(split_all(rest@, ',')),
        decreases rest@.len(),
    {
        if let Some((first, others)) = offered {
            proof {
                text::lemma_find_char(rest@, ',');
                let parts = split_all(rest@, ',');
                assert(parts[0] == first@);
                assert(parts.drop_first() =~= split_all(others@, ','));
            }
            let trimmed = trim_blanks(first);
            if same_text(trimmed, SSH_VERSION) {
                return Ok(SshVersion { version_string: trimmed.to_owned() });
            }
            rest = others;
            offered = split_once_char(rest, ',');
        }
    }
    proof {
        reveal_with_fuel(first_supported, 2);
        assert(split_all(rest@, ',').drop_first() =~= Seq::<Seq<char>>::empty());
    }
    let trimmed = trim_blanks(rest);
    if same_text(trimmed, SSH_VERSION) {
        return Ok(SshVersion { version_string: trimmed.to_owned() });
    }
    Err(Ssh3Error::UnsupportedSshVersion { offered: header.to_owned() })
}

/// What comes of the headers of a request: the version that is picked, or why there
/// is none.
pub open spec fn version_ends(headers: http::HeaderMap, r: Result<SshVersion, Ssh3Error>) -> bool {
    let values = outside::header_values(headers);
    if !values.contains_key(version_header_name()) {
        r matches Err(Ssh3Error::MissingSshVersionHeader)
    } else {
        match auth::header_text(values[version_header_name()][0]) {
            None => r matches Err(Ssh3Error::InvalidSshVersionHeaderValue),
            Some(header) => negotiation_ends(header, r),
        }
    }
}

/// Picks the version from the `ssh-version` header of a request.
pub fn negotiate_version(headers: &http::HeaderMap) -> (r: Result<SshVersion, Ssh3Error>)
    ensures
        version_ends(*headers, r),
{
    proof {
        reveal_strlit("ssh-version");
    }
    match header_get(headers, "ssh-version") {
        None => Err(Ssh3Error::MissingSshVersionHeader),
        Some(value) => match header_to_str(value) {
            None => Err(Ssh3Error::InvalidSshVersionHeaderValue),
            Some(header) => select_version(header.as_str()),
        },
    }
}

/// A version that can stand in a header.
pub open spec fn fits_header(version: SshVersion) -> bool {
    let bytes = vstd::utf8::encode_utf8(version.version_string@);
    forall|i: int| 0 <= i < bytes.len() ==> outside::is_header_byte(#[trigger] bytes[i])
}

/// The version that was picked can stand in a header.
pub proof fn lemma_supported_fits_header(version: SshVersion)
    requires
        is_supported(version.version_string@),
    ensures
        fits_header(version),
{
    reveal_strlit("michel-ssh3-00");
    let chars = version.version_string@;
    assert(vstd::utf8::is_ascii_chars(chars));
    vstd::utf8::is_ascii_chars_encode_utf8(chars);
}

/// The value of the `ssh-version` header of the answer.
pub fn version_response_header(version: &SshVersion) -> (r: http::HeaderValue)
    requires
        fits_header(*version),
    ensures
        outside::header_value_bytes(r) == vstd::utf8::encode_utf8(version.version_string@),
{
    match header_value_from_str(version.version_string.as_str()) {
        Some(value) => value,
        None => vstd::pervasive::unreached(),
    }
}

} // verus!
