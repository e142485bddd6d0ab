//! SOCKS5 without authentication.
//!
//! The client greets with the methods that it offers, then asks for a connection.
//! The functions here read what the client has sent so far and say what to do.

use crate::outside::string_from_utf8;
use crate::proto::varint;
use crate::proto::varint::push_be;
use crate::text;
use crate::text::{hex_byte_string, join2};
use vstd::prelude::*;
use vstd::slice::*;
use vstd::string::*;
use vstd::utf8::*;

verus! {

pub const SOCKS5_VERSION: u8 = 0x05;

pub const METHOD_NO_AUTH: u8 = 0x00;

pub const METHOD_NO_ACCEPTABLE: u8 = 0xFF;

pub const CMD_CONNECT: u8 = 0x01;

pub const ATYP_IPV4: u8 = 0x01;

pub const ATYP_DOMAIN: u8 = 0x03;

pub const ATYP_IPV6: u8 = 0x04;

pub const REP_SUCCEEDED: u8 = 0x00;

pub const REP_CONNECTION_REFUSED: u8 = 0x05;

pub const REP_COMMAND_NOT_SUPPORTED: u8 = 0x07;

/// What is wrong with what the client sent.
#[derive(Debug, Clone, PartialEq, Eq)]
pub enum Socks5Error {
    /// The greeting is of another version.
    UnsupportedVersion { version: u8 },
    /// The request is of another version.
    UnsupportedRequestVersion { version: u8 },
    /// The address is of an unknown type.
    UnsupportedAddressType { atyp: u8 },
    /// The domain name is not UTF-8; the text is that of the decoder's error.
    InvalidDomain { message: String },
}

impl Socks5Error {
    /// The text of the error.
    pub open spec fn message(self) -> Seq<char> {
        match self {
            Socks5Error::UnsupportedVersion { version } => "unsupported SOCKS version: 0x"@
                + text::hex_byte(version),
            Socks5Error::UnsupportedRequestVersion { version } => {
                "unsupported SOCKS version in request: 0x"@ + text::hex_byte(version)
            },
            Socks5Error::UnsupportedAddressType { atyp } => {
                "unsupported SOCKS5 address type: 0x"@ + text::hex_byte(atyp)
            },
            Socks5Error::InvalidDomain { message } => message@,
        }
    }

    /// The error as text.
    pub fn to_string(&self) -> (r: String)
        ensures
            r@ == self.message(),
    {
        match self {
            Socks5Error::UnsupportedVersion { version } => join2(
                "unsupported SOCKS version: 0x",
                hex_byte_string(*version).as_str(),
            ),
            Socks5Error::UnsupportedRequestVersion { version } => join2(
                "unsupported SOCKS version in request: 0x",
                hex_byte_string(*version).as_str(),
            ),
            Socks5Error::UnsupportedAddressType { atyp } => join2(
                "unsupported SOCKS5 address type: 0x",
                hex_byte_string(*atyp).as_str(),
            ),
            Socks5Error::InvalidDomain { message } => message.clone(),
        }
    }
}

/// What the client's greeting comes to.
#[derive(Debug, Clone, PartialEq, Eq)]
pub enum Greeting {
    /// More bytes are needed.
    NeedMore,
    /// The stream fails.
    Failed(Socks5Error),
    /// No offered method will do; so many bytes were the greeting.
    Refused { consumed: usize },
    /// No authentication is needed; so many bytes were the greeting.
    Accepted { consumed: usize },
}

/// What a greeting comes to: version, number of methods, methods.
pub open spec fn greeting_of(data: Seq<u8>) -> Greeting {
    if data.len() == 0 {
        Greeting::NeedMore
    } else if data[0] != SOCKS5_VERSION {
        Greeting::Failed(Socks5Error::UnsupportedVersion { version: data[0] })
    } else if data.len() < 2 || data.len() < 2 + data[1] {
        Greeting::NeedMore
    } else if data.subrange(2, 2 + data[1]).contains(METHOD_NO_AUTH) {
        Greeting::Accepted { consumed: (2 + data[1]) as usize }
    } else {
        Greeting::Refused { consumed: (2 + data[1]) as usize }
    }
}

/// Reads the client's greeting.
pub fn read_greeting(data: &[u8]) -> (r: Greeting)
    ensures
        r == greeting_of(data@),
{
    if data.len() == 0 {
        return Greeting::NeedMore;
    }
    if data[0] != SOCKS5_VERSION {
        return Greeting::Failed(Socks5Error::UnsupportedVersion { version: data[0] });
    }
    if data.len() < 2 {
        return Greeting::NeedMore;
    }
    let end: usize = 2 + data[1] as usize;
    if data.len() < end {
        return Greeting::NeedMore;
    }
    let ghost methods = data@.subrange(2, end as int);
    let mut i: usize = 2;
    while i < end
        invariant
            2 <= i <= end <= data@.len(),
            end == 2 + data@[1],
            data@[0] == SOCKS5_VERSION,
            methods == data@.subrange(2, end as int),
            forall|j: int| 0 <= j < i - 2 ==> #[trigger] methods[j] != METHOD_NO_AUTH,
        decreases end - i,
    {
        if data[i] == METHOD_NO_AUTH {
            assert(methods[i - 2] == METHOD_NO_AUTH);
            return Greeting::Accepted { consumed: end };
        }
        i = i + 1;
    }
    assert(!methods.contains(METHOD_NO_AUTH));
    Greeting::Refused { consumed: end }
}

/// The answer to a greeting: the version, and the method to use.
pub fn greeting_reply(accepted: bool) -> (r: Vec<u8>)
    ensures
        r@ == seq![
            SOCKS5_VERSION,
            if accepted {
                METHOD_NO_AUTH
            } else {
                METHOD_NO_ACCEPTABLE
            },
        ],
{
    let v = vec![
        SOCKS5_VERSION,
        if accepted {
            METHOD_NO_AUTH
        } else {
            METHOD_NO_ACCEPTABLE
        },
    ];
    assert(v@ =~= seq![
        SOCKS5_VERSION,
        if accepted {
            METHOD_NO_AUTH
        } else {
            METHOD_NO_ACCEPTABLE
        },
    ]);
    v
}

/// Where a connection is to go.
#[derive(Debug, Clone, PartialEq, Eq)]
pub enum Destination {
    /// The four bytes of an IPv4 address.
    Ipv4(Vec<u8>),
    Domain(String),
    /// The sixteen bytes of an IPv6 address.
    Ipv6(Vec<u8>),
}

/// What a `Destination` says.
pub enum DestinationView {
    Ipv4(Seq<u8>),
    Domain(Seq<char>),
    Ipv6(Seq<u8>),
}

impl View for Destination {
    type V = DestinationView;

    open spec fn view(&self) -> DestinationView {
        match self {
            Destination::Ipv4(b) => DestinationView::Ipv4(b@),
            Destination::Domain(s) => DestinationView::Domain(s@),
            Destination::Ipv6(b) => DestinationView::Ipv6(b@),
        }
    }
}

/// The type of an address.
pub open spec fn address_type(d: DestinationView) -> u8 {
    match d {
        DestinationView::Ipv4(_) => ATYP_IPV4,
        DestinationView::Domain(_) => ATYP_DOMAIN,
        DestinationView::Ipv6(_) => ATYP_IPV6,
    }
}

/// The bytes of an address; a domain name is preceded by its length.
pub open spec fn address_bytes(d: DestinationView) -> Seq<u8> {
    match d {
        DestinationView::Ipv4(b) => b,
        DestinationView::Domain(s) => seq![encode_utf8(s).len() as u8] + encode_utf8(s),
        DestinationView::Ipv6(b) => b,
    }
}

/// The address can be written.
pub open spec fn address_fits(d: DestinationView) -> bool {
    match d {
        DestinationView::Ipv4(b) => b.len() == 4,
        DestinationView::Domain(s) => encode_utf8(s).len() <= 255,
        DestinationView::Ipv6(b) => b.len() == 16,
    }
}

impl Destination {
    /// The type of the address.
    pub fn atyp(&self) -> (r: u8)
        ensures
            r == address_type(self@),
    {
        match self {
            Destination::Ipv4(_) => ATYP_IPV4,
            Destination::Domain(_) => ATYP_DOMAIN,
            Destination::Ipv6(_) => ATYP_IPV6,
        }
    }

    /// The bytes of the address.
    pub fn octets(&self) -> (r: Vec<u8>)
        requires
            address_fits(self@),
        ensures
            r@ == address_bytes(self@),
    {
        match self {
            Destination::Ipv4(b) => b.clone(),
            Destination::Ipv6(b) => b.clone(),
            Destination::Domain(s) => {
                let bytes = s.as_str().as_bytes();
                let mut v: Vec<u8> = Vec::new();
                v.push(bytes.len() as u8);
                v.extend_from_slice(bytes);
                assert(v@ =~= address_bytes(self@));
                v
            },
        }
    }
}

/// What the client asks for.
#[derive(Debug, Clone, PartialEq, Eq)]
pub struct Request {
    pub command: u8,
    pub destination: Destination,
    pub port: u16,
}

/// What the client's request comes to.
#[derive(Debug, Clone, PartialEq, Eq)]
pub enum RequestRead {
    /// More bytes are needed.
    NeedMore,
    /// The stream fails.
    Failed(Socks5Error),
    /// The request; so many bytes were it.
    Done { request: Request, consumed: usize },
}

/// The bytes of a request.
pub open spec fn request_bytes(command: u8, d: DestinationView, port: u16) -> Seq<u8> {
    seq![SOCKS5_VERSION, command, 0u8, address_type(d)] + address_bytes(d) + varint::be_bytes(
        port as nat,
        2,
    )
}

/// The address of the given type at the head of a byte string, and its length.
pub open spec fn take_address(atyp: u8, s: Seq<u8>) -> Option<(Seq<u8>, nat)> {
    if atyp == ATYP_DOMAIN {
        if s.len() < 1 || s.len() < 1 + s[0] {
            None
        } else {
            Some((s.subrange(1, 1 + s[0]), (1 + s[0]) as nat))
        }
    } else {
        let n: int = if atyp == ATYP_IPV4 {
            4
        } else {
            16
        };
        if s.len() < n {
            None
        } else {
            Some((s.subrange(0, n), n as nat))
        }
    }
}

/// The address that the bytes of the given type stand for.
pub open spec fn destination_of(atyp: u8, bytes: Seq<u8>) -> DestinationView {
    if atyp == ATYP_IPV4 {
        DestinationView::Ipv4(bytes)
    } else if atyp == ATYP_DOMAIN {
        DestinationView::Domain(decode_utf8(bytes))
    } else {
        DestinationView::Ipv6(bytes)
    }
}

/// What a request comes to: version, command, a reserved byte, the type of the
/// address, the address, the port.
pub open spec fn reads_request(data: Seq<u8>, r: RequestRead) -> bool {
    if data.len() == 0 {
        r == RequestRead::NeedMore
    } else if data[0] != SOCKS5_VERSION {
        r == RequestRead::Failed(Socks5Error::UnsupportedRequestVersion { version: data[0] })
    } else if data.len() < 4 {
        r == RequestRead::NeedMore
    } else if data[3] != ATYP_IPV4 && data[3] != ATYP_DOMAIN && data[3] != ATYP_IPV6 {
        r == RequestRead::Failed(Socks5Error::UnsupportedAddressType { atyp: data[3] })
    } else {
        match take_address(data[3], data.subrange(4, data.len() as int)) {
            None => r == RequestRead::NeedMore,
            Some((bytes, n)) => if data[3] == ATYP_DOMAIN && !valid_utf8(bytes) {
                r matches RequestRead::Failed(Socks5Error::InvalidDomain { message }) && message@
                    == crate::outside::utf8_error_text(bytes)
            } else if data.len() < 4 + n + 2 {
                r == RequestRead::NeedMore
            } else {
                &&& r matches RequestRead::Done { request, consumed }
                &&& request.command == data[1]
                &&& request.destination@ == destination_of(data[3], bytes)
                &&& request.port == varint::be_value(data.subrange(4 + n as int, 4 + n as int + 2))
                &&& consumed == 4 + n + 2
            },
        }
    }
}

proof fn lemma_port_value(s: Seq<u8>)
    requires
        s.len() == 2,
    ensures
        varint::be_value(s) == s[0] * 256 + s[1],
{
    reveal_with_fuel(varint::be_value, 3);
    assert(s.drop_last().drop_last() =~= Seq::<u8>::empty());
}

/// Reads the client's request.
pub fn read_request(data: &[u8]) -> (r: RequestRead)
    ensures
        reads_request(data@, r),
{
    if data.len() == 0 {
        return RequestRead::NeedMore;
    }
    if data[0] != SOCKS5_VERSION {
        return RequestRead::Failed(Socks5Error::UnsupportedRequestVersion { version: data[0] });
    }
    if data.len() < 4 {
        return RequestRead::NeedMore;
    }
    let command: u8 = data[1];
    let atyp: u8 = data[3];
    let ghost rest = data@.subrange(4, data@.len() as int);
    let (from, to): (usize, usize) = if atyp == ATYP_IPV4 {
        (4, 8)
    } else if atyp == ATYP_IPV6 {
        (4, 20)
    } else if atyp == ATYP_DOMAIN {
        if data.len() < 5 {
            return RequestRead::NeedMore;
        }
        assert(rest[0] == data@[4]);
        (5, 5 + data[4] as usize)
    } else {
        return RequestRead::Failed(Socks5Error::UnsupportedAddressType { atyp });
    };
    if data.len() < to {
        return RequestRead::NeedMore;
    }
    let bytes = slice_to_vec(slice_subrange(data, from, to));
    proof {
        assert(bytes@ =~= rest.subrange(from - 4, to - 4));
    }
    let destination = if atyp == ATYP_IPV4 {
        Destination::Ipv4(bytes)
    } else if atyp == ATYP_IPV6 {
        Destination::Ipv6(bytes)
    } else {
        match string_from_utf8(bytes) {
            Ok(s) => Destination::Domain(s),
            Err(message) => return RequestRead::Failed(Socks5Error::InvalidDomain { message }),
        }
    };
    if data.len() - to < 2 {
        return RequestRead::NeedMore;
    }
    let port: u16 = data[to] as u16 * 256 + data[to + 1] as u16;
    proof {
        lemma_port_value(data@.subrange(to as int, to + 2));
    }
    RequestRead::Done { request: Request { command, destination, port }, consumed: to + 2 }
}

/// A written request is read back, and what followed it is left.
pub proof fn lemma_request_roundtrip(
    command: u8,
    d: DestinationView,
    port: u16,
    rest: Seq<u8>,
    r: RequestRead,
)
    requires
        address_fits(d),
        reads_request(request_bytes(command, d, port) + rest, r),
    ensures
        r matches RequestRead::Done { request, consumed } && request.command == command
            && request.destination@ == d && request.port == port && consumed == request_bytes(
            command,
            d,
            port,
        ).len(),
{
    let data = request_bytes(command, d, port) + rest;
    let tail = data.subrange(4, data.len() as int);
    let addr = address_bytes(d);
    varint::lemma_be_bytes_len(port as nat, 2);
    reveal_with_fuel(varint::pow256, 3);
    varint::lemma_be_value_of_bytes(port as nat, 2);
    assert(tail =~= addr + (varint::be_bytes(port as nat, 2) + rest));
    let n = addr.len();
    assert(data.subrange(4 + n as int, 4 + n as int + 2) =~= varint::be_bytes(port as nat, 2));
    match d {
        DestinationView::Ipv4(b) => {
            assert(tail.subrange(0, 4) =~= b);
        },
        DestinationView::Ipv6(b) => {
            assert(tail.subrange(0, 16) =~= b);
        },
        DestinationView::Domain(s) => {
            let bytes = encode_utf8(s);
            assert(tail[0] == bytes.len() as u8);
            assert(tail.subrange(1, 1 + tail[0]) =~= bytes);
            encode_utf8_valid_utf8(s);
            encode_utf8_decode_utf8(s);
        },
    }
}

/// The bytes of an answer to a request.
pub open spec fn reply_bytes(rep: u8, atyp: u8, address: Seq<u8>, port: u16) -> Seq<u8> {
    seq![SOCKS5_VERSION, rep, 0u8, atyp] + address + varint::be_bytes(port as nat, 2)
}

/// The answer to a request, with the given address and port.
pub fn reply(rep: u8, atyp: u8, address: &[u8], port: u16) -> (r: Vec<u8>)
    ensures
        r@ == reply_bytes(rep, atyp, address@, port),
{
    let mut v: Vec<u8> = Vec::new();
    v.push(SOCKS5_VERSION);
    v.push(rep);
    v.push(0);
    v.push(atyp);
    v.extend_from_slice(address);
    push_be(port as u64, 2, &mut v);
    assert(v@ =~= reply_bytes(rep, atyp, address@, port));
    v
}

/// What to do with a request.
#[derive(Debug, Clone, PartialEq, Eq)]
pub enum RequestStep {
    /// Answer with these bytes and close the stream.
    Refuse(Vec<u8>),
    /// Connect to where the request says.
    Connect,
}

/// Decides on a request: only connections are supported.
pub fn decide_request(request: &Request) -> (r: RequestStep)
    requires
        address_fits(request.destination@),
    ensures
        if request.command == CMD_CONNECT {
            r == RequestStep::Connect
        } else {
            r matches RequestStep::Refuse(bytes) && bytes@ == reply_bytes(
                REP_COMMAND_NOT_SUPPORTED,
                address_type(request.destination@),
                address_bytes(request.destination@),
                request.port,
            )
        },
{
    if request.command == CMD_CONNECT {
        RequestStep::Connect
    } else {
        let address = request.destination.octets();
        RequestStep::Refuse(
            reply(
                REP_COMMAND_NOT_SUPPORTED,
                request.destination.atyp(),
                address.as_slice(),
                request.port,
            ),
        )
    }
}

/// A request that was read has an address that can be written.
pub proof fn lemma_read_address_fits(data: Seq<u8>, r: RequestRead)
    requires
        reads_request(data, r),
    ensures
        r matches RequestRead::Done { request, consumed } ==> address_fits(request.destination@),
{
    if r is Done {
        let s = data.subrange(4, data.len() as int);
        if data[3] == ATYP_DOMAIN {
            let bytes = s.subrange(1, 1 + s[0]);
            decode_utf8_encode_utf8(bytes);
        }
    }
}

/// The answer where the connection could not be made: the address and port of the
/// request.
pub fn refused_reply(request: &Request) -> (r: Vec<u8>)
    requires
        address_fits(request.destination@),
    ensures
        r@ == reply_bytes(
            REP_CONNECTION_REFUSED,
            address_type(request.destination@),
            address_bytes(request.destination@),
            request.port,
        ),
{
    let address = request.destination.octets();
    reply(REP_CONNECTION_REFUSED, request.destination.atyp(), address.as_slice(), request.port)
}

/// The answer where the connection was made: the address and port of this end of it,
/// four bytes of an IPv4 address or sixteen of an IPv6 one.
pub fn connected_reply(local: &[u8], port: u16) -> (r: Vec<u8>)
    ensures
        r@ == reply_bytes(
            REP_SUCCEEDED,
            if local@.len() == 4 {
                ATYP_IPV4
            } else {
                ATYP_IPV6
            },
            local@,
            port,
        ),
{
    let atyp: u8 = if local.len() == 4 {
        ATYP_IPV4
    } else {
        ATYP_IPV6
    };
    reply(REP_SUCCEEDED, atyp, local, port)
}

/// How far the handshake has come.
#[derive(Debug, Clone, Copy, PartialEq, Eq, Structural)]
pub enum Socks5Phase {
    /// The client is to greet.
    Greeting,
    /// The client is to ask.
    Request,
}

/// What to do next in the handshake.
#[derive(Debug, Clone, PartialEq, Eq)]
pub enum Socks5Step {
    /// Read more.
    NeedMore,
    /// End the stream with an error.
    Fail(Socks5Error),
    /// Write these bytes and close the stream.
    Close(Vec<u8>),
    /// Write these bytes and go on with the request; so many bytes were read.
    Greeted { reply: Vec<u8>, consumed: usize },
    /// Make the connection; so many bytes were read.
    Connect { request: Request, consumed: usize },
}

/// What to do after the client has sent the given bytes.
pub open spec fn socks5_steps(phase: Socks5Phase, data: Seq<u8>, r: Socks5Step) -> bool {
    match phase {
        Socks5Phase::Greeting => match greeting_of(data) {
            Greeting::NeedMore => r == Socks5Step::NeedMore,
            Greeting::Failed(e) => r == Socks5Step::Fail(e),
            Greeting::Refused { consumed } => r matches Socks5Step::Close(bytes) && bytes@ == seq![
                SOCKS5_VERSION,
                METHOD_NO_ACCEPTABLE,
            ],
            Greeting::Accepted { consumed } => r matches Socks5Step::Greeted { reply, consumed: n }
                && reply@ == seq![SOCKS5_VERSION, METHOD_NO_AUTH] && n == consumed,
        },
        Socks5Phase::Request => exists|read: RequestRead| #[trigger]
            reads_request(data, read) && match read {
                RequestRead::NeedMore => r == Socks5Step::NeedMore,
                RequestRead::Failed(e) => r == Socks5Step::Fail(e),
                RequestRead::Done { request, consumed } => if request.command == CMD_CONNECT {
                    r == (Socks5Step::Connect { request, consumed })
                } else {
                    r matches Socks5Step::Close(bytes) && bytes@ == reply_bytes(
                        REP_COMMAND_NOT_SUPPORTED,
                        address_type(request.destination@),
                        address_bytes(request.destination@),
                        request.port,
                    )
                },
            },
    }
}

/// Takes the handshake one step further.
pub fn handle_socks5(phase: Socks5Phase, data: &[u8]) -> (r: Socks5Step)
    ensures
        socks5_steps(phase, data@, r),
{
    match phase {
        Socks5Phase::Greeting => match read_greeting(data) {
            Greeting::NeedMore => Socks5Step::NeedMore,
            Greeting::Failed(e) => Socks5Step::Fail(e),
            Greeting::Refused { consumed: _ } => Socks5Step::Close(greeting_reply(false)),
            Greeting::Accepted { consumed } => Socks5Step::Greeted {
                reply: greeting_reply(true),
                consumed,
            },
        },
        Socks5Phase::Request => {
            let read = read_request(data);
            let ghost found = read;
            proof {
                lemma_read_address_fits(data@, found);
                assert(reads_request(data@, found));
            }
            match read {
                RequestRead::NeedMore => Socks5Step::NeedMore,
                RequestRead::Failed(e) => Socks5Step::Fail(e),
                RequestRead::Done { request, consumed } => match decide_request(&request) {
                    RequestStep::Refuse(bytes) => Socks5Step::Close(bytes),
                    RequestStep::Connect => Socks5Step::Connect { request, consumed },
                },
            }
        },
    }
}

} // verus!
