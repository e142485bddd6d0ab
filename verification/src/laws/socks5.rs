//! The SOCKS5 handshake: what the client offers and asks for, and what it is told.

use crate::proto::varint;
use crate::server::forward::socks5;
use crate::server::forward::socks5::{
    Destination, DestinationView, Greeting, Request, RequestRead, RequestStep, Socks5Error,
    Socks5Phase, Socks5Step,
};
use vstd::prelude::*;
use vstd::utf8::*;

verus! {

/// An address as it goes over the wire, after the byte for its type.
pub open spec fn address(d: DestinationView) -> Seq<u8> {
    match d {
        DestinationView::Ipv4(b) => seq![1u8] + b,
        DestinationView::Domain(s) => seq![3u8, encode_utf8(s).len() as u8] + encode_utf8(s),
        DestinationView::Ipv6(b) => seq![4u8] + b,
    }
}

/// A port as it goes over the wire.
pub open spec fn port_octets(port: u16) -> Seq<u8> {
    seq![(port / 256) as u8, (port % 256) as u8]
}

/// The address is one: four bytes, sixteen, or a name of at most 255.
pub open spec fn is_address(d: DestinationView) -> bool {
    match d {
        DestinationView::Ipv4(b) => b.len() == 4,
        DestinationView::Domain(s) => encode_utf8(s).len() <= 255,
        DestinationView::Ipv6(b) => b.len() == 16,
    }
}

/// A request or an answer: version, command or outcome, zero, address, port.
pub open spec fn frame(what: u8, d: DestinationView, port: u16) -> Seq<u8> {
    seq![5u8, what, 0u8] + address(d) + port_octets(port)
}

proof fn lemma_port(port: u16)
    ensures
        varint::be_bytes(port as nat, 2) == port_octets(port),
{
    reveal_with_fuel(varint::be_bytes, 3);
    assert(varint::be_bytes(port as nat, 2) =~= port_octets(port));
}

proof fn lemma_request(what: u8, d: DestinationView, port: u16)
    ensures
        socks5::request_bytes(what, d, port) == frame(what, d, port),
{
    lemma_port(port);
    assert(socks5::request_bytes(what, d, port) =~= frame(what, d, port));
}

proof fn lemma_reply(what: u8, d: DestinationView, port: u16)
    ensures
        socks5::reply_bytes(what, socks5::address_type(d), socks5::address_bytes(d), port) == frame(
            what,
            d,
            port,
        ),
{
    lemma_port(port);
    assert(socks5::reply_bytes(what, socks5::address_type(d), socks5::address_bytes(d), port)
        =~= frame(what, d, port));
}

proof fn lemma_offered(data: Seq<u8>, methods: Seq<u8>, rest: Seq<u8>)
    requires
        methods.len() <= 255,
        data == seq![5u8, methods.len() as u8] + methods + rest,
    ensures
        data.len() >= 2 + methods.len(),
        data[0] == 5,
        data[1] == methods.len(),
        data.subrange(2, 2 + data[1]) == methods,
{
    assert(data.subrange(2, 2 + data[1]) =~= methods);
}

/// A client that offers to do without authentication, at whatever place among its methods,
/// is taken up on it; one that does not is refused. The greeting and nothing else is read.
pub proof fn law_greeting_answered(
    data: &[u8],
    methods: Seq<u8>,
    rest: Seq<u8>,
    r: Socks5Step,
    g: Greeting,
)
    requires
        call_ensures(socks5::handle_socks5, (Socks5Phase::Greeting, data), r),
        call_ensures(socks5::read_greeting, (data,), g),
        methods.len() <= 255,
        data@ == seq![5u8, methods.len() as u8] + methods + rest,
    ensures
        methods.contains(0u8) ==> g == (Greeting::Accepted {
            consumed: (2 + methods.len()) as usize,
        }) && (r matches Socks5Step::Greeted { reply, consumed } && reply@ == seq![5u8, 0u8]
            && consumed == 2 + methods.len()),
        !methods.contains(0u8) ==> g == (Greeting::Refused {
            consumed: (2 + methods.len()) as usize,
        }) && (r matches Socks5Step::Close(reply) && reply@ == seq![5u8, 0xffu8]),
{
    lemma_offered(data@, methods, rest);
    if let Socks5Step::Greeted { reply, consumed } = r {
        assert(reply@ =~= seq![5u8, 0u8]);
    }
    if let Socks5Step::Close(reply) = r {
        assert(reply@ =~= seq![5u8, 0xffu8]);
    }
}

/// A greeting or a request of another version fails, with that version.
pub proof fn law_other_version_fails(
    phase: Socks5Phase,
    data: &[u8],
    r: Socks5Step,
    g: Greeting,
    q: RequestRead,
)
    requires
        call_ensures(socks5::handle_socks5, (phase, data), r),
        call_ensures(socks5::read_greeting, (data,), g),
        call_ensures(socks5::read_request, (data,), q),
        data@.len() > 0,
        data@[0] != 5,
    ensures
        g == Greeting::Failed(Socks5Error::UnsupportedVersion { version: data@[0] }),
        q == RequestRead::Failed(Socks5Error::UnsupportedRequestVersion { version: data@[0] }),
        phase == Socks5Phase::Greeting ==> r == Socks5Step::Fail(
            Socks5Error::UnsupportedVersion { version: data@[0] },
        ),
        phase == Socks5Phase::Request ==> r == Socks5Step::Fail(
            Socks5Error::UnsupportedRequestVersion { version: data@[0] },
        ),
{
}

/// A greeting of which only a part has come waits for the rest.
pub proof fn law_greeting_in_part(
    data: &[u8],
    methods: Seq<u8>,
    n: int,
    r: Socks5Step,
    g: Greeting,
)
    requires
        call_ensures(socks5::handle_socks5, (Socks5Phase::Greeting, data), r),
        call_ensures(socks5::read_greeting, (data,), g),
        methods.len() <= 255,
        0 <= n < 2 + methods.len(),
        data@ == (seq![5u8, methods.len() as u8] + methods).take(n),
    ensures
        g == Greeting::NeedMore,
        r == Socks5Step::NeedMore,
{
}

/// A request to connect leads to a connection to the host and port that it names; one for
/// anything else is told that it is not supported.
pub proof fn law_request_served(
    data: &[u8],
    command: u8,
    d: DestinationView,
    port: u16,
    rest: Seq<u8>,
    r: Socks5Step,
    q: RequestRead,
)
    requires
        call_ensures(socks5::handle_socks5, (Socks5Phase::Request, data), r),
        call_ensures(socks5::read_request, (data,), q),
        is_address(d),
        data@ == frame(command, d, port) + rest,
    ensures
        q matches RequestRead::Done { request, consumed } && request.command == command
            && request.destination@ == d && request.port == port && consumed == data@.len()
            - rest.len(),
        command == 1 ==> (r matches Socks5Step::Connect { request, consumed }
            && request.destination@ == d && request.port == port && consumed == data@.len()
            - rest.len()),
        command != 1 ==> (r matches Socks5Step::Close(reply) && reply@ == frame(7, d, port)),
{
    lemma_request(command, d, port);
    lemma_reply(7, d, port);
    socks5::lemma_request_roundtrip(command, d, port, rest, q);
    let read = choose|read: RequestRead| #[trigger]
        socks5::reads_request(data@, read) && match read {
            RequestRead::NeedMore => r == Socks5Step::NeedMore,
            RequestRead::Failed(e) => r == Socks5Step::Fail(e),
            RequestRead::Done { request, consumed } => if request.command == socks5::CMD_CONNECT {
                r == (Socks5Step::Connect { request, consumed })
            } else {
                r matches Socks5Step::Close(bytes) && bytes@ == socks5::reply_bytes(
                    socks5::REP_COMMAND_NOT_SUPPORTED,
                    socks5::address_type(request.destination@),
                    socks5::address_bytes(request.destination@),
                    request.port,
                )
            },
        };
    socks5::lemma_request_roundtrip(command, d, port, rest, read);
}

/// A request of which only a part has come waits for the rest.
pub proof fn law_request_in_part(
    data: &[u8],
    command: u8,
    d: DestinationView,
    port: u16,
    n: int,
    r: Socks5Step,
    q: RequestRead,
)
    requires
        call_ensures(socks5::handle_socks5, (Socks5Phase::Request, data), r),
        call_ensures(socks5::read_request, (data,), q),
        is_address(d),
        0 <= n < frame(command, d, port).len(),
        data@ == frame(command, d, port).take(n),
    ensures
        q == RequestRead::NeedMore,
        r == Socks5Step::NeedMore,
{
    let full = frame(command, d, port);
    if n > 3 {
        let tail = data@.subrange(4, n);
        if let DestinationView::Domain(s) = d {
            encode_utf8_valid_utf8(s);
            if n > 4 {
                assert(tail[0] == full[4]);
                if tail.len() >= 1 + tail[0] {
                    assert(tail.subrange(1, 1 + tail[0]) =~= encode_utf8(s));
                }
            }
        }
    }
}

/// An address of no known type fails.
pub proof fn law_unknown_address_fails(data: &[u8], r: Socks5Step, q: RequestRead)
    requires
        call_ensures(socks5::handle_socks5, (Socks5Phase::Request, data), r),
        call_ensures(socks5::read_request, (data,), q),
        data@.len() >= 4,
        data@[0] == 5,
        data@[3] != 1 && data@[3] != 3 && data@[3] != 4,
    ensures
        q == RequestRead::Failed(Socks5Error::UnsupportedAddressType { atyp: data@[3] }),
        r == Socks5Step::Fail(Socks5Error::UnsupportedAddressType { atyp: data@[3] }),
{
}

/// A name that is no text fails.
pub proof fn law_bad_name_fails(data: &[u8], command: u8, name: Seq<u8>, rest: Seq<u8>,
    r: Socks5Step, q: RequestRead)
    requires
        call_ensures(socks5::handle_socks5, (Socks5Phase::Request, data), r),
        call_ensures(socks5::read_request, (data,), q),
        name.len() <= 255,
        !valid_utf8(name),
        data@ == seq![5u8, command, 0u8, 3u8, name.len() as u8] + name + rest,
    ensures
        q matches RequestRead::Failed(e) && e is InvalidDomain,
        r matches Socks5Step::Fail(e) && e is InvalidDomain,
{
    let tail = data@.subrange(4, data@.len() as int);
    assert(tail[0] == name.len());
    assert(tail.subrange(1, 1 + tail[0]) =~= name);
}

/// Only connections are made: whatever else is asked for is answered so.
pub proof fn law_request_decided(q: &Request, r: RequestStep)
    requires
        call_ensures(socks5::decide_request, (q,), r),
    ensures
        q.command == 1 ==> r == RequestStep::Connect,
        q.command != 1 ==> (r matches RequestStep::Refuse(reply) && reply@ == frame(
            7,
            q.destination@,
            q.port,
        )),
{
    lemma_reply(7, q.destination@, q.port);
}

/// The outcome of a connection is told as it is: where it failed, with what was asked for,
/// and where it was made, with this end of it.
pub proof fn law_outcome_told(
    q: &Request,
    failed: Vec<u8>,
    local: &[u8],
    port: u16,
    made: Vec<u8>,
)
    requires
        call_ensures(socks5::refused_reply, (q,), failed),
        call_ensures(socks5::connected_reply, (local, port), made),
    ensures
        failed@ == frame(5, q.destination@, q.port),
        local@.len() == 4 ==> made@ == frame(0, DestinationView::Ipv4(local@), port),
        local@.len() == 16 ==> made@ == frame(0, DestinationView::Ipv6(local@), port),
{
    lemma_reply(5, q.destination@, q.port);
    lemma_reply(0, DestinationView::Ipv4(local@), port);
    lemma_reply(0, DestinationView::Ipv6(local@), port);
}

/// An address is written as it goes over the wire, and an answer likewise.
pub proof fn law_address_written(
    d: &Destination,
    atyp: u8,
    octets: Vec<u8>,
    what: u8,
    bytes: &[u8],
    port: u16,
    r: Vec<u8>,
    accepted: bool,
    told: Vec<u8>,
)
    requires
        call_ensures(Destination::atyp, (d,), atyp),
        call_ensures(Destination::octets, (d,), octets),
        bytes@ == octets@,
        call_ensures(socks5::reply, (what, atyp, bytes, port), r),
        call_ensures(socks5::greeting_reply, (accepted,), told),
    ensures
        seq![atyp] + octets@ == address(d@),
        r@ == frame(what, d@, port),
        told@.len() == 2 && told@[0] == 5 && (told@[1] == 0 <==> accepted) && (told@[1] == 0xff
            <==> !accepted),
{
    lemma_reply(what, d@, port);
    assert(seq![atyp] + octets@ =~= address(d@));
}

} // verus!
