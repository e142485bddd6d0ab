//! How requests and messages stand on a stream, byte by byte.

use crate::proto::varint;
use crate::proto::varint::VarInt;
use crate::proto::wire;
use crate::proto::wire::{
    DirectTcpRequest, DirectStreamlocalRequest, TcpipForwardRequest, TcpipForwardReply,
    StreamlocalForwardRequest, ForwardedTcpipRequest, ForwardedStreamlocalRequest, PtyRequest,
    WindowChangeRequest, ExecRequest, SubsystemRequest, SignalRequest, ExitStatusRequest,
    ExitSignalRequest, WireError, WireField,
};
use vstd::prelude::*;
use vstd::string::*;
use vstd::utf8::*;

verus! {

/// A number in as few bytes as it takes: one, two, four or eight, the most significant
/// first, with which of these in the two top bits.
pub open spec fn number(n: nat) -> Seq<u8> {
    if n < 0x40 {
        seq![n as u8]
    } else if n < 0x4000 {
        seq![(0x40 + n / 0x100) as u8, (n % 0x100) as u8]
    } else if n < 0x4000_0000 {
        seq![
            (0x80 + n / 0x100_0000) as u8,
            (n / 0x1_0000 % 0x100) as u8,
            (n / 0x100 % 0x100) as u8,
            (n % 0x100) as u8,
        ]
    } else {
        seq![
            (0xc0 + n / 0x100_0000_0000_0000) as u8,
            (n / 0x1_0000_0000_0000 % 0x100) as u8,
            (n / 0x100_0000_0000 % 0x100) as u8,
            (n / 0x1_0000_0000 % 0x100) as u8,
            (n / 0x100_0000 % 0x100) as u8,
            (n / 0x1_0000 % 0x100) as u8,
            (n / 0x100 % 0x100) as u8,
            (n % 0x100) as u8,
        ]
    }
}

/// A byte string behind its length.
pub open spec fn octets(b: Seq<u8>) -> Seq<u8> {
    number(b.len()) + b
}

/// A text behind the length of its UTF-8.
pub open spec fn text(s: Seq<char>) -> Seq<u8> {
    octets(encode_utf8(s))
}

/// A flag: a byte that is one or zero.
pub open spec fn flag(b: bool) -> Seq<u8> {
    seq![if b {
        1u8
    } else {
        0u8
    }]
}

/// The text is not too long to be read.
pub open spec fn readable(s: Seq<char>) -> bool {
    encode_utf8(s).len() <= 0x10_0000
}

/// The numbers below this one can be written.
pub open spec fn can_be_written(n: nat) -> bool {
    n < 0x4000_0000_0000_0000
}

/// A number is laid out so.
pub proof fn lemma_number(n: nat)
    requires
        can_be_written(n),
    ensures
        varint::varint_bytes(n) == number(n),
{
    reveal_with_fuel(varint::be_bytes, 9);
    assert(n / 0x100 / 0x100 == n / 0x1_0000);
    assert(n / 0x1_0000 / 0x100 == n / 0x100_0000);
    assert(n / 0x100_0000 / 0x100 == n / 0x1_0000_0000);
    assert(n / 0x1_0000_0000 / 0x100 == n / 0x100_0000_0000);
    assert(n / 0x100_0000_0000 / 0x100 == n / 0x1_0000_0000_0000);
    assert(n / 0x1_0000_0000_0000 / 0x100 == n / 0x100_0000_0000_0000);
    assert(varint::varint_bytes(n) =~= number(n));
}

/// A field is laid out so.
pub proof fn lemma_field(f: WireField)
    requires
        wire::field_fits(f),
    ensures
        wire::field_bytes(f) == match f {
            WireField::Text(s) => text(s),
            WireField::Octets(b) => octets(b),
            WireField::Number(n) => number(n),
            WireField::Flag(b) => flag(b),
        },
{
    match f {
        WireField::Text(s) => {
            lemma_number(encode_utf8(s).len());
        },
        WireField::Octets(b) => {
            lemma_number(b.len());
        },
        WireField::Number(n) => {
            lemma_number(n);
        },
        WireField::Flag(b) => {},
    }
}

/// A number is written in its own bytes, behind what was written before.
pub proof fn law_number_written(n: VarInt, buf: &mut Vec<u8>, r: ())
    requires
        call_ensures(varint::encode_varint_sync, (n, buf), r),
        n@ < 0x4000_0000_0000_0000,
    ensures
        final(buf)@ == old(buf)@ + number(n@),
{
    lemma_number(n@);
}

/// A number is read from its own bytes, whatever follows them.
pub proof fn law_number_read(data: &[u8], n: nat, rest: Seq<u8>, r: Option<(VarInt, usize)>)
    requires
        call_ensures(varint::decode_varint_sync, (data,), r),
        can_be_written(n),
        data@ == number(n) + rest,
    ensures
        r matches Some((v, taken)) && v@ == n && taken == number(n).len(),
{
    lemma_number(n);
    varint::lemma_varint_roundtrip(n, rest);
    let (v, taken) = r->0;
    assert(data@.subrange(taken as int, data@.len() as int).len() == rest.len());
}

/// A number is read only where all its bytes are there, and it takes no more of them than
/// its first byte says.
pub proof fn law_number_read_whole(data: &[u8], r: Option<(VarInt, usize)>)
    requires
        call_ensures(varint::decode_varint_sync, (data,), r),
    ensures
        r is None <==> data@.len() == 0 || data@.len() < (if data@[0] < 0x40 {
            1nat
        } else if data@[0] < 0x80 {
            2
        } else if data@[0] < 0xc0 {
            4
        } else {
            8
        }),
        r matches Some((v, taken)) ==> taken == (if data@[0] < 0x40 {
            1nat
        } else if data@[0] < 0x80 {
            2
        } else if data@[0] < 0xc0 {
            4
        } else {
            8
        }),
{
    if let Some((v, taken)) = r {
        let rest = data@.subrange(taken as int, data@.len() as int);
        let taken_out = varint::take_varint(data@)->0;
        assert(rest == taken_out.1);
    }
}

/// What a `DirectTcpRequest` is written as.
pub proof fn law_direct_tcp_request_written(q: &DirectTcpRequest, r: Option<Vec<u8>>)
    requires
        call_ensures(DirectTcpRequest::encode, (q,), r),
        encode_utf8(q.dest_host@).len() < 0x4000_0000_0000_0000,
        can_be_written(q.dest_port as nat),
        encode_utf8(q.originator_host@).len() < 0x4000_0000_0000_0000,
        can_be_written(q.originator_port as nat),
    ensures
        r matches Some(b) && b@ == text(q.dest_host@) + number(q.dest_port as nat)
            + text(q.originator_host@) + number(q.originator_port as nat),
{
    let fs = q.fields();
    reveal_with_fuel(wire::fields_bytes, 5);
    assert(wire::field_fits(fs[0]));
    lemma_field(fs[0]);
    assert(wire::field_fits(fs[1]));
    lemma_field(fs[1]);
    assert(wire::field_fits(fs[2]));
    lemma_field(fs[2]);
    assert(wire::field_fits(fs[3]));
    lemma_field(fs[3]);
    assert(wire::all_fit(fs));
    assert(wire::fields_bytes(fs, 0) =~= text(q.dest_host@) + number(q.dest_port as nat)
        + text(q.originator_host@) + number(q.originator_port as nat));
}

/// What a `DirectTcpRequest` is read from, whatever follows it.
pub proof fn law_direct_tcp_request_read(
    data: &[u8],
    dest_host: Seq<char>,
    dest_port: nat,
    originator_host: Seq<char>,
    originator_port: nat,
    rest: Seq<u8>,
    r: Result<(DirectTcpRequest, usize), WireError>,
)
    requires
        call_ensures(DirectTcpRequest::decode, (data,), r),
        readable(dest_host),
        can_be_written(dest_port),
        readable(originator_host),
        can_be_written(originator_port),
        data@ == text(dest_host) + number(dest_port) + text(originator_host)
            + number(originator_port) + rest,
    ensures
        r matches Ok((q, n)) && q.dest_host@ == dest_host && q.dest_port == dest_port
            && q.originator_host@ == originator_host && q.originator_port == originator_port
            && n == data@.len() - rest.len(),
{
    let fs = seq![WireField::Text(dest_host), WireField::Number(dest_port),
        WireField::Text(originator_host), WireField::Number(originator_port)];
    let ks = DirectTcpRequest::kinds();
    reveal_with_fuel(wire::fields_bytes, 5);
    assert(wire::field_accepted(fs[0]) && wire::is_kind(fs[0], ks[0]));
    lemma_field(fs[0]);
    assert(wire::field_accepted(fs[1]) && wire::is_kind(fs[1], ks[1]));
    lemma_field(fs[1]);
    assert(wire::field_accepted(fs[2]) && wire::is_kind(fs[2], ks[2]));
    lemma_field(fs[2]);
    assert(wire::field_accepted(fs[3]) && wire::is_kind(fs[3], ks[3]));
    lemma_field(fs[3]);
    assert(wire::fields_bytes(fs, 0) + rest =~= data@);
    wire::lemma_fields_roundtrip(fs, ks, 0, rest);
    assert(fs.subrange(0, fs.len() as int) =~= fs);
    let (q, n) = r->Ok_0;
    assert(q.fields()[0] == fs[0]);
    assert(q.fields()[1] == fs[1]);
    assert(q.fields()[2] == fs[2]);
    assert(q.fields()[3] == fs[3]);
    assert(data@.subrange(n as int, data@.len() as int).len() == rest.len());
}

/// What a `DirectStreamlocalRequest` is written as.
pub proof fn law_direct_streamlocal_request_written(q: &DirectStreamlocalRequest,
    r: Option<Vec<u8>>)
    requires
        call_ensures(DirectStreamlocalRequest::encode, (q,), r),
        encode_utf8(q.socket_path@).len() < 0x4000_0000_0000_0000,
        encode_utf8(q.reserved_string@).len() < 0x4000_0000_0000_0000,
        can_be_written(q.reserved_number as nat),
    ensures
        r matches Some(b) && b@ == text(q.socket_path@) + text(q.reserved_string@)
            + number(q.reserved_number as nat),
{
    let fs = q.fields();
    reveal_with_fuel(wire::fields_bytes, 4);
    assert(wire::field_fits(fs[0]));
    lemma_field(fs[0]);
    assert(wire::field_fits(fs[1]));
    lemma_field(fs[1]);
    assert(wire::field_fits(fs[2]));
    lemma_field(fs[2]);
    assert(wire::all_fit(fs));
    assert(wire::fields_bytes(fs, 0) =~= text(q.socket_path@) + text(q.reserved_string@)
        + number(q.reserved_number as nat));
}

/// What a `DirectStreamlocalRequest` is read from, whatever follows it.
pub proof fn law_direct_streamlocal_request_read(
    data: &[u8],
    socket_path: Seq<char>,
    reserved_string: Seq<char>,
    reserved_number: nat,
    rest: Seq<u8>,
    r: Result<(DirectStreamlocalRequest, usize), WireError>,
)
    requires
        call_ensures(DirectStreamlocalRequest::decode, (data,), r),
        readable(socket_path),
        readable(reserved_string),
        can_be_written(reserved_number),
        data@ == text(socket_path) + text(reserved_string) + number(reserved_number) + rest,
    ensures
        r matches Ok((q, n)) && q.socket_path@ == socket_path
            && q.reserved_string@ == reserved_string && q.reserved_number == reserved_number
            && n == data@.len() - rest.len(),
{
    let fs = seq![WireField::Text(socket_path), WireField::Text(reserved_string),
        WireField::Number(reserved_number)];
    let ks = DirectStreamlocalRequest::kinds();
    reveal_with_fuel(wire::fields_bytes, 4);
    assert(wire::field_accepted(fs[0]) && wire::is_kind(fs[0], ks[0]));
    lemma_field(fs[0]);
    assert(wire::field_accepted(fs[1]) && wire::is_kind(fs[1], ks[1]));
    lemma_field(fs[1]);
    assert(wire::field_accepted(fs[2]) && wire::is_kind(fs[2], ks[2]));
    lemma_field(fs[2]);
    assert(wire::fields_bytes(fs, 0) + rest =~= data@);
    wire::lemma_fields_roundtrip(fs, ks, 0, rest);
    assert(fs.subrange(0, fs.len() as int) =~= fs);
    let (q, n) = r->Ok_0;
    assert(q.fields()[0] == fs[0]);
    assert(q.fields()[1] == fs[1]);
    assert(q.fields()[2] == fs[2]);
    assert(data@.subrange(n as int, data@.len() as int).len() == rest.len());
}

/// What a `TcpipForwardRequest` is written as.
pub proof fn law_tcpip_forward_request_written(q: &TcpipForwardRequest, r: Option<Vec<u8>>)
    requires
        call_ensures(TcpipForwardRequest::encode, (q,), r),
        encode_utf8(q.bind_address@).len() < 0x4000_0000_0000_0000,
    ensures
        r matches Some(b) && b@ == text(q.bind_address@) + number(q.bind_port as nat),
{
    let fs = q.fields();
    reveal_with_fuel(wire::fields_bytes, 3);
    assert(wire::field_fits(fs[0]));
    lemma_field(fs[0]);
    assert(wire::field_fits(fs[1]));
    lemma_field(fs[1]);
    assert(wire::all_fit(fs));
    assert(wire::fields_bytes(fs, 0) =~= text(q.bind_address@) + number(q.bind_port as nat));
}

/// What a `TcpipForwardRequest` is read from, whatever follows it.
pub proof fn law_tcpip_forward_request_read(
    data: &[u8],
    bind_address: Seq<char>,
    bind_port: nat,
    rest: Seq<u8>,
    r: Result<(TcpipForwardRequest, usize), WireError>,
)
    requires
        call_ensures(TcpipForwardRequest::decode, (data,), r),
        readable(bind_address),
        bind_port <= 0xffff_ffff,
        data@ == text(bind_address) + number(bind_port) + rest,
    ensures
        r matches Ok((q, n)) && q.bind_address@ == bind_address && q.bind_port == bind_port
            && n == data@.len() - rest.len(),
{
    let fs = seq![WireField::Text(bind_address), WireField::Number(bind_port)];
    let ks = TcpipForwardRequest::kinds();
    reveal_with_fuel(wire::fields_bytes, 3);
    assert(wire::field_accepted(fs[0]) && wire::is_kind(fs[0], ks[0]));
    lemma_field(fs[0]);
    assert(wire::field_accepted(fs[1]) && wire::is_kind(fs[1], ks[1]));
    lemma_field(fs[1]);
    assert(wire::fields_bytes(fs, 0) + rest =~= data@);
    wire::lemma_fields_roundtrip(fs, ks, 0, rest);
    assert(fs.subrange(0, fs.len() as int) =~= fs);
    let (q, n) = r->Ok_0;
    assert(q.fields()[0] == fs[0]);
    assert(q.fields()[1] == fs[1]);
    assert(data@.subrange(n as int, data@.len() as int).len() == rest.len());
}

/// What a `TcpipForwardReply` is written as.
pub proof fn law_tcpip_forward_reply_written(q: &TcpipForwardReply, r: Option<Vec<u8>>)
    requires
        call_ensures(TcpipForwardReply::encode, (q,), r),
    ensures
        r matches Some(b) && b@ == number(q.allocated_port as nat),
{
    let fs = q.fields();
    reveal_with_fuel(wire::fields_bytes, 2);
    assert(wire::field_fits(fs[0]));
    lemma_field(fs[0]);
    assert(wire::all_fit(fs));
    assert(wire::fields_bytes(fs, 0) =~= number(q.allocated_port as nat));
}

/// What a `TcpipForwardReply` is read from, whatever follows it.
pub proof fn law_tcpip_forward_reply_read(
    data: &[u8],
    allocated_port: nat,
    rest: Seq<u8>,
    r: Result<(TcpipForwardReply, usize), WireError>,
)
    requires
        call_ensures(TcpipForwardReply::decode, (data,), r),
        allocated_port <= 0xffff_ffff,
        data@ == number(allocated_port) + rest,
    ensures
        r matches Ok((q, n)) && q.allocated_port == allocated_port && n == data@.len() - rest.len(),
{
    let fs = seq![WireField::Number(allocated_port)];
    let ks = TcpipForwardReply::kinds();
    reveal_with_fuel(wire::fields_bytes, 2);
    assert(wire::field_accepted(fs[0]) && wire::is_kind(fs[0], ks[0]));
    lemma_field(fs[0]);
    assert(wire::fields_bytes(fs, 0) + rest =~= data@);
    wire::lemma_fields_roundtrip(fs, ks, 0, rest);
    assert(fs.subrange(0, fs.len() as int) =~= fs);
    let (q, n) = r->Ok_0;
    assert(q.fields()[0] == fs[0]);
    assert(data@.subrange(n as int, data@.len() as int).len() == rest.len());
}

/// What a `StreamlocalForwardRequest` is written as.
pub proof fn law_streamlocal_forward_request_written(q: &StreamlocalForwardRequest,
    r: Option<Vec<u8>>)
    requires
        call_ensures(StreamlocalForwardRequest::encode, (q,), r),
        encode_utf8(q.socket_path@).len() < 0x4000_0000_0000_0000,
    ensures
        r matches Some(b) && b@ == text(q.socket_path@),
{
    let fs = q.fields();
    reveal_with_fuel(wire::fields_bytes, 2);
    assert(wire::field_fits(fs[0]));
    lemma_field(fs[0]);
    assert(wire::all_fit(fs));
    assert(wire::fields_bytes(fs, 0) =~= text(q.socket_path@));
}

/// What a `StreamlocalForwardRequest` is read from, whatever follows it.
pub proof fn law_streamlocal_forward_request_read(
    data: &[u8],
    socket_path: Seq<char>,
    rest: Seq<u8>,
    r: Result<(StreamlocalForwardRequest, usize), WireError>,
)
    requires
        call_ensures(StreamlocalForwardRequest::decode, (data,), r),
        readable(socket_path),
        data@ == text(socket_path) + rest,
    ensures
        r matches Ok((q, n)) && q.socket_path@ == socket_path && n == data@.len() - rest.len(),
{
    let fs = seq![WireField::Text(socket_path)];
    let ks = StreamlocalForwardRequest::kinds();
    reveal_with_fuel(wire::fields_bytes, 2);
    assert(wire::field_accepted(fs[0]) && wire::is_kind(fs[0], ks[0]));
    lemma_field(fs[0]);
    assert(wire::fields_bytes(fs, 0) + rest =~= data@);
    wire::lemma_fields_roundtrip(fs, ks, 0, rest);
    assert(fs.subrange(0, fs.len() as int) =~= fs);
    let (q, n) = r->Ok_0;
    assert(q.fields()[0] == fs[0]);
    assert(data@.subrange(n as int, data@.len() as int).len() == rest.len());
}

/// What a `ForwardedTcpipRequest` is written as.
pub proof fn law_forwarded_tcpip_request_written(q: &ForwardedTcpipRequest, r: Option<Vec<u8>>)
    requires
        call_ensures(ForwardedTcpipRequest::encode, (q,), r),
        encode_utf8(q.connected_address@).len() < 0x4000_0000_0000_0000,
        can_be_written(q.connected_port as nat),
        encode_utf8(q.originator_address@).len() < 0x4000_0000_0000_0000,
        can_be_written(q.originator_port as nat),
    ensures
        r matches Some(b) && b@ == text(q.connected_address@) + number(q.connected_port as nat)
            + text(q.originator_address@) + number(q.originator_port as nat),
{
    let fs = q.fields();
    reveal_with_fuel(wire::fields_bytes, 5);
    assert(wire::field_fits(fs[0]));
    lemma_field(fs[0]);
    assert(wire::field_fits(fs[1]));
    lemma_field(fs[1]);
    assert(wire::field_fits(fs[2]));
    lemma_field(fs[2]);
    assert(wire::field_fits(fs[3]));
    lemma_field(fs[3]);
    assert(wire::all_fit(fs));
    assert(wire::fields_bytes(fs, 0) =~= text(q.connected_address@)
        + number(q.connected_port as nat) + text(q.originator_address@)
        + number(q.originator_port as nat));
}

/// What a `ForwardedTcpipRequest` is read from, whatever follows it.
pub proof fn law_forwarded_tcpip_request_read(
    data: &[u8],
    connected_address: Seq<char>,
    connected_port: nat,
    originator_address: Seq<char>,
    originator_port: nat,
    rest: Seq<u8>,
    r: Result<(ForwardedTcpipRequest, usize), WireError>,
)
    requires
        call_ensures(ForwardedTcpipRequest::decode, (data,), r),
        readable(connected_address),
        can_be_written(connected_port),
        readable(originator_address),
        can_be_written(originator_port),
        data@ == text(connected_address) + number(connected_port) + text(originator_address)
            + number(originator_port) + rest,
    ensures
        r matches Ok((q, n)) && q.connected_address@ == connected_address
            && q.connected_port == connected_port && q.originator_address@ == originator_address
            && q.originator_port == originator_port && n == data@.len() - rest.len(),
{
    let fs = seq![WireField::Text(connected_address), WireField::Number(connected_port),
        WireField::Text(originator_address), WireField::Number(originator_port)];
    let ks = ForwardedTcpipRequest::kinds();
    reveal_with_fuel(wire::fields_bytes, 5);
    assert(wire::field_accepted(fs[0]) && wire::is_kind(fs[0], ks[0]));
    lemma_field(fs[0]);
    assert(wire::field_accepted(fs[1]) && wire::is_kind(fs[1], ks[1]));
    lemma_field(fs[1]);
    assert(wire::field_accepted(fs[2]) && wire::is_kind(fs[2], ks[2]));
    lemma_field(fs[2]);
    assert(wire::field_accepted(fs[3]) && wire::is_kind(fs[3], ks[3]));
    lemma_field(fs[3]);
    assert(wire::fields_bytes(fs, 0) + rest =~= data@);
    wire::lemma_fields_roundtrip(fs, ks, 0, rest);
    assert(fs.subrange(0, fs.len() as int) =~= fs);
    let (q, n) = r->Ok_0;
    assert(q.fields()[0] == fs[0]);
    assert(q.fields()[1] == fs[1]);
    assert(q.fields()[2] == fs[2]);
    assert(q.fields()[3] == fs[3]);
    assert(data@.subrange(n as int, data@.len() as int).len() == rest.len());
}

/// What a `ForwardedStreamlocalRequest` is written as.
pub proof fn law_forwarded_streamlocal_request_written(q: &ForwardedStreamlocalRequest,
    r: Option<Vec<u8>>)
    requires
        call_ensures(ForwardedStreamlocalRequest::encode, (q,), r),
        encode_utf8(q.socket_path@).len() < 0x4000_0000_0000_0000,
        encode_utf8(q.reserved@).len() < 0x4000_0000_0000_0000,
    ensures
        r matches Some(b) && b@ == text(q.socket_path@) + text(q.reserved@),
{
    let fs = q.fields();
    reveal_with_fuel(wire::fields_bytes, 3);
    assert(wire::field_fits(fs[0]));
    lemma_field(fs[0]);
    assert(wire::field_fits(fs[1]));
    lemma_field(fs[1]);
    assert(wire::all_fit(fs));
    assert(wire::fields_bytes(fs, 0) =~= text(q.socket_path@) + text(q.reserved@));
}

/// What a `ForwardedStreamlocalRequest` is read from, whatever follows it.
pub proof fn law_forwarded_streamlocal_request_read(
    data: &[u8],
    socket_path: Seq<char>,
    reserved: Seq<char>,
    rest: Seq<u8>,
    r: Result<(ForwardedStreamlocalRequest, usize), WireError>,
)
    requires
        call_ensures(ForwardedStreamlocalRequest::decode, (data,), r),
        readable(socket_path),
        readable(reserved),
        data@ == text(socket_path) + text(reserved) + rest,
    ensures
        r matches Ok((q, n)) && q.socket_path@ == socket_path && q.reserved@ == reserved
            && n == data@.len() - rest.len(),
{
    let fs = seq![WireField::Text(socket_path), WireField::Text(reserved)];
    let ks = ForwardedStreamlocalRequest::kinds();
    reveal_with_fuel(wire::fields_bytes, 3);
    assert(wire::field_accepted(fs[0]) && wire::is_kind(fs[0], ks[0]));
    lemma_field(fs[0]);
    assert(wire::field_accepted(fs[1]) && wire::is_kind(fs[1], ks[1]));
    lemma_field(fs[1]);
    assert(wire::fields_bytes(fs, 0) + rest =~= data@);
    wire::lemma_fields_roundtrip(fs, ks, 0, rest);
    assert(fs.subrange(0, fs.len() as int) =~= fs);
    let (q, n) = r->Ok_0;
    assert(q.fields()[0] == fs[0]);
    assert(q.fields()[1] == fs[1]);
    assert(data@.subrange(n as int, data@.len() as int).len() == rest.len());
}

/// What a `PtyRequest` is written as.
pub proof fn law_pty_request_written(q: &PtyRequest, r: Option<Vec<u8>>)
    requires
        call_ensures(PtyRequest::encode, (q,), r),
        encode_utf8(q.term_type@).len() < 0x4000_0000_0000_0000,
        q.terminal_modes@.len() < 0x4000_0000_0000_0000,
    ensures
        r matches Some(b) && b@ == text(q.term_type@) + number(q.width_cols as nat)
            + number(q.height_rows as nat) + number(q.width_px as nat) + number(q.height_px as nat)
            + octets(q.terminal_modes@),
{
    let fs = q.fields();
    reveal_with_fuel(wire::fields_bytes, 7);
    assert(wire::field_fits(fs[0]));
    lemma_field(fs[0]);
    assert(wire::field_fits(fs[1]));
    lemma_field(fs[1]);
    assert(wire::field_fits(fs[2]));
    lemma_field(fs[2]);
    assert(wire::field_fits(fs[3]));
    lemma_field(fs[3]);
    assert(wire::field_fits(fs[4]));
    lemma_field(fs[4]);
    assert(wire::field_fits(fs[5]));
    lemma_field(fs[5]);
    assert(wire::all_fit(fs));
    assert(wire::fields_bytes(fs, 0) =~= text(q.term_type@) + number(q.width_cols as nat)
        + number(q.height_rows as nat) + number(q.width_px as nat) + number(q.height_px as nat)
        + octets(q.terminal_modes@));
}

/// What a `PtyRequest` is read from, whatever follows it.
pub proof fn law_pty_request_read(
    data: &[u8],
    term_type: Seq<char>,
    width_cols: nat,
    height_rows: nat,
    width_px: nat,
    height_px: nat,
    terminal_modes: Seq<u8>,
    rest: Seq<u8>,
    r: Result<(PtyRequest, usize), WireError>,
)
    requires
        call_ensures(PtyRequest::decode, (data,), r),
        readable(term_type),
        width_cols <= 0xffff_ffff,
        height_rows <= 0xffff_ffff,
        width_px <= 0xffff_ffff,
        height_px <= 0xffff_ffff,
        terminal_modes.len() <= 0x10_0000,
        data@ == text(term_type) + number(width_cols) + number(height_rows) + number(width_px)
            + number(height_px) + octets(terminal_modes) + rest,
    ensures
        r matches Ok((q, n)) && q.term_type@ == term_type && q.width_cols == width_cols
            && q.height_rows == height_rows && q.width_px == width_px && q.height_px == height_px
            && q.terminal_modes@ == terminal_modes && n == data@.len() - rest.len(),
{
    let fs = seq![WireField::Text(term_type), WireField::Number(width_cols),
        WireField::Number(height_rows), WireField::Number(width_px), WireField::Number(height_px),
            WireField::Octets(terminal_modes)];
    let ks = PtyRequest::kinds();
    reveal_with_fuel(wire::fields_bytes, 7);
    assert(wire::field_accepted(fs[0]) && wire::is_kind(fs[0], ks[0]));
    lemma_field(fs[0]);
    assert(wire::field_accepted(fs[1]) && wire::is_kind(fs[1], ks[1]));
    lemma_field(fs[1]);
    assert(wire::field_accepted(fs[2]) && wire::is_kind(fs[2], ks[2]));
    lemma_field(fs[2]);
    assert(wire::field_accepted(fs[3]) && wire::is_kind(fs[3], ks[3]));
    lemma_field(fs[3]);
    assert(wire::field_accepted(fs[4]) && wire::is_kind(fs[4], ks[4]));
    lemma_field(fs[4]);
    assert(wire::field_accepted(fs[5]) && wire::is_kind(fs[5], ks[5]));
    lemma_field(fs[5]);
    assert(wire::fields_bytes(fs, 0) + rest =~= data@);
    wire::lemma_fields_roundtrip(fs, ks, 0, rest);
    assert(fs.subrange(0, fs.len() as int) =~= fs);
    let (q, n) = r->Ok_0;
    assert(q.fields()[0] == fs[0]);
    assert(q.fields()[1] == fs[1]);
    assert(q.fields()[2] == fs[2]);
    assert(q.fields()[3] == fs[3]);
    assert(q.fields()[4] == fs[4]);
    assert(q.fields()[5] == fs[5]);
    assert(data@.subrange(n as int, data@.len() as int).len() == rest.len());
}

/// What a `WindowChangeRequest` is written as.
pub proof fn law_window_change_request_written(q: &WindowChangeRequest, r: Option<Vec<u8>>)
    requires
        call_ensures(WindowChangeRequest::encode, (q,), r),
    ensures
        r matches Some(b) && b@ == number(q.width_cols as nat) + number(q.height_rows as nat)
            + number(q.width_px as nat) + number(q.height_px as nat),
{
    let fs = q.fields();
    reveal_with_fuel(wire::fields_bytes, 5);
    assert(wire::field_fits(fs[0]));
    lemma_field(fs[0]);
    assert(wire::field_fits(fs[1]));
    lemma_field(fs[1]);
    assert(wire::field_fits(fs[2]));
    lemma_field(fs[2]);
    assert(wire::field_fits(fs[3]));
    lemma_field(fs[3]);
    assert(wire::all_fit(fs));
    assert(wire::fields_bytes(fs, 0) =~= number(q.width_cols as nat) + number(q.height_rows as nat)
        + number(q.width_px as nat) + number(q.height_px as nat));
}

/// What a `WindowChangeRequest` is read from, whatever follows it.
pub proof fn law_window_change_request_read(
    data: &[u8],
    width_cols: nat,
    height_rows: nat,
    width_px: nat,
    height_px: nat,
    rest: Seq<u8>,
    r: Result<(WindowChangeRequest, usize), WireError>,
)
    requires
        call_ensures(WindowChangeRequest::decode, (data,), r),
        width_cols <= 0xffff_ffff,
        height_rows <= 0xffff_ffff,
        width_px <= 0xffff_ffff,
        height_px <= 0xffff_ffff,
        data@ == number(width_cols) + number(height_rows) + number(width_px) + number(height_px)
            + rest,
    ensures
        r matches Ok((q, n)) && q.width_cols == width_cols && q.height_rows == height_rows
            && q.width_px == width_px && q.height_px == height_px && n == data@.len() - rest.len(),
{
    let fs = seq![WireField::Number(width_cols), WireField::Number(height_rows),
        WireField::Number(width_px), WireField::Number(height_px)];
    let ks = WindowChangeRequest::kinds();
    reveal_with_fuel(wire::fields_bytes, 5);
    assert(wire::field_accepted(fs[0]) && wire::is_kind(fs[0], ks[0]));
    lemma_field(fs[0]);
    assert(wire::field_accepted(fs[1]) && wire::is_kind(fs[1], ks[1]));
    lemma_field(fs[1]);
    assert(wire::field_accepted(fs[2]) && wire::is_kind(fs[2], ks[2]));
    lemma_field(fs[2]);
    assert(wire::field_accepted(fs[3]) && wire::is_kind(fs[3], ks[3]));
    lemma_field(fs[3]);
    assert(wire::fields_bytes(fs, 0) + rest =~= data@);
    wire::lemma_fields_roundtrip(fs, ks, 0, rest);
    assert(fs.subrange(0, fs.len() as int) =~= fs);
    let (q, n) = r->Ok_0;
    assert(q.fields()[0] == fs[0]);
    assert(q.fields()[1] == fs[1]);
    assert(q.fields()[2] == fs[2]);
    assert(q.fields()[3] == fs[3]);
    assert(data@.subrange(n as int, data@.len() as int).len() == rest.len());
}

/// What a `ExecRequest` is written as.
pub proof fn law_exec_request_written(q: &ExecRequest, r: Option<Vec<u8>>)
    requires
        call_ensures(ExecRequest::encode, (q,), r),
        q.command@.len() < 0x4000_0000_0000_0000,
    ensures
        r matches Some(b) && b@ == octets(q.command@),
{
    let fs = q.fields();
    reveal_with_fuel(wire::fields_bytes, 2);
    assert(wire::field_fits(fs[0]));
    lemma_field(fs[0]);
    assert(wire::all_fit(fs));
    assert(wire::fields_bytes(fs, 0) =~= octets(q.command@));
}

/// What a `ExecRequest` is read from, whatever follows it.
pub proof fn law_exec_request_read(
    data: &[u8],
    command: Seq<u8>,
    rest: Seq<u8>,
    r: Result<(ExecRequest, usize), WireError>,
)
    requires
        call_ensures(ExecRequest::decode, (data,), r),
        command.len() <= 0x10_0000,
        data@ == octets(command) + rest,
    ensures
        r matches Ok((q, n)) && q.command@ == command && n == data@.len() - rest.len(),
{
    let fs = seq![WireField::Octets(command)];
    let ks = ExecRequest::kinds();
    reveal_with_fuel(wire::fields_bytes, 2);
    assert(wire::field_accepted(fs[0]) && wire::is_kind(fs[0], ks[0]));
    lemma_field(fs[0]);
    assert(wire::fields_bytes(fs, 0) + rest =~= data@);
    wire::lemma_fields_roundtrip(fs, ks, 0, rest);
    assert(fs.subrange(0, fs.len() as int) =~= fs);
    let (q, n) = r->Ok_0;
    assert(q.fields()[0] == fs[0]);
    assert(data@.subrange(n as int, data@.len() as int).len() == rest.len());
}

/// What a `SubsystemRequest` is written as.
pub proof fn law_subsystem_request_written(q: &SubsystemRequest, r: Option<Vec<u8>>)
    requires
        call_ensures(SubsystemRequest::encode, (q,), r),
        encode_utf8(q.subsystem_name@).len() < 0x4000_0000_0000_0000,
    ensures
        r matches Some(b) && b@ == text(q.subsystem_name@),
{
    let fs = q.fields();
    reveal_with_fuel(wire::fields_bytes, 2);
    assert(wire::field_fits(fs[0]));
    lemma_field(fs[0]);
    assert(wire::all_fit(fs));
    assert(wire::fields_bytes(fs, 0) =~= text(q.subsystem_name@));
}

/// What a `SubsystemRequest` is read from, whatever follows it.
pub proof fn law_subsystem_request_read(
    data: &[u8],
    subsystem_name: Seq<char>,
    rest: Seq<u8>,
    r: Result<(SubsystemRequest, usize), WireError>,
)
    requires
        call_ensures(SubsystemRequest::decode, (data,), r),
        readable(subsystem_name),
        data@ == text(subsystem_name) + rest,
    ensures
        r matches Ok((q, n)) && q.subsystem_name@ == subsystem_name
            && n == data@.len() - rest.len(),
{
    let fs = seq![WireField::Text(subsystem_name)];
    let ks = SubsystemRequest::kinds();
    reveal_with_fuel(wire::fields_bytes, 2);
    assert(wire::field_accepted(fs[0]) && wire::is_kind(fs[0], ks[0]));
    lemma_field(fs[0]);
    assert(wire::fields_bytes(fs, 0) + rest =~= data@);
    wire::lemma_fields_roundtrip(fs, ks, 0, rest);
    assert(fs.subrange(0, fs.len() as int) =~= fs);
    let (q, n) = r->Ok_0;
    assert(q.fields()[0] == fs[0]);
    assert(data@.subrange(n as int, data@.len() as int).len() == rest.len());
}

/// What a `SignalRequest` is written as.
pub proof fn law_signal_request_written(q: &SignalRequest, r: Option<Vec<u8>>)
    requires
        call_ensures(SignalRequest::encode, (q,), r),
        encode_utf8(q.signal_name@).len() < 0x4000_0000_0000_0000,
    ensures
        r matches Some(b) && b@ == text(q.signal_name@),
{
    let fs = q.fields();
    reveal_with_fuel(wire::fields_bytes, 2);
    assert(wire::field_fits(fs[0]));
    lemma_field(fs[0]);
    assert(wire::all_fit(fs));
    assert(wire::fields_bytes(fs, 0) =~= text(q.signal_name@));
}

/// What a `SignalRequest` is read from, whatever follows it.
pub proof fn law_signal_request_read(
    data: &[u8],
    signal_name: Seq<char>,
    rest: Seq<u8>,
    r: Result<(SignalRequest, usize), WireError>,
)
    requires
        call_ensures(SignalRequest::decode, (data,), r),
        readable(signal_name),
        data@ == text(signal_name) + rest,
    ensures
        r matches Ok((q, n)) && q.signal_name@ == signal_name && n == data@.len() - rest.len(),
{
    let fs = seq![WireField::Text(signal_name)];
    let ks = SignalRequest::kinds();
    reveal_with_fuel(wire::fields_bytes, 2);
    assert(wire::field_accepted(fs[0]) && wire::is_kind(fs[0], ks[0]));
    lemma_field(fs[0]);
    assert(wire::fields_bytes(fs, 0) + rest =~= data@);
    wire::lemma_fields_roundtrip(fs, ks, 0, rest);
    assert(fs.subrange(0, fs.len() as int) =~= fs);
    let (q, n) = r->Ok_0;
    assert(q.fields()[0] == fs[0]);
    assert(data@.subrange(n as int, data@.len() as int).len() == rest.len());
}

/// What a `ExitStatusRequest` is written as.
pub proof fn law_exit_status_request_written(q: &ExitStatusRequest, r: Option<Vec<u8>>)
    requires
        call_ensures(ExitStatusRequest::encode, (q,), r),
    ensures
        r matches Some(b) && b@ == number(q.exit_status as nat),
{
    let fs = q.fields();
    reveal_with_fuel(wire::fields_bytes, 2);
    assert(wire::field_fits(fs[0]));
    lemma_field(fs[0]);
    assert(wire::all_fit(fs));
    assert(wire::fields_bytes(fs, 0) =~= number(q.exit_status as nat));
}

/// What a `ExitStatusRequest` is read from, whatever follows it.
pub proof fn law_exit_status_request_read(
    data: &[u8],
    exit_status: nat,
    rest: Seq<u8>,
    r: Result<(ExitStatusRequest, usize), WireError>,
)
    requires
        call_ensures(ExitStatusRequest::decode, (data,), r),
        exit_status <= 0xffff_ffff,
        data@ == number(exit_status) + rest,
    ensures
        r matches Ok((q, n)) && q.exit_status == exit_status && n == data@.len() - rest.len(),
{
    let fs = seq![WireField::Number(exit_status)];
    let ks = ExitStatusRequest::kinds();
    reveal_with_fuel(wire::fields_bytes, 2);
    assert(wire::field_accepted(fs[0]) && wire::is_kind(fs[0], ks[0]));
    lemma_field(fs[0]);
    assert(wire::fields_bytes(fs, 0) + rest =~= data@);
    wire::lemma_fields_roundtrip(fs, ks, 0, rest);
    assert(fs.subrange(0, fs.len() as int) =~= fs);
    let (q, n) = r->Ok_0;
    assert(q.fields()[0] == fs[0]);
    assert(data@.subrange(n as int, data@.len() as int).len() == rest.len());
}

/// What a `ExitSignalRequest` is written as.
pub proof fn law_exit_signal_request_written(q: &ExitSignalRequest, r: Option<Vec<u8>>)
    requires
        call_ensures(ExitSignalRequest::encode, (q,), r),
        encode_utf8(q.signal_name@).len() < 0x4000_0000_0000_0000,
        encode_utf8(q.error_message@).len() < 0x4000_0000_0000_0000,
        encode_utf8(q.language_tag@).len() < 0x4000_0000_0000_0000,
    ensures
        r matches Some(b) && b@ == text(q.signal_name@) + flag(q.core_dumped)
            + text(q.error_message@) + text(q.language_tag@),
{
    let fs = q.fields();
    reveal_with_fuel(wire::fields_bytes, 5);
    assert(wire::field_fits(fs[0]));
    lemma_field(fs[0]);
    assert(wire::field_fits(fs[1]));
    lemma_field(fs[1]);
    assert(wire::field_fits(fs[2]));
    lemma_field(fs[2]);
    assert(wire::field_fits(fs[3]));
    lemma_field(fs[3]);
    assert(wire::all_fit(fs));
    assert(wire::fields_bytes(fs, 0) =~= text(q.signal_name@) + flag(q.core_dumped)
        + text(q.error_message@) + text(q.language_tag@));
}

/// What a `ExitSignalRequest` is read from, whatever follows it.
pub proof fn law_exit_signal_request_read(
    data: &[u8],
    signal_name: Seq<char>,
    core_dumped: bool,
    error_message: Seq<char>,
    language_tag: Seq<char>,
    rest: Seq<u8>,
    r: Result<(ExitSignalRequest, usize), WireError>,
)
    requires
        call_ensures(ExitSignalRequest::decode, (data,), r),
        readable(signal_name),
        readable(error_message),
        readable(language_tag),
        data@ == text(signal_name) + flag(core_dumped) + text(error_message) + text(language_tag)
            + rest,
    ensures
        r matches Ok((q, n)) && q.signal_name@ == signal_name && q.core_dumped == core_dumped
            && q.error_message@ == error_message && q.language_tag@ == language_tag
            && n == data@.len() - rest.len(),
{
    let fs = seq![WireField::Text(signal_name), WireField::Flag(core_dumped),
        WireField::Text(error_message), WireField::Text(language_tag)];
    let ks = ExitSignalRequest::kinds();
    reveal_with_fuel(wire::fields_bytes, 5);
    assert(wire::field_accepted(fs[0]) && wire::is_kind(fs[0], ks[0]));
    lemma_field(fs[0]);
    assert(wire::field_accepted(fs[1]) && wire::is_kind(fs[1], ks[1]));
    lemma_field(fs[1]);
    assert(wire::field_accepted(fs[2]) && wire::is_kind(fs[2], ks[2]));
    lemma_field(fs[2]);
    assert(wire::field_accepted(fs[3]) && wire::is_kind(fs[3], ks[3]));
    lemma_field(fs[3]);
    assert(wire::fields_bytes(fs, 0) + rest =~= data@);
    wire::lemma_fields_roundtrip(fs, ks, 0, rest);
    assert(fs.subrange(0, fs.len() as int) =~= fs);
    let (q, n) = r->Ok_0;
    assert(q.fields()[0] == fs[0]);
    assert(q.fields()[1] == fs[1]);
    assert(q.fields()[2] == fs[2]);
    assert(q.fields()[3] == fs[3]);
    assert(data@.subrange(n as int, data@.len() as int).len() == rest.len());
}

} // verus!
