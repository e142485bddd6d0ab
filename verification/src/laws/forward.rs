//! Forwarding: what is listened at, for whom, and where connections go.

use crate::laws::stream;
use crate::laws::wire as layout;
use crate::proto::codec;
use crate::proto::session::{SessionError, TransportError};
use crate::proto::varint;
use crate::proto::wire;
use crate::proto::wire::{
    ForwardedStreamlocalRequest, ForwardedTcpipRequest, WireError, WireField,
};
use crate::server::channel;
use crate::server::channel::{
    ControlAction, ControlEvent, ControlPhase, ControlStream, GlobalRequestContext,
    GlobalRequestPlan, GlobalRequestReply, GlobalRequestStep, OpenChannelStage,
};
use crate::server::forward::direct_tcp;
use crate::server::forward::direct_tcp::ForwardPlan;
use crate::server::forward::reverse_tcp;
use crate::server::forward::reverse_tcp::{ForwardedAnswer, ReverseTcpForwarder};
use crate::server::forward::streamlocal;
use crate::server::forward::streamlocal::{ReverseStreamlocalForwarder, StoppedSocket};
use crate::server::forward::table;
use crate::server::forward::table::{Listener, ListenerTable};
use crate::server::forward::tasks::TrackedConnectionTasks;
use crate::server::message::StreamMessage;
use vstd::prelude::*;
use vstd::string::*;
use vstd::utf8::*;

verus! {

proof fn lemma_types_differ()
    ensures
        "tcpip-forward"@.len() == 13,
        "cancel-tcpip-forward"@.len() == 20,
        "streamlocal-forward@openssh.com"@.len() == 31,
        "cancel-streamlocal-forward@openssh.com"@.len() == 38,
{
    reveal_strlit("tcpip-forward");
    reveal_strlit("cancel-tcpip-forward");
    reveal_strlit("streamlocal-forward@openssh.com");
    reveal_strlit("cancel-streamlocal-forward@openssh.com");
}

proof fn lemma_tcp_read(data: Seq<u8>, address: Seq<char>, port: nat, rest: Seq<u8>)
    requires
        layout::readable(address),
        port <= 0xffff_ffff,
        data == layout::text(address) + layout::number(port) + rest,
    ensures
        channel::tcp_request(data) == Ok::<_, WireError>((address, port)),
{
    let fs = seq![WireField::Text(address), WireField::Number(port)];
    let ks = wire::TcpipForwardRequest::kinds();
    reveal_with_fuel(wire::fields_bytes, 3);
    assert(wire::field_accepted(fs[0]) && wire::is_kind(fs[0], ks[0]));
    layout::lemma_field(fs[0]);
    assert(wire::field_accepted(fs[1]) && wire::is_kind(fs[1], ks[1]));
    layout::lemma_field(fs[1]);
    assert(wire::fields_bytes(fs, 0) + rest =~= data);
    wire::lemma_fields_roundtrip(fs, ks, 0, rest);
    assert(fs.subrange(0, 2) =~= fs);
}

proof fn lemma_socket_read(data: Seq<u8>, path: Seq<char>, rest: Seq<u8>)
    requires
        layout::readable(path),
        data == layout::text(path) + rest,
    ensures
        channel::socket_request(data) == Ok::<_, WireError>(path),
{
    let fs = seq![WireField::Text(path)];
    let ks = wire::StreamlocalForwardRequest::kinds();
    reveal_with_fuel(wire::fields_bytes, 2);
    assert(wire::field_accepted(fs[0]) && wire::is_kind(fs[0], ks[0]));
    layout::lemma_field(fs[0]);
    assert(wire::fields_bytes(fs, 0) + rest =~= data);
    wire::lemma_fields_roundtrip(fs, ks, 0, rest);
    assert(fs.subrange(0, 1) =~= fs);
}

/// A request to listen at an address and port asks for that address and that port, and so
/// does one to stop; a port that is none is refused.
pub proof fn law_tcp_planned(
    request_type: &str,
    data: &[u8],
    address: Seq<char>,
    port: nat,
    rest: Seq<u8>,
    r: Result<GlobalRequestPlan, WireError>,
)
    requires
        call_ensures(channel::plan_global_request, (request_type, data), r),
        layout::readable(address),
        port <= 0xffff_ffff,
        data@ == layout::text(address) + layout::number(port) + rest,
    ensures
        request_type@ == "tcpip-forward"@ && port <= 65535 ==> (r matches Ok(
            GlobalRequestPlan::BindTcp { address: a, port: p },
        ) && a@ == address && p == port),
        request_type@ == "cancel-tcpip-forward"@ && port <= 65535 ==> (r matches Ok(
            GlobalRequestPlan::StopTcp { address: a, port: p },
        ) && a@ == address && p == port),
        (request_type@ == "tcpip-forward"@ || request_type@ == "cancel-tcpip-forward"@) && port
            > 65535 ==> r == Ok::<GlobalRequestPlan, WireError>(GlobalRequestPlan::Refuse),
{
    lemma_types_differ();
    lemma_tcp_read(data@, address, port, rest);
}

/// A request to listen at a socket asks for that socket, and so does one to stop.
pub proof fn law_socket_planned(
    request_type: &str,
    data: &[u8],
    path: Seq<char>,
    rest: Seq<u8>,
    r: Result<GlobalRequestPlan, WireError>,
)
    requires
        call_ensures(channel::plan_global_request, (request_type, data), r),
        layout::readable(path),
        data@ == layout::text(path) + rest,
    ensures
        request_type@ == "streamlocal-forward@openssh.com"@ ==> (r matches Ok(
            GlobalRequestPlan::BindSocket { path: p },
        ) && p@ == path),
        request_type@ == "cancel-streamlocal-forward@openssh.com"@ ==> (r matches Ok(
            GlobalRequestPlan::StopSocket { path: p },
        ) && p@ == path),
{
    lemma_types_differ();
    lemma_socket_read(data@, path, rest);
}

/// A request whose data ends within one of its fields cannot be read.
pub proof fn law_truncated_plan_fails(
    request_type: &str,
    data: &[u8],
    address: Seq<char>,
    port: nat,
    k: int,
    r: Result<GlobalRequestPlan, WireError>,
)
    requires
        call_ensures(channel::plan_global_request, (request_type, data), r),
        layout::readable(address),
        port <= 0xffff_ffff,
        0 <= k,
        ({
            ||| (request_type@ == "tcpip-forward"@ || request_type@ == "cancel-tcpip-forward"@) && k
                < (layout::text(address) + layout::number(port)).len() && data@ == (layout::text(
                address,
            ) + layout::number(port)).subrange(0, k)
            ||| (request_type@ == "streamlocal-forward@openssh.com"@ || request_type@
                == "cancel-streamlocal-forward@openssh.com"@) && k < layout::text(address).len()
                && data@ == layout::text(address).subrange(0, k)
        }),
    ensures
        r == Err::<GlobalRequestPlan, WireError>(WireError::Incomplete),
{
    lemma_types_differ();
    reveal_with_fuel(wire::fields_bytes, 3);
    layout::lemma_field(WireField::Text(address));
    layout::lemma_field(WireField::Number(port));
    if request_type@ == "tcpip-forward"@ || request_type@ == "cancel-tcpip-forward"@ {
        let fs = seq![WireField::Text(address), WireField::Number(port)];
        let ks = wire::TcpipForwardRequest::kinds();
        assert(wire::fields_bytes(fs, 0) =~= layout::text(address) + layout::number(port));
        assert(wire::field_accepted(fs[0]) && wire::is_kind(fs[0], ks[0]));
        assert(wire::field_accepted(fs[1]) && wire::is_kind(fs[1], ks[1]));
        crate::laws::fields::lemma_fields_in_part(fs, ks, 0, k);
    } else {
        let fs = seq![WireField::Text(address)];
        let ks = wire::StreamlocalForwardRequest::kinds();
        assert(wire::fields_bytes(fs, 0) =~= layout::text(address));
        assert(wire::field_accepted(fs[0]) && wire::is_kind(fs[0], ks[0]));
        crate::laws::fields::lemma_fields_in_part(fs, ks, 0, k);
    }
}

/// A request with an address that says it is longer than a mebibyte, or with a port that is
/// no number of 32 bits, cannot be read.
pub proof fn law_bad_plan_fails(
    request_type: &str,
    data: &[u8],
    length: nat,
    address: Seq<char>,
    port: nat,
    rest: Seq<u8>,
    r: Result<GlobalRequestPlan, WireError>,
)
    requires
        call_ensures(channel::plan_global_request, (request_type, data), r),
        layout::can_be_written(length) && layout::can_be_written(port),
        layout::readable(address),
    ensures
        (request_type@ == "tcpip-forward"@ || request_type@ == "cancel-tcpip-forward"@
            || request_type@ == "streamlocal-forward@openssh.com"@ || request_type@
            == "cancel-streamlocal-forward@openssh.com"@) && length > 0x10_0000 && data@
            == layout::number(length) + rest ==> r == Err::<GlobalRequestPlan, WireError>(
            WireError::FieldTooLarge { length: length as u64 },
        ),
        (request_type@ == "tcpip-forward"@ || request_type@ == "cancel-tcpip-forward"@) && port
            > 0xffff_ffff && data@ == layout::text(address) + (layout::number(port) + rest) ==> r
            == Err::<GlobalRequestPlan, WireError>(WireError::OutOfRange),
{
    lemma_types_differ();
    layout::lemma_number(length);
    layout::lemma_number(port);
    if data@ == layout::number(length) + rest {
        varint::lemma_varint_roundtrip(length, rest);
    }
    if data@ == layout::text(address) + (layout::number(port) + rest) {
        let ks = wire::TcpipForwardRequest::kinds();
        layout::lemma_field(WireField::Text(address));
        wire::lemma_field_roundtrip(
            WireField::Text(address),
            wire::FieldKind::Text,
            layout::number(port) + rest,
        );
        varint::lemma_varint_roundtrip(port, rest);
        reveal_with_fuel(wire::take_fields, 3);
        assert(ks[0] == wire::FieldKind::Text);
        assert(ks[1] == wire::FieldKind::Number(0xffff_ffff));
    }
}

/// A request for anything else is refused, and so is any for a conversation that is not
/// set up.
pub proof fn law_other_requests_refused<T>(
    request_type: &str,
    data: &[u8],
    plan: Result<GlobalRequestPlan, WireError>,
    r: Result<GlobalRequestStep<T>, WireError>,
)
    requires
        call_ensures(channel::plan_global_request, (request_type, data), plan),
        call_ensures(channel::process_global_request::<T>, (request_type, data, None), r),
    ensures
        request_type@ != "tcpip-forward"@ && request_type@ != "cancel-tcpip-forward"@
            && request_type@ != "streamlocal-forward@openssh.com"@ && request_type@
            != "cancel-streamlocal-forward@openssh.com"@ ==> plan == Ok::<
            GlobalRequestPlan,
            WireError,
        >(GlobalRequestPlan::Refuse),
        r == Ok::<GlobalRequestStep<T>, WireError>(
            GlobalRequestStep::Reply(GlobalRequestReply::Failure),
        ),
{
}

/// A request to listen at an address and port leads to listening at that address and that
/// port, and changes nothing before that.
pub proof fn law_tcp_forward_binds<T>(
    request_type: &str,
    data: &[u8],
    ctx: &mut GlobalRequestContext<T>,
    address: Seq<char>,
    port: nat,
    rest: Seq<u8>,
    r: Result<GlobalRequestStep<T>, WireError>,
)
    requires
        call_ensures(channel::process_global_request::<T>, (request_type, data, Some(ctx)), r),
        request_type@ == "tcpip-forward"@,
        layout::readable(address),
        port <= 0xffff_ffff,
        data@ == layout::text(address) + layout::number(port) + rest,
    ensures
        port <= 65535 ==> (r matches Ok(GlobalRequestStep::BindTcp { address: a, port: p }) && a@
            == address && p == port),
        port > 65535 ==> r == Ok::<GlobalRequestStep<T>, WireError>(
            GlobalRequestStep::Reply(GlobalRequestReply::Failure),
        ),
        final(ctx).tcp_forwarder@ == old(ctx).tcp_forwarder@,
        final(ctx).streamlocal_forwarder@ == old(ctx).streamlocal_forwarder@,
        final(ctx).conversation_id == old(ctx).conversation_id,
{
    lemma_types_differ();
    lemma_tcp_read(data@, address, port, rest);
}

/// A request to listen at a socket leads to listening at that socket.
pub proof fn law_socket_forward_binds<T>(
    request_type: &str,
    data: &[u8],
    ctx: &mut GlobalRequestContext<T>,
    path: Seq<char>,
    rest: Seq<u8>,
    r: Result<GlobalRequestStep<T>, WireError>,
)
    requires
        call_ensures(channel::process_global_request::<T>, (request_type, data, Some(ctx)), r),
        request_type@ == "streamlocal-forward@openssh.com"@,
        layout::readable(path),
        data@ == layout::text(path) + rest,
    ensures
        r matches Ok(GlobalRequestStep::BindSocket { path: p }) && p@ == path,
        final(ctx).tcp_forwarder@ == old(ctx).tcp_forwarder@,
        final(ctx).streamlocal_forwarder@ == old(ctx).streamlocal_forwarder@,
        final(ctx).conversation_id == old(ctx).conversation_id,
{
    lemma_types_differ();
    lemma_socket_read(data@, path, rest);
}

/// The client is told the very port that is listened at, and where listening failed, that
/// it did; a listener whose place was taken is given up, and no other.
pub proof fn law_bind_told<T>(
    ctx: &mut GlobalRequestContext<T>,
    address: &str,
    bound: Option<(u16, T)>,
    other: &str,
    other_port: u16,
    before: bool,
    after: bool,
    r: (GlobalRequestReply, Option<Listener<T>>),
)
    requires
        call_ensures(channel::finish_tcp_bind::<T>, (ctx, address, bound), r),
        call_ensures(
            ReverseTcpForwarder::<T>::is_listening,
            (&old(ctx).tcp_forwarder, other, other_port),
            before,
        ),
        call_ensures(
            ReverseTcpForwarder::<T>::is_listening,
            (&final(ctx).tcp_forwarder, other, other_port),
            after,
        ),
    ensures
        bound is None ==> r.0 == GlobalRequestReply::Failure && r.1 is None && after == before,
        bound matches Some((port, task)) ==> {
            &&& r.0 matches GlobalRequestReply::Success(told)
            &&& told@ == layout::number(port as nat)
            &&& after == (before || (other@ == address@ && other_port == port))
            &&& other@ == address@ && other_port == port ==> (r.1 is Some <==> before)
            &&& r.1 matches Some(l) ==> l.address@ == address@ && l.port == port
        },
{
    if let Some((port, task)) = bound {
        layout::lemma_number(port as nat);
    }
}

/// A listener that was started for a conversation is stopped by that conversation's
/// request with the same address and port, which gives that very listener up.
pub proof fn law_tcp_forward_stopped<T>(
    started: &mut GlobalRequestContext<T>,
    address: &str,
    port: u16,
    task: T,
    told: (GlobalRequestReply, Option<Listener<T>>),
    stopped: &mut GlobalRequestContext<T>,
    request_type: &str,
    data: &[u8],
    rest: Seq<u8>,
    r: Result<GlobalRequestStep<T>, WireError>,
    after: bool,
)
    requires
        call_ensures(channel::finish_tcp_bind::<T>, (started, address, Some((port, task))), told),
        *stopped == *final(started),
        call_ensures(channel::process_global_request::<T>, (request_type, data, Some(stopped)), r),
        request_type@ == "cancel-tcpip-forward"@,
        layout::readable(address@),
        data@ == layout::text(address@) + layout::number(port as nat) + rest,
        call_ensures(
            ReverseTcpForwarder::<T>::is_listening,
            (&final(stopped).tcp_forwarder, address, port),
            after,
        ),
    ensures
        r matches Ok(GlobalRequestStep::StoppedTcp { listener, reply }) && listener.address@
            == address@ && listener.port == port && listener.task == task && (
        reply matches GlobalRequestReply::Success(d) && d@.len() == 0),
        !after,
{
    lemma_types_differ();
    lemma_tcp_read(data@, address@, port as nat, rest);
    let k = (address@, port);
    assert(stopped.tcp_forwarder@.contains_key(k));
    assert(stopped.tcp_forwarder@[k] == (stopped.conversation_id, task));
}

/// A conversation stops only its own listeners: a request to stop one that is not there or
/// that another conversation started is refused, and changes nothing.
pub proof fn law_foreign_listener_kept<T>(
    ctx: &mut GlobalRequestContext<T>,
    request_type: &str,
    data: &[u8],
    address: Seq<char>,
    port: u16,
    rest: Seq<u8>,
    r: Result<GlobalRequestStep<T>, WireError>,
)
    requires
        call_ensures(channel::process_global_request::<T>, (request_type, data, Some(ctx)), r),
        request_type@ == "cancel-tcpip-forward"@,
        layout::readable(address),
        data@ == layout::text(address) + layout::number(port as nat) + rest,
        !old(ctx).tcp_forwarder@.contains_key((address, port)) || old(
            ctx,
        ).tcp_forwarder@[(address, port)].0 != old(ctx).conversation_id,
    ensures
        r == Ok::<GlobalRequestStep<T>, WireError>(
            GlobalRequestStep::Reply(GlobalRequestReply::Failure),
        ),
        final(ctx).tcp_forwarder@ == old(ctx).tcp_forwarder@,
{
    lemma_types_differ();
    lemma_tcp_read(data@, address, port as nat, rest);
}

/// A socket listener that was started for a conversation is stopped by that conversation's
/// request with the same path, and its socket file is then removed; a listener whose place
/// is taken leaves the file alone.
pub proof fn law_socket_forward_stopped<T>(
    started: &mut GlobalRequestContext<T>,
    path: &str,
    task: T,
    told: (GlobalRequestReply, Option<StoppedSocket<T>>),
    stopped: &mut GlobalRequestContext<T>,
    request_type: &str,
    data: &[u8],
    rest: Seq<u8>,
    r: Result<GlobalRequestStep<T>, WireError>,
    after: bool,
)
    requires
        call_ensures(channel::finish_socket_bind::<T>, (started, path, Some(task)), told),
        *stopped == *final(started),
        call_ensures(channel::process_global_request::<T>, (request_type, data, Some(stopped)), r),
        request_type@ == "cancel-streamlocal-forward@openssh.com"@,
        layout::readable(path@),
        data@ == layout::text(path@) + rest,
        call_ensures(
            ReverseStreamlocalForwarder::<T>::is_listening,
            (&final(stopped).streamlocal_forwarder, path),
            after,
        ),
    ensures
        told.0 matches GlobalRequestReply::Success(d) && d@.len() == 0,
        told.1 matches Some(l) ==> l.socket_path@ == path@ && !l.remove_file,
        r matches Ok(GlobalRequestStep::StoppedSocket { socket, reply }) && socket.socket_path@
            == path@ && socket.task == task && socket.remove_file && (
        reply matches GlobalRequestReply::Success(d) && d@.len() == 0),
        !after,
{
    lemma_types_differ();
    lemma_socket_read(data@, path@, rest);
    assert(stopped.streamlocal_forwarder@.contains_key(path@));
    assert(stopped.streamlocal_forwarder@[path@] == (stopped.conversation_id, true, task));
}

/// A conversation stops only its own sockets: a request to stop one that is not there or
/// that another conversation started is refused, and changes nothing.
pub proof fn law_foreign_socket_kept<T>(
    ctx: &mut GlobalRequestContext<T>,
    request_type: &str,
    data: &[u8],
    path: Seq<char>,
    rest: Seq<u8>,
    r: Result<GlobalRequestStep<T>, WireError>,
)
    requires
        call_ensures(channel::process_global_request::<T>, (request_type, data, Some(ctx)), r),
        request_type@ == "cancel-streamlocal-forward@openssh.com"@,
        layout::readable(path),
        data@ == layout::text(path) + rest,
        !old(ctx).streamlocal_forwarder@.contains_key(path) || old(
            ctx,
        ).streamlocal_forwarder@[path].0 != old(ctx).conversation_id,
    ensures
        r == Ok::<GlobalRequestStep<T>, WireError>(
            GlobalRequestStep::Reply(GlobalRequestReply::Failure),
        ),
        final(ctx).streamlocal_forwarder@ == old(ctx).streamlocal_forwarder@,
{
    lemma_types_differ();
    lemma_socket_read(data@, path, rest);
}

/// A listener that cannot be bound is not listened at, and the client is told so.
pub proof fn law_socket_bind_failed<T>(
    ctx: &mut GlobalRequestContext<T>,
    path: &str,
    r: (GlobalRequestReply, Option<StoppedSocket<T>>),
)
    requires
        call_ensures(channel::finish_socket_bind::<T>, (ctx, path, None), r),
    ensures
        r.0 == GlobalRequestReply::Failure && r.1 is None,
        final(ctx).streamlocal_forwarder@ == old(ctx).streamlocal_forwarder@,
        final(ctx).tcp_forwarder@ == old(ctx).tcp_forwarder@,
{
}

/// What is listened at after a listener was started: that, and what was before.
pub proof fn law_listening_after_start<T>(
    f: &mut ReverseTcpForwarder<T>,
    address: &str,
    port: u16,
    owner: u64,
    task: T,
    other: &str,
    other_port: u16,
    before: bool,
    after: bool,
    r: Option<Listener<T>>,
)
    requires
        call_ensures(
            ReverseTcpForwarder::<T>::start_listening,
            (f, address, port, owner, task),
            r,
        ),
        call_ensures(ReverseTcpForwarder::<T>::is_listening, (&*old(f), other, other_port), before),
        call_ensures(ReverseTcpForwarder::<T>::is_listening, (&*final(f), other, other_port),
            after),
    ensures
        after == (before || (other@ == address@ && other_port == port)),
        other@ == address@ && other_port == port ==> (r is Some <==> before),
{
}

/// A listener that takes the place of another gives that one up, whoever it belonged to,
/// and is then the one that its own conversation stops.
pub proof fn law_listener_displaced<T>(
    first: &mut ReverseTcpForwarder<T>,
    address: &str,
    port: u16,
    owner: u64,
    task: T,
    before: Option<Listener<T>>,
    second: &mut ReverseTcpForwarder<T>,
    other: u64,
    later: T,
    displaced: Option<Listener<T>>,
    third: &mut ReverseTcpForwarder<T>,
    stopped: Option<Listener<T>>,
)
    requires
        call_ensures(
            ReverseTcpForwarder::<T>::start_listening,
            (first, address, port, owner, task),
            before,
        ),
        *second == *final(first),
        call_ensures(
            ReverseTcpForwarder::<T>::start_listening,
            (second, address, port, other, later),
            displaced,
        ),
        *third == *final(second),
        call_ensures(ReverseTcpForwarder::<T>::stop_listening, (third, address, port, other),
            stopped),
    ensures
        displaced matches Some(l) && l.task == task && l.owner == owner && l.address@ == address@
            && l.port == port,
        stopped matches Some(l) && l.task == later && l.owner == other && l.address@ == address@
            && l.port == port,
{
    let k = (address@, port);
    assert(second@.contains_key(k) && second@[k] == (owner, task));
    assert(third@.contains_key(k) && third@[k] == (other, later));
}

/// So does a socket's listener, and the one that is given up leaves the file alone.
pub proof fn law_socket_displaced<T>(
    first: &mut ReverseStreamlocalForwarder<T>,
    path: &str,
    owner: u64,
    task: T,
    before: Option<StoppedSocket<T>>,
    second: &mut ReverseStreamlocalForwarder<T>,
    other: u64,
    later: T,
    displaced: Option<StoppedSocket<T>>,
)
    requires
        call_ensures(
            ReverseStreamlocalForwarder::<T>::start_listening,
            (first, path, owner, task),
            before,
        ),
        *second == *final(first),
        call_ensures(
            ReverseStreamlocalForwarder::<T>::start_listening,
            (second, path, other, later),
            displaced,
        ),
    ensures
        displaced matches Some(l) && l.task == task && l.owner == owner && l.socket_path@ == path@
            && !l.remove_file,
{
    assert(second@.contains_key(path@) && second@[path@] == (owner, true, task));
}

/// What is listened at after a listener was stopped: not that, where its own conversation
/// stopped it, and everything else as before.
pub proof fn law_listening_after_stop<T>(
    f: &mut ReverseTcpForwarder<T>,
    address: &str,
    port: u16,
    owner: u64,
    other: &str,
    other_port: u16,
    before: bool,
    after: bool,
    r: Option<Listener<T>>,
)
    requires
        call_ensures(ReverseTcpForwarder::<T>::stop_listening, (f, address, port, owner), r),
        call_ensures(ReverseTcpForwarder::<T>::is_listening, (&*old(f), other, other_port), before),
        call_ensures(ReverseTcpForwarder::<T>::is_listening, (&*final(f), other, other_port),
            after),
    ensures
        other@ != address@ || other_port != port ==> after == before,
        other@ == address@ && other_port == port ==> after == (before && r is None),
        r matches Some(l) ==> l.address@ == address@ && l.port == port && l.owner == owner,
{
}

/// Once a conversation was cleaned up after, none of its listeners is left, every listener
/// of another is, and each that is given up was its own.
pub proof fn law_cleanup_is_its_own<T>(
    started: &mut ReverseTcpForwarder<T>,
    address: &str,
    port: u16,
    owner: u64,
    task: T,
    displaced: Option<Listener<T>>,
    cleaned: &mut ReverseTcpForwarder<T>,
    conversation: u64,
    after: bool,
    r: Vec<Listener<T>>,
)
    requires
        call_ensures(
            ReverseTcpForwarder::<T>::start_listening,
            (started, address, port, owner, task),
            displaced,
        ),
        *cleaned == *final(started),
        call_ensures(ReverseTcpForwarder::<T>::cleanup_for_owner, (cleaned, conversation), r),
        call_ensures(
            ReverseTcpForwarder::<T>::is_listening,
            (&*final(cleaned), address, port),
            after,
        ),
    ensures
        after == (owner != conversation),
        owner == conversation ==> exists|i: int|
            0 <= i < r@.len() && (#[trigger] r@[i]).address@ == address@ && r@[i].port == port
                && r@[i].task == task,
        forall|i: int|
            0 <= i < r@.len() ==> (#[trigger] r@[i]).owner == conversation,
{
    let k = (address@, port);
    assert(cleaned@.contains_key(k) && cleaned@[k] == (owner, task));
    let m = table::listener_map(r@);
    assert forall|i: int| 0 <= i < r@.len() implies (#[trigger] r@[i]).owner == conversation by {
        table::lemma_listener_map(r@, i);
    }
    if owner == conversation {
        assert(m.contains_key(k));
        let i = choose|i: int| 0 <= i < r@.len() && (#[trigger] r@[i]).key() == k;
        assert(m[k] == (r@[i].owner, r@[i].task));
        assert(r@[i].address@ == address@);
    }
}

/// What is listened at after a socket listener was started or stopped.
pub proof fn law_sockets_listened_at<T>(
    started: &mut ReverseStreamlocalForwarder<T>,
    path: &str,
    owner: u64,
    task: T,
    displaced: Option<StoppedSocket<T>>,
    stopped: &mut ReverseStreamlocalForwarder<T>,
    caller: u64,
    other: &str,
    before: bool,
    between: bool,
    after: bool,
    r: Option<StoppedSocket<T>>,
)
    requires
        call_ensures(
            ReverseStreamlocalForwarder::<T>::start_listening,
            (started, path, owner, task),
            displaced,
        ),
        *stopped == *final(started),
        call_ensures(
            ReverseStreamlocalForwarder::<T>::stop_listening,
            (stopped, path, caller),
            r,
        ),
        call_ensures(
            ReverseStreamlocalForwarder::<T>::is_listening,
            (&*old(started), other),
            before,
        ),
        call_ensures(
            ReverseStreamlocalForwarder::<T>::is_listening,
            (&*old(stopped), other),
            between,
        ),
        call_ensures(
            ReverseStreamlocalForwarder::<T>::is_listening,
            (&*final(stopped), other),
            after,
        ),
    ensures
        between == (before || other@ == path@),
        after == (between && !(other@ == path@ && caller == owner)),
        r is Some <==> caller == owner,
        r matches Some(l) ==> l.task == task && l.socket_path@ == path@ && l.remove_file,
        displaced matches Some(l) ==> l.socket_path@ == path@ && !l.remove_file,
{
    assert(stopped@.contains_key(path@) && stopped@[path@] == (owner, true, task));
}

/// Once a conversation was cleaned up after, none of its sockets is listened at, and every
/// socket of another still is.
pub proof fn law_socket_cleanup_is_its_own<T>(
    started: &mut ReverseStreamlocalForwarder<T>,
    path: &str,
    owner: u64,
    task: T,
    displaced: Option<StoppedSocket<T>>,
    cleaned: &mut ReverseStreamlocalForwarder<T>,
    conversation: u64,
    after: bool,
    r: Vec<Listener<(bool, T)>>,
)
    requires
        call_ensures(
            ReverseStreamlocalForwarder::<T>::start_listening,
            (started, path, owner, task),
            displaced,
        ),
        *cleaned == *final(started),
        call_ensures(
            ReverseStreamlocalForwarder::<T>::cleanup_for_owner,
            (cleaned, conversation),
            r,
        ),
        call_ensures(
            ReverseStreamlocalForwarder::<T>::is_listening,
            (&*final(cleaned), path),
            after,
        ),
    ensures
        after == (owner != conversation),
        owner == conversation ==> exists|i: int|
            0 <= i < r@.len() && (#[trigger] r@[i]).address@ == path@ && r@[i].owner == owner
                && r@[i].task == (true, task),
{
    assert(cleaned@.contains_key(path@) && cleaned@[path@] == (owner, true, task));
    if owner == conversation {
        let m = table::listener_map(r@);
        assert(streamlocal::by_path(m).contains_key(path@));
        assert(streamlocal::by_path(m)[path@] == cleaned@[path@]);
        let k = (path@, 0u16);
        let i = choose|i: int| 0 <= i < r@.len() && (#[trigger] r@[i]).key() == k;
        assert(m[k] == (r@[i].owner, r@[i].task));
        assert(r@[i].address@ == path@);
    }
}

/// Nothing is listened at to begin with.
pub proof fn law_nothing_listened_at_first<T>(
    f: ReverseTcpForwarder<T>,
    s: ReverseStreamlocalForwarder<T>,
    address: &str,
    port: u16,
    a: bool,
    b: bool,
)
    requires
        call_ensures(ReverseTcpForwarder::<T>::new, (), f),
        call_ensures(ReverseStreamlocalForwarder::<T>::new, (), s),
        call_ensures(ReverseTcpForwarder::<T>::is_listening, (&f, address, port), a),
        call_ensures(ReverseStreamlocalForwarder::<T>::is_listening, (&s, address), b),
    ensures
        !a && !b,
{
}

/// A global request is handed out as it came, where the conversation is ready and nothing
/// else is being handled; otherwise it is refused, where an answer is wanted.
pub proof fn law_request_handed_out(
    c: &mut ControlStream,
    ready: bool,
    request_type: String,
    want_reply: bool,
    data: Vec<u8>,
    r: ControlAction,
)
    requires
        call_ensures(
            ControlStream::serve_control_stream_global_requests,
            (
                c,
                ControlEvent::Message {
                    ready,
                    message: StreamMessage::GlobalRequest { request_type, want_reply, data },
                },
            ),
            r,
        ),
        old(c).phase == ControlPhase::Reading,
    ensures
        final(c).phase == ControlPhase::Reading,
        ready && old(c).in_flight is None ==> r == (ControlAction::Dispatch { request_type, data })
            && final(c).in_flight == Some(want_reply),
        !ready || old(c).in_flight is Some ==> final(c).in_flight == old(c).in_flight && r
            == if want_reply && !old(c).write_failed {
            ControlAction::Write(StreamMessage::RequestFailure)
        } else {
            ControlAction::Wait
        },
{
}

/// The outcome of a request is told as it is, where an answer was wanted, and then the next
/// can be handled.
pub proof fn law_outcome_told(
    c: &mut ControlStream,
    outcome: Option<GlobalRequestReply>,
    r: ControlAction,
)
    requires
        call_ensures(
            ControlStream::serve_control_stream_global_requests,
            (c, ControlEvent::Handled(outcome)),
            r,
        ),
    ensures
        final(c).in_flight is None,
        final(c).phase == old(c).phase,
        old(c).in_flight == Some(true) && old(c).phase != ControlPhase::Closed && !old(
            c,
        ).write_failed ==> {
            &&& outcome matches Some(GlobalRequestReply::Success(data)) ==> r
                == ControlAction::Write(StreamMessage::RequestSuccess { data })
            &&& outcome is None || outcome == Some(GlobalRequestReply::Failure) ==> r
                == ControlAction::Write(StreamMessage::RequestFailure)
        },
        old(c).in_flight != Some(true) || old(c).phase
            == ControlPhase::Closed || old(c).write_failed
            ==> r == ControlAction::Wait,
{
}

/// Any other message on a control stream closes it.
pub proof fn law_foreign_message_closes(
    c: &mut ControlStream,
    ready: bool,
    message: StreamMessage,
    new: ControlStream,
    r: ControlAction,
)
    requires
        call_ensures(ControlStream::new, (), new),
        call_ensures(
            ControlStream::serve_control_stream_global_requests,
            (c, ControlEvent::Message { ready, message }),
            r,
        ),
    ensures
        new.phase == ControlPhase::Reading && new.in_flight is None && !new.write_failed,
        !(message is GlobalRequest) && old(c).phase == ControlPhase::Reading ==> final(c).phase
            == ControlPhase::Closed && r == if old(c).write_failed {
            ControlAction::Wait
        } else {
            ControlAction::Shutdown
        },
        old(c).phase != ControlPhase::Reading ==> *final(c) == *old(c) && r == ControlAction::Wait,
{
}

/// A control stream is done with once it was closed, or once it has ended and nothing is
/// being handled.
pub proof fn law_control_done(
    c: &mut ControlStream,
    failed: bool,
    r: ControlAction,
    done: Option<bool>,
)
    requires
        call_ensures(
            ControlStream::serve_control_stream_global_requests,
            (
                c,
                if failed {
                    ControlEvent::ReadFailed
                } else {
                    ControlEvent::End
                },
            ),
            r,
        ),
        call_ensures(ControlStream::finished, (&*final(c),), done),
        old(c).phase == ControlPhase::Reading,
        !old(c).write_failed,
    ensures
        r == ControlAction::Wait,
        old(c).in_flight is None ==> done == Some(!failed),
        old(c).in_flight is Some ==> done is None,
{
}

/// Once something could not be written nothing more is, and the stream does not come out
/// well.
pub proof fn law_nothing_written_after_failure(
    c: &mut ControlStream,
    r: ControlAction,
    after: &mut ControlStream,
    event: ControlEvent,
    q: ControlAction,
    done: Option<bool>,
)
    requires
        call_ensures(
            ControlStream::serve_control_stream_global_requests,
            (c, ControlEvent::WriteFailed),
            r,
        ),
        *after == *final(c),
        call_ensures(ControlStream::serve_control_stream_global_requests, (after, event), q),
        call_ensures(ControlStream::finished, (&*final(after),), done),
    ensures
        r == ControlAction::Wait,
        !(q is Write) && !(q is Shutdown),
        done is None || done == Some(false),
        final(c).phase == old(c).phase && final(c).in_flight == old(c).in_flight,
{
}

/// A connection that the client opens goes to the host and port that it names, unless the
/// port is none.
pub proof fn law_direct_connection(
    data: &[u8],
    host: Seq<char>,
    port: nat,
    from: Seq<char>,
    from_port: nat,
    rest: Seq<u8>,
    r: Result<ForwardPlan, WireError>,
)
    requires
        call_ensures(direct_tcp::handle_direct_tcp, (data,), r),
        layout::readable(host) && layout::readable(from),
        port < 0x4000_0000_0000_0000 && from_port < 0x4000_0000_0000_0000,
        data@ == layout::text(host) + layout::number(port) + layout::text(from)
            + layout::number(from_port) + rest,
    ensures
        port <= 65535 ==> (r matches Ok(ForwardPlan::Connect { address, consumed }) && address@
            == host + ":"@ + crate::text::decimal(port) && consumed == data@.len() - rest.len()),
        port > 65535 ==> (r matches Ok(
            ForwardPlan::Refuse(StreamMessage::ChannelOpenFailure { reason_code, description }),
        ) && reason_code == 2),
{
    let fs = seq![
        WireField::Text(host),
        WireField::Number(port),
        WireField::Text(from),
        WireField::Number(from_port),
    ];
    let ks = wire::DirectTcpRequest::kinds();
    reveal_with_fuel(wire::fields_bytes, 5);
    assert(wire::field_accepted(fs[0]) && wire::is_kind(fs[0], ks[0]));
    layout::lemma_field(fs[0]);
    assert(wire::field_accepted(fs[1]) && wire::is_kind(fs[1], ks[1]));
    layout::lemma_field(fs[1]);
    assert(wire::field_accepted(fs[2]) && wire::is_kind(fs[2], ks[2]));
    layout::lemma_field(fs[2]);
    assert(wire::field_accepted(fs[3]) && wire::is_kind(fs[3], ks[3]));
    layout::lemma_field(fs[3]);
    assert(wire::fields_bytes(fs, 0) + rest =~= data@);
    wire::lemma_fields_roundtrip(fs, ks, 0, rest);
    assert(fs.subrange(0, 4) =~= fs);
}

/// A connection to a socket goes to the socket that the client names.
pub proof fn law_direct_socket(
    data: &[u8],
    path: Seq<char>,
    reserved: Seq<char>,
    n: nat,
    rest: Seq<u8>,
    r: Result<(String, usize), WireError>,
)
    requires
        call_ensures(streamlocal::handle_direct_streamlocal, (data,), r),
        layout::readable(path) && layout::readable(reserved),
        n < 0x4000_0000_0000_0000,
        data@ == layout::text(path) + layout::text(reserved) + layout::number(n) + rest,
    ensures
        r matches Ok((p, consumed)) && p@ == path && consumed == data@.len() - rest.len(),
{
    let fs = seq![WireField::Text(path), WireField::Text(reserved), WireField::Number(n)];
    let ks = wire::DirectStreamlocalRequest::kinds();
    reveal_with_fuel(wire::fields_bytes, 4);
    assert(wire::field_accepted(fs[0]) && wire::is_kind(fs[0], ks[0]));
    layout::lemma_field(fs[0]);
    assert(wire::field_accepted(fs[1]) && wire::is_kind(fs[1], ks[1]));
    layout::lemma_field(fs[1]);
    assert(wire::field_accepted(fs[2]) && wire::is_kind(fs[2], ks[2]));
    layout::lemma_field(fs[2]);
    assert(wire::fields_bytes(fs, 0) + rest =~= data@);
    wire::lemma_fields_roundtrip(fs, ks, 0, rest);
    assert(fs.subrange(0, 3) =~= fs);
}

/// A number is a port exactly where it is one, and is never cut down.
pub proof fn law_port_kept(n: u64, m: u32, name: &str, r: Result<u16, String>, s: Result<u16,
    String>)
    requires
        call_ensures(direct_tcp::validate_port, (n, name), r),
        call_ensures(channel::validate_global_request_port, (m,), s),
    ensures
        r is Ok <==> n <= 65535,
        r matches Ok(p) ==> p == n,
        s is Ok <==> m <= 65535,
        s matches Ok(p) ==> p == m,
{
}

/// The client is told that the connection was made where it was, and that it failed where
/// it did.
pub proof fn law_connection_told(connected: bool, r: StreamMessage)
    requires
        call_ensures(direct_tcp::connect_reply, (connected,), r),
    ensures
        connected ==> r == (StreamMessage::ChannelOpenConfirmation { max_message_size: 0x10_0000 }),
        !connected ==> (r matches StreamMessage::ChannelOpenFailure { reason_code, description }
            && reason_code == 2 && description@ == "connect failed"@),
{
}

/// A channel that is not served is refused for its type.
pub proof fn law_unserved_channel_refused(a: StreamMessage, b: StreamMessage)
    requires
        call_ensures(channel::handle_unknown_channel, (), a),
        call_ensures(channel::reject_legacy_global_request_channel, (), b),
    ensures
        a matches StreamMessage::ChannelOpenFailure { reason_code, description }
            && reason_code == 3,
        b matches StreamMessage::ChannelOpenFailure { reason_code, description }
            && reason_code == 3,
{
}

proof fn lemma_regrouped(a: Seq<u8>, b: Seq<u8>, c: Seq<u8>, d: Seq<u8>, e: Seq<u8>)
    ensures
        a + (b + c + d + e) == a + b + c + d + e,
{
    assert(a + (b + c + d + e) =~= a + b + c + d + e);
}

proof fn lemma_opening(conversation: u64, channel_type: Seq<char>, size: u64)
    requires
        conversation < 0x4000_0000_0000_0000,
        size < 0x4000_0000_0000_0000,
        channel_type == "forwarded-tcpip"@ || channel_type == "forwarded-streamlocal@openssh.com"@,
    ensures
        ({
            let h = codec::HeaderFields {
                conversation_id: conversation,
                channel_type,
                max_message_size: size,
            };
            &&& codec::header_fits(h)
            &&& codec::header_bytes(h) == stream::header(
                conversation as nat,
                channel_type,
                size as nat,
            )
        }),
{
    reveal_strlit("forwarded-tcpip");
    reveal_strlit("forwarded-streamlocal@openssh.com");
    is_ascii_chars_encode_utf8(channel_type);
    stream::lemma_header(
        codec::HeaderFields {
            conversation_id: conversation,
            channel_type,
            max_message_size: size,
        },
    );
}

proof fn lemma_tcpip_layout(q: &ForwardedTcpipRequest)
    requires
        encode_utf8(q.connected_address@).len() < 0x4000_0000_0000_0000,
        encode_utf8(q.originator_address@).len() < 0x4000_0000_0000_0000,
        q.connected_port < 0x4000_0000_0000_0000 && q.originator_port < 0x4000_0000_0000_0000,
    ensures
        wire::all_fit(q.fields()),
        wire::fields_bytes(q.fields(), 0) == layout::text(q.connected_address@) + layout::number(
            q.connected_port as nat,
        ) + layout::text(q.originator_address@) + layout::number(q.originator_port as nat),
{
    let fs = q.fields();
    reveal_with_fuel(wire::fields_bytes, 5);
    layout::lemma_field(fs[0]);
    layout::lemma_field(fs[1]);
    layout::lemma_field(fs[2]);
    layout::lemma_field(fs[3]);
    assert(wire::fields_bytes(fs, 0) =~= layout::text(q.connected_address@) + layout::number(
        q.connected_port as nat,
    ) + layout::text(q.originator_address@) + layout::number(q.originator_port as nat));
}

/// A connection that came in is offered to its conversation with where it came in and
/// where it came from.
pub proof fn law_incoming_connection_offered(
    conversation: u64,
    q: &ForwardedTcpipRequest,
    r: Option<Vec<u8>>,
)
    requires
        call_ensures(reverse_tcp::forwarded_tcpip_opening, (conversation, q), r),
        conversation < 0x4000_0000_0000_0000,
        encode_utf8(q.connected_address@).len() < 0x4000_0000_0000_0000,
        encode_utf8(q.originator_address@).len() < 0x4000_0000_0000_0000,
        q.connected_port < 0x4000_0000_0000_0000 && q.originator_port < 0x4000_0000_0000_0000,
    ensures
        r matches Some(b) && b@ == stream::header(conversation as nat, "forwarded-tcpip"@,
            0x10_0000)
            + layout::text(q.connected_address@) + layout::number(q.connected_port as nat)
            + layout::text(
            q.originator_address@,
        ) + layout::number(q.originator_port as nat),
{
    lemma_tcpip_layout(q);
    lemma_opening(conversation, "forwarded-tcpip"@, 0x10_0000);
    let a = stream::header(conversation as nat, "forwarded-tcpip"@, 0x10_0000);
    let b = layout::text(q.connected_address@);
    let c = layout::number(q.connected_port as nat);
    let d = layout::text(q.originator_address@);
    let e = layout::number(q.originator_port as nat);
    lemma_regrouped(a, b, c, d, e);
}

/// A connection that came in at a socket is offered with that socket.
pub proof fn law_incoming_socket_offered(
    conversation: u64,
    q: &ForwardedStreamlocalRequest,
    r: Option<Vec<u8>>,
)
    requires
        call_ensures(streamlocal::forwarded_streamlocal_opening, (conversation, q), r),
        conversation < 0x4000_0000_0000_0000,
        encode_utf8(q.socket_path@).len() < 0x4000_0000_0000_0000,
        encode_utf8(q.reserved@).len() < 0x4000_0000_0000_0000,
    ensures
        r matches Some(b) && b@ == stream::header(
            conversation as nat,
            "forwarded-streamlocal@openssh.com"@,
            0x10_0000,
        ) + layout::text(q.socket_path@) + layout::text(q.reserved@),
{
    let fs = q.fields();
    reveal_with_fuel(wire::fields_bytes, 3);
    layout::lemma_field(fs[0]);
    layout::lemma_field(fs[1]);
    let b = layout::text(q.socket_path@);
    let c = layout::text(q.reserved@);
    assert(wire::fields_bytes(fs, 0) =~= b + c);
    lemma_opening(conversation, "forwarded-streamlocal@openssh.com"@, 0x10_0000);
    let a = stream::header(conversation as nat, "forwarded-streamlocal@openssh.com"@, 0x10_0000);
    assert(a + (b + c) =~= a + b + c);
}

/// Bytes are passed only once the client has accepted the connection.
pub proof fn law_bridged_once_accepted(m: &StreamMessage, r: ForwardedAnswer)
    requires
        call_ensures(reverse_tcp::forwarded_answer, (m,), r),
    ensures
        r == ForwardedAnswer::Bridge <==> *m is ChannelOpenConfirmation,
        r == ForwardedAnswer::Close <==> *m is ChannelOpenFailure,
{
}

/// Every connection of a listener is given up with the listener, and one that comes after
/// that at once.
pub proof fn law_connections_end_with_listener<H>(
    added: &mut TrackedConnectionTasks<H>,
    first: H,
    kept: Option<H>,
    ended: &mut TrackedConnectionTasks<H>,
    all: Vec<H>,
    late: &mut TrackedConnectionTasks<H>,
    second: H,
    refused: Option<H>,
    new: TrackedConnectionTasks<H>,
)
    requires
        call_ensures(TrackedConnectionTasks::<H>::new, (), new),
        *added == new,
        call_ensures(
            TrackedConnectionTasks::<H>::register_tracked_connection,
            (added, first),
            kept,
        ),
        *ended == *final(added),
        call_ensures(TrackedConnectionTasks::<H>::abort_tracked_connections, (ended,), all),
        *late == *final(ended),
        call_ensures(
            TrackedConnectionTasks::<H>::register_tracked_connection,
            (late, second),
            refused,
        ),
    ensures
        kept is None,
        all@ == seq![first],
        refused == Some(second),
{
    assert(all@ =~= seq![first]);
}

/// The outcome of a request is told with its own data, or as a failure; a message is taken
/// for a request exactly where it is one.
pub proof fn law_reply_told(
    reply: GlobalRequestReply,
    r: StreamMessage,
    m: StreamMessage,
    q: Option<(String, bool, Vec<u8>)>,
)
    requires
        call_ensures(channel::encode_reply, (reply,), r),
        call_ensures(channel::handle_global_request_channel, (m,), q),
    ensures
        reply matches GlobalRequestReply::Success(data) ==> r == (StreamMessage::RequestSuccess {
            data,
        }),
        reply == GlobalRequestReply::Failure ==> r == StreamMessage::RequestFailure,
        m matches StreamMessage::GlobalRequest { request_type, want_reply, data } ==> q == Some(
            (request_type, want_reply, data),
        ),
        !(m is GlobalRequest) ==> q is None,
{
}

/// A channel that was opened is handed on, and one that was not is an error.
pub proof fn law_channel_handed_on<C>(
    opened: Result<C, TransportError>,
    r: Result<C, SessionError>,
    stage: OpenChannelStage,
    e: TransportError,
)
    requires
        call_ensures(channel::handle_open_channel_request::<C>, (opened,), r),
        call_ensures(channel::open_channel_error, (stage,), e),
    ensures
        opened matches Ok(c) ==> r == Ok::<C, SessionError>(c),
        opened is Err ==> r is Err,
        e matches TransportError::OpenFailed(m) && ({
            &&& stage is OpenStream ==> m@ == "failed to open stream"@
            &&& stage is WriteHeader ==> m@ == "failed to write channel header"@
            &&& stage is FlushHeader ==> m@ == "failed to flush channel header"@
        }),
{
}

/// A table of listeners finds what was put in, until it is taken out by its owner.
pub proof fn law_listeners_kept<T>(
    new: ListenerTable<T>,
    t: &mut ListenerTable<T>,
    l: Listener<T>,
    displaced: Option<Listener<T>>,
    address: &str,
    port: u16,
    before: bool,
    found: bool,
    out: &mut ListenerTable<T>,
    owner: u64,
    taken: Option<Listener<T>>,
    after: bool,
)
    requires
        call_ensures(ListenerTable::<T>::new, (), new),
        *t == new,
        call_ensures(ListenerTable::<T>::contains, (&new, address, port), before),
        call_ensures(ListenerTable::<T>::insert, (t, l), displaced),
        call_ensures(ListenerTable::<T>::contains, (&*final(t), address, port), found),
        *out == *final(t),
        call_ensures(ListenerTable::<T>::remove_owned, (out, address, port, owner), taken),
        call_ensures(ListenerTable::<T>::contains, (&*final(out), address, port), after),
    ensures
        !before && displaced is None,
        found <==> address@ == l.address@ && port == l.port,
        taken is Some <==> found && owner == l.owner,
        taken matches Some(k) ==> k.address@ == l.address@ && k.port == l.port && k.task == l.task,
        after <==> found && owner != l.owner,
{
    let k = (address@, port);
    assert(out@.contains_key(k) <==> k == l.key());
    if k == l.key() {
        assert(out@[k] == (l.owner, l.task));
    }
}

/// A host and a port are joined by a colon.
pub proof fn law_host_and_port(host: &str, port: u16, r: String, digits: String)
    requires
        call_ensures(direct_tcp::join_host_port, (host, port), r),
        call_ensures(crate::text::decimal_string, (port as u64,), digits),
    ensures
        r@ == host@ + ":"@ + digits@,
{
}

/// Connections are kept until the listener is shut down, and none is after that.
pub proof fn law_kept_until_shut_down<H>(
    t: &mut TrackedConnectionTasks<H>,
    h: H,
    r: Option<H>,
    next: &mut TrackedConnectionTasks<H>,
    i: H,
    q: Option<H>,
    ended: &mut TrackedConnectionTasks<H>,
    all: Vec<H>,
    late: &mut TrackedConnectionTasks<H>,
    j: H,
    refused: Option<H>,
    over: &mut TrackedConnectionTasks<H>,
    none: Vec<H>,
)
    requires
        call_ensures(TrackedConnectionTasks::<H>::register_tracked_connection, (t, h), r),
        *next == *final(t),
        call_ensures(TrackedConnectionTasks::<H>::register_tracked_connection, (next, i), q),
        *ended == *final(next),
        call_ensures(TrackedConnectionTasks::<H>::abort_tracked_connections, (ended,), all),
        *late == *final(ended),
        call_ensures(TrackedConnectionTasks::<H>::register_tracked_connection, (late, j), refused),
        *over == *final(late),
        call_ensures(TrackedConnectionTasks::<H>::abort_tracked_connections, (over,), none),
    ensures
        r is None <==> q is None,
        r is Some ==> r == Some(h) && q == Some(i),
        refused == Some(j),
        none@.len() == 0,
{
}

/// A connection that is kept is given up with those that were kept before it, last.
pub proof fn law_connection_kept<H>(
    without: &mut TrackedConnectionTasks<H>,
    all: Vec<H>,
    added: &mut TrackedConnectionTasks<H>,
    h: H,
    r: Option<H>,
    with: &mut TrackedConnectionTasks<H>,
    more: Vec<H>,
)
    requires
        *added == *without,
        call_ensures(TrackedConnectionTasks::<H>::abort_tracked_connections, (without,), all),
        call_ensures(TrackedConnectionTasks::<H>::register_tracked_connection, (added, h), r),
        *with == *final(added),
        call_ensures(TrackedConnectionTasks::<H>::abort_tracked_connections, (with,), more),
    ensures
        r is None ==> more@ == all@.push(h),
        r is Some ==> r == Some(h) && more@ == all@,
{
}

} // verus!
