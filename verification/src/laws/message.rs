//! Messages in CBOR: what they are written as, and that they are read back.

use crate::outside;
use crate::proto::cbor;
use crate::proto::cbor::CborTree;
use crate::proto::codec::{ChannelId, ConversationId, MessageType};
use crate::proto::error::CodecError;
use crate::proto::message;
use crate::proto::message::{
    ChannelDataMsg, ChannelExtendedDataMsg, ChannelOpenFailureReason, ChannelRequestType,
    ChannelRequestView, ChannelType, GlobalRequestView, SshMessage, SshMessageView,
};
use crate::text;
use ciborium::value::Value;
use vstd::prelude::*;
use vstd::string::*;

verus! {

/// The map has so many entries.
pub open spec fn entries(t: CborTree, n: int) -> bool {
    t matches CborTree::Entries(e) && e.len() == n
}

/// The entry of the map at this place has this name and this value.
pub open spec fn entry(t: CborTree, i: int, name: Seq<char>, value: CborTree) -> bool {
    t matches CborTree::Entries(e) && 0 <= i < e.len() && e[i] == (CborTree::Text(name), value)
}

/// What the entry of the map at this place holds, under this name.
pub open spec fn inner(t: CborTree, i: int, name: Seq<char>) -> CborTree {
    if entries(t, (t->Entries_0).len() as int) && t->Entries_0[i].0 == CborTree::Text(name) {
        t->Entries_0[i].1
    } else {
        CborTree::Float
    }
}

/// The value is the list of the bytes.
pub open spec fn list(t: CborTree, b: Seq<u8>) -> bool {
    t matches CborTree::Items(s) && s.len() == b.len() && forall|i: int|
        0 <= i < b.len() ==> #[trigger] s[i] == CborTree::Int(b[i] as int)
}

/// Every message has a type of its own.
pub proof fn law_message_typed(m: &SshMessage, r: u8)
    requires
        call_ensures(SshMessage::message_type, (m,), r),
    ensures
        r == match m {
            SshMessage::GlobalRequest(_) => 80u8,
            SshMessage::GlobalReply(_) => 81u8,
            SshMessage::ChannelOpen(_) => 90u8,
            SshMessage::ChannelOpenConfirmation(_) => 91u8,
            SshMessage::ChannelOpenFailure(_) => 92u8,
            SshMessage::ChannelWindowAdjust(_) => 93u8,
            SshMessage::ChannelData(_) => 94u8,
            SshMessage::ChannelExtendedData(_) => 95u8,
            SshMessage::ChannelEOF(_) => 96u8,
            SshMessage::ChannelClose(_) => 97u8,
            SshMessage::ChannelRequest(_) => 98u8,
            SshMessage::ChannelSuccess(_) => 99u8,
            SshMessage::ChannelFailure(_) => 100u8,
        },
{
}

/// Each message is written as a map with an entry for each of its fields.
pub proof fn law_message_fields(m: &SshMessage, body: Value)
    requires
        call_ensures(SshMessage::body_value, (m,), body),
    ensures
        ({
            let t = cbor::tree_of(body);
            match m {
                SshMessage::ChannelOpen(q) => entries(t, 2) && entry(
                    t,
                    1,
                    "maximum_message_size"@,
                    CborTree::Int(q.maximum_message_size as int),
                ) && ({
                    let kind = inner(t, 0, "channel_type"@);
                    match q.channel_type {
                        ChannelType::Session => kind == CborTree::Text("Session"@),
                        ChannelType::DirectTcp => kind == CborTree::Text("DirectTcp"@),
                        ChannelType::ReverseTcp => kind == CborTree::Text("ReverseTcp"@),
                        ChannelType::DirectUdp => kind == CborTree::Text("DirectUdp"@),
                        ChannelType::ReverseUdp => kind == CborTree::Text("ReverseUdp"@),
                        ChannelType::Other(s) => entries(kind, 1) && entry(
                            kind,
                            0,
                            "Other"@,
                            CborTree::Text(s@),
                        ),
                    }
                }),
                SshMessage::ChannelOpenConfirmation(q) => entries(t, 1) && entry(
                    t,
                    0,
                    "maximum_message_size"@,
                    CborTree::Int(q.maximum_message_size as int),
                ),
                SshMessage::ChannelOpenFailure(q) => entries(t, 2) && entry(
                    t,
                    0,
                    "reason_code"@,
                    CborTree::Int(q.reason_code as int),
                ) && entry(t, 1, "description"@, CborTree::Text(q.description@)),
                SshMessage::ChannelWindowAdjust(q) => entries(t, 1) && entry(
                    t,
                    0,
                    "bytes_to_add"@,
                    CborTree::Int(q.bytes_to_add as int),
                ),
                SshMessage::ChannelData(q) => entries(t, 1) && list(inner(t, 0, "data"@), q.data@),
                SshMessage::ChannelExtendedData(q) => entries(t, 2) && entry(
                    t,
                    0,
                    "data_type_code"@,
                    CborTree::Int(q.data_type_code as int),
                ) && list(inner(t, 1, "data"@), q.data@),
                SshMessage::ChannelRequest(q) => entries(t, 2) && entry(
                    t,
                    0,
                    "want_reply"@,
                    CborTree::Bool(q.want_reply),
                ),
                SshMessage::GlobalRequest(q) => entries(t, 2) && entry(
                    t,
                    0,
                    "want_reply"@,
                    CborTree::Bool(q.want_reply),
                ),
                SshMessage::GlobalReply(q) => entries(t, 2) && entry(
                    t,
                    0,
                    "success"@,
                    CborTree::Bool(q.success),
                ) && entry(
                    t,
                    1,
                    "bound_port"@,
                    match q.bound_port {
                        Some(port) => CborTree::Int(port as int),
                        None => CborTree::Null,
                    },
                ),
                _ => entries(t, 0),
            }
        }),
{
}

/// A request on a channel is written with its name and its fields.
pub proof fn law_channel_request_fields(m: &SshMessage, body: Value)
    requires
        call_ensures(SshMessage::body_value, (m,), body),
    ensures
        m@ matches SshMessageView::ChannelRequest { want_reply, request } ==> ({
            let t = inner(cbor::tree_of(body), 1, "request"@);
            match request {
                ChannelRequestView::Shell => t == CborTree::Text("Shell"@),
                ChannelRequestView::PtyReq {
                    term,
                    width_chars,
                    height_rows,
                    width_px,
                    height_px,
                    modes,
                } => entries(t, 1) && ({
                    let f = inner(t, 0, "PtyReq"@);
                    &&& entries(f, 6)
                    &&& entry(f, 0, "term"@, CborTree::Text(term))
                    &&& entry(f, 1, "width_chars"@, CborTree::Int(width_chars as int))
                    &&& entry(f, 2, "height_rows"@, CborTree::Int(height_rows as int))
                    &&& entry(f, 3, "width_px"@, CborTree::Int(width_px as int))
                    &&& entry(f, 4, "height_px"@, CborTree::Int(height_px as int))
                    &&& list(inner(f, 5, "modes"@), modes)
                }),
                ChannelRequestView::Exec { command } => entries(t, 1) && ({
                    let f = inner(t, 0, "Exec"@);
                    entries(f, 1) && entry(f, 0, "command"@, CborTree::Text(command))
                }),
                ChannelRequestView::Subsystem { subsystem } => entries(t, 1) && ({
                    let f = inner(t, 0, "Subsystem"@);
                    entries(f, 1) && entry(f, 0, "subsystem"@, CborTree::Text(subsystem))
                }),
                ChannelRequestView::WindowChange {
                    width_chars,
                    height_rows,
                    width_px,
                    height_px,
                } => entries(t, 1) && ({
                    let f = inner(t, 0, "WindowChange"@);
                    &&& entries(f, 4)
                    &&& entry(f, 0, "width_chars"@, CborTree::Int(width_chars as int))
                    &&& entry(f, 1, "height_rows"@, CborTree::Int(height_rows as int))
                    &&& entry(f, 2, "width_px"@, CborTree::Int(width_px as int))
                    &&& entry(f, 3, "height_px"@, CborTree::Int(height_px as int))
                }),
                ChannelRequestView::Signal { signal } => entries(t, 1) && ({
                    let f = inner(t, 0, "Signal"@);
                    entries(f, 1) && entry(f, 0, "signal"@, CborTree::Text(signal))
                }),
                ChannelRequestView::ExitStatus { exit_status } => entries(t, 1) && ({
                    let f = inner(t, 0, "ExitStatus"@);
                    entries(f, 1) && entry(f, 0, "exit_status"@, CborTree::Int(exit_status as int))
                }),
                ChannelRequestView::ExitSignal {
                    signal,
                    core_dumped,
                    error_message,
                    language_tag,
                } => entries(t, 1) && ({
                    let f = inner(t, 0, "ExitSignal"@);
                    &&& entries(f, 4)
                    &&& entry(f, 0, "signal"@, CborTree::Text(signal))
                    &&& entry(f, 1, "core_dumped"@, CborTree::Bool(core_dumped))
                    &&& entry(f, 2, "error_message"@, CborTree::Text(error_message))
                    &&& entry(f, 3, "language_tag"@, CborTree::Text(language_tag))
                }),
                ChannelRequestView::Env { name, value } => entries(t, 1) && ({
                    let f = inner(t, 0, "Env"@);
                    &&& entries(f, 2)
                    &&& entry(f, 0, "name"@, CborTree::Text(name))
                    &&& entry(f, 1, "value"@, CborTree::Text(value))
                }),
            }
        }),
{
}

/// A request outside any channel is written with its name and its fields.
pub proof fn law_global_request_fields(m: &SshMessage, body: Value)
    requires
        call_ensures(SshMessage::body_value, (m,), body),
    ensures
        m@ matches SshMessageView::GlobalRequest { want_reply, request } ==> ({
            let t = inner(cbor::tree_of(body), 1, "request"@);
            entries(t, 1) && match request {
                GlobalRequestView::TcpipForward { bind_host, bind_port } => {
                    let f = inner(t, 0, "TcpipForward"@);
                    &&& entries(f, 2)
                    &&& entry(f, 0, "bind_host"@, CborTree::Text(bind_host))
                    &&& entry(f, 1, "bind_port"@, CborTree::Int(bind_port as int))
                },
                GlobalRequestView::CancelTcpipForward { bind_host, bind_port } => {
                    let f = inner(t, 0, "CancelTcpipForward"@);
                    &&& entries(f, 2)
                    &&& entry(f, 0, "bind_host"@, CborTree::Text(bind_host))
                    &&& entry(f, 1, "bind_port"@, CborTree::Int(bind_port as int))
                },
                GlobalRequestView::StreamlocalForward { socket_path } => {
                    let f = inner(t, 0, "StreamlocalForward"@);
                    entries(f, 1) && entry(f, 0, "socket_path"@, CborTree::Text(socket_path))
                },
                GlobalRequestView::CancelStreamlocalForward { socket_path } => {
                    let f = inner(t, 0, "CancelStreamlocalForward"@);
                    entries(f, 1) && entry(f, 0, "socket_path"@, CborTree::Text(socket_path))
                },
            }
        }),
{
}

/// Every message can be written, as its type and then its body, and what is read back from
/// that is the message.
pub proof fn law_message_read_back(
    m: &SshMessage,
    kind: u8,
    body: Value,
    sent: Result<bytes::Bytes, CodecError>,
    data: &[u8],
    r: Result<SshMessage, CodecError>,
    q: Option<SshMessage>,
)
    requires
        call_ensures(SshMessage::message_type, (m,), kind),
        call_ensures(SshMessage::body_value, (m,), body),
        call_ensures(SshMessage::encode, (m,), sent),
        data@ == outside::bytes_content(sent->Ok_0),
        call_ensures(SshMessage::decode, (data,), r),
        call_ensures(SshMessage::from_body, (kind, &body), q),
    ensures
        sent is Ok,
        data@ == seq![kind] + outside::cbor_written(cbor::tree_of(body)),
        r matches Ok(n) && n@ == m@,
        q matches Some(n) && n@ == m@,
{
    message::lemma_body_roundtrip(m@);
}

proof fn lemma_swapped(m: SshMessageView, t: CborTree)
    requires
        message::body_fields(m).len() == 2,
        t == cbor::record_tree(seq![message::body_fields(m)[1], message::body_fields(m)[0]]),
    ensures
        message::message_of(message::type_of_message(m), t) == Some(m),
{
    let fields = message::body_fields(m);
    let swapped = seq![fields[1], fields[0]];
    message::lemma_body_names(m);
    assert(fields[0].0 != fields[1].0);
    assert(cbor::distinct_names(swapped));
    assert forall|k: int| 0 <= k < swapped.len() implies (#[trigger] swapped[k]).0.len()
        <= 100 by {
        assert(swapped[k] == fields[1 - k]);
    }
    assert(cbor::short_names(swapped));
    cbor::lemma_record(swapped);
    let e = t->Entries_0;
    cbor::lemma_record_field(swapped, 0);
    cbor::lemma_record_field(swapped, 1);
    assert(swapped[0].0 == fields[1].0 && swapped[1].0 == fields[0].0);
    match m {
        SshMessageView::ChannelOpen { channel_type, maximum_message_size } => {
            cbor::lemma_record_of_two(swapped, 1);
            message::lemma_channel_type_roundtrip(channel_type, cbor::flat(e.skip(2)));
        },
        SshMessageView::ChannelRequest { want_reply, request } => {
            cbor::lemma_record_of_two(swapped, 0);
            message::lemma_request_roundtrip(request, cbor::flat(e.skip(1)));
        },
        SshMessageView::GlobalRequest { want_reply, request } => {
            cbor::lemma_record_of_two(swapped, 0);
            message::lemma_global_roundtrip(request, cbor::flat(e.skip(1)));
        },
        SshMessageView::ChannelExtendedData { data_type_code, data } => {
            cbor::lemma_octets_roundtrip(data);
        },
        _ => {},
    }
}

/// A message is read from its fields in either order.
pub proof fn law_fields_in_either_order(
    m: &SshMessage,
    kind: u8,
    body: Value,
    v: &Value,
    r: Option<SshMessage>,
)
    requires
        call_ensures(SshMessage::message_type, (m,), kind),
        call_ensures(SshMessage::body_value, (m,), body),
        entries(cbor::tree_of(body), 2),
        cbor::tree_of(*v) == CborTree::Entries(
            seq![cbor::tree_of(body)->Entries_0[1], cbor::tree_of(body)->Entries_0[0]],
        ),
        call_ensures(SshMessage::from_body, (kind, v), r),
    ensures
        r matches Some(n) && n@ == m@,
{
    let fields = message::body_fields(m@);
    let swapped = seq![fields[1], fields[0]];
    assert(cbor::record_tree(swapped)->Entries_0 =~= cbor::tree_of(*v)->Entries_0);
    lemma_swapped(m@, cbor::tree_of(*v));
}

/// Nothing is no message, and what starts with a byte that is no type is none either.
pub proof fn law_no_message_refused(data: &[u8], r: Result<SshMessage, CodecError>)
    requires
        call_ensures(SshMessage::decode, (data,), r),
    ensures
        data@.len() == 0 ==> r == Err::<SshMessage, CodecError>(CodecError::Incomplete),
        data@.len() > 0 && !(90 <= data@[0] <= 100) && data@[0] != 80 && data@[0] != 81 ==> r
            == Err::<SshMessage, CodecError>(CodecError::UnknownMessageType { value: data@[0] }),
        r matches Ok(m) ==> message::type_of_message(m@) == data@[0],
{
}

/// The names of the requests and the numbers of the reasons.
pub proof fn law_names_and_numbers(
    q: &ChannelRequestType,
    name: &'static str,
    f: ChannelOpenFailureReason,
    n: u32,
)
    requires
        call_ensures(ChannelRequestType::request_type_str, (q,), name),
        call_ensures(ChannelOpenFailureReason::code, (f,), n),
    ensures
        q is PtyReq ==> name@ == "pty-req"@,
        q is Shell ==> name@ == "shell"@,
        q is Exec ==> name@ == "exec"@,
        q is Subsystem ==> name@ == "subsystem"@,
        q is WindowChange ==> name@ == "window-change"@,
        q is Signal ==> name@ == "signal"@,
        q is ExitStatus ==> name@ == "exit-status"@,
        q is ExitSignal ==> name@ == "exit-signal"@,
        q is Env ==> name@ == "env"@,
        f is AdministrativelyProhibited ==> n == 1,
        f is ConnectFailed ==> n == 2,
        f is UnknownChannelType ==> n == 3,
        f is ResourceShortage ==> n == 4,
{
}

/// The names of the kinds of channels.
pub proof fn law_channel_types_named(t: &ChannelType, name: &str)
    requires
        call_ensures(ChannelType::as_str, (t,), name),
    ensures
        t is Session ==> name@ == "session"@,
        t is DirectTcp ==> name@ == "direct-tcp"@,
        t is ReverseTcp ==> name@ == "reverse-tcp"@,
        t is DirectUdp ==> name@ == "direct-udp"@,
        t is ReverseUdp ==> name@ == "reverse-udp"@,
        t matches ChannelType::Other(s) ==> name@ == s@,
{
}

/// A kind of channel is found by its name, and one that is not known here keeps its name.
pub proof fn law_channel_type_of_name(
    s: &str,
    t: ChannelType,
    name: &str,
    owned: String,
    u: ChannelType,
)
    requires
        call_ensures(<ChannelType as From<&str>>::from, (s,), t),
        call_ensures(ChannelType::as_str, (&t,), name),
        owned@ == s@,
        call_ensures(<ChannelType as From<String>>::from, (owned,), u),
    ensures
        name@ == s@,
        t is Session <==> s@ == "session"@,
        t is DirectTcp <==> s@ == "direct-tcp"@,
        t is ReverseTcp <==> s@ == "reverse-tcp"@,
        t is DirectUdp <==> s@ == "direct-udp"@,
        t is ReverseUdp <==> s@ == "reverse-udp"@,
        u@ == t@,
{
    message::lemma_channel_type_name_kept(s@);
    reveal_strlit("session");
    reveal_strlit("direct-tcp");
    reveal_strlit("reverse-tcp");
    reveal_strlit("direct-udp");
    reveal_strlit("reverse-udp");
    assert("session"@.len() == 7);
    assert("direct-tcp"@.len() == 10);
    assert("reverse-tcp"@.len() == 11);
    assert("direct-tcp"@[7] != "direct-udp"@[7]);
    assert("reverse-tcp"@[8] != "reverse-udp"@[8]);
}

/// A number that tells something apart is its number, as text after a short name, and as a
/// value, from which it is read back.
pub proof fn law_identifiers(
    n: u64,
    c: ConversationId,
    inner_c: u64,
    digits: String,
    text_c: String,
    value_c: Value,
    back_c: Option<ConversationId>,
    k: u32,
    h: ChannelId,
    inner_h: u32,
    digits_h: String,
    text_h: String,
    value_h: Value,
    back_h: Option<ChannelId>,
)
    requires
        call_ensures(ConversationId::new, (n,), c),
        call_ensures(ConversationId::into_inner, (c,), inner_c),
        call_ensures(text::decimal_string, (n,), digits),
        call_ensures(ConversationId::to_string, (&c,), text_c),
        call_ensures(ConversationId::to_value, (&c,), value_c),
        call_ensures(ConversationId::from_value, (&value_c,), back_c),
        call_ensures(ChannelId::new, (k,), h),
        call_ensures(ChannelId::into_inner, (h,), inner_h),
        call_ensures(text::decimal_string, (k as u64,), digits_h),
        call_ensures(ChannelId::to_string, (&h,), text_h),
        call_ensures(ChannelId::to_value, (&h,), value_h),
        call_ensures(ChannelId::from_value, (&value_h,), back_h),
    ensures
        inner_c == n && inner_h == k,
        text_c@ == "conv:"@ + digits@,
        text_h@ == "ch:"@ + digits_h@,
        cbor::tree_of(value_c) == CborTree::Int(n as int),
        cbor::tree_of(value_h) == CborTree::Int(k as int),
        back_c matches Some(d) && d@ == n,
        back_h matches Some(d) && d@ == k,
{
}

/// The names of the types of messages.
pub proof fn law_message_types_named(v: u8, t: MessageType, inner_t: u8, digits: String, r: String)
    requires
        call_ensures(MessageType::new, (v,), t),
        call_ensures(MessageType::into_inner, (t,), inner_t),
        call_ensures(text::decimal_string, (v as u64,), digits),
        call_ensures(MessageType::to_string, (&t,), r),
    ensures
        inner_t == v,
        v == 90 ==> r@ == "CHANNEL_OPEN"@,
        v == 91 ==> r@ == "CHANNEL_OPEN_CONFIRMATION"@,
        v == 92 ==> r@ == "CHANNEL_OPEN_FAILURE"@,
        v == 93 ==> r@ == "CHANNEL_WINDOW_ADJUST"@,
        v == 94 ==> r@ == "CHANNEL_DATA"@,
        v == 95 ==> r@ == "CHANNEL_EXTENDED_DATA"@,
        v == 96 ==> r@ == "CHANNEL_EOF"@,
        v == 97 ==> r@ == "CHANNEL_CLOSE"@,
        v == 98 ==> r@ == "CHANNEL_REQUEST"@,
        v == 99 ==> r@ == "CHANNEL_SUCCESS"@,
        v == 100 ==> r@ == "CHANNEL_FAILURE"@,
        v < 90 || v > 100 ==> r@ == "MSG("@ + digits@ + ")"@,
{
}

/// The types have the numbers of the SSH connection protocol, and standard error is the
/// stream with the number one.
pub proof fn law_types_numbered()
    ensures
        MessageType::CHANNEL_OPEN == 90 && MessageType::CHANNEL_OPEN_CONFIRMATION == 91
            && MessageType::CHANNEL_OPEN_FAILURE == 92 && MessageType::CHANNEL_WINDOW_ADJUST == 93,
        MessageType::CHANNEL_DATA == 94 && MessageType::CHANNEL_EXTENDED_DATA == 95
            && MessageType::CHANNEL_EOF == 96 && MessageType::CHANNEL_CLOSE == 97,
        MessageType::CHANNEL_REQUEST == 98 && MessageType::CHANNEL_SUCCESS == 99
            && MessageType::CHANNEL_FAILURE == 100,
        message::MSG_GLOBAL_REQUEST == 80 && message::MSG_GLOBAL_REPLY == 81,
        ChannelExtendedDataMsg::STDERR == 1,
{
}

/// What a data message carries is what was put in.
pub proof fn law_data_carried(data: Vec<u8>, m: ChannelDataMsg, r: bytes::Bytes)
    requires
        call_ensures(ChannelDataMsg::new, (data,), m),
        call_ensures(ChannelDataMsg::bytes, (&m,), r),
    ensures
        m.data == data,
        outside::bytes_content(r) == data@,
{
}

} // verus!
