//! The messages on a stream, and the header that a stream starts with.

use crate::laws::fields;
use crate::laws::wire as layout;
use crate::proto::codec;
use crate::proto::codec::{
    ChannelHeaderDecodeError, ChannelHeaderEncodeError, ChannelStreamHeader, ConversationId,
};
use crate::proto::varint;
use crate::proto::wire;
use crate::proto::wire::{FieldKind, WireError, WireField};
use crate::server::error::ServerError;
use crate::server::message;
use crate::server::message::{StreamMessage, StreamMessageError};
use crate::server::protocol::{ConversationState, Ssh3Protocol, StreamVerdict};
use vstd::prelude::*;
use vstd::string::*;
use vstd::utf8::*;

verus! {

/// What a message is written as.
pub open spec fn written(m: StreamMessage) -> Seq<u8> {
    match m {
        StreamMessage::GlobalRequest { request_type, want_reply, data } => layout::number(80)
            + layout::text(
            request_type@,
        ) + layout::flag(want_reply) + layout::octets(data@),
        StreamMessage::RequestSuccess { data } => layout::number(81) + layout::octets(data@),
        StreamMessage::RequestFailure => layout::number(82),
        StreamMessage::ChannelOpenConfirmation { max_message_size } => layout::number(91)
            + layout::number(
            max_message_size as nat,
        ),
        StreamMessage::ChannelOpenFailure { reason_code, description } => layout::number(92)
            + layout::number(
            reason_code as nat,
        ) + layout::text(description@),
        StreamMessage::ChannelData { data } => layout::number(94) + layout::octets(data@),
        StreamMessage::ChannelExtendedData { data_type, data } => layout::number(95)
            + layout::number(
            data_type as nat,
        ) + layout::octets(data@),
        StreamMessage::ChannelEof => layout::number(96),
        StreamMessage::ChannelClose => layout::number(97),
        StreamMessage::ChannelRequest { request_type, want_reply, data } => layout::number(98)
            + layout::text(
            request_type@,
        ) + layout::flag(want_reply) + layout::octets(data@),
        StreamMessage::ChannelSuccess => layout::number(99),
        StreamMessage::ChannelFailure => layout::number(100),
    }
}

/// The texts and byte strings of a message are at most so long, and its numbers can be
/// written.
pub open spec fn within(m: StreamMessage, longest: nat) -> bool {
    match m {
        StreamMessage::GlobalRequest { request_type, want_reply, data } => encode_utf8(
            request_type@,
        ).len() <= longest && data@.len() <= longest,
        StreamMessage::RequestSuccess { data } => data@.len() <= longest,
        StreamMessage::ChannelOpenConfirmation { max_message_size } => max_message_size
            < 0x4000_0000_0000_0000,
        StreamMessage::ChannelOpenFailure { reason_code, description } => reason_code
            < 0x4000_0000_0000_0000 && encode_utf8(description@).len() <= longest,
        StreamMessage::ChannelData { data } => data@.len() <= longest,
        StreamMessage::ChannelExtendedData { data_type, data } => data_type < 0x4000_0000_0000_0000
            && data@.len() <= longest,
        StreamMessage::ChannelRequest { request_type, want_reply, data } => encode_utf8(
            request_type@,
        ).len() <= longest && data@.len() <= longest,
        _ => true,
    }
}

/// The two messages say the same.
pub open spec fn same(a: StreamMessage, b: StreamMessage) -> bool {
    match (a, b) {
        (
            StreamMessage::GlobalRequest { request_type, want_reply, data },
            StreamMessage::GlobalRequest { request_type: t, want_reply: w, data: d },
        ) => request_type@ == t@ && want_reply == w && data@ == d@,
        (
            StreamMessage::RequestSuccess { data },
            StreamMessage::RequestSuccess { data: d },
        ) => data@ == d@,
        (StreamMessage::RequestFailure, StreamMessage::RequestFailure) => true,
        (
            StreamMessage::ChannelOpenConfirmation { max_message_size },
            StreamMessage::ChannelOpenConfirmation { max_message_size: n },
        ) => max_message_size == n,
        (
            StreamMessage::ChannelOpenFailure { reason_code, description },
            StreamMessage::ChannelOpenFailure { reason_code: n, description: t },
        ) => reason_code == n && description@ == t@,
        (StreamMessage::ChannelData { data },
            StreamMessage::ChannelData { data: d }) => data@ == d@,
        (
            StreamMessage::ChannelExtendedData { data_type, data },
            StreamMessage::ChannelExtendedData { data_type: n, data: d },
        ) => data_type == n && data@ == d@,
        (StreamMessage::ChannelEof, StreamMessage::ChannelEof) => true,
        (StreamMessage::ChannelClose, StreamMessage::ChannelClose) => true,
        (
            StreamMessage::ChannelRequest { request_type, want_reply, data },
            StreamMessage::ChannelRequest { request_type: t, want_reply: w, data: d },
        ) => request_type@ == t@ && want_reply == w && data@ == d@,
        (StreamMessage::ChannelSuccess, StreamMessage::ChannelSuccess) => true,
        (StreamMessage::ChannelFailure, StreamMessage::ChannelFailure) => true,
        _ => false,
    }
}

proof fn lemma_written(m: StreamMessage)
    requires
        within(m, 0x3fff_ffff_ffff_ffff),
    ensures
        wire::all_fit(m.fields()),
        message::message_bytes(m.code(), m.fields()) == written(m),
{
    let fs = seq![WireField::Number(m.code())] + m.fields();
    reveal_with_fuel(wire::fields_bytes, 5);
    layout::lemma_field(fs[0]);
    if fs.len() > 1 {
        assert(fs[1] == m.fields()[0]);
        layout::lemma_field(fs[1]);
    }
    if fs.len() > 2 {
        assert(fs[2] == m.fields()[1]);
        layout::lemma_field(fs[2]);
    }
    if fs.len() > 3 {
        assert(fs[3] == m.fields()[2]);
        layout::lemma_field(fs[3]);
    }
    assert(message::message_bytes(m.code(), m.fields()) =~= written(m));
}

/// Each message is written as its number and its fields, and always can be where they are
/// not too large.
pub proof fn law_message_written(m: &StreamMessage, r: Option<Vec<u8>>)
    requires
        call_ensures(StreamMessage::encode, (m,), r),
        within(*m, 0x3fff_ffff_ffff_ffff),
    ensures
        r matches Some(b) && b@ == written(*m),
{
    lemma_written(*m);
}

/// Each message is read back from what it is written as, whatever follows it.
pub proof fn law_message_read(
    data: &[u8],
    m: StreamMessage,
    rest: Seq<u8>,
    r: Result<(StreamMessage, usize), StreamMessageError>,
)
    requires
        call_ensures(StreamMessage::decode, (data,), r),
        within(m, 0x10_0000),
        data@ == written(m) + rest,
    ensures
        r matches Ok((q, n)) && same(q, m) && n == written(m).len(),
{
    lemma_written(m);
    assert(wire::all_accepted(m.fields()));
    m.lemma_roundtrip(rest);
    let (q, n) = r->Ok_0;
    assert(q.code() == m.code() && q.fields() == m.fields());
    if m.fields().len() > 0 {
        assert(q.fields()[0] == m.fields()[0]);
    }
    if m.fields().len() > 1 {
        assert(q.fields()[1] == m.fields()[1]);
    }
    if m.fields().len() > 2 {
        assert(q.fields()[2] == m.fields()[2]);
    }
    assert(data@.subrange(n as int, data@.len() as int).len() == rest.len());
}

proof fn lemma_accepted(m: StreamMessage)
    requires
        within(m, 0x10_0000),
    ensures
        wire::all_accepted(m.fields()),
        message::message_kinds(m.code()) is Some,
        wire::are_kinds(m.fields(), message::message_kinds(m.code())->0),
{
}

proof fn lemma_message_in_part(code: nat, fs: Seq<WireField>, kinds: Seq<FieldKind>, data: Seq<u8>,
    k: int)
    requires
        code <= 100,
        message::message_kinds(code) == Some(kinds),
        wire::all_accepted(fs),
        wire::are_kinds(fs, kinds),
        0 <= k < message::message_bytes(code, fs).len(),
        data == message::message_bytes(code, fs).subrange(0, k),
    ensures
        message::take_message(data) == Err::<(nat, Seq<WireField>, Seq<u8>), StreamMessageError>(
            StreamMessageError::Field(WireError::Incomplete),
        ),
{
    message::lemma_message_bytes(code, fs);
    let any = FieldKind::Number(0xffff_ffff_ffff_ffff);
    let head = WireField::Number(code);
    let first = wire::field_bytes(head);
    if k < first.len() {
        assert(data =~= first.subrange(0, k));
        fields::lemma_field_in_part(head, any, k);
    } else {
        let tail = wire::fields_bytes(fs, 0).subrange(0, k - first.len());
        assert(data =~= first + tail);
        wire::lemma_field_roundtrip(head, any, tail);
        fields::lemma_fields_in_part(fs, kinds, 0, k - first.len());
    }
}

/// A message of which only a part has come is incomplete.
pub proof fn law_message_in_part(
    data: &[u8],
    m: StreamMessage,
    k: int,
    r: Result<(StreamMessage, usize), StreamMessageError>,
)
    requires
        call_ensures(StreamMessage::decode, (data,), r),
        within(m, 0x10_0000),
        0 <= k < written(m).len(),
        data@ == written(m).subrange(0, k),
    ensures
        r == Err::<(StreamMessage, usize), StreamMessageError>(
            StreamMessageError::Field(WireError::Incomplete),
        ),
{
    lemma_written(m);
    lemma_accepted(m);
    lemma_message_in_part(m.code(), m.fields(), message::message_kinds(m.code())->0, data@, k);
}

/// A message with data or a text that says it is longer than a mebibyte is refused.
pub proof fn law_long_message_refused(
    data: &[u8],
    code: nat,
    length: nat,
    rest: Seq<u8>,
    r: Result<(StreamMessage, usize), StreamMessageError>,
)
    requires
        call_ensures(StreamMessage::decode, (data,), r),
        code == 80 || code == 81 || code == 94 || code == 98,
        length > 0x10_0000,
        layout::can_be_written(length),
        data@ == layout::number(code) + (layout::number(length) + rest),
    ensures
        r == Err::<(StreamMessage, usize), StreamMessageError>(
            StreamMessageError::Field(WireError::FieldTooLarge { length: length as u64 }),
        ),
{
    layout::lemma_number(code);
    layout::lemma_number(length);
    varint::lemma_varint_roundtrip(code, layout::number(length) + rest);
    varint::lemma_varint_roundtrip(length, rest);
}

/// A message with a number that is none of a message is refused, by that number.
pub proof fn law_unknown_message_refused(
    data: &[u8],
    n: nat,
    rest: Seq<u8>,
    r: Result<(StreamMessage, usize), StreamMessageError>,
)
    requires
        call_ensures(StreamMessage::decode, (data,), r),
        layout::can_be_written(n),
        data@ == layout::number(n) + rest,
        !(80 <= n <= 82) && !(91 <= n <= 92) && !(94 <= n <= 100),
    ensures
        r == Err::<(StreamMessage, usize), StreamMessageError>(
            StreamMessageError::UnknownMessageType(n as u64),
        ),
{
    layout::lemma_number(n);
    varint::lemma_varint_roundtrip(n, rest);
}

/// The header of a channel stream.
pub open spec fn header(conversation: nat, channel_type: Seq<char>, size: nat) -> Seq<u8> {
    layout::number(0xaf36_27e6) + layout::number(conversation) + layout::text(channel_type)
        + layout::number(size)
}

/// A header with numbers that are not too large can be written, and is laid out so.
pub proof fn lemma_header(h: codec::HeaderFields)
    requires
        h.conversation_id < 0x4000_0000_0000_0000,
        encode_utf8(h.channel_type).len() < 0x4000_0000_0000_0000,
        h.max_message_size < 0x4000_0000_0000_0000,
    ensures
        codec::header_fits(h),
        codec::header_bytes(h) == header(
            h.conversation_id as nat,
            h.channel_type,
            h.max_message_size as nat,
        ),
{
    layout::lemma_number(0xaf36_27e6);
    layout::lemma_number(h.conversation_id as nat);
    layout::lemma_number(encode_utf8(h.channel_type).len());
    layout::lemma_number(h.max_message_size as nat);
    assert(codec::header_bytes(h) =~= header(
        h.conversation_id as nat,
        h.channel_type,
        h.max_message_size as nat,
    ));
}

/// A header is written as the signal, the conversation, the type and the largest size.
pub proof fn law_header_written(
    h: &ChannelStreamHeader,
    id: u64,
    r: Result<Vec<u8>, ChannelHeaderEncodeError>,
)
    requires
        call_ensures(ChannelStreamHeader::encode_to_vec, (h,), r),
        call_ensures(ConversationId::into_inner, (h.conversation_id,), id),
        id < 0x4000_0000_0000_0000,
        encode_utf8(h.channel_type@).len() < 0x4000_0000_0000_0000,
        h.max_message_size < 0x4000_0000_0000_0000,
    ensures
        r matches Ok(b) && b@ == header(id as nat, h.channel_type@, h.max_message_size as nat),
{
    lemma_header(h@);
}

/// What holds a number that is too large for the wire is not written at all.
pub proof fn law_too_large_not_written(
    h: &ChannelStreamHeader,
    id: u64,
    r: Result<Vec<u8>, ChannelHeaderEncodeError>,
    m: &StreamMessage,
    q: Option<Vec<u8>>,
)
    requires
        call_ensures(ChannelStreamHeader::encode_to_vec, (h,), r),
        call_ensures(ConversationId::into_inner, (h.conversation_id,), id),
        call_ensures(StreamMessage::encode, (m,), q),
    ensures
        id >= 0x4000_0000_0000_0000 || h.max_message_size >= 0x4000_0000_0000_0000 ==> r is Err,
        *m matches StreamMessage::ChannelOpenConfirmation { max_message_size } && max_message_size
            >= 0x4000_0000_0000_0000 ==> q is None,
        *m matches StreamMessage::ChannelOpenFailure { reason_code, description } && reason_code
            >= 0x4000_0000_0000_0000 ==> q is None,
        *m matches StreamMessage::ChannelExtendedData { data_type, data } && data_type
            >= 0x4000_0000_0000_0000 ==> q is None,
{
    if m is ChannelOpenConfirmation || m is ChannelOpenFailure || m is ChannelExtendedData {
        assert(m.fields()[0] is Number);
        if q is Some {
            assert(wire::field_fits(m.fields()[0]));
        }
    }
}

/// A header is read back from what it is written as, whatever follows it.
pub proof fn law_header_read(
    data: &[u8],
    conversation: u64,
    channel_type: Seq<char>,
    size: u64,
    rest: Seq<u8>,
    r: Result<(ChannelStreamHeader, usize), ChannelHeaderDecodeError>,
)
    requires
        call_ensures(ChannelStreamHeader::decode_from_slice, (data,), r),
        conversation < 0x4000_0000_0000_0000,
        encode_utf8(channel_type).len() < 0x4000_0000_0000_0000,
        size < 0x4000_0000_0000_0000,
        data@ == header(conversation as nat, channel_type, size as nat) + rest,
    ensures
        r matches Ok((h, n)) && h.conversation_id@ == conversation && h.channel_type@
            == channel_type && h.max_message_size == size && n == data@.len() - rest.len(),
{
    let h = codec::HeaderFields {
        conversation_id: conversation,
        channel_type,
        max_message_size: size,
    };
    lemma_header(h);
    codec::lemma_header_roundtrip(h, rest);
    let (found, n) = r->Ok_0;
    assert(data@.subrange(n as int, data@.len() as int).len() == rest.len());
}

/// A header of which only a part is there is incomplete.
pub proof fn law_part_of_header(
    data: &[u8],
    conversation: u64,
    channel_type: Seq<char>,
    size: u64,
    k: int,
    r: Result<(ChannelStreamHeader, usize), ChannelHeaderDecodeError>,
)
    requires
        call_ensures(ChannelStreamHeader::decode_from_slice, (data,), r),
        conversation < 0x4000_0000_0000_0000,
        encode_utf8(channel_type).len() < 0x4000_0000_0000_0000,
        size < 0x4000_0000_0000_0000,
        0 <= k < header(conversation as nat, channel_type, size as nat).len(),
        data@ == header(conversation as nat, channel_type, size as nat).subrange(0, k),
    ensures
        r == Err::<(ChannelStreamHeader, usize), ChannelHeaderDecodeError>(
            ChannelHeaderDecodeError::Incomplete,
        ),
{
    let h = codec::HeaderFields {
        conversation_id: conversation,
        channel_type,
        max_message_size: size,
    };
    lemma_header(h);
    codec::lemma_header_truncated(h, k);
}

/// What starts with another number than the signal is no header, and is refused by that
/// number.
pub proof fn law_other_signal_refused(
    data: &[u8],
    n: nat,
    rest: Seq<u8>,
    r: Result<(ChannelStreamHeader, usize), ChannelHeaderDecodeError>,
)
    requires
        call_ensures(ChannelStreamHeader::decode_from_slice, (data,), r),
        layout::can_be_written(n),
        n != 0xaf36_27e6,
        data@ == layout::number(n) + rest,
    ensures
        r == Err::<(ChannelStreamHeader, usize), ChannelHeaderDecodeError>(
            ChannelHeaderDecodeError::InvalidSignal { got: n as u64 },
        ),
{
    layout::lemma_number(n);
    varint::lemma_varint_roundtrip(n, rest);
}

proof fn lemma_bad_name(s2: Seq<u8>, conversation: nat, name: Seq<u8>, rest: Seq<u8>)
    requires
        conversation < 0x4000_0000_0000_0000,
        name.len() < 0x4000_0000_0000_0000,
        s2 == codec::length_prefixed(name) + rest,
        !valid_utf8(name),
    ensures
        codec::take_header(
            varint::varint_bytes(0xaf36_27e6) + (varint::varint_bytes(conversation) + s2),
        ) == Err::<(codec::HeaderFields, Seq<u8>), ChannelHeaderDecodeError>(
            ChannelHeaderDecodeError::InvalidUtf8,
        ),
{
    varint::lemma_varint_roundtrip(0xaf36_27e6, varint::varint_bytes(conversation) + s2);
    varint::lemma_varint_roundtrip(conversation, s2);
    codec::lemma_prefixed_roundtrip(name, rest);
}

/// A header whose type is no text is refused.
pub proof fn law_header_without_text_refused(
    data: &[u8],
    conversation: nat,
    name: Seq<u8>,
    rest: Seq<u8>,
    r: Result<(ChannelStreamHeader, usize), ChannelHeaderDecodeError>,
)
    requires
        call_ensures(ChannelStreamHeader::decode_from_slice, (data,), r),
        conversation < 0x4000_0000_0000_0000,
        name.len() < 0x4000_0000_0000_0000,
        !valid_utf8(name),
        data@ == layout::number(0xaf36_27e6) + (layout::number(conversation) + (layout::octets(name)
            + rest)),
    ensures
        r == Err::<(ChannelStreamHeader, usize), ChannelHeaderDecodeError>(
            ChannelHeaderDecodeError::InvalidUtf8,
        ),
{
    layout::lemma_number(0xaf36_27e6);
    layout::lemma_number(conversation);
    layout::lemma_number(name.len());
    lemma_bad_name(codec::length_prefixed(name) + rest, conversation, name, rest);
}

proof fn lemma_head(data: Seq<u8>, h: codec::HeaderFields, rest: Seq<u8>)
    requires
        h.conversation_id < 0x4000_0000_0000_0000,
        encode_utf8(h.channel_type).len() < 0x4000_0000_0000_0000,
        h.max_message_size < 0x4000_0000_0000_0000,
        data == header(h.conversation_id as nat, h.channel_type, h.max_message_size as nat) + rest,
    ensures
        codec::take_header(data) == Ok::<_, ChannelHeaderDecodeError>((h, rest)),
        varint::take_varint(data) matches Some((signal, _)) && signal == 0xaf36_27e6,
        rest.len() <= data.len(),
{
    lemma_header(h);
    codec::lemma_header_roundtrip(h, rest);
}

/// A stream that starts with the header of a conversation goes to that conversation where
/// it is active, and to none otherwise.
pub proof fn law_stream_goes_to_its_conversation(
    p: &Ssh3Protocol,
    data: &[u8],
    ended: bool,
    conversation: u64,
    channel_type: Seq<char>,
    size: u64,
    rest: Seq<u8>,
    state: Option<ConversationState>,
    r: StreamVerdict,
)
    requires
        call_ensures(Ssh3Protocol::accept_bi, (p, data, ended), r),
        call_ensures(Ssh3Protocol::state, (p, conversation), state),
        conversation < 0x4000_0000_0000_0000,
        encode_utf8(channel_type).len() < 0x4000_0000_0000_0000,
        size < 0x4000_0000_0000_0000,
        data@ == header(conversation as nat, channel_type, size as nat) + rest,
    ensures
        state == Some(ConversationState::Active) ==> (r matches StreamVerdict::Dispatched {
            slot,
            header: h,
            consumed,
        } && slot == p@.registry[conversation] && h.conversation_id@ == conversation
            && h.channel_type@ == channel_type && h.max_message_size == size && consumed
            == data@.len() - rest.len()),
        state != Some(ConversationState::Active) ==> (r matches StreamVerdict::NoConversation {
            header: h,
        } && h.conversation_id@ == conversation && h.channel_type@ == channel_type
            && h.max_message_size == size),
{
    let h = codec::HeaderFields {
        conversation_id: conversation,
        channel_type,
        max_message_size: size,
    };
    lemma_head(data@, h, rest);
}

/// The streams of a conversation that was registered arrive at the slot that the
/// registration gave out, and none does once it was unregistered.
pub proof fn law_registered_gets_streams(
    p: &mut Ssh3Protocol,
    conversation: u64,
    registered: Result<u64, ServerError>,
    data: &[u8],
    ended: bool,
    channel_type: Seq<char>,
    size: u64,
    rest: Seq<u8>,
    r: StreamVerdict,
    q: &mut Ssh3Protocol,
    unregistered: (),
    after: StreamVerdict,
)
    requires
        call_ensures(Ssh3Protocol::register_conversation, (p, conversation), registered),
        registered is Ok,
        call_ensures(Ssh3Protocol::accept_bi, (&*final(p), data, ended), r),
        *q == *final(p),
        call_ensures(Ssh3Protocol::unregister_conversation, (q, conversation), unregistered),
        call_ensures(Ssh3Protocol::accept_bi, (&*final(q), data, ended), after),
        conversation < 0x4000_0000_0000_0000,
        encode_utf8(channel_type).len() < 0x4000_0000_0000_0000,
        size < 0x4000_0000_0000_0000,
        data@ == header(conversation as nat, channel_type, size as nat) + rest,
    ensures
        r matches StreamVerdict::Dispatched { slot, header: h, consumed } && slot
            == registered->Ok_0 && h.conversation_id@ == conversation && h.channel_type@
            == channel_type && h.max_message_size == size && consumed == data@.len() - rest.len(),
        after matches StreamVerdict::NoConversation { header: h } && h.conversation_id@
            == conversation,
{
    let h = codec::HeaderFields {
        conversation_id: conversation,
        channel_type,
        max_message_size: size,
    };
    lemma_head(data@, h, rest);
}

/// A stream that starts with another number is left to others, and one that starts with
/// no whole number is waited for, unless it has ended.
pub proof fn law_foreign_stream_passed(
    p: &Ssh3Protocol,
    data: &[u8],
    ended: bool,
    n: nat,
    rest: Seq<u8>,
    r: StreamVerdict,
)
    requires
        call_ensures(Ssh3Protocol::accept_bi, (p, data, ended), r),
    ensures
        n < 0x4000_0000_0000_0000 && n != 0xaf36_27e6 && data@ == layout::number(n) + rest ==> r
            == StreamVerdict::Passed,
        data@.len() == 0 ==> r == if ended {
            StreamVerdict::Passed
        } else {
            StreamVerdict::NeedMore
        },
{
    if n < 0x4000_0000_0000_0000 && n != 0xaf36_27e6 && data@ == layout::number(n) + rest {
        layout::lemma_number(n);
        varint::lemma_varint_roundtrip(n, rest);
    }
}

proof fn lemma_split(a: Seq<u8>, b: Seq<u8>, c: Seq<u8>, d: Seq<u8>)
    ensures
        a + b + c + d == a + (b + c + d),
{
    assert(a + b + c + d =~= a + (b + c + d));
}

proof fn lemma_signal(data: Seq<u8>, tail: Seq<u8>, k: int)
    requires
        0 <= k <= 8 + tail.len(),
        data == (layout::number(0xaf36_27e6) + tail).subrange(0, k),
    ensures
        k < 8 ==> varint::take_varint(data) is None,
        k >= 8 ==> (varint::take_varint(data) matches Some((signal, _)) && signal == 0xaf36_27e6),
{
    layout::lemma_number(0xaf36_27e6);
    let head = layout::number(0xaf36_27e6);
    assert(head.len() == 8);
    if k < 8 {
        varint::lemma_varint_truncated(0xaf36_27e6, k);
        assert(data =~= head.subrange(0, k));
    } else {
        let part = tail.subrange(0, k - 8);
        assert(data =~= head + part);
        varint::lemma_varint_roundtrip(0xaf36_27e6, part);
    }
}

/// While a header has not arrived in full, more of it is waited for; where the stream ends
/// within it, the stream is dropped, or passed where not even the signal is there.
pub proof fn law_header_in_part(
    p: &Ssh3Protocol,
    data: &[u8],
    ended: bool,
    conversation: u64,
    channel_type: Seq<char>,
    size: u64,
    k: int,
    r: StreamVerdict,
)
    requires
        call_ensures(Ssh3Protocol::accept_bi, (p, data, ended), r),
        conversation < 0x4000_0000_0000_0000,
        encode_utf8(channel_type).len() < 0x4000_0000_0000_0000,
        size < 0x4000_0000_0000_0000,
        0 <= k < header(conversation as nat, channel_type, size as nat).len(),
        data@ == header(conversation as nat, channel_type, size as nat).subrange(0, k),
    ensures
        !ended ==> r == StreamVerdict::NeedMore,
        ended ==> r == if k < 8 {
            StreamVerdict::Passed
        } else {
            StreamVerdict::BadHeader
        },
{
    let h = codec::HeaderFields {
        conversation_id: conversation,
        channel_type,
        max_message_size: size,
    };
    lemma_header(h);
    codec::lemma_header_truncated(h, k);
    let tail = layout::number(conversation as nat) + layout::text(channel_type) + layout::number(
        size as nat,
    );
    lemma_split(
        layout::number(0xaf36_27e6),
        layout::number(conversation as nat),
        layout::text(channel_type),
        layout::number(size as nat),
    );
    lemma_signal(data@, tail, k);
}

} // verus!
