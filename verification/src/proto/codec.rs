//! Identifiers, message types and the header that opens a channel stream.

use crate::outside::string_from_utf8;
use crate::proto::cbor;
use crate::proto::cbor::{read_u32, read_u64, uint_value};
use crate::proto::varint;
use crate::proto::varint::{decode_varint_sync, encode_varint_sync, VarInt, VARINT_END};
use crate::text;
use crate::text::{decimal_string, hexadecimal_string, join2, join3};
use ciborium::value::Value;
use vstd::prelude::*;
use vstd::slice::*;
use vstd::string::*;
use vstd::utf8::*;

verus! {

/// The value that every channel stream starts with, as a variable-length integer.
pub const SIGNAL_VALUE: u32 = 0xaf3627e6;

/// Identifies a conversation: the number of the stream that its CONNECT request
/// came on.
#[derive(Debug, Clone, Copy, PartialEq, Eq, Hash)]
pub struct ConversationId(u64);

impl View for ConversationId {
    type V = u64;

    closed spec fn view(&self) -> u64 {
        self.0
    }
}

impl ConversationId {
    /// The identifier with the given number.
    pub fn new(id: u64) -> (r: Self)
        ensures
            r@ == id,
    {
        Self(id)
    }

    /// The number of the identifier.
    pub fn into_inner(self) -> (r: u64)
        ensures
            r == self@,
    {
        self.0
    }

    /// The identifier as text, such as `conv:42`.
    pub fn to_string(&self) -> (r: String)
        ensures
            r@ == "conv:"@ + text::decimal(self@ as nat),
    {
        join2("conv:", decimal_string(self.0).as_str())
    }

    /// The identifier as a CBOR value: its number.
    pub fn to_value(&self) -> (r: Value)
        ensures
            cbor::tree_of(r) == cbor::uint_tree(self@ as int),
            cbor::is_plain(cbor::tree_of(r), 100),
    {
        uint_value(self.0)
    }

    /// The identifier that a CBOR value stands for, where it is a number that fits.
    pub fn from_value(value: &Value) -> (r: Option<Self>)
        ensures
            match r {
                Some(id) => cbor::uint_of(cbor::tree_of(*value), u64::MAX as int) == Some(
                    id@ as int,
                ),
                None => cbor::uint_of(cbor::tree_of(*value), u64::MAX as int) is None,
            },
    {
        match read_u64(value) {
            Some(n) => Some(Self(n)),
            None => None,
        }
    }
}

/// Identifies a channel within its conversation.
#[derive(Debug, Clone, Copy, PartialEq, Eq, Hash)]
pub struct ChannelId(u32);

impl View for ChannelId {
    type V = u32;

    closed spec fn view(&self) -> u32 {
        self.0
    }
}

impl ChannelId {
    /// The identifier with the given number.
    pub fn new(id: u32) -> (r: Self)
        ensures
            r@ == id,
    {
        Self(id)
    }

    /// The number of the identifier.
    pub fn into_inner(self) -> (r: u32)
        ensures
            r == self@,
    {
        self.0
    }

    /// The identifier as text, such as `ch:7`.
    pub fn to_string(&self) -> (r: String)
        ensures
            r@ == "ch:"@ + text::decimal(self@ as nat),
    {
        join2("ch:", decimal_string(self.0 as u64).as_str())
    }

    /// The identifier as a CBOR value: its number.
    pub fn to_value(&self) -> (r: Value)
        ensures
            cbor::tree_of(r) == cbor::uint_tree(self@ as int),
            cbor::is_plain(cbor::tree_of(r), 100),
    {
        uint_value(self.0 as u64)
    }

    /// The identifier that a CBOR value stands for, where it is a number that fits.
    pub fn from_value(value: &Value) -> (r: Option<Self>)
        ensures
            match r {
                Some(id) => cbor::uint_of(cbor::tree_of(*value), u32::MAX as int) == Some(
                    id@ as int,
                ),
                None => cbor::uint_of(cbor::tree_of(*value), u32::MAX as int) is None,
            },
    {
        match read_u32(value) {
            Some(n) => Some(Self(n)),
            None => None,
        }
    }
}

/// The number by which the kinds of channel messages are told apart.
#[derive(Debug, Clone, Copy, PartialEq, Eq, Hash)]
pub struct MessageType(u8);

impl View for MessageType {
    type V = u8;

    closed spec fn view(&self) -> u8 {
        self.0
    }
}

impl MessageType {
    pub const CHANNEL_OPEN: u8 = 90;

    pub const CHANNEL_OPEN_CONFIRMATION: u8 = 91;

    pub const CHANNEL_OPEN_FAILURE: u8 = 92;

    pub const CHANNEL_WINDOW_ADJUST: u8 = 93;

    pub const CHANNEL_DATA: u8 = 94;

    pub const CHANNEL_EXTENDED_DATA: u8 = 95;

    pub const CHANNEL_EOF: u8 = 96;

    pub const CHANNEL_CLOSE: u8 = 97;

    pub const CHANNEL_REQUEST: u8 = 98;

    pub const CHANNEL_SUCCESS: u8 = 99;

    pub const CHANNEL_FAILURE: u8 = 100;

    /// The message type with the given number.
    pub fn new(val: u8) -> (r: Self)
        ensures
            r@ == val,
    {
        MessageType(val)
    }

    /// The number of the message type.
    pub fn into_inner(self) -> (r: u8)
        ensures
            r == self@,
    {
        self.0
    }

    /// The name of a message type, or its number where it has none.
    pub open spec fn name(self) -> Seq<char> {
        if self@ == 90 {
            "CHANNEL_OPEN"@
        } else if self@ == 91 {
            "CHANNEL_OPEN_CONFIRMATION"@
        } else if self@ == 92 {
            "CHANNEL_OPEN_FAILURE"@
        } else if self@ == 93 {
            "CHANNEL_WINDOW_ADJUST"@
        } else if self@ == 94 {
            "CHANNEL_DATA"@
        } else if self@ == 95 {
            "CHANNEL_EXTENDED_DATA"@
        } else if self@ == 96 {
            "CHANNEL_EOF"@
        } else if self@ == 97 {
            "CHANNEL_CLOSE"@
        } else if self@ == 98 {
            "CHANNEL_REQUEST"@
        } else if self@ == 99 {
            "CHANNEL_SUCCESS"@
        } else if self@ == 100 {
            "CHANNEL_FAILURE"@
        } else {
            "MSG("@ + text::decimal(self@ as nat) + ")"@
        }
    }

    /// The message type as text.
    pub fn to_string(&self) -> (r: String)
        ensures
            r@ == self.name(),
    {
        let v: u8 = self.0;
        if v == Self::CHANNEL_OPEN {
            "CHANNEL_OPEN".to_owned()
        } else if v == Self::CHANNEL_OPEN_CONFIRMATION {
            "CHANNEL_OPEN_CONFIRMATION".to_owned()
        } else if v == Self::CHANNEL_OPEN_FAILURE {
            "CHANNEL_OPEN_FAILURE".to_owned()
        } else if v == Self::CHANNEL_WINDOW_ADJUST {
            "CHANNEL_WINDOW_ADJUST".to_owned()
        } else if v == Self::CHANNEL_DATA {
            "CHANNEL_DATA".to_owned()
        } else if v == Self::CHANNEL_EXTENDED_DATA {
            "CHANNEL_EXTENDED_DATA".to_owned()
        } else if v == Self::CHANNEL_EOF {
            "CHANNEL_EOF".to_owned()
        } else if v == Self::CHANNEL_CLOSE {
            "CHANNEL_CLOSE".to_owned()
        } else if v == Self::CHANNEL_REQUEST {
            "CHANNEL_REQUEST".to_owned()
        } else if v == Self::CHANNEL_SUCCESS {
            "CHANNEL_SUCCESS".to_owned()
        } else if v == Self::CHANNEL_FAILURE {
            "CHANNEL_FAILURE".to_owned()
        } else {
            join3("MSG(", decimal_string(v as u64).as_str(), ")")
        }
    }
}

/// What a channel stream header holds.
pub struct HeaderFields {
    pub conversation_id: u64,
    pub channel_type: Seq<char>,
    pub max_message_size: u64,
}

/// The header at the start of a channel stream: the signal value, then the
/// conversation, the channel type and the largest message size.
#[derive(Debug, Clone, PartialEq, Eq)]
pub struct ChannelStreamHeader {
    /// The conversation that the channel belongs to.
    pub conversation_id: ConversationId,
    /// The channel type, such as `session`.
    pub channel_type: String,
    /// The largest size of one message, in bytes.
    pub max_message_size: u64,
}

impl View for ChannelStreamHeader {
    type V = HeaderFields;

    open spec fn view(&self) -> HeaderFields {
        HeaderFields {
            conversation_id: self.conversation_id@,
            channel_type: self.channel_type@,
            max_message_size: self.max_message_size,
        }
    }
}

/// Why a channel stream header cannot be written.
#[derive(Debug, Clone, Copy, PartialEq, Eq, Structural)]
pub enum ChannelHeaderEncodeError {
    /// A field is too large for a variable-length integer.
    VarIntOverflow,
}

impl ChannelHeaderEncodeError {
    pub open spec fn message(self) -> Seq<char> {
        "value overflows QUIC VarInt range"@
    }

    /// The error as text.
    pub fn to_string(&self) -> (r: String)
        ensures
            r@ == self.message(),
    {
        "value overflows QUIC VarInt range".to_owned()
    }
}

/// Why a byte string does not start with a channel stream header.
#[derive(Debug, Clone, Copy, PartialEq, Eq, Structural)]
pub enum ChannelHeaderDecodeError {
    /// The bytes end before the header does.
    Incomplete,
    /// The stream starts with another value than the signal value.
    InvalidSignal { got: u64 },
    /// The channel type is not valid UTF-8.
    InvalidUtf8,
}

impl ChannelHeaderDecodeError {
    pub open spec fn message(self) -> Seq<char> {
        match self {
            ChannelHeaderDecodeError::Incomplete => "unexpected end of input"@,
            ChannelHeaderDecodeError::InvalidSignal { got } => {
                "invalid signal value: expected 0xaf3627e6, got 0x"@ + text::hexadecimal(got as nat)
            },
            ChannelHeaderDecodeError::InvalidUtf8 => "channel type is not valid UTF-8"@,
        }
    }

    /// The error as text.
    pub fn to_string(&self) -> (r: String)
        ensures
            r@ == self.message(),
    {
        match self {
            ChannelHeaderDecodeError::Incomplete => "unexpected end of input".to_owned(),
            ChannelHeaderDecodeError::InvalidSignal { got } => join2(
                "invalid signal value: expected 0xaf3627e6, got 0x",
                hexadecimal_string(*got).as_str(),
            ),
            ChannelHeaderDecodeError::InvalidUtf8 => "channel type is not valid UTF-8".to_owned(),
        }
    }
}

/// Every field of a header can be written as a variable-length integer.
pub open spec fn header_fits(h: HeaderFields) -> bool {
    &&& h.conversation_id < VARINT_END
    &&& encode_utf8(h.channel_type).len() < VARINT_END
    &&& h.max_message_size < VARINT_END
}

/// The bytes of a header.
pub open spec fn header_bytes(h: HeaderFields) -> Seq<u8> {
    varint::varint_bytes(SIGNAL_VALUE as nat) + (varint::varint_bytes(h.conversation_id as nat) + (length_prefixed(
        encode_utf8(h.channel_type),
    ) + varint::varint_bytes(h.max_message_size as nat)))
}

/// A byte string preceded by its length.
pub open spec fn length_prefixed(bytes: Seq<u8>) -> Seq<u8> {
    varint::varint_bytes(bytes.len()) + bytes
}

/// The length-prefixed byte string at the head of another, and what follows it.
pub open spec fn take_prefixed(s: Seq<u8>) -> Option<(Seq<u8>, Seq<u8>)> {
    match varint::take_varint(s) {
        None => None,
        Some((n, rest)) => if rest.len() < n {
            None
        } else {
            Some((rest.subrange(0, n as int), rest.subrange(n as int, rest.len() as int)))
        },
    }
}

/// The header at the head of a byte string and the bytes that follow it, or the
/// first thing that is wrong.
pub open spec fn take_header(s: Seq<u8>) -> Result<
    (HeaderFields, Seq<u8>),
    ChannelHeaderDecodeError,
> {
    match varint::take_varint(s) {
        None => Err(ChannelHeaderDecodeError::Incomplete),
        Some((signal, s1)) => if signal != SIGNAL_VALUE {
            Err(ChannelHeaderDecodeError::InvalidSignal { got: signal as u64 })
        } else {
            match varint::take_varint(s1) {
                None => Err(ChannelHeaderDecodeError::Incomplete),
                Some((conversation, s2)) => match take_prefixed(s2) {
                    None => Err(ChannelHeaderDecodeError::Incomplete),
                    Some((name, s3)) => if !valid_utf8(name) {
                        Err(ChannelHeaderDecodeError::InvalidUtf8)
                    } else {
                        match varint::take_varint(s3) {
                            None => Err(ChannelHeaderDecodeError::Incomplete),
                            Some((size, s4)) => Ok(
                                (
                                    HeaderFields {
                                        conversation_id: conversation as u64,
                                        channel_type: decode_utf8(name),
                                        max_message_size: size as u64,
                                    },
                                    s4,
                                ),
                            ),
                        }
                    },
                },
            }
        },
    }
}

/// A byte string comes back from behind its length, with what followed it.
pub proof fn lemma_prefixed_roundtrip(bytes: Seq<u8>, rest: Seq<u8>)
    requires
        bytes.len() < VARINT_END,
    ensures
        take_prefixed(length_prefixed(bytes) + rest) == Some((bytes, rest)),
{
    varint::lemma_varint_roundtrip(bytes.len(), bytes + rest);
    assert(length_prefixed(bytes) + rest =~= varint::varint_bytes(bytes.len()) + (bytes + rest));
    assert((bytes + rest).subrange(0, bytes.len() as int) =~= bytes);
    assert((bytes + rest).subrange(bytes.len() as int, (bytes + rest).len() as int) =~= rest);
}

/// No proper beginning of a length-prefixed byte string can be read.
pub proof fn lemma_prefixed_truncated(bytes: Seq<u8>, k: int)
    requires
        bytes.len() < VARINT_END,
        0 <= k < length_prefixed(bytes).len(),
    ensures
        take_prefixed(length_prefixed(bytes).subrange(0, k)) is None,
{
    let head = varint::varint_bytes(bytes.len());
    let s = length_prefixed(bytes).subrange(0, k);
    if k < head.len() {
        varint::lemma_varint_truncated(bytes.len(), k);
        assert(s =~= head.subrange(0, k));
    } else {
        let part = bytes.subrange(0, k - head.len());
        assert(s =~= head + part);
        varint::lemma_varint_roundtrip(bytes.len(), part);
    }
}

/// Reading a written header gives back its fields and leaves what followed it.
pub proof fn lemma_header_roundtrip(h: HeaderFields, rest: Seq<u8>)
    requires
        header_fits(h),
    ensures
        take_header(header_bytes(h) + rest) == Ok::<_, ChannelHeaderDecodeError>((h, rest)),
{
    let name = encode_utf8(h.channel_type);
    let s4 = varint::varint_bytes(h.max_message_size as nat) + rest;
    let s3 = length_prefixed(name) + s4;
    let s2 = varint::varint_bytes(h.conversation_id as nat) + s3;
    assert(header_bytes(h) + rest =~= varint::varint_bytes(SIGNAL_VALUE as nat) + s2);
    varint::lemma_varint_roundtrip(SIGNAL_VALUE as nat, s2);
    varint::lemma_varint_roundtrip(h.conversation_id as nat, s3);
    lemma_prefixed_roundtrip(name, s4);
    varint::lemma_varint_roundtrip(h.max_message_size as nat, rest);
    encode_utf8_valid_utf8(h.channel_type);
    encode_utf8_decode_utf8(h.channel_type);
}

/// Every proper beginning of a written header is reported as incomplete.
pub proof fn lemma_header_truncated(h: HeaderFields, k: int)
    requires
        header_fits(h),
        0 <= k < header_bytes(h).len(),
    ensures
        take_header(header_bytes(h).subrange(0, k)) == Err::<(HeaderFields, Seq<u8>), _>(
            ChannelHeaderDecodeError::Incomplete,
        ),
{
    let name = encode_utf8(h.channel_type);
    let p1 = varint::varint_bytes(SIGNAL_VALUE as nat);
    let p2 = varint::varint_bytes(h.conversation_id as nat);
    let p3 = length_prefixed(name);
    let p4 = varint::varint_bytes(h.max_message_size as nat);
    let s = header_bytes(h).subrange(0, k);
    encode_utf8_valid_utf8(h.channel_type);
    if k < p1.len() {
        varint::lemma_varint_truncated(SIGNAL_VALUE as nat, k);
        assert(s =~= p1.subrange(0, k));
    } else {
        let k1 = k - p1.len();
        let t1 = (p2 + (p3 + p4)).subrange(0, k1);
        assert(s =~= p1 + t1);
        varint::lemma_varint_roundtrip(SIGNAL_VALUE as nat, t1);
        if k1 < p2.len() {
            varint::lemma_varint_truncated(h.conversation_id as nat, k1);
            assert(t1 =~= p2.subrange(0, k1));
        } else {
            let k2 = k1 - p2.len();
            let t2 = (p3 + p4).subrange(0, k2);
            assert(t1 =~= p2 + t2);
            varint::lemma_varint_roundtrip(h.conversation_id as nat, t2);
            if k2 < p3.len() {
                lemma_prefixed_truncated(name, k2);
                assert(t2 =~= p3.subrange(0, k2));
            } else {
                let k3 = k2 - p3.len();
                let t3 = p4.subrange(0, k3);
                assert(t2 =~= p3 + t3);
                lemma_prefixed_roundtrip(name, t3);
                varint::lemma_varint_truncated(h.max_message_size as nat, k3);
            }
        }
    }
}

/// Reads the length-prefixed byte string at the head of a slice, and tells how
/// many bytes it took together with its length.
pub fn decode_prefixed(data: &[u8]) -> (r: Option<(Vec<u8>, usize)>)
    ensures
        match r {
            Some((bytes, n)) => {
                &&& n <= data@.len()
                &&& take_prefixed(data@) == Some(
                    (bytes@, data@.subrange(n as int, data@.len() as int)),
                )
            },
            None => take_prefixed(data@) is None,
        },
{
    match decode_varint_sync(data) {
        None => None,
        Some((len, n)) => {
            let len: u64 = len.into_inner();
            let room: usize = data.len() - n;
            if len > room as u64 {
                return None;
            }
            let end: usize = n + len as usize;
            let bytes = slice_to_vec(slice_subrange(data, n, end));
            proof {
                let rest = data@.subrange(n as int, data@.len() as int);
                assert(rest.subrange(0, len as int) =~= data@.subrange(n as int, end as int));
                assert(rest.subrange(len as int, rest.len() as int) =~= data@.subrange(
                    end as int,
                    data@.len() as int,
                ));
            }
            Some((bytes, end))
        },
    }
}

/// Appends a byte string preceded by its length; `false`, with nothing appended,
/// where the length is too large for a variable-length integer.
pub fn encode_prefixed(bytes: &[u8], buf: &mut Vec<u8>) -> (r: bool)
    ensures
        r == (bytes@.len() < VARINT_END),
        r ==> final(buf)@ == old(buf)@ + length_prefixed(bytes@),
        !r ==> final(buf)@ == old(buf)@,
{
    match VarInt::from_u64(bytes.len() as u64) {
        None => false,
        Some(len) => {
            encode_varint_sync(len, buf);
            buf.extend_from_slice(bytes);
            assert(buf@ =~= old(buf)@ + length_prefixed(bytes@));
            true
        },
    }
}

impl ChannelStreamHeader {
    /// The header with the given fields.
    pub fn new(conversation_id: ConversationId, channel_type: String, max_message_size: u64) -> (r:
        Self)
        ensures
            r.conversation_id == conversation_id,
            r.channel_type == channel_type,
            r.max_message_size == max_message_size,
    {
        ChannelStreamHeader { conversation_id, channel_type, max_message_size }
    }

    /// The bytes of the header.
    pub fn encode_to_vec(&self) -> (r: Result<Vec<u8>, ChannelHeaderEncodeError>)
        ensures
            match r {
                Ok(bytes) => header_fits(self@) && bytes@ == header_bytes(self@),
                Err(_) => !header_fits(self@),
            },
    {
        let mut buf: Vec<u8> = Vec::new();
        match VarInt::from_u64(SIGNAL_VALUE as u64) {
            Some(signal) => encode_varint_sync(signal, &mut buf),
            None => return Err(ChannelHeaderEncodeError::VarIntOverflow),
        }
        match VarInt::from_u64(self.conversation_id.into_inner()) {
            Some(conversation) => encode_varint_sync(conversation, &mut buf),
            None => return Err(ChannelHeaderEncodeError::VarIntOverflow),
        }
        if !encode_prefixed(self.channel_type.as_str().as_bytes(), &mut buf) {
            return Err(ChannelHeaderEncodeError::VarIntOverflow);
        }
        match VarInt::from_u64(self.max_message_size) {
            Some(size) => encode_varint_sync(size, &mut buf),
            None => return Err(ChannelHeaderEncodeError::VarIntOverflow),
        }
        assert(buf@ =~= header_bytes(self@));
        Ok(buf)
    }

    /// The header at the start of a slice, and the number of bytes that it takes.
    pub fn decode_from_slice(data: &[u8]) -> (r: Result<(Self, usize), ChannelHeaderDecodeError>)
        ensures
            match r {
                Ok((header, n)) => {
                    &&& n <= data@.len()
                    &&& take_header(data@) == Ok::<_, ChannelHeaderDecodeError>(
                        (header@, data@.subrange(n as int, data@.len() as int)),
                    )
                },
                Err(e) => take_header(data@) == Err::<(HeaderFields, Seq<u8>), _>(e),
            },
    {
        let ghost all = data@.len() as int;
        let (signal, n1): (VarInt, usize) = match decode_varint_sync(data) {
            Some(found) => found,
            None => return Err(ChannelHeaderDecodeError::Incomplete),
        };
        let signal: u64 = signal.into_inner();
        if signal != SIGNAL_VALUE as u64 {
            return Err(ChannelHeaderDecodeError::InvalidSignal { got: signal });
        }
        let s1 = slice_subrange(data, n1, data.len());
        let (conversation, n2): (VarInt, usize) = match decode_varint_sync(s1) {
            Some(found) => found,
            None => return Err(ChannelHeaderDecodeError::Incomplete),
        };
        let s2 = slice_subrange(s1, n2, s1.len());
        assert(s2@ =~= data@.subrange(n1 + n2, all));
        let (name, n3): (Vec<u8>, usize) = match decode_prefixed(s2) {
            Some(found) => found,
            None => return Err(ChannelHeaderDecodeError::Incomplete),
        };
        let s3 = slice_subrange(s2, n3, s2.len());
        assert(s3@ =~= data@.subrange(n1 + n2 + n3, all));
        let channel_type = match string_from_utf8(name) {
            Ok(text) => text,
            Err(_) => return Err(ChannelHeaderDecodeError::InvalidUtf8),
        };
        let (size, n4): (VarInt, usize) = match decode_varint_sync(s3) {
            Some(found) => found,
            None => return Err(ChannelHeaderDecodeError::Incomplete),
        };
        assert(s3@.subrange(n4 as int, s3@.len() as int) =~= data@.subrange(
            n1 + n2 + n3 + n4,
            all,
        ));
        let header = ChannelStreamHeader {
            conversation_id: ConversationId::new(conversation.into_inner()),
            channel_type,
            max_message_size: size.into_inner(),
        };
        Ok((header, n1 + n2 + n3 + n4))
    }
}

} // verus!
