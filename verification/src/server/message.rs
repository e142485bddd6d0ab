//! The messages on the streams of a conversation.
//!
//! A message is a number for what it is, and then its fields.

use crate::proto::wire;
use crate::proto::wire::{
    pop_flag, pop_number, pop_octets, pop_text, read_fields, write_fields, Cursor, FieldKind,
    FieldRef, WireError, WireField,
};
use crate::text;
use crate::text::{decimal_string, join2, join3};
use vstd::prelude::*;
use vstd::slice::*;
use vstd::string::*;

verus! {

/// A message.
#[derive(Debug, Clone, PartialEq, Eq)]
pub enum StreamMessage {
    GlobalRequest { request_type: String, want_reply: bool, data: Vec<u8> },
    RequestSuccess { data: Vec<u8> },
    RequestFailure,
    ChannelOpenConfirmation { max_message_size: u64 },
    ChannelOpenFailure { reason_code: u64, description: String },
    ChannelData { data: Vec<u8> },
    ChannelExtendedData { data_type: u64, data: Vec<u8> },
    ChannelEof,
    ChannelClose,
    ChannelRequest { request_type: String, want_reply: bool, data: Vec<u8> },
    ChannelSuccess,
    ChannelFailure,
}

/// Why a message cannot be read.
#[derive(Debug, Clone, Copy, PartialEq, Eq, Structural)]
pub enum StreamMessageError {
    /// A field cannot be read.
    Field(WireError),
    /// The number stands for no message.
    UnknownMessageType(u64),
}

impl StreamMessageError {
    /// The text of the error.
    pub open spec fn message(self) -> Seq<char> {
        match self {
            StreamMessageError::Field(WireError::Incomplete) => "message is incomplete"@,
            StreamMessageError::Field(WireError::InvalidUtf8) => "message text is not valid UTF-8"@,
            StreamMessageError::Field(WireError::OutOfRange) => "message number is out of range"@,
            StreamMessageError::Field(WireError::FieldTooLarge { length }) => {
                "message field length "@ + text::decimal(length as nat) + " is too large"@
            },
            StreamMessageError::UnknownMessageType(n) => "unknown message type "@ + text::decimal(
                n as nat,
            ),
        }
    }

    /// The error as text.
    pub fn to_string(&self) -> (r: String)
        ensures
            r@ == self.message(),
    {
        match self {
            StreamMessageError::Field(WireError::Incomplete) => "message is incomplete".to_owned(),
            StreamMessageError::Field(WireError::InvalidUtf8) => {
                "message text is not valid UTF-8".to_owned()
            },
            StreamMessageError::Field(WireError::OutOfRange) => {
                "message number is out of range".to_owned()
            },
            StreamMessageError::Field(WireError::FieldTooLarge { length }) => join3(
                "message field length ",
                decimal_string(*length).as_str(),
                " is too large",
            ),
            StreamMessageError::UnknownMessageType(n) => join2(
                "unknown message type ",
                decimal_string(*n).as_str(),
            ),
        }
    }
}

/// The kinds of the fields of the message that a number stands for.
pub open spec fn message_kinds(code: nat) -> Option<Seq<FieldKind>> {
    let any = FieldKind::Number(0xffff_ffff_ffff_ffff);
    if code == 80 || code == 98 {
        Some(seq![FieldKind::Text, FieldKind::Flag, FieldKind::Octets])
    } else if code == 81 || code == 94 {
        Some(seq![FieldKind::Octets])
    } else if code == 91 {
        Some(seq![any])
    } else if code == 92 {
        Some(seq![any, FieldKind::Text])
    } else if code == 95 {
        Some(seq![any, FieldKind::Octets])
    } else if code == 82 || code == 96 || code == 97 || code == 99 || code == 100 {
        Some(Seq::empty())
    } else {
        None
    }
}

/// The number and the fields of the message at the head of a byte string, and what
/// follows it.
pub open spec fn take_message(s: Seq<u8>) -> Result<
    (nat, Seq<WireField>, Seq<u8>),
    StreamMessageError,
> {
    match wire::take_field(FieldKind::Number(0xffff_ffff_ffff_ffff), s) {
        Err(e) => Err(StreamMessageError::Field(e)),
        Ok((f, rest)) => {
            let code = f->Number_0;
            match message_kinds(code) {
                None => Err(StreamMessageError::UnknownMessageType(code as u64)),
                Some(kinds) => match wire::take_fields(kinds, 0, rest) {
                    Err(e) => Err(StreamMessageError::Field(e)),
                    Ok((fields, last)) => Ok((code, fields, last)),
                },
            }
        },
    }
}

/// The bytes of the message with a number and fields.
pub open spec fn message_bytes(code: nat, fields: Seq<WireField>) -> Seq<u8> {
    wire::fields_bytes(seq![WireField::Number(code)] + fields, 0)
}

pub proof fn lemma_message_bytes(code: nat, fields: Seq<WireField>)
    ensures
        message_bytes(code, fields) == wire::field_bytes(WireField::Number(code))
            + wire::fields_bytes(fields, 0),
{
    let all = seq![WireField::Number(code)] + fields;
    assert(all[0] == WireField::Number(code));
    lemma_fields_shift(all, fields, 0);
}

proof fn lemma_fields_shift(all: Seq<WireField>, fields: Seq<WireField>, i: int)
    requires
        0 <= i <= fields.len(),
        all.len() == fields.len() + 1,
        forall|j: int| 0 <= j < fields.len() ==> all[j + 1] == #[trigger] fields[j],
    ensures
        wire::fields_bytes(all, i + 1) == wire::fields_bytes(fields, i),
    decreases fields.len() - i,
{
    if i < fields.len() {
        assert(all[i + 1] == fields[i]);
        lemma_fields_shift(all, fields, i + 1);
    }
}

impl StreamMessage {
    /// The number of the message.
    pub open spec fn code(self) -> nat {
        match self {
            StreamMessage::GlobalRequest { .. } => 80,
            StreamMessage::RequestSuccess { .. } => 81,
            StreamMessage::RequestFailure => 82,
            StreamMessage::ChannelOpenConfirmation { .. } => 91,
            StreamMessage::ChannelOpenFailure { .. } => 92,
            StreamMessage::ChannelData { .. } => 94,
            StreamMessage::ChannelExtendedData { .. } => 95,
            StreamMessage::ChannelEof => 96,
            StreamMessage::ChannelClose => 97,
            StreamMessage::ChannelRequest { .. } => 98,
            StreamMessage::ChannelSuccess => 99,
            StreamMessage::ChannelFailure => 100,
        }
    }

    /// The fields of the message.
    pub open spec fn fields(self) -> Seq<WireField> {
        match self {
            StreamMessage::GlobalRequest { request_type, want_reply, data } => seq![
                WireField::Text(request_type@),
                WireField::Flag(want_reply),
                WireField::Octets(data@),
            ],
            StreamMessage::RequestSuccess { data } => seq![WireField::Octets(data@)],
            StreamMessage::ChannelOpenConfirmation { max_message_size } => seq![
                WireField::Number(max_message_size as nat),
            ],
            StreamMessage::ChannelOpenFailure { reason_code, description } => seq![
                WireField::Number(reason_code as nat),
                WireField::Text(description@),
            ],
            StreamMessage::ChannelData { data } => seq![WireField::Octets(data@)],
            StreamMessage::ChannelExtendedData { data_type, data } => seq![
                WireField::Number(data_type as nat),
                WireField::Octets(data@),
            ],
            StreamMessage::ChannelRequest { request_type, want_reply, data } => seq![
                WireField::Text(request_type@),
                WireField::Flag(want_reply),
                WireField::Octets(data@),
            ],
            _ => Seq::empty(),
        }
    }

    /// A written message is read back, and what followed it is left, unless a field is
    /// longer than any that is read.
    pub proof fn lemma_roundtrip(self, rest: Seq<u8>)
        requires
            wire::all_accepted(self.fields()),
        ensures
            take_message(message_bytes(self.code(), self.fields()) + rest) == Ok::<
                _,
                StreamMessageError,
            >((self.code(), self.fields(), rest)),
    {
        let any = FieldKind::Number(0xffff_ffff_ffff_ffff);
        let kinds = message_kinds(self.code())->0;
        let tail = wire::fields_bytes(self.fields(), 0) + rest;
        lemma_message_bytes(self.code(), self.fields());
        assert(message_bytes(self.code(), self.fields()) + rest =~= wire::field_bytes(
            WireField::Number(self.code()),
        ) + tail);
        wire::lemma_field_roundtrip(WireField::Number(self.code()), any, tail);
        assert forall|j: int| 0 <= j < self.fields().len() implies wire::field_accepted(
            #[trigger] self.fields()[j],
        ) && wire::is_kind(self.fields()[j], kinds[j]) by {}
        wire::lemma_fields_roundtrip(self.fields(), kinds, 0, rest);
        assert(self.fields().subrange(0, self.fields().len() as int) =~= self.fields());
    }

    /// The bytes of the message; none where a field is too large.
    pub fn encode(&self) -> (r: Option<Vec<u8>>)
        ensures
            match r {
                Some(b) => wire::all_fit(self.fields()) && b@ == message_bytes(
                    self.code(),
                    self.fields(),
                ),
                None => !wire::all_fit(self.fields()),
            },
    {
        let mut v: Vec<FieldRef> = Vec::new();
        match self {
            StreamMessage::GlobalRequest { request_type, want_reply, data } => {
                v.push(FieldRef::Number(80));
                v.push(FieldRef::Text(request_type.as_str()));
                v.push(FieldRef::Flag(*want_reply));
                v.push(FieldRef::Octets(data.as_slice()));
            },
            StreamMessage::RequestSuccess { data } => {
                v.push(FieldRef::Number(81));
                v.push(FieldRef::Octets(data.as_slice()));
            },
            StreamMessage::RequestFailure => {
                v.push(FieldRef::Number(82));
            },
            StreamMessage::ChannelOpenConfirmation { max_message_size } => {
                v.push(FieldRef::Number(91));
                v.push(FieldRef::Number(*max_message_size));
            },
            StreamMessage::ChannelOpenFailure { reason_code, description } => {
                v.push(FieldRef::Number(92));
                v.push(FieldRef::Number(*reason_code));
                v.push(FieldRef::Text(description.as_str()));
            },
            StreamMessage::ChannelData { data } => {
                v.push(FieldRef::Number(94));
                v.push(FieldRef::Octets(data.as_slice()));
            },
            StreamMessage::ChannelExtendedData { data_type, data } => {
                v.push(FieldRef::Number(95));
                v.push(FieldRef::Number(*data_type));
                v.push(FieldRef::Octets(data.as_slice()));
            },
            StreamMessage::ChannelEof => {
                v.push(FieldRef::Number(96));
            },
            StreamMessage::ChannelClose => {
                v.push(FieldRef::Number(97));
            },
            StreamMessage::ChannelRequest { request_type, want_reply, data } => {
                v.push(FieldRef::Number(98));
                v.push(FieldRef::Text(request_type.as_str()));
                v.push(FieldRef::Flag(*want_reply));
                v.push(FieldRef::Octets(data.as_slice()));
            },
            StreamMessage::ChannelSuccess => {
                v.push(FieldRef::Number(99));
            },
            StreamMessage::ChannelFailure => {
                v.push(FieldRef::Number(100));
            },
        }
        proof {
            let all = seq![WireField::Number(self.code())] + self.fields();
            assert(wire::ref_views(v@) =~= all);
            assert(wire::field_fits(all[0]));
            if wire::all_fit(all) {
                assert forall|i: int| 0 <= i < self.fields().len() implies wire::field_fits(
                    #[trigger] self.fields()[i],
                ) by {
                    assert(all[i + 1] == self.fields()[i]);
                }
            }
            if wire::all_fit(self.fields()) {
                assert forall|i: int| 0 <= i < all.len() implies wire::field_fits(
                    #[trigger] all[i],
                ) by {
                    if i > 0 {
                        assert(all[i] == self.fields()[i - 1]);
                    }
                }
            }
        }
        write_fields(v.as_slice())
    }

    /// Reads the message at the head of a slice, and tells how many bytes it takes.
    pub fn decode(data: &[u8]) -> (r: Result<(StreamMessage, usize), StreamMessageError>)
        ensures
            match r {
                Ok((m, n)) => {
                    &&& n <= data@.len()
                    &&& take_message(data@) == Ok::<_, StreamMessageError>(
                        (m.code(), m.fields(), data@.subrange(n as int, data@.len() as int)),
                    )
                },
                Err(e) => take_message(data@) == Err::<(nat, Seq<WireField>, Seq<u8>), _>(e),
            },
    {
        let mut c = Cursor::new(data);
        let code: u64 = match c.number(0xffff_ffff_ffff_ffff) {
            Err(e) => return Err(StreamMessageError::Field(e)),
            Ok(code) => code,
        };
        let rest = c.rest_slice();
        proof {
            wire::lemma_suffix_field(FieldKind::Number(0xffff_ffff_ffff_ffff), data@);
        }
        let head: usize = data.len() - rest.len();
        let kinds: Vec<FieldKind> = match kinds_of(code) {
            None => return Err(StreamMessageError::UnknownMessageType(code)),
            Some(kinds) => kinds,
        };
        match read_fields(kinds.as_slice(), rest) {
            Err(e) => Err(StreamMessageError::Field(e)),
            Ok((v, n)) => {
                let m = from_fields(code, v);
                proof {
                    let k: int = head + n;
                    assert(rest@.subrange(n as int, rest@.len() as int) =~= data@.subrange(
                        k,
                        data@.len() as int,
                    ));
                }
                Ok((m, head + n))
            },
        }
    }
}

fn kinds_of(code: u64) -> (r: Option<Vec<FieldKind>>)
    ensures
        match r {
            Some(v) => message_kinds(code as nat) == Some(v@),
            None => message_kinds(code as nat) is None,
        },
{
    let any = FieldKind::Number(0xffff_ffff_ffff_ffff);
    let mut v: Vec<FieldKind> = Vec::new();
    if code == 80 || code == 98 {
        v.push(FieldKind::Text);
        v.push(FieldKind::Flag);
        v.push(FieldKind::Octets);
    } else if code == 81 || code == 94 {
        v.push(FieldKind::Octets);
    } else if code == 91 {
        v.push(any);
    } else if code == 92 {
        v.push(any);
        v.push(FieldKind::Text);
    } else if code == 95 {
        v.push(any);
        v.push(FieldKind::Octets);
    } else if !(code == 82 || code == 96 || code == 97 || code == 99 || code == 100) {
        return None;
    }
    assert(v@ =~= message_kinds(code as nat)->0);
    Some(v)
}

/// The message with a number and fields of its kinds.
fn from_fields(code: u64, fields: Vec<wire::FieldValue>) -> (m: StreamMessage)
    requires
        message_kinds(code as nat) is Some,
        wire::are_kinds(wire::value_views(fields@), message_kinds(code as nat)->0),
    ensures
        m.code() == code,
        m.fields() == wire::value_views(fields@),
{
    let ghost all = wire::value_views(fields@);
    let ghost kinds = message_kinds(code as nat)->0;
    proof {
        assert forall|i: int| 0 <= i < fields@.len() implies wire::is_kind(
            (#[trigger] fields@[i])@,
            kinds[i],
        ) by {
            assert(wire::is_kind(all[i], kinds[i]));
        }
    }
    let mut v = fields;
    if code == 80 || code == 98 {
        let data = pop_octets(&mut v);
        let want_reply = pop_flag(&mut v);
        let request_type = pop_text(&mut v);
        let m = if code == 80 {
            StreamMessage::GlobalRequest { request_type, want_reply, data }
        } else {
            StreamMessage::ChannelRequest { request_type, want_reply, data }
        };
        assert(m.fields() =~= all);
        m
    } else if code == 81 || code == 94 {
        let data = pop_octets(&mut v);
        let m = if code == 81 {
            StreamMessage::RequestSuccess { data }
        } else {
            StreamMessage::ChannelData { data }
        };
        assert(m.fields() =~= all);
        m
    } else if code == 91 {
        let max_message_size = pop_number(&mut v);
        let m = StreamMessage::ChannelOpenConfirmation { max_message_size };
        assert(m.fields() =~= all);
        m
    } else if code == 92 {
        let description = pop_text(&mut v);
        let reason_code = pop_number(&mut v);
        let m = StreamMessage::ChannelOpenFailure { reason_code, description };
        assert(m.fields() =~= all);
        m
    } else if code == 95 {
        let data = pop_octets(&mut v);
        let data_type = pop_number(&mut v);
        let m = StreamMessage::ChannelExtendedData { data_type, data };
        assert(m.fields() =~= all);
        m
    } else {
        assert(all =~= Seq::<WireField>::empty());
        if code == 82 {
            StreamMessage::RequestFailure
        } else if code == 96 {
            StreamMessage::ChannelEof
        } else if code == 97 {
            StreamMessage::ChannelClose
        } else if code == 99 {
            StreamMessage::ChannelSuccess
        } else {
            StreamMessage::ChannelFailure
        }
    }
}

/// The reason for which a channel is refused: the connection could not be made.
pub const CONNECT_FAILED: u64 = 2;

/// The reason for which a channel is refused: its type is not known.
pub const UNKNOWN_CHANNEL_TYPE: u64 = 3;

/// The message refuses the channel for this reason.
pub open spec fn refuses(m: StreamMessage, reason: u64, why: Seq<char>) -> bool {
    m matches StreamMessage::ChannelOpenFailure { reason_code, description } && reason_code
        == reason && description@ == why
}

/// A message that refuses a channel.
pub fn open_failure(reason: u64, why: &str) -> (r: StreamMessage)
    ensures
        refuses(r, reason, why@),
{
    StreamMessage::ChannelOpenFailure { reason_code: reason, description: why.to_owned() }
}

/// The message that accepts a channel.
pub fn open_confirmation() -> (r: StreamMessage)
    ensures
        r == (StreamMessage::ChannelOpenConfirmation {
            max_message_size: wire::DEFAULT_MAX_MESSAGE_SIZE,
        }),
{
    StreamMessage::ChannelOpenConfirmation { max_message_size: wire::DEFAULT_MAX_MESSAGE_SIZE }
}

} // verus!
