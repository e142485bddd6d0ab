//! The fields of requests, as they stand on a stream one after another.
//!
//! A text or a byte string is preceded by its length, a number is a variable-length
//! integer, a flag is one byte.

use crate::outside::string_from_utf8;
use crate::proto::codec;
use crate::proto::codec::{decode_prefixed, encode_prefixed};
use crate::proto::varint;
use crate::proto::varint::{decode_varint_sync, encode_varint_sync, VarInt, VARINT_END};
use crate::text;
use crate::text::{decimal_string, join3};
use vstd::prelude::*;
use vstd::slice::*;
use vstd::string::*;
use vstd::utf8::*;

verus! {

/// The largest message size that is announced.
pub const DEFAULT_MAX_MESSAGE_SIZE: u64 = 0x10_0000;

/// The longest text or byte string that is read from the other side.
pub const MAX_REMOTE_FIELD_SIZE: u64 = 0x10_0000;

/// Why a field cannot be read.
#[derive(Debug, Clone, Copy, PartialEq, Eq, Structural)]
pub enum WireError {
    /// The bytes end before the field does.
    Incomplete,
    /// A text is not valid UTF-8.
    InvalidUtf8,
    /// A number is too large.
    OutOfRange,
    /// A text or a byte string is said to be longer than any that is read.
    FieldTooLarge { length: u64 },
}

impl WireError {
    /// The text of the error.
    pub open spec fn message(self) -> Seq<char> {
        match self {
            WireError::Incomplete => "field is incomplete"@,
            WireError::InvalidUtf8 => "field text is not valid UTF-8"@,
            WireError::OutOfRange => "field number is out of range"@,
            WireError::FieldTooLarge { length } => "field length "@ + text::decimal(length as nat)
                + " is too large"@,
        }
    }

    /// The error as text.
    pub fn to_string(&self) -> (r: String)
        ensures
            r@ == self.message(),
    {
        match self {
            WireError::Incomplete => "field is incomplete".to_owned(),
            WireError::InvalidUtf8 => "field text is not valid UTF-8".to_owned(),
            WireError::OutOfRange => "field number is out of range".to_owned(),
            WireError::FieldTooLarge { length } => join3(
                "field length ",
                decimal_string(*length).as_str(),
                " is too large",
            ),
        }
    }
}

/// What a field holds.
pub enum WireField {
    Text(Seq<char>),
    Octets(Seq<u8>),
    Number(nat),
    Flag(bool),
}

/// What a field is to hold; a number is to be at most the given one.
#[derive(Debug, Clone, Copy, PartialEq, Eq)]
pub enum FieldKind {
    Text,
    Octets,
    Number(u64),
    Flag,
}

/// The field is of the kind.
pub open spec fn is_kind(f: WireField, k: FieldKind) -> bool {
    match (f, k) {
        (WireField::Text(_), FieldKind::Text) => true,
        (WireField::Octets(_), FieldKind::Octets) => true,
        (WireField::Number(n), FieldKind::Number(max)) => n <= max,
        (WireField::Flag(_), FieldKind::Flag) => true,
        _ => false,
    }
}

/// The field can be written.
pub open spec fn field_fits(f: WireField) -> bool {
    match f {
        WireField::Text(s) => encode_utf8(s).len() < VARINT_END,
        WireField::Octets(b) => b.len() < VARINT_END,
        WireField::Number(n) => n < VARINT_END,
        WireField::Flag(_) => true,
    }
}

/// The field is read by the other side: it can be written, and it is not too long.
pub open spec fn field_accepted(f: WireField) -> bool {
    match f {
        WireField::Text(s) => encode_utf8(s).len() <= MAX_REMOTE_FIELD_SIZE,
        WireField::Octets(b) => b.len() <= MAX_REMOTE_FIELD_SIZE,
        WireField::Number(n) => n < VARINT_END,
        WireField::Flag(_) => true,
    }
}

/// The bytes of a field.
pub open spec fn field_bytes(f: WireField) -> Seq<u8> {
    match f {
        WireField::Text(s) => codec::length_prefixed(encode_utf8(s)),
        WireField::Octets(b) => codec::length_prefixed(b),
        WireField::Number(n) => varint::varint_bytes(n),
        WireField::Flag(b) => seq![if b {
            1u8
        } else {
            0u8
        }],
    }
}

/// The byte string at the head of another that its length precedes, and what follows it.
/// A length that is too large is an error, whatever follows it.
pub open spec fn take_octets(s: Seq<u8>) -> Result<(Seq<u8>, Seq<u8>), WireError> {
    match varint::take_varint(s) {
        None => Err(WireError::Incomplete),
        Some((length, _)) => if length > MAX_REMOTE_FIELD_SIZE {
            Err(WireError::FieldTooLarge { length: length as u64 })
        } else {
            match codec::take_prefixed(s) {
                None => Err(WireError::Incomplete),
                Some(found) => Ok(found),
            }
        },
    }
}

/// The field at the head of a byte string, and what follows it.
pub open spec fn take_field(k: FieldKind, s: Seq<u8>) -> Result<(WireField, Seq<u8>), WireError> {
    match k {
        FieldKind::Text => match take_octets(s) {
            Err(e) => Err(e),
            Ok((b, rest)) => if valid_utf8(b) {
                Ok((WireField::Text(decode_utf8(b)), rest))
            } else {
                Err(WireError::InvalidUtf8)
            },
        },
        FieldKind::Octets => match take_octets(s) {
            Err(e) => Err(e),
            Ok((b, rest)) => Ok((WireField::Octets(b), rest)),
        },
        FieldKind::Number(max) => match varint::take_varint(s) {
            None => Err(WireError::Incomplete),
            Some((n, rest)) => if n <= max {
                Ok((WireField::Number(n), rest))
            } else {
                Err(WireError::OutOfRange)
            },
        },
        FieldKind::Flag => if s.len() == 0 {
            Err(WireError::Incomplete)
        } else {
            Ok((WireField::Flag(s[0] != 0), s.subrange(1, s.len() as int)))
        },
    }
}

/// The bytes of fields from the given one on.
pub open spec fn fields_bytes(fs: Seq<WireField>, i: int) -> Seq<u8>
    decreases fs.len() - i,
{
    if i < 0 || i >= fs.len() {
        Seq::empty()
    } else {
        field_bytes(fs[i]) + fields_bytes(fs, i + 1)
    }
}

/// The fields at the head of a byte string, of the given kinds from the given one
/// on, and what follows them.
pub open spec fn take_fields(ks: Seq<FieldKind>, i: int, s: Seq<u8>) -> Result<
    (Seq<WireField>, Seq<u8>),
    WireError,
>
    decreases ks.len() - i,
{
    if i < 0 || i >= ks.len() {
        Ok((Seq::empty(), s))
    } else {
        match take_field(ks[i], s) {
            Err(e) => Err(e),
            Ok((f, rest)) => match take_fields(ks, i + 1, rest) {
                Err(e) => Err(e),
                Ok((fs, last)) => Ok((seq![f] + fs, last)),
            },
        }
    }
}

proof fn lemma_octets_roundtrip(b: Seq<u8>, rest: Seq<u8>)
    requires
        b.len() <= MAX_REMOTE_FIELD_SIZE,
    ensures
        take_octets(codec::length_prefixed(b) + rest) == Ok::<_, WireError>((b, rest)),
{
    codec::lemma_prefixed_roundtrip(b, rest);
    varint::lemma_varint_roundtrip(b.len(), b + rest);
    assert(codec::length_prefixed(b) + rest =~= varint::varint_bytes(b.len()) + (b + rest));
}

/// A written field is read back, and what followed it is left, unless it is longer than
/// any that is read.
pub proof fn lemma_field_roundtrip(f: WireField, k: FieldKind, rest: Seq<u8>)
    requires
        field_accepted(f),
        is_kind(f, k),
    ensures
        take_field(k, field_bytes(f) + rest) == Ok::<_, WireError>((f, rest)),
{
    match f {
        WireField::Text(s) => {
            lemma_octets_roundtrip(encode_utf8(s), rest);
            encode_utf8_valid_utf8(s);
            encode_utf8_decode_utf8(s);
        },
        WireField::Octets(b) => {
            lemma_octets_roundtrip(b, rest);
        },
        WireField::Number(n) => {
            varint::lemma_varint_roundtrip(n, rest);
        },
        WireField::Flag(b) => {
            let s = field_bytes(f) + rest;
            assert(s.subrange(1, s.len() as int) =~= rest);
        },
    }
}

/// Written fields are read back, and what followed them is left, unless one is longer
/// than any that is read.
pub proof fn lemma_fields_roundtrip(fs: Seq<WireField>, ks: Seq<FieldKind>, i: int, rest: Seq<u8>)
    requires
        0 <= i <= fs.len(),
        fs.len() == ks.len(),
        forall|j: int|
            0 <= j < fs.len() ==> field_accepted(#[trigger] fs[j]) && is_kind(fs[j], ks[j]),
    ensures
        take_fields(ks, i, fields_bytes(fs, i) + rest) == Ok::<_, WireError>(
            (fs.subrange(i, fs.len() as int), rest),
        ),
    decreases fs.len() - i,
{
    if i < fs.len() {
        assert(field_accepted(fs[i]));
        let tail = fields_bytes(fs, i + 1) + rest;
        assert(fields_bytes(fs, i) + rest =~= field_bytes(fs[i]) + tail);
        lemma_field_roundtrip(fs[i], ks[i], tail);
        lemma_fields_roundtrip(fs, ks, i + 1, rest);
        assert(seq![fs[i]] + fs.subrange(i + 1, fs.len() as int) =~= fs.subrange(
            i,
            fs.len() as int,
        ));
    } else {
        assert(fields_bytes(fs, i) + rest =~= rest);
        assert(fs.subrange(i, fs.len() as int) =~= Seq::<WireField>::empty());
    }
}

/// Reads fields one after another.
pub struct Cursor<'a> {
    rest: &'a [u8],
}

impl<'a> Cursor<'a> {
    /// What has not been read.
    pub closed spec fn rest(&self) -> Seq<u8> {
        self.rest@
    }

    /// Starts at the head of a slice.
    pub fn new(data: &'a [u8]) -> (r: Self)
        ensures
            r.rest() == data@,
    {
        Cursor { rest: data }
    }

    /// How many bytes have not been read.
    pub fn remaining(&self) -> (r: usize)
        ensures
            r == self.rest().len(),
    {
        self.rest.len()
    }

    /// The bytes that have not been read.
    pub fn rest_slice(&self) -> (r: &'a [u8])
        ensures
            r@ == self.rest(),
    {
        self.rest
    }

    /// Reads a byte string.
    pub fn octets(&mut self) -> (r: Result<Vec<u8>, WireError>)
        ensures
            match r {
                Ok(b) => take_field(FieldKind::Octets, old(self).rest()) == Ok::<_, WireError>(
                    (WireField::Octets(b@), final(self).rest()),
                ),
                Err(e) => take_field(FieldKind::Octets, old(self).rest()) == Err::<
                    (WireField, Seq<u8>),
                    _,
                >(e),
            },
    {
        match decode_varint_sync(self.rest) {
            None => return Err(WireError::Incomplete),
            Some((length, _)) => {
                let length: u64 = length.into_inner();
                if length > MAX_REMOTE_FIELD_SIZE {
                    return Err(WireError::FieldTooLarge { length });
                }
            },
        }
        match decode_prefixed(self.rest) {
            None => Err(WireError::Incomplete),
            Some((b, n)) => {
                self.rest = slice_subrange(self.rest, n, self.rest.len());
                Ok(b)
            },
        }
    }

    /// Reads a text.
    pub fn text(&mut self) -> (r: Result<String, WireError>)
        ensures
            match r {
                Ok(s) => take_field(FieldKind::Text, old(self).rest()) == Ok::<_, WireError>(
                    (WireField::Text(s@), final(self).rest()),
                ),
                Err(e) => take_field(FieldKind::Text, old(self).rest()) == Err::<
                    (WireField, Seq<u8>),
                    _,
                >(e),
            },
    {
        match self.octets() {
            Err(e) => Err(e),
            Ok(b) => match string_from_utf8(b) {
                Ok(s) => Ok(s),
                Err(_) => Err(WireError::InvalidUtf8),
            },
        }
    }

    /// Reads a number that is at most the given one.
    pub fn number(&mut self, max: u64) -> (r: Result<u64, WireError>)
        ensures
            match r {
                Ok(n) => n <= max && take_field(FieldKind::Number(max), old(self).rest())
                    == Ok::<_, WireError>((WireField::Number(n as nat), final(self).rest())),
                Err(e) => take_field(FieldKind::Number(max), old(self).rest()) == Err::<
                    (WireField, Seq<u8>),
                    _,
                >(e),
            },
    {
        match decode_varint_sync(self.rest) {
            None => Err(WireError::Incomplete),
            Some((v, n)) => {
                let v: u64 = v.into_inner();
                if v > max {
                    return Err(WireError::OutOfRange);
                }
                self.rest = slice_subrange(self.rest, n, self.rest.len());
                Ok(v)
            },
        }
    }

    /// Reads a flag.
    pub fn flag(&mut self) -> (r: Result<bool, WireError>)
        ensures
            match r {
                Ok(b) => take_field(FieldKind::Flag, old(self).rest()) == Ok::<_, WireError>(
                    (WireField::Flag(b), final(self).rest()),
                ),
                Err(e) => take_field(FieldKind::Flag, old(self).rest()) == Err::<
                    (WireField, Seq<u8>),
                    _,
                >(e),
            },
    {
        if self.rest.len() == 0 {
            return Err(WireError::Incomplete);
        }
        let b: bool = self.rest[0] != 0;
        self.rest = slice_subrange(self.rest, 1, self.rest.len());
        Ok(b)
    }
}

/// Appends a text.
pub fn push_text(s: &str, buf: &mut Vec<u8>) -> (r: bool)
    ensures
        r == field_fits(WireField::Text(s@)),
        r ==> final(buf)@ == old(buf)@ + field_bytes(WireField::Text(s@)),
{
    encode_prefixed(s.as_bytes(), buf)
}

/// Appends a byte string.
pub fn push_octets(b: &[u8], buf: &mut Vec<u8>) -> (r: bool)
    ensures
        r == field_fits(WireField::Octets(b@)),
        r ==> final(buf)@ == old(buf)@ + field_bytes(WireField::Octets(b@)),
{
    encode_prefixed(b, buf)
}

/// Appends a number.
pub fn push_number(n: u64, buf: &mut Vec<u8>) -> (r: bool)
    ensures
        r == field_fits(WireField::Number(n as nat)),
        r ==> final(buf)@ == old(buf)@ + field_bytes(WireField::Number(n as nat)),
{
    match VarInt::from_u64(n) {
        None => false,
        Some(v) => {
            encode_varint_sync(v, buf);
            true
        },
    }
}

/// Appends a flag.
pub fn push_flag(b: bool, buf: &mut Vec<u8>)
    ensures
        final(buf)@ == old(buf)@ + field_bytes(WireField::Flag(b)),
{
    buf.push(if b {
        1
    } else {
        0
    });
    assert(buf@ =~= old(buf)@ + field_bytes(WireField::Flag(b)));
}

/// What follows a field is the end of the byte string.
pub proof fn lemma_suffix_field(k: FieldKind, s: Seq<u8>)
    ensures
        take_field(k, s) matches Ok((_, rest)) ==> rest.len() <= s.len() && rest == s.subrange(
            s.len() - rest.len(),
            s.len() as int,
        ),
{
    varint::lemma_varint_shortest(s);
    if let Some((n, rest)) = varint::take_varint(s) {
        if n <= rest.len() {
            assert(rest.subrange(n as int, rest.len() as int) =~= s.subrange(
                s.len() - rest.len() + n,
                s.len() as int,
            ));
        }
    }
}

/// What follows the fields is the end of the byte string.
proof fn lemma_suffix_fields(ks: Seq<FieldKind>, i: int, s: Seq<u8>)
    ensures
        take_fields(ks, i, s) matches Ok((_, rest)) ==> rest.len() <= s.len() && rest == s.subrange(
            s.len() - rest.len(),
            s.len() as int,
        ),
    decreases ks.len() - i,
{
    if i < 0 || i >= ks.len() {
        assert(s.subrange(0, s.len() as int) =~= s);
    } else {
        lemma_suffix_field(ks[i], s);
        if let Ok((f, rest)) = take_field(ks[i], s) {
            lemma_suffix_fields(ks, i + 1, rest);
            if let Ok((fs, last)) = take_fields(ks, i + 1, rest) {
                assert(last =~= s.subrange(s.len() - last.len(), s.len() as int));
            }
        }
    }
}

/// Every field can be written.
pub open spec fn all_fit(fs: Seq<WireField>) -> bool {
    forall|i: int| 0 <= i < fs.len() ==> field_fits(#[trigger] fs[i])
}

/// Every field is read by the other side.
pub open spec fn all_accepted(fs: Seq<WireField>) -> bool {
    forall|i: int| 0 <= i < fs.len() ==> field_accepted(#[trigger] fs[i])
}

/// A field to be written.
pub enum FieldRef<'a> {
    Text(&'a str),
    Octets(&'a [u8]),
    Number(u64),
    Flag(bool),
}

impl<'a> View for FieldRef<'a> {
    type V = WireField;

    open spec fn view(&self) -> WireField {
        match self {
            FieldRef::Text(s) => WireField::Text(s@),
            FieldRef::Octets(b) => WireField::Octets(b@),
            FieldRef::Number(n) => WireField::Number(*n as nat),
            FieldRef::Flag(b) => WireField::Flag(*b),
        }
    }
}

/// A field that was read.
pub enum FieldValue {
    Text(String),
    Octets(Vec<u8>),
    Number(u64),
    Flag(bool),
}

impl View for FieldValue {
    type V = WireField;

    open spec fn view(&self) -> WireField {
        match self {
            FieldValue::Text(s) => WireField::Text(s@),
            FieldValue::Octets(b) => WireField::Octets(b@),
            FieldValue::Number(n) => WireField::Number(*n as nat),
            FieldValue::Flag(b) => WireField::Flag(*b),
        }
    }
}

/// What fields to be written hold.
pub open spec fn ref_views(v: Seq<FieldRef>) -> Seq<WireField> {
    v.map_values(|f: FieldRef| f@)
}

/// What fields that were read hold.
pub open spec fn value_views(v: Seq<FieldValue>) -> Seq<WireField> {
    v.map_values(|f: FieldValue| f@)
}

/// The fields are of the kinds.
pub open spec fn are_kinds(fs: Seq<WireField>, ks: Seq<FieldKind>) -> bool {
    fs.len() == ks.len() && forall|i: int|
        0 <= i < fs.len() ==> is_kind(#[trigger] fs[i], ks[i])
}

proof fn lemma_fields_bytes_push(fs: Seq<WireField>, i: int, k: int)
    requires
        0 <= i <= k < fs.len(),
    ensures
        fields_bytes(fs.subrange(0, k + 1), i) == fields_bytes(fs.subrange(0, k), i) + field_bytes(
            fs[k],
        ),
    decreases k - i,
{
    let a = fs.subrange(0, k);
    let b = fs.subrange(0, k + 1);
    if i < k {
        lemma_fields_bytes_push(fs, i + 1, k);
        assert(a[i] == b[i]);
        assert(fields_bytes(b, i) =~= fields_bytes(a, i) + field_bytes(fs[k]));
    } else {
        reveal_with_fuel(fields_bytes, 2);
        assert(b[i] == fs[k]);
        assert(fields_bytes(b, i) =~= fields_bytes(a, i) + field_bytes(fs[k]));
    }
}

/// The bytes of fields, one after another; none where a field is too large.
pub fn write_fields(v: &[FieldRef]) -> (r: Option<Vec<u8>>)
    ensures
        match r {
            Some(b) => all_fit(ref_views(v@)) && b@ == fields_bytes(ref_views(v@), 0),
            None => !all_fit(ref_views(v@)),
        },
{
    let ghost fs = ref_views(v@);
    let mut buf: Vec<u8> = Vec::new();
    let mut i: usize = 0;
    while i < v.len()
        invariant
            i <= v@.len(),
            fs == ref_views(v@),
            fs.len() == v@.len(),
            forall|j: int| 0 <= j < i ==> field_fits(#[trigger] fs[j]),
            buf@ == fields_bytes(fs.subrange(0, i as int), 0),
        decreases v@.len() - i,
    {
        proof {
            lemma_fields_bytes_push(fs, 0, i as int);
            assert(fs[i as int] == v@[i as int]@);
        }
        let done: bool = match &v[i] {
            FieldRef::Text(s) => push_text(s, &mut buf),
            FieldRef::Octets(b) => push_octets(b, &mut buf),
            FieldRef::Number(n) => push_number(*n, &mut buf),
            FieldRef::Flag(b) => {
                push_flag(*b, &mut buf);
                true
            },
        };
        if !done {
            assert(!field_fits(fs[i as int]));
            return None;
        }
        i = i + 1;
    }
    assert(fs.subrange(0, i as int) =~= fs);
    Some(buf)
}

/// Reads the fields at the head of a slice, and tells how many bytes they take.
pub fn read_fields(kinds: &[FieldKind], data: &[u8]) -> (r: Result<
    (Vec<FieldValue>, usize),
    WireError,
>)
    ensures
        match r {
            Ok((v, n)) => {
                &&& n <= data@.len()
                &&& are_kinds(value_views(v@), kinds@)
                &&& take_fields(kinds@, 0, data@) == Ok::<_, WireError>(
                    (value_views(v@), data@.subrange(n as int, data@.len() as int)),
                )
            },
            Err(e) => take_fields(kinds@, 0, data@) == Err::<(Seq<WireField>, Seq<u8>), _>(e),
        },
{
    let mut c = Cursor::new(data);
    let mut v: Vec<FieldValue> = Vec::new();
    let mut i: usize = 0;
    proof {
        if let Ok((fs, last)) = take_fields(kinds@, 0, data@) {
            assert(value_views(v@) + fs =~= fs);
        }
    }
    while i < kinds.len()
        invariant
            i <= kinds@.len(),
            v@.len() == i,
            forall|j: int| 0 <= j < i ==> is_kind((#[trigger] v@[j])@, kinds@[j]),
            take_fields(kinds@, 0, data@) == (match take_fields(kinds@, i as int, c.rest()) {
                Ok((fs, last)) => Ok((value_views(v@) + fs, last)),
                Err(e) => Err(e),
            }),
        decreases kinds@.len() - i,
    {
        let ghost before = value_views(v@);
        let ghost s = c.rest();
        let read: Result<FieldValue, WireError> = match &kinds[i] {
            FieldKind::Text => match c.text() {
                Ok(x) => Ok(FieldValue::Text(x)),
                Err(e) => Err(e),
            },
            FieldKind::Octets => match c.octets() {
                Ok(x) => Ok(FieldValue::Octets(x)),
                Err(e) => Err(e),
            },
            FieldKind::Number(max) => match c.number(*max) {
                Ok(x) => Ok(FieldValue::Number(x)),
                Err(e) => Err(e),
            },
            FieldKind::Flag => match c.flag() {
                Ok(x) => Ok(FieldValue::Flag(x)),
                Err(e) => Err(e),
            },
        };
        match read {
            Err(e) => return Err(e),
            Ok(x) => {
                let ghost f = x@;
                v.push(x);
                proof {
                    assert(take_field(kinds@[i as int], s) == Ok::<_, WireError>((f, c.rest())));
                    assert(value_views(v@) =~= before.push(f));
                    if let Ok((fs, last)) = take_fields(kinds@, i as int + 1, c.rest()) {
                        assert(before + (seq![f] + fs) =~= value_views(v@) + fs);
                    }
                }
            },
        }
        i = i + 1;
    }
    proof {
        assert(value_views(v@) + Seq::<WireField>::empty() =~= value_views(v@));
        lemma_suffix_fields(kinds@, 0, data@);
        assert forall|j: int| 0 <= j < kinds@.len() implies is_kind(
            #[trigger] value_views(v@)[j],
            kinds@[j],
        ) by {
            assert(is_kind(v@[j]@, kinds@[j]));
        }
    }
    let n: usize = data.len() - c.remaining();
    Ok((v, n))
}

pub(crate) fn pop_text(v: &mut Vec<FieldValue>) -> (r: String)
    requires
        old(v)@.len() > 0,
        old(v)@.last() is Text,
    ensures
        final(v)@ == old(v)@.drop_last(),
        old(v)@.last()@ == WireField::Text(r@),
{
    match v.pop() {
        Some(FieldValue::Text(s)) => s,
        _ => String::new(),
    }
}

pub(crate) fn pop_octets(v: &mut Vec<FieldValue>) -> (r: Vec<u8>)
    requires
        old(v)@.len() > 0,
        old(v)@.last() is Octets,
    ensures
        final(v)@ == old(v)@.drop_last(),
        old(v)@.last()@ == WireField::Octets(r@),
{
    match v.pop() {
        Some(FieldValue::Octets(b)) => b,
        _ => Vec::new(),
    }
}

pub(crate) fn pop_number(v: &mut Vec<FieldValue>) -> (r: u64)
    requires
        old(v)@.len() > 0,
        old(v)@.last() is Number,
    ensures
        final(v)@ == old(v)@.drop_last(),
        old(v)@.last()@ == WireField::Number(r as nat),
{
    match v.pop() {
        Some(FieldValue::Number(n)) => n,
        _ => 0,
    }
}

pub(crate) fn pop_flag(v: &mut Vec<FieldValue>) -> (r: bool)
    requires
        old(v)@.len() > 0,
        old(v)@.last() is Flag,
    ensures
        final(v)@ == old(v)@.drop_last(),
        old(v)@.last()@ == WireField::Flag(r),
{
    match v.pop() {
        Some(FieldValue::Flag(b)) => b,
        _ => false,
    }
}

/// Where a forwarded TCP connection is to go, and where it came from.
#[derive(Debug, Clone, PartialEq, Eq)]
pub struct DirectTcpRequest {
    pub dest_host: String,
    pub dest_port: u64,
    pub originator_host: String,
    pub originator_port: u64,
}

impl DirectTcpRequest {
    /// The fields in order.
    pub open spec fn fields(self) -> Seq<WireField> {
        seq![
            WireField::Text(self.dest_host@),
            WireField::Number(self.dest_port as nat),
            WireField::Text(self.originator_host@),
            WireField::Number(self.originator_port as nat),
        ]
    }

    /// The kinds of the fields.
    pub open spec fn kinds() -> Seq<FieldKind> {
        seq![
            FieldKind::Text,
            FieldKind::Number(0xffff_ffff_ffff_ffff),
            FieldKind::Text,
            FieldKind::Number(0xffff_ffff_ffff_ffff),
        ]
    }

    /// The written request is read back, and what followed it is left.
    pub proof fn lemma_roundtrip(self, rest: Seq<u8>)
        requires
            all_accepted(self.fields()),
        ensures
            take_fields(DirectTcpRequest::kinds(), 0, fields_bytes(self.fields(), 0) + rest) == Ok::<
                _,
                WireError,
            >((self.fields(), rest)),
    {
        lemma_fields_roundtrip(self.fields(), DirectTcpRequest::kinds(), 0, rest);
        assert(self.fields().subrange(0, self.fields().len() as int) =~= self.fields());
    }

    /// The bytes of the request; none where a field is too large to be written.
    pub fn encode(&self) -> (r: Option<Vec<u8>>)
        ensures
            match r {
                Some(b) => all_fit(self.fields()) && b@ == fields_bytes(self.fields(), 0),
                None => !all_fit(self.fields()),
            },
    {
        let v = vec![
            FieldRef::Text(self.dest_host.as_str()),
            FieldRef::Number(self.dest_port),
            FieldRef::Text(self.originator_host.as_str()),
            FieldRef::Number(self.originator_port),
        ];
        assert(ref_views(v@) =~= self.fields());
        write_fields(v.as_slice())
    }

    /// The request at the head of a slice, and the number of bytes that it takes.
    pub fn decode(data: &[u8]) -> (r: Result<(Self, usize), WireError>)
        ensures
            match r {
                Ok((x, n)) => {
                    &&& n <= data@.len()
                    &&& take_fields(DirectTcpRequest::kinds(), 0, data@) == Ok::<_, WireError>(
                        (x.fields(), data@.subrange(n as int, data@.len() as int)),
                    )
                },
                Err(e) => take_fields(DirectTcpRequest::kinds(), 0, data@) == Err::<
                    (Seq<WireField>, Seq<u8>),
                    _,
                >(e),
            },
    {
        let kinds = vec![
            FieldKind::Text,
            FieldKind::Number(0xffff_ffff_ffff_ffff),
            FieldKind::Text,
            FieldKind::Number(0xffff_ffff_ffff_ffff),
        ];
        assert(kinds@ =~= DirectTcpRequest::kinds());
        match read_fields(kinds.as_slice(), data) {
            Err(e) => Err(e),
            Ok((mut v, n)) => {
                let ghost all = value_views(v@);
                assert(is_kind(all[0], kinds@[0]));
                assert(is_kind(all[1], kinds@[1]));
                assert(is_kind(all[2], kinds@[2]));
                assert(is_kind(all[3], kinds@[3]));
                let originator_port: u64 = pop_number(&mut v);
                let originator_host: String = pop_text(&mut v);
                let dest_port: u64 = pop_number(&mut v);
                let dest_host: String = pop_text(&mut v);
                let x = DirectTcpRequest { dest_host, dest_port, originator_host, originator_port };
                assert(x.fields() =~= all);
                Ok((x, n))
            },
        }
    }
}

/// The Unix socket that a forwarded connection is to go to.
#[derive(Debug, Clone, PartialEq, Eq)]
pub struct DirectStreamlocalRequest {
    pub socket_path: String,
    pub reserved_string: String,
    pub reserved_number: u64,
}

impl DirectStreamlocalRequest {
    /// The fields in order.
    pub open spec fn fields(self) -> Seq<WireField> {
        seq![
            WireField::Text(self.socket_path@),
            WireField::Text(self.reserved_string@),
            WireField::Number(self.reserved_number as nat),
        ]
    }

    /// The kinds of the fields.
    pub open spec fn kinds() -> Seq<FieldKind> {
        seq![
            FieldKind::Text,
            FieldKind::Text,
            FieldKind::Number(0xffff_ffff_ffff_ffff),
        ]
    }

    /// The written request is read back, and what followed it is left.
    pub proof fn lemma_roundtrip(self, rest: Seq<u8>)
        requires
            all_accepted(self.fields()),
        ensures
            take_fields(DirectStreamlocalRequest::kinds(), 0, fields_bytes(self.fields(), 0) + rest) == Ok::<
                _,
                WireError,
            >((self.fields(), rest)),
    {
        lemma_fields_roundtrip(self.fields(), DirectStreamlocalRequest::kinds(), 0, rest);
        assert(self.fields().subrange(0, self.fields().len() as int) =~= self.fields());
    }

    /// The bytes of the request; none where a field is too large to be written.
    pub fn encode(&self) -> (r: Option<Vec<u8>>)
        ensures
            match r {
                Some(b) => all_fit(self.fields()) && b@ == fields_bytes(self.fields(), 0),
                None => !all_fit(self.fields()),
            },
    {
        let v = vec![
            FieldRef::Text(self.socket_path.as_str()),
            FieldRef::Text(self.reserved_string.as_str()),
            FieldRef::Number(self.reserved_number),
        ];
        assert(ref_views(v@) =~= self.fields());
        write_fields(v.as_slice())
    }

    /// The request at the head of a slice, and the number of bytes that it takes.
    pub fn decode(data: &[u8]) -> (r: Result<(Self, usize), WireError>)
        ensures
            match r {
                Ok((x, n)) => {
                    &&& n <= data@.len()
                    &&& take_fields(DirectStreamlocalRequest::kinds(), 0, data@) == Ok::<_, WireError>(
                        (x.fields(), data@.subrange(n as int, data@.len() as int)),
                    )
                },
                Err(e) => take_fields(DirectStreamlocalRequest::kinds(), 0, data@) == Err::<
                    (Seq<WireField>, Seq<u8>),
                    _,
                >(e),
            },
    {
        let kinds = vec![
            FieldKind::Text,
            FieldKind::Text,
            FieldKind::Number(0xffff_ffff_ffff_ffff),
        ];
        assert(kinds@ =~= DirectStreamlocalRequest::kinds());
        match read_fields(kinds.as_slice(), data) {
            Err(e) => Err(e),
            Ok((mut v, n)) => {
                let ghost all = value_views(v@);
                assert(is_kind(all[0], kinds@[0]));
                assert(is_kind(all[1], kinds@[1]));
                assert(is_kind(all[2], kinds@[2]));
                let reserved_number: u64 = pop_number(&mut v);
                let reserved_string: String = pop_text(&mut v);
                let socket_path: String = pop_text(&mut v);
                let x = DirectStreamlocalRequest { socket_path, reserved_string, reserved_number };
                assert(x.fields() =~= all);
                Ok((x, n))
            },
        }
    }
}

/// The TCP port whose connections are to be forwarded, or no longer.
#[derive(Debug, Clone, PartialEq, Eq)]
pub struct TcpipForwardRequest {
    pub bind_address: String,
    pub bind_port: u32,
}

impl TcpipForwardRequest {
    /// The fields in order.
    pub open spec fn fields(self) -> Seq<WireField> {
        seq![
            WireField::Text(self.bind_address@),
            WireField::Number(self.bind_port as nat),
        ]
    }

    /// The kinds of the fields.
    pub open spec fn kinds() -> Seq<FieldKind> {
        seq![
            FieldKind::Text,
            FieldKind::Number(0xffff_ffff),
        ]
    }

    /// The written request is read back, and what followed it is left.
    pub proof fn lemma_roundtrip(self, rest: Seq<u8>)
        requires
            all_accepted(self.fields()),
        ensures
            take_fields(TcpipForwardRequest::kinds(), 0, fields_bytes(self.fields(), 0) + rest) == Ok::<
                _,
                WireError,
            >((self.fields(), rest)),
    {
        lemma_fields_roundtrip(self.fields(), TcpipForwardRequest::kinds(), 0, rest);
        assert(self.fields().subrange(0, self.fields().len() as int) =~= self.fields());
    }

    /// The bytes of the request; none where a field is too large to be written.
    pub fn encode(&self) -> (r: Option<Vec<u8>>)
        ensures
            match r {
                Some(b) => all_fit(self.fields()) && b@ == fields_bytes(self.fields(), 0),
                None => !all_fit(self.fields()),
            },
    {
        let v = vec![
            FieldRef::Text(self.bind_address.as_str()),
            FieldRef::Number(self.bind_port as u64),
        ];
        assert(ref_views(v@) =~= self.fields());
        write_fields(v.as_slice())
    }

    /// The request at the head of a slice, and the number of bytes that it takes.
    pub fn decode(data: &[u8]) -> (r: Result<(Self, usize), WireError>)
        ensures
            match r {
                Ok((x, n)) => {
                    &&& n <= data@.len()
                    &&& take_fields(TcpipForwardRequest::kinds(), 0, data@) == Ok::<_, WireError>(
                        (x.fields(), data@.subrange(n as int, data@.len() as int)),
                    )
                },
                Err(e) => take_fields(TcpipForwardRequest::kinds(), 0, data@) == Err::<
                    (Seq<WireField>, Seq<u8>),
                    _,
                >(e),
            },
    {
        let kinds = vec![
            FieldKind::Text,
            FieldKind::Number(0xffff_ffff),
        ];
        assert(kinds@ =~= TcpipForwardRequest::kinds());
        match read_fields(kinds.as_slice(), data) {
            Err(e) => Err(e),
            Ok((mut v, n)) => {
                let ghost all = value_views(v@);
                assert(is_kind(all[0], kinds@[0]));
                assert(is_kind(all[1], kinds@[1]));
                let bind_port: u32 = pop_number(&mut v) as u32;
                let bind_address: String = pop_text(&mut v);
                let x = TcpipForwardRequest { bind_address, bind_port };
                assert(x.fields() =~= all);
                Ok((x, n))
            },
        }
    }
}

/// The TCP port whose connections are forwarded.
#[derive(Debug, Clone, PartialEq, Eq)]
pub struct TcpipForwardReply {
    pub allocated_port: u32,
}

impl TcpipForwardReply {
    /// The fields in order.
    pub open spec fn fields(self) -> Seq<WireField> {
        seq![
            WireField::Number(self.allocated_port as nat),
        ]
    }

    /// The kinds of the fields.
    pub open spec fn kinds() -> Seq<FieldKind> {
        seq![
            FieldKind::Number(0xffff_ffff),
        ]
    }

    /// The written request is read back, and what followed it is left.
    pub proof fn lemma_roundtrip(self, rest: Seq<u8>)
        requires
            all_accepted(self.fields()),
        ensures
            take_fields(TcpipForwardReply::kinds(), 0, fields_bytes(self.fields(), 0) + rest) == Ok::<
                _,
                WireError,
            >((self.fields(), rest)),
    {
        lemma_fields_roundtrip(self.fields(), TcpipForwardReply::kinds(), 0, rest);
        assert(self.fields().subrange(0, self.fields().len() as int) =~= self.fields());
    }

    /// The bytes of the request; none where a field is too large to be written.
    pub fn encode(&self) -> (r: Option<Vec<u8>>)
        ensures
            match r {
                Some(b) => all_fit(self.fields()) && b@ == fields_bytes(self.fields(), 0),
                None => !all_fit(self.fields()),
            },
    {
        let v = vec![
            FieldRef::Number(self.allocated_port as u64),
        ];
        assert(ref_views(v@) =~= self.fields());
        write_fields(v.as_slice())
    }

    /// The request at the head of a slice, and the number of bytes that it takes.
    pub fn decode(data: &[u8]) -> (r: Result<(Self, usize), WireError>)
        ensures
            match r {
                Ok((x, n)) => {
                    &&& n <= data@.len()
                    &&& take_fields(TcpipForwardReply::kinds(), 0, data@) == Ok::<_, WireError>(
                        (x.fields(), data@.subrange(n as int, data@.len() as int)),
                    )
                },
                Err(e) => take_fields(TcpipForwardReply::kinds(), 0, data@) == Err::<
                    (Seq<WireField>, Seq<u8>),
                    _,
                >(e),
            },
    {
        let kinds = vec![
            FieldKind::Number(0xffff_ffff),
        ];
        assert(kinds@ =~= TcpipForwardReply::kinds());
        match read_fields(kinds.as_slice(), data) {
            Err(e) => Err(e),
            Ok((mut v, n)) => {
                let ghost all = value_views(v@);
                assert(is_kind(all[0], kinds@[0]));
                let allocated_port: u32 = pop_number(&mut v) as u32;
                let x = TcpipForwardReply { allocated_port };
                assert(x.fields() =~= all);
                Ok((x, n))
            },
        }
    }
}

/// The Unix socket whose connections are to be forwarded, or no longer.
#[derive(Debug, Clone, PartialEq, Eq)]
pub struct StreamlocalForwardRequest {
    pub socket_path: String,
}

impl StreamlocalForwardRequest {
    /// The fields in order.
    pub open spec fn fields(self) -> Seq<WireField> {
        seq![
            WireField::Text(self.socket_path@),
        ]
    }

    /// The kinds of the fields.
    pub open spec fn kinds() -> Seq<FieldKind> {
        seq![
            FieldKind::Text,
        ]
    }

    /// The written request is read back, and what followed it is left.
    pub proof fn lemma_roundtrip(self, rest: Seq<u8>)
        requires
            all_accepted(self.fields()),
        ensures
            take_fields(StreamlocalForwardRequest::kinds(), 0, fields_bytes(self.fields(), 0) + rest) == Ok::<
                _,
                WireError,
            >((self.fields(), rest)),
    {
        lemma_fields_roundtrip(self.fields(), StreamlocalForwardRequest::kinds(), 0, rest);
        assert(self.fields().subrange(0, self.fields().len() as int) =~= self.fields());
    }

    /// The bytes of the request; none where a field is too large to be written.
    pub fn encode(&self) -> (r: Option<Vec<u8>>)
        ensures
            match r {
                Some(b) => all_fit(self.fields()) && b@ == fields_bytes(self.fields(), 0),
                None => !all_fit(self.fields()),
            },
    {
        let v = vec![
            FieldRef::Text(self.socket_path.as_str()),
        ];
        assert(ref_views(v@) =~= self.fields());
        write_fields(v.as_slice())
    }

    /// The request at the head of a slice, and the number of bytes that it takes.
    pub fn decode(data: &[u8]) -> (r: Result<(Self, usize), WireError>)
        ensures
            match r {
                Ok((x, n)) => {
                    &&& n <= data@.len()
                    &&& take_fields(StreamlocalForwardRequest::kinds(), 0, data@) == Ok::<_, WireError>(
                        (x.fields(), data@.subrange(n as int, data@.len() as int)),
                    )
                },
                Err(e) => take_fields(StreamlocalForwardRequest::kinds(), 0, data@) == Err::<
                    (Seq<WireField>, Seq<u8>),
                    _,
                >(e),
            },
    {
        let kinds = vec![
            FieldKind::Text,
        ];
        assert(kinds@ =~= StreamlocalForwardRequest::kinds());
        match read_fields(kinds.as_slice(), data) {
            Err(e) => Err(e),
            Ok((mut v, n)) => {
                let ghost all = value_views(v@);
                assert(is_kind(all[0], kinds@[0]));
                let socket_path: String = pop_text(&mut v);
                let x = StreamlocalForwardRequest { socket_path };
                assert(x.fields() =~= all);
                Ok((x, n))
            },
        }
    }
}

/// The TCP port that a connection came in at, and where it came from.
#[derive(Debug, Clone, PartialEq, Eq)]
pub struct ForwardedTcpipRequest {
    pub connected_address: String,
    pub connected_port: u64,
    pub originator_address: String,
    pub originator_port: u64,
}

impl ForwardedTcpipRequest {
    /// The fields in order.
    pub open spec fn fields(self) -> Seq<WireField> {
        seq![
            WireField::Text(self.connected_address@),
            WireField::Number(self.connected_port as nat),
            WireField::Text(self.originator_address@),
            WireField::Number(self.originator_port as nat),
        ]
    }

    /// The kinds of the fields.
    pub open spec fn kinds() -> Seq<FieldKind> {
        seq![
            FieldKind::Text,
            FieldKind::Number(0xffff_ffff_ffff_ffff),
            FieldKind::Text,
            FieldKind::Number(0xffff_ffff_ffff_ffff),
        ]
    }

    /// The written request is read back, and what followed it is left.
    pub proof fn lemma_roundtrip(self, rest: Seq<u8>)
        requires
            all_accepted(self.fields()),
        ensures
            take_fields(ForwardedTcpipRequest::kinds(), 0, fields_bytes(self.fields(), 0) + rest) == Ok::<
                _,
                WireError,
            >((self.fields(), rest)),
    {
        lemma_fields_roundtrip(self.fields(), ForwardedTcpipRequest::kinds(), 0, rest);
        assert(self.fields().subrange(0, self.fields().len() as int) =~= self.fields());
    }

    /// The bytes of the request; none where a field is too large to be written.
    pub fn encode(&self) -> (r: Option<Vec<u8>>)
        ensures
            match r {
                Some(b) => all_fit(self.fields()) && b@ == fields_bytes(self.fields(), 0),
                None => !all_fit(self.fields()),
            },
    {
        let v = vec![
            FieldRef::Text(self.connected_address.as_str()),
            FieldRef::Number(self.connected_port),
            FieldRef::Text(self.originator_address.as_str()),
            FieldRef::Number(self.originator_port),
        ];
        assert(ref_views(v@) =~= self.fields());
        write_fields(v.as_slice())
    }

    /// The request at the head of a slice, and the number of bytes that it takes.
    pub fn decode(data: &[u8]) -> (r: Result<(Self, usize), WireError>)
        ensures
            match r {
                Ok((x, n)) => {
                    &&& n <= data@.len()
                    &&& take_fields(ForwardedTcpipRequest::kinds(), 0, data@) == Ok::<_, WireError>(
                        (x.fields(), data@.subrange(n as int, data@.len() as int)),
                    )
                },
                Err(e) => take_fields(ForwardedTcpipRequest::kinds(), 0, data@) == Err::<
                    (Seq<WireField>, Seq<u8>),
                    _,
                >(e),
            },
    {
        let kinds = vec![
            FieldKind::Text,
            FieldKind::Number(0xffff_ffff_ffff_ffff),
            FieldKind::Text,
            FieldKind::Number(0xffff_ffff_ffff_ffff),
        ];
        assert(kinds@ =~= ForwardedTcpipRequest::kinds());
        match read_fields(kinds.as_slice(), data) {
            Err(e) => Err(e),
            Ok((mut v, n)) => {
                let ghost all = value_views(v@);
                assert(is_kind(all[0], kinds@[0]));
                assert(is_kind(all[1], kinds@[1]));
                assert(is_kind(all[2], kinds@[2]));
                assert(is_kind(all[3], kinds@[3]));
                let originator_port: u64 = pop_number(&mut v);
                let originator_address: String = pop_text(&mut v);
                let connected_port: u64 = pop_number(&mut v);
                let connected_address: String = pop_text(&mut v);
                let x = ForwardedTcpipRequest { connected_address, connected_port, originator_address, originator_port };
                assert(x.fields() =~= all);
                Ok((x, n))
            },
        }
    }
}

/// The Unix socket that a connection came in at.
#[derive(Debug, Clone, PartialEq, Eq)]
pub struct ForwardedStreamlocalRequest {
    pub socket_path: String,
    pub reserved: String,
}

impl ForwardedStreamlocalRequest {
    /// The fields in order.
    pub open spec fn fields(self) -> Seq<WireField> {
        seq![
            WireField::Text(self.socket_path@),
            WireField::Text(self.reserved@),
        ]
    }

    /// The kinds of the fields.
    pub open spec fn kinds() -> Seq<FieldKind> {
        seq![
            FieldKind::Text,
            FieldKind::Text,
        ]
    }

    /// The written request is read back, and what followed it is left.
    pub proof fn lemma_roundtrip(self, rest: Seq<u8>)
        requires
            all_accepted(self.fields()),
        ensures
            take_fields(ForwardedStreamlocalRequest::kinds(), 0, fields_bytes(self.fields(), 0) + rest) == Ok::<
                _,
                WireError,
            >((self.fields(), rest)),
    {
        lemma_fields_roundtrip(self.fields(), ForwardedStreamlocalRequest::kinds(), 0, rest);
        assert(self.fields().subrange(0, self.fields().len() as int) =~= self.fields());
    }

    /// The bytes of the request; none where a field is too large to be written.
    pub fn encode(&self) -> (r: Option<Vec<u8>>)
        ensures
            match r {
                Some(b) => all_fit(self.fields()) && b@ == fields_bytes(self.fields(), 0),
                None => !all_fit(self.fields()),
            },
    {
        let v = vec![
            FieldRef::Text(self.socket_path.as_str()),
            FieldRef::Text(self.reserved.as_str()),
        ];
        assert(ref_views(v@) =~= self.fields());
        write_fields(v.as_slice())
    }

    /// The request at the head of a slice, and the number of bytes that it takes.
    pub fn decode(data: &[u8]) -> (r: Result<(Self, usize), WireError>)
        ensures
            match r {
                Ok((x, n)) => {
                    &&& n <= data@.len()
                    &&& take_fields(ForwardedStreamlocalRequest::kinds(), 0, data@) == Ok::<_, WireError>(
                        (x.fields(), data@.subrange(n as int, data@.len() as int)),
                    )
                },
                Err(e) => take_fields(ForwardedStreamlocalRequest::kinds(), 0, data@) == Err::<
                    (Seq<WireField>, Seq<u8>),
                    _,
                >(e),
            },
    {
        let kinds = vec![
            FieldKind::Text,
            FieldKind::Text,
        ];
        assert(kinds@ =~= ForwardedStreamlocalRequest::kinds());
        match read_fields(kinds.as_slice(), data) {
            Err(e) => Err(e),
            Ok((mut v, n)) => {
                let ghost all = value_views(v@);
                assert(is_kind(all[0], kinds@[0]));
                assert(is_kind(all[1], kinds@[1]));
                let reserved: String = pop_text(&mut v);
                let socket_path: String = pop_text(&mut v);
                let x = ForwardedStreamlocalRequest { socket_path, reserved };
                assert(x.fields() =~= all);
                Ok((x, n))
            },
        }
    }
}

/// The terminal that is wanted.
#[derive(Debug, Clone, PartialEq, Eq)]
pub struct PtyRequest {
    pub term_type: String,
    pub width_cols: u32,
    pub height_rows: u32,
    pub width_px: u32,
    pub height_px: u32,
    pub terminal_modes: Vec<u8>,
}

impl PtyRequest {
    /// The fields in order.
    pub open spec fn fields(self) -> Seq<WireField> {
        seq![
            WireField::Text(self.term_type@),
            WireField::Number(self.width_cols as nat),
            WireField::Number(self.height_rows as nat),
            WireField::Number(self.width_px as nat),
            WireField::Number(self.height_px as nat),
            WireField::Octets(self.terminal_modes@),
        ]
    }

    /// The kinds of the fields.
    pub open spec fn kinds() -> Seq<FieldKind> {
        seq![
            FieldKind::Text,
            FieldKind::Number(0xffff_ffff),
            FieldKind::Number(0xffff_ffff),
            FieldKind::Number(0xffff_ffff),
            FieldKind::Number(0xffff_ffff),
            FieldKind::Octets,
        ]
    }

    /// The written request is read back, and what followed it is left.
    pub proof fn lemma_roundtrip(self, rest: Seq<u8>)
        requires
            all_accepted(self.fields()),
        ensures
            take_fields(PtyRequest::kinds(), 0, fields_bytes(self.fields(), 0) + rest) == Ok::<
                _,
                WireError,
            >((self.fields(), rest)),
    {
        lemma_fields_roundtrip(self.fields(), PtyRequest::kinds(), 0, rest);
        assert(self.fields().subrange(0, self.fields().len() as int) =~= self.fields());
    }

    /// The bytes of the request; none where a field is too large to be written.
    pub fn encode(&self) -> (r: Option<Vec<u8>>)
        ensures
            match r {
                Some(b) => all_fit(self.fields()) && b@ == fields_bytes(self.fields(), 0),
                None => !all_fit(self.fields()),
            },
    {
        let v = vec![
            FieldRef::Text(self.term_type.as_str()),
            FieldRef::Number(self.width_cols as u64),
            FieldRef::Number(self.height_rows as u64),
            FieldRef::Number(self.width_px as u64),
            FieldRef::Number(self.height_px as u64),
            FieldRef::Octets(self.terminal_modes.as_slice()),
        ];
        assert(ref_views(v@) =~= self.fields());
        write_fields(v.as_slice())
    }

    /// The request at the head of a slice, and the number of bytes that it takes.
    pub fn decode(data: &[u8]) -> (r: Result<(Self, usize), WireError>)
        ensures
            match r {
                Ok((x, n)) => {
                    &&& n <= data@.len()
                    &&& take_fields(PtyRequest::kinds(), 0, data@) == Ok::<_, WireError>(
                        (x.fields(), data@.subrange(n as int, data@.len() as int)),
                    )
                },
                Err(e) => take_fields(PtyRequest::kinds(), 0, data@) == Err::<
                    (Seq<WireField>, Seq<u8>),
                    _,
                >(e),
            },
    {
        let kinds = vec![
            FieldKind::Text,
            FieldKind::Number(0xffff_ffff),
            FieldKind::Number(0xffff_ffff),
            FieldKind::Number(0xffff_ffff),
            FieldKind::Number(0xffff_ffff),
            FieldKind::Octets,
        ];
        assert(kinds@ =~= PtyRequest::kinds());
        match read_fields(kinds.as_slice(), data) {
            Err(e) => Err(e),
            Ok((mut v, n)) => {
                let ghost all = value_views(v@);
                assert(is_kind(all[0], kinds@[0]));
                assert(is_kind(all[1], kinds@[1]));
                assert(is_kind(all[2], kinds@[2]));
                assert(is_kind(all[3], kinds@[3]));
                assert(is_kind(all[4], kinds@[4]));
                assert(is_kind(all[5], kinds@[5]));
                let terminal_modes: Vec<u8> = pop_octets(&mut v);
                let height_px: u32 = pop_number(&mut v) as u32;
                let width_px: u32 = pop_number(&mut v) as u32;
                let height_rows: u32 = pop_number(&mut v) as u32;
                let width_cols: u32 = pop_number(&mut v) as u32;
                let term_type: String = pop_text(&mut v);
                let x = PtyRequest { term_type, width_cols, height_rows, width_px, height_px, terminal_modes };
                assert(x.fields() =~= all);
                Ok((x, n))
            },
        }
    }
}

/// The new size of the terminal.
#[derive(Debug, Clone, PartialEq, Eq)]
pub struct WindowChangeRequest {
    pub width_cols: u32,
    pub height_rows: u32,
    pub width_px: u32,
    pub height_px: u32,
}

impl WindowChangeRequest {
    /// The fields in order.
    pub open spec fn fields(self) -> Seq<WireField> {
        seq![
            WireField::Number(self.width_cols as nat),
            WireField::Number(self.height_rows as nat),
            WireField::Number(self.width_px as nat),
            WireField::Number(self.height_px as nat),
        ]
    }

    /// The kinds of the fields.
    pub open spec fn kinds() -> Seq<FieldKind> {
        seq![
            FieldKind::Number(0xffff_ffff),
            FieldKind::Number(0xffff_ffff),
            FieldKind::Number(0xffff_ffff),
            FieldKind::Number(0xffff_ffff),
        ]
    }

    /// The written request is read back, and what followed it is left.
    pub proof fn lemma_roundtrip(self, rest: Seq<u8>)
        requires
            all_accepted(self.fields()),
        ensures
            take_fields(WindowChangeRequest::kinds(), 0, fields_bytes(self.fields(), 0) + rest) == Ok::<
                _,
                WireError,
            >((self.fields(), rest)),
    {
        lemma_fields_roundtrip(self.fields(), WindowChangeRequest::kinds(), 0, rest);
        assert(self.fields().subrange(0, self.fields().len() as int) =~= self.fields());
    }

    /// The bytes of the request; none where a field is too large to be written.
    pub fn encode(&self) -> (r: Option<Vec<u8>>)
        ensures
            match r {
                Some(b) => all_fit(self.fields()) && b@ == fields_bytes(self.fields(), 0),
                None => !all_fit(self.fields()),
            },
    {
        let v = vec![
            FieldRef::Number(self.width_cols as u64),
            FieldRef::Number(self.height_rows as u64),
            FieldRef::Number(self.width_px as u64),
            FieldRef::Number(self.height_px as u64),
        ];
        assert(ref_views(v@) =~= self.fields());
        write_fields(v.as_slice())
    }

    /// The request at the head of a slice, and the number of bytes that it takes.
    pub fn decode(data: &[u8]) -> (r: Result<(Self, usize), WireError>)
        ensures
            match r {
                Ok((x, n)) => {
                    &&& n <= data@.len()
                    &&& take_fields(WindowChangeRequest::kinds(), 0, data@) == Ok::<_, WireError>(
                        (x.fields(), data@.subrange(n as int, data@.len() as int)),
                    )
                },
                Err(e) => take_fields(WindowChangeRequest::kinds(), 0, data@) == Err::<
                    (Seq<WireField>, Seq<u8>),
                    _,
                >(e),
            },
    {
        let kinds = vec![
            FieldKind::Number(0xffff_ffff),
            FieldKind::Number(0xffff_ffff),
            FieldKind::Number(0xffff_ffff),
            FieldKind::Number(0xffff_ffff),
        ];
        assert(kinds@ =~= WindowChangeRequest::kinds());
        match read_fields(kinds.as_slice(), data) {
            Err(e) => Err(e),
            Ok((mut v, n)) => {
                let ghost all = value_views(v@);
                assert(is_kind(all[0], kinds@[0]));
                assert(is_kind(all[1], kinds@[1]));
                assert(is_kind(all[2], kinds@[2]));
                assert(is_kind(all[3], kinds@[3]));
                let height_px: u32 = pop_number(&mut v) as u32;
                let width_px: u32 = pop_number(&mut v) as u32;
                let height_rows: u32 = pop_number(&mut v) as u32;
                let width_cols: u32 = pop_number(&mut v) as u32;
                let x = WindowChangeRequest { width_cols, height_rows, width_px, height_px };
                assert(x.fields() =~= all);
                Ok((x, n))
            },
        }
    }
}

/// The command that is to be run.
#[derive(Debug, Clone, PartialEq, Eq)]
pub struct ExecRequest {
    pub command: Vec<u8>,
}

impl ExecRequest {
    /// The fields in order.
    pub open spec fn fields(self) -> Seq<WireField> {
        seq![
            WireField::Octets(self.command@),
        ]
    }

    /// The kinds of the fields.
    pub open spec fn kinds() -> Seq<FieldKind> {
        seq![
            FieldKind::Octets,
        ]
    }

    /// The written request is read back, and what followed it is left.
    pub proof fn lemma_roundtrip(self, rest: Seq<u8>)
        requires
            all_accepted(self.fields()),
        ensures
            take_fields(ExecRequest::kinds(), 0, fields_bytes(self.fields(), 0) + rest) == Ok::<
                _,
                WireError,
            >((self.fields(), rest)),
    {
        lemma_fields_roundtrip(self.fields(), ExecRequest::kinds(), 0, rest);
        assert(self.fields().subrange(0, self.fields().len() as int) =~= self.fields());
    }

    /// The bytes of the request; none where a field is too large to be written.
    pub fn encode(&self) -> (r: Option<Vec<u8>>)
        ensures
            match r {
                Some(b) => all_fit(self.fields()) && b@ == fields_bytes(self.fields(), 0),
                None => !all_fit(self.fields()),
            },
    {
        let v = vec![
            FieldRef::Octets(self.command.as_slice()),
        ];
        assert(ref_views(v@) =~= self.fields());
        write_fields(v.as_slice())
    }

    /// The request at the head of a slice, and the number of bytes that it takes.
    pub fn decode(data: &[u8]) -> (r: Result<(Self, usize), WireError>)
        ensures
            match r {
                Ok((x, n)) => {
                    &&& n <= data@.len()
                    &&& take_fields(ExecRequest::kinds(), 0, data@) == Ok::<_, WireError>(
                        (x.fields(), data@.subrange(n as int, data@.len() as int)),
                    )
                },
                Err(e) => take_fields(ExecRequest::kinds(), 0, data@) == Err::<
                    (Seq<WireField>, Seq<u8>),
                    _,
                >(e),
            },
    {
        let kinds = vec![
            FieldKind::Octets,
        ];
        assert(kinds@ =~= ExecRequest::kinds());
        match read_fields(kinds.as_slice(), data) {
            Err(e) => Err(e),
            Ok((mut v, n)) => {
                let ghost all = value_views(v@);
                assert(is_kind(all[0], kinds@[0]));
                let command: Vec<u8> = pop_octets(&mut v);
                let x = ExecRequest { command };
                assert(x.fields() =~= all);
                Ok((x, n))
            },
        }
    }
}

/// The subsystem that is to be started.
#[derive(Debug, Clone, PartialEq, Eq)]
pub struct SubsystemRequest {
    pub subsystem_name: String,
}

impl SubsystemRequest {
    /// The fields in order.
    pub open spec fn fields(self) -> Seq<WireField> {
        seq![
            WireField::Text(self.subsystem_name@),
        ]
    }

    /// The kinds of the fields.
    pub open spec fn kinds() -> Seq<FieldKind> {
        seq![
            FieldKind::Text,
        ]
    }

    /// The written request is read back, and what followed it is left.
    pub proof fn lemma_roundtrip(self, rest: Seq<u8>)
        requires
            all_accepted(self.fields()),
        ensures
            take_fields(SubsystemRequest::kinds(), 0, fields_bytes(self.fields(), 0) + rest) == Ok::<
                _,
                WireError,
            >((self.fields(), rest)),
    {
        lemma_fields_roundtrip(self.fields(), SubsystemRequest::kinds(), 0, rest);
        assert(self.fields().subrange(0, self.fields().len() as int) =~= self.fields());
    }

    /// The bytes of the request; none where a field is too large to be written.
    pub fn encode(&self) -> (r: Option<Vec<u8>>)
        ensures
            match r {
                Some(b) => all_fit(self.fields()) && b@ == fields_bytes(self.fields(), 0),
                None => !all_fit(self.fields()),
            },
    {
        let v = vec![
            FieldRef::Text(self.subsystem_name.as_str()),
        ];
        assert(ref_views(v@) =~= self.fields());
        write_fields(v.as_slice())
    }

    /// The request at the head of a slice, and the number of bytes that it takes.
    pub fn decode(data: &[u8]) -> (r: Result<(Self, usize), WireError>)
        ensures
            match r {
                Ok((x, n)) => {
                    &&& n <= data@.len()
                    &&& take_fields(SubsystemRequest::kinds(), 0, data@) == Ok::<_, WireError>(
                        (x.fields(), data@.subrange(n as int, data@.len() as int)),
                    )
                },
                Err(e) => take_fields(SubsystemRequest::kinds(), 0, data@) == Err::<
                    (Seq<WireField>, Seq<u8>),
                    _,
                >(e),
            },
    {
        let kinds = vec![
            FieldKind::Text,
        ];
        assert(kinds@ =~= SubsystemRequest::kinds());
        match read_fields(kinds.as_slice(), data) {
            Err(e) => Err(e),
            Ok((mut v, n)) => {
                let ghost all = value_views(v@);
                assert(is_kind(all[0], kinds@[0]));
                let subsystem_name: String = pop_text(&mut v);
                let x = SubsystemRequest { subsystem_name };
                assert(x.fields() =~= all);
                Ok((x, n))
            },
        }
    }
}

/// The signal that is to be delivered.
#[derive(Debug, Clone, PartialEq, Eq)]
pub struct SignalRequest {
    pub signal_name: String,
}

impl SignalRequest {
    /// The fields in order.
    pub open spec fn fields(self) -> Seq<WireField> {
        seq![
            WireField::Text(self.signal_name@),
        ]
    }

    /// The kinds of the fields.
    pub open spec fn kinds() -> Seq<FieldKind> {
        seq![
            FieldKind::Text,
        ]
    }

    /// The written request is read back, and what followed it is left.
    pub proof fn lemma_roundtrip(self, rest: Seq<u8>)
        requires
            all_accepted(self.fields()),
        ensures
            take_fields(SignalRequest::kinds(), 0, fields_bytes(self.fields(), 0) + rest) == Ok::<
                _,
                WireError,
            >((self.fields(), rest)),
    {
        lemma_fields_roundtrip(self.fields(), SignalRequest::kinds(), 0, rest);
        assert(self.fields().subrange(0, self.fields().len() as int) =~= self.fields());
    }

    /// The bytes of the request; none where a field is too large to be written.
    pub fn encode(&self) -> (r: Option<Vec<u8>>)
        ensures
            match r {
                Some(b) => all_fit(self.fields()) && b@ == fields_bytes(self.fields(), 0),
                None => !all_fit(self.fields()),
            },
    {
        let v = vec![
            FieldRef::Text(self.signal_name.as_str()),
        ];
        assert(ref_views(v@) =~= self.fields());
        write_fields(v.as_slice())
    }

    /// The request at the head of a slice, and the number of bytes that it takes.
    pub fn decode(data: &[u8]) -> (r: Result<(Self, usize), WireError>)
        ensures
            match r {
                Ok((x, n)) => {
                    &&& n <= data@.len()
                    &&& take_fields(SignalRequest::kinds(), 0, data@) == Ok::<_, WireError>(
                        (x.fields(), data@.subrange(n as int, data@.len() as int)),
                    )
                },
                Err(e) => take_fields(SignalRequest::kinds(), 0, data@) == Err::<
                    (Seq<WireField>, Seq<u8>),
                    _,
                >(e),
            },
    {
        let kinds = vec![
            FieldKind::Text,
        ];
        assert(kinds@ =~= SignalRequest::kinds());
        match read_fields(kinds.as_slice(), data) {
            Err(e) => Err(e),
            Ok((mut v, n)) => {
                let ghost all = value_views(v@);
                assert(is_kind(all[0], kinds@[0]));
                let signal_name: String = pop_text(&mut v);
                let x = SignalRequest { signal_name };
                assert(x.fields() =~= all);
                Ok((x, n))
            },
        }
    }
}

/// The status that the process has ended with.
#[derive(Debug, Clone, PartialEq, Eq)]
pub struct ExitStatusRequest {
    pub exit_status: u32,
}

impl ExitStatusRequest {
    /// The fields in order.
    pub open spec fn fields(self) -> Seq<WireField> {
        seq![
            WireField::Number(self.exit_status as nat),
        ]
    }

    /// The kinds of the fields.
    pub open spec fn kinds() -> Seq<FieldKind> {
        seq![
            FieldKind::Number(0xffff_ffff),
        ]
    }

    /// The written request is read back, and what followed it is left.
    pub proof fn lemma_roundtrip(self, rest: Seq<u8>)
        requires
            all_accepted(self.fields()),
        ensures
            take_fields(ExitStatusRequest::kinds(), 0, fields_bytes(self.fields(), 0) + rest) == Ok::<
                _,
                WireError,
            >((self.fields(), rest)),
    {
        lemma_fields_roundtrip(self.fields(), ExitStatusRequest::kinds(), 0, rest);
        assert(self.fields().subrange(0, self.fields().len() as int) =~= self.fields());
    }

    /// The bytes of the request; none where a field is too large to be written.
    pub fn encode(&self) -> (r: Option<Vec<u8>>)
        ensures
            match r {
                Some(b) => all_fit(self.fields()) && b@ == fields_bytes(self.fields(), 0),
                None => !all_fit(self.fields()),
            },
    {
        let v = vec![
            FieldRef::Number(self.exit_status as u64),
        ];
        assert(ref_views(v@) =~= self.fields());
        write_fields(v.as_slice())
    }

    /// The request at the head of a slice, and the number of bytes that it takes.
    pub fn decode(data: &[u8]) -> (r: Result<(Self, usize), WireError>)
        ensures
            match r {
                Ok((x, n)) => {
                    &&& n <= data@.len()
                    &&& take_fields(ExitStatusRequest::kinds(), 0, data@) == Ok::<_, WireError>(
                        (x.fields(), data@.subrange(n as int, data@.len() as int)),
                    )
                },
                Err(e) => take_fields(ExitStatusRequest::kinds(), 0, data@) == Err::<
                    (Seq<WireField>, Seq<u8>),
                    _,
                >(e),
            },
    {
        let kinds = vec![
            FieldKind::Number(0xffff_ffff),
        ];
        assert(kinds@ =~= ExitStatusRequest::kinds());
        match read_fields(kinds.as_slice(), data) {
            Err(e) => Err(e),
            Ok((mut v, n)) => {
                let ghost all = value_views(v@);
                assert(is_kind(all[0], kinds@[0]));
                let exit_status: u32 = pop_number(&mut v) as u32;
                let x = ExitStatusRequest { exit_status };
                assert(x.fields() =~= all);
                Ok((x, n))
            },
        }
    }
}

/// The signal that has ended the process.
#[derive(Debug, Clone, PartialEq, Eq)]
pub struct ExitSignalRequest {
    pub signal_name: String,
    pub core_dumped: bool,
    pub error_message: String,
    pub language_tag: String,
}

impl ExitSignalRequest {
    /// The fields in order.
    pub open spec fn fields(self) -> Seq<WireField> {
        seq![
            WireField::Text(self.signal_name@),
            WireField::Flag(self.core_dumped),
            WireField::Text(self.error_message@),
            WireField::Text(self.language_tag@),
        ]
    }

    /// The kinds of the fields.
    pub open spec fn kinds() -> Seq<FieldKind> {
        seq![
            FieldKind::Text,
            FieldKind::Flag,
            FieldKind::Text,
            FieldKind::Text,
        ]
    }

    /// The written request is read back, and what followed it is left.
    pub proof fn lemma_roundtrip(self, rest: Seq<u8>)
        requires
            all_accepted(self.fields()),
        ensures
            take_fields(ExitSignalRequest::kinds(), 0, fields_bytes(self.fields(), 0) + rest) == Ok::<
                _,
                WireError,
            >((self.fields(), rest)),
    {
        lemma_fields_roundtrip(self.fields(), ExitSignalRequest::kinds(), 0, rest);
        assert(self.fields().subrange(0, self.fields().len() as int) =~= self.fields());
    }

    /// The bytes of the request; none where a field is too large to be written.
    pub fn encode(&self) -> (r: Option<Vec<u8>>)
        ensures
            match r {
                Some(b) => all_fit(self.fields()) && b@ == fields_bytes(self.fields(), 0),
                None => !all_fit(self.fields()),
            },
    {
        let v = vec![
            FieldRef::Text(self.signal_name.as_str()),
            FieldRef::Flag(self.core_dumped),
            FieldRef::Text(self.error_message.as_str()),
            FieldRef::Text(self.language_tag.as_str()),
        ];
        assert(ref_views(v@) =~= self.fields());
        write_fields(v.as_slice())
    }

    /// The request at the head of a slice, and the number of bytes that it takes.
    pub fn decode(data: &[u8]) -> (r: Result<(Self, usize), WireError>)
        ensures
            match r {
                Ok((x, n)) => {
                    &&& n <= data@.len()
                    &&& take_fields(ExitSignalRequest::kinds(), 0, data@) == Ok::<_, WireError>(
                        (x.fields(), data@.subrange(n as int, data@.len() as int)),
                    )
                },
                Err(e) => take_fields(ExitSignalRequest::kinds(), 0, data@) == Err::<
                    (Seq<WireField>, Seq<u8>),
                    _,
                >(e),
            },
    {
        let kinds = vec![
            FieldKind::Text,
            FieldKind::Flag,
            FieldKind::Text,
            FieldKind::Text,
        ];
        assert(kinds@ =~= ExitSignalRequest::kinds());
        match read_fields(kinds.as_slice(), data) {
            Err(e) => Err(e),
            Ok((mut v, n)) => {
                let ghost all = value_views(v@);
                assert(is_kind(all[0], kinds@[0]));
                assert(is_kind(all[1], kinds@[1]));
                assert(is_kind(all[2], kinds@[2]));
                assert(is_kind(all[3], kinds@[3]));
                let language_tag: String = pop_text(&mut v);
                let error_message: String = pop_text(&mut v);
                let core_dumped: bool = pop_flag(&mut v);
                let signal_name: String = pop_text(&mut v);
                let x = ExitSignalRequest { signal_name, core_dumped, error_message, language_tag };
                assert(x.fields() =~= all);
                Ok((x, n))
            },
        }
    }
}

} // verus!
