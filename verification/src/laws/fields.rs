//! Single fields on the wire: each is written after what was there, and read back from the
//! head of what is left.

use crate::laws::value as held;
use crate::laws::wire as layout;
use crate::proto::codec;
use crate::proto::codec::{ChannelStreamHeader, ConversationId};
use crate::proto::varint;
use crate::proto::varint::VarInt;
use crate::proto::wire;
use crate::proto::wire::{Cursor, FieldKind, FieldRef, FieldValue, WireError, WireField};
use vstd::prelude::*;
use vstd::string::*;
use vstd::utf8::*;

verus! {

/// A text, a byte string, a number and a flag are written behind what was written before.
pub proof fn law_fields_appended(
    s: &str,
    t: &mut Vec<u8>,
    text_done: bool,
    b: &[u8],
    o: &mut Vec<u8>,
    octets_done: bool,
    n: u64,
    m: &mut Vec<u8>,
    number_done: bool,
    flag: bool,
    f: &mut Vec<u8>,
    flag_done: (),
    p: &mut Vec<u8>,
    prefixed_done: bool,
)
    requires
        call_ensures(wire::push_text, (s, t), text_done),
        call_ensures(wire::push_octets, (b, o), octets_done),
        call_ensures(wire::push_number, (n, m), number_done),
        call_ensures(wire::push_flag, (flag, f), flag_done),
        call_ensures(codec::encode_prefixed, (b, p), prefixed_done),
    ensures
        text_done <==> encode_utf8(s@).len() < 0x4000_0000_0000_0000,
        text_done ==> final(t)@ == old(t)@ + layout::text(s@),
        octets_done <==> b@.len() < 0x4000_0000_0000_0000,
        octets_done ==> final(o)@ == old(o)@ + layout::octets(b@),
        number_done <==> n < 0x4000_0000_0000_0000,
        number_done ==> final(m)@ == old(m)@ + layout::number(n as nat),
        final(f)@ == old(f)@ + layout::flag(flag),
        prefixed_done <==> b@.len() < 0x4000_0000_0000_0000,
        prefixed_done ==> final(p)@ == old(p)@ + layout::octets(b@),
        !prefixed_done ==> final(p)@ == old(p)@,
{
    if text_done {
        layout::lemma_field(WireField::Text(s@));
    }
    if octets_done {
        layout::lemma_field(WireField::Octets(b@));
    }
    if number_done {
        layout::lemma_field(WireField::Number(n as nat));
    }
    layout::lemma_field(WireField::Flag(flag));
    if prefixed_done {
        layout::lemma_field(WireField::Octets(b@));
    }
}

/// A text is read back from what it is written as, and what follows it is left.
pub proof fn law_text_taken(
    c: &mut Cursor,
    s: Seq<char>,
    rest: Seq<u8>,
    r: Result<String, WireError>,
)
    requires
        call_ensures(Cursor::text, (c,), r),
        layout::readable(s),
        old(c).rest() == layout::text(s) + rest,
    ensures
        r matches Ok(t) && t@ == s,
        final(c).rest() == rest,
{
    layout::lemma_field(WireField::Text(s));
    wire::lemma_field_roundtrip(WireField::Text(s), FieldKind::Text, rest);
}

/// A byte string is read back from what it is written as, and what follows it is left.
pub proof fn law_octets_taken(
    c: &mut Cursor,
    b: Seq<u8>,
    rest: Seq<u8>,
    r: Result<Vec<u8>, WireError>,
    data: &[u8],
    p: Option<(Vec<u8>, usize)>,
)
    requires
        call_ensures(Cursor::octets, (c,), r),
        b.len() <= 0x10_0000,
        old(c).rest() == layout::octets(b) + rest,
        call_ensures(codec::decode_prefixed, (data,), p),
        data@ == layout::octets(b) + rest,
    ensures
        r matches Ok(v) && v@ == b,
        final(c).rest() == rest,
        p matches Some((v, taken)) && v@ == b && taken == data@.len() - rest.len(),
{
    layout::lemma_field(WireField::Octets(b));
    wire::lemma_field_roundtrip(WireField::Octets(b), FieldKind::Octets, rest);
    codec::lemma_prefixed_roundtrip(b, rest);
    let (v, taken) = p->0;
    assert(data@.subrange(taken as int, data@.len() as int).len() == rest.len());
}

/// A number is read back from what it is written as, where it is not over the limit, and is
/// out of range where it is.
pub proof fn law_number_taken(
    c: &mut Cursor,
    max: u64,
    n: nat,
    rest: Seq<u8>,
    r: Result<u64, WireError>,
)
    requires
        call_ensures(Cursor::number, (c, max), r),
        layout::can_be_written(n),
        old(c).rest() == layout::number(n) + rest,
    ensures
        n <= max ==> r == Ok::<u64, WireError>(n as u64) && final(c).rest() == rest,
        n > max ==> r == Err::<u64, WireError>(WireError::OutOfRange),
{
    layout::lemma_number(n);
    varint::lemma_varint_roundtrip(n, rest);
}

/// A flag is one byte, and set where the byte is not zero.
pub proof fn law_flag_taken(c: &mut Cursor, r: Result<bool, WireError>)
    requires
        call_ensures(Cursor::flag, (c,), r),
    ensures
        old(c).rest().len() == 0 ==> r == Err::<bool, WireError>(WireError::Incomplete),
        old(c).rest().len() > 0 ==> r == Ok::<bool, WireError>(old(c).rest()[0] != 0)
            && final(c).rest() == old(c).rest().skip(1),
{
    if old(c).rest().len() > 0 {
        assert(old(c).rest().skip(1) =~= old(c).rest().subrange(1, old(c).rest().len() as int));
    }
}

/// A field that says it is longer than a mebibyte is refused, whatever follows; one of which
/// only a part is there is incomplete; a text that is none is told as such.
pub proof fn law_bad_field_refused(
    c: &mut Cursor,
    length: nat,
    rest: Seq<u8>,
    r: Result<String, WireError>,
    d: &mut Cursor,
    s: Result<Vec<u8>, WireError>,
)
    requires
        call_ensures(Cursor::text, (c,), r),
        call_ensures(Cursor::octets, (d,), s),
        layout::can_be_written(length),
        old(c).rest() == layout::number(length) + rest,
        old(d).rest() == layout::number(length) + rest,
    ensures
        length > 0x10_0000 ==> r == Err::<String, WireError>(
            WireError::FieldTooLarge { length: length as u64 },
        ) && s == Err::<Vec<u8>, WireError>(WireError::FieldTooLarge { length: length as u64 }),
        length <= 0x10_0000 && rest.len() < length ==> r == Err::<String, WireError>(
            WireError::Incomplete,
        ) && s == Err::<Vec<u8>, WireError>(WireError::Incomplete),
        length <= 0x10_0000 && rest.len() >= length && !valid_utf8(rest.take(length as int)) ==> r
            == Err::<String, WireError>(WireError::InvalidUtf8),
        length <= 0x10_0000 && rest.len() >= length ==> (s matches Ok(b) && b@ == rest.take(
            length as int,
        )) && final(d).rest() == rest.skip(length as int),
{
    layout::lemma_number(length);
    varint::lemma_varint_roundtrip(length, rest);
    if rest.len() >= length {
        assert(rest.take(length as int) =~= rest.subrange(0, length as int));
        assert(rest.skip(length as int) =~= rest.subrange(length as int, rest.len() as int));
    }
}

/// What is left to read is what has not been read.
pub proof fn law_left_to_read<'a>(
    data: &'a [u8],
    c: Cursor<'a>,
    n: usize,
    rest: &'a [u8],
)
    requires
        call_ensures(Cursor::new, (data,), c),
        call_ensures(Cursor::remaining, (&c,), n),
        call_ensures(Cursor::rest_slice, (&c,), rest),
    ensures
        n == data@.len(),
        rest@ == data@,
{
}

/// A number is one that can be written exactly where it is below two to the 62nd.
pub proof fn law_number_made(n: u64, r: Option<VarInt>, back: u64)
    requires
        call_ensures(VarInt::from_u64, (n,), r),
        call_ensures(VarInt::into_inner, (r->0,), back),
    ensures
        r is Some <==> n < 0x4000_0000_0000_0000,
        r is Some ==> back == n,
{
}

/// A number is what its bytes stand for without the two bits that tell how many there are,
/// however many are used for it.
pub proof fn law_number_is_its_bytes(data: &[u8], r: Option<(VarInt, usize)>)
    requires
        call_ensures(varint::decode_varint_sync, (data,), r),
    ensures
        r matches Some((v, n)) ==> 0 < n <= data@.len() && v@ == held::amount(
            seq![data@[0] % 64] + data@.subrange(1, n as int),
        ),
        r is None <==> data@.len() == 0 || data@.len() < (if data@[0] < 0x40 {
            1int
        } else if data@[0] < 0x80 {
            2
        } else if data@[0] < 0xc0 {
            4
        } else {
            8
        }),
{
    if let Some((v, n)) = r {
        let found = varint::take_varint(data@)->0;
        assert(data@.subrange(n as int, data@.len() as int) == found.1);
        held::lemma_amount(seq![data@[0] % 64] + data@.subrange(1, n as int));
    }
}

/// A header holds what it is made of.
pub proof fn law_header_made(
    id: ConversationId,
    channel_type: String,
    size: u64,
    h: ChannelStreamHeader,
)
    requires
        call_ensures(ChannelStreamHeader::new, (id, channel_type, size), h),
    ensures
        h.conversation_id@ == id@ && h.channel_type@ == channel_type@ && h.max_message_size == size,
{
}

proof fn lemma_octets_in_part(b: Seq<u8>, k: int)
    requires
        b.len() <= 0x10_0000,
        0 <= k < codec::length_prefixed(b).len(),
    ensures
        wire::take_octets(codec::length_prefixed(b).subrange(0, k)) == Err::<
            (Seq<u8>, Seq<u8>),
            WireError,
        >(WireError::Incomplete),
{
    let head = varint::varint_bytes(b.len());
    let s = codec::length_prefixed(b).subrange(0, k);
    codec::lemma_prefixed_truncated(b, k);
    if k < head.len() {
        varint::lemma_varint_truncated(b.len(), k);
        assert(s =~= head.subrange(0, k));
    } else {
        let part = b.subrange(0, k - head.len());
        assert(s =~= head + part);
        varint::lemma_varint_roundtrip(b.len(), part);
    }
}

/// A field of which only a part is there is incomplete.
pub proof fn lemma_field_in_part(f: WireField, kind: FieldKind, k: int)
    requires
        wire::field_accepted(f),
        wire::is_kind(f, kind),
        0 <= k < wire::field_bytes(f).len(),
    ensures
        wire::take_field(kind, wire::field_bytes(f).subrange(0, k)) == Err::<
            (WireField, Seq<u8>),
            WireError,
        >(WireError::Incomplete),
{
    match f {
        WireField::Text(s) => {
            lemma_octets_in_part(encode_utf8(s), k);
        },
        WireField::Octets(b) => {
            lemma_octets_in_part(b, k);
        },
        WireField::Number(n) => {
            varint::lemma_varint_truncated(n, k);
        },
        WireField::Flag(b) => {},
    }
}

/// Fields of which only a part is there are incomplete.
pub proof fn lemma_fields_in_part(fs: Seq<WireField>, ks: Seq<FieldKind>, i: int, k: int)
    requires
        0 <= i <= fs.len(),
        fs.len() == ks.len(),
        forall|j: int|
            0 <= j < fs.len() ==> wire::field_accepted(#[trigger] fs[j]) && wire::is_kind(
                fs[j],
                ks[j],
            ),
        0 <= k < wire::fields_bytes(fs, i).len(),
    ensures
        wire::take_fields(ks, i, wire::fields_bytes(fs, i).subrange(0, k)) == Err::<
            (Seq<WireField>, Seq<u8>),
            WireError,
        >(WireError::Incomplete),
    decreases fs.len() - i,
{
    let all = wire::fields_bytes(fs, i);
    if i < fs.len() {
        assert(wire::field_accepted(fs[i]));
        let first = wire::field_bytes(fs[i]);
        let rest = wire::fields_bytes(fs, i + 1);
        if k < first.len() {
            assert(all.subrange(0, k) =~= first.subrange(0, k));
            lemma_field_in_part(fs[i], ks[i], k);
        } else {
            let tail = rest.subrange(0, k - first.len());
            assert(all.subrange(0, k) =~= first + tail);
            wire::lemma_field_roundtrip(fs[i], ks[i], tail);
            lemma_fields_in_part(fs, ks, i + 1, k - first.len());
        }
    }
}

/// Fields are written exactly where none of them is too large.
pub proof fn law_fields_written<'a>(v: &[FieldRef<'a>], i: int, written: Option<Vec<u8>>)
    requires
        call_ensures(wire::write_fields, (v,), written),
        0 <= i < v@.len(),
    ensures
        v@[i] matches FieldRef::Number(n) && n >= 0x4000_0000_0000_0000 ==> written is None,
        (forall|j: int|
            0 <= j < v@.len() ==> match #[trigger] v@[j] {
                FieldRef::Text(s) => encode_utf8(s@).len() < 0x4000_0000_0000_0000,
                FieldRef::Octets(b) => b@.len() < 0x4000_0000_0000_0000,
                FieldRef::Number(n) => n < 0x4000_0000_0000_0000,
                FieldRef::Flag(_) => true,
            }) ==> written is Some,
{
    let fs = wire::ref_views(v@);
    assert(fs[i] == v@[i]@);
    if written is None {
        let j = choose|j: int| 0 <= j < fs.len() && !wire::field_fits(#[trigger] fs[j]);
        assert(fs[j] == v@[j]@);
    } else {
        assert(wire::field_fits(fs[i]));
    }
}

/// Fields are written one after another, and read back; of a part of them nothing is read.
pub proof fn law_fields_read_back<'a>(
    v: &[FieldRef<'a>],
    written: Option<Vec<u8>>,
    kinds: &[FieldKind],
    rest: Seq<u8>,
    data: &[u8],
    r: Result<(Vec<FieldValue>, usize), WireError>,
    part: &[u8],
    k: int,
    q: Result<(Vec<FieldValue>, usize), WireError>,
)
    requires
        call_ensures(wire::write_fields, (v,), written),
        written is Some,
        v@.len() == kinds@.len(),
        forall|j: int|
            0 <= j < v@.len() ==> wire::field_accepted(#[trigger] v@[j]@) && wire::is_kind(
                v@[j]@,
                kinds@[j],
            ),
        data@ == written->0@ + rest,
        call_ensures(wire::read_fields, (kinds, data), r),
        0 <= k < written->0@.len(),
        part@ == written->0@.subrange(0, k),
        call_ensures(wire::read_fields, (kinds, part), q),
    ensures
        r matches Ok((found, n)) && n == written->0@.len() && found@.len() == v@.len() && forall|
            j: int,
        |
            0 <= j < v@.len() ==> (#[trigger] found@[j])@ == v@[j]@,
        q == Err::<(Vec<FieldValue>, usize), WireError>(WireError::Incomplete),
{
    let fs = wire::ref_views(v@);
    assert forall|j: int| 0 <= j < fs.len() implies wire::field_accepted(#[trigger] fs[j])
        && wire::is_kind(fs[j], kinds@[j]) by {
        assert(fs[j] == v@[j]@);
    }
    wire::lemma_fields_roundtrip(fs, kinds@, 0, rest);
    assert(fs.subrange(0, fs.len() as int) =~= fs);
    lemma_fields_in_part(fs, kinds@, 0, k);
    let (found, n) = r->Ok_0;
    assert(data@.subrange(n as int, data@.len() as int).len() == rest.len());
    assert forall|j: int| 0 <= j < v@.len() implies (#[trigger] found@[j])@ == v@[j]@ by {
        assert(wire::value_views(found@)[j] == found@[j]@);
        assert(fs[j] == v@[j]@);
    }
}

} // verus!
