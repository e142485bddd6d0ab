//! Values in CBOR: what is put in is what is got out.

use crate::outside;
use crate::proto::cbor;
use crate::proto::cbor::{
    CborDecodeError, CborEncodeError, CborTree, Field, Fields, Record,
};
use crate::proto::message::{SshMessage, SshMessageView};
use crate::proto::varint;
use ciborium::value::Value;
use vstd::prelude::*;
use vstd::string::*;
use vstd::utf8::*;

verus! {

/// The value says the number, behind any tags that say nothing of numbers.
pub open spec fn says_number(t: CborTree, n: int) -> bool
    decreases t,
{
    match t {
        CborTree::Int(k) => k == n,
        CborTree::Tag(tag, inner) => tag != 2 && tag != 3 && says_number(*inner, n),
        _ => false,
    }
}

proof fn lemma_says_number(t: CborTree, n: int, max: int)
    requires
        says_number(t, n),
    ensures
        cbor::uint_of(t, max) == if 0 <= n <= max {
            Some(n)
        } else {
            None
        },
    decreases t,
{
    if let CborTree::Tag(tag, inner) = t {
        lemma_says_number(*inner, n, max);
    }
}

/// A number is read where it is one that fits, and only then: a negative one is not, and
/// neither is a text, a truth value or a list.
pub proof fn law_number_in_value(v: &Value, n: int, r: Option<u64>, s: Option<u32>)
    requires
        call_ensures(cbor::read_u64, (v,), r),
        call_ensures(cbor::read_u32, (v,), s),
    ensures
        says_number(cbor::tree_of(*v), n) ==> {
            &&& 0 <= n <= 0xffff_ffff_ffff_ffff ==> r == Some(n as u64)
            &&& n < 0 || n > 0xffff_ffff_ffff_ffff ==> r is None
            &&& 0 <= n <= 0xffff_ffff ==> s == Some(n as u32)
            &&& n < 0 || n > 0xffff_ffff ==> s is None
        },
        cbor::tree_of(*v) is Text || cbor::tree_of(*v) is Bytes || cbor::tree_of(*v) is Bool
            || cbor::tree_of(*v) is Null || cbor::tree_of(*v) is Items || cbor::tree_of(
            *v,
        ) is Entries ==> r is None && s is None,
        s matches Some(k) ==> r == Some(k as u64),
{
    let t = cbor::tree_of(*v);
    if says_number(t, n) {
        lemma_says_number(t, n, u64::MAX as int);
        lemma_says_number(t, n, u32::MAX as int);
    }
    if s is Some {
        lemma_limits(t);
    }
}

proof fn lemma_limits(t: CborTree)
    requires
        cbor::uint_of(t, u32::MAX as int) is Some,
    ensures
        cbor::uint_of(t, u64::MAX as int) == cbor::uint_of(t, u32::MAX as int),
    decreases t,
{
    if let CborTree::Tag(tag, inner) = t {
        if tag != cbor::TAG_BIG_POSITIVE && tag != cbor::TAG_BIG_NEGATIVE {
            lemma_limits(*inner);
        }
    }
}

/// The number that bytes stand for, the most significant first.
pub open spec fn amount(b: Seq<u8>) -> int
    decreases b.len(),
{
    if b.len() == 0 {
        0
    } else {
        amount(b.drop_last()) * 256 + b.last()
    }
}

/// Bytes stand for one number only, whichever way it is added up.
pub proof fn lemma_amount(b: Seq<u8>)
    ensures
        varint::be_value(b) == amount(b),
    decreases b.len(),
{
    if b.len() > 0 {
        lemma_amount(b.drop_last());
    }
}

/// A large number that is written as its bytes is read as that number, where it fits; a
/// negative one never is.
pub proof fn law_large_number_in_value(v: &Value, b: Seq<u8>, r: Option<u64>, s: Option<u32>)
    requires
        call_ensures(cbor::read_u64, (v,), r),
        call_ensures(cbor::read_u32, (v,), s),
    ensures
        cbor::tree_of(*v) == CborTree::Tag(2, Box::new(CborTree::Bytes(b))) ==> {
            &&& amount(b) <= 0xffff_ffff_ffff_ffff ==> r == Some(amount(b) as u64)
            &&& amount(b) > 0xffff_ffff_ffff_ffff ==> r is None
            &&& amount(b) <= 0xffff_ffff ==> s == Some(amount(b) as u32)
            &&& amount(b) > 0xffff_ffff ==> s is None
        },
        cbor::tree_of(*v) == CborTree::Tag(3, Box::new(CborTree::Bytes(b))) ==> r is None
            && s is None,
{
    lemma_amount(b);
}

/// What is made into a value is read from it.
pub proof fn law_value_read_back(
    n: u64,
    number: Value,
    r: Option<u64>,
    s: &str,
    text: Value,
    t: Option<String>,
    b: &[u8],
    octets: Value,
    o: Option<Vec<u8>>,
)
    requires
        call_ensures(cbor::uint_value, (n,), number),
        call_ensures(cbor::read_u64, (&number,), r),
        call_ensures(cbor::text_value, (s,), text),
        call_ensures(cbor::read_text, (&text,), t),
        call_ensures(cbor::octets_value, (b,), octets),
        call_ensures(cbor::read_octets, (&octets,), o),
    ensures
        r == Some(n),
        t matches Some(u) && u@ == s@,
        o matches Some(c) && c@ == b@,
        cbor::tree_of(number) == CborTree::Int(n as int),
        cbor::tree_of(text) == CborTree::Text(s@),
        cbor::tree_of(octets) matches CborTree::Items(items) && items.len() == b@.len() && forall|
            i: int,
        |
            0 <= i < b@.len() ==> #[trigger] items[i] == CborTree::Int(b@[i] as int),
{
    cbor::lemma_octets_roundtrip(b@);
}

/// A text, a truth value and bytes are read where they are there, tags in front of them
/// saying nothing, and nothing else is read as one.
pub proof fn law_plain_values(
    v: &Value,
    t: Option<String>,
    b: Option<bool>,
    o: Option<Vec<u8>>,
    u: &Value,
)
    requires
        call_ensures(cbor::read_text, (v,), t),
        call_ensures(cbor::read_bool, (v,), b),
        call_ensures(cbor::read_octets, (v,), o),
        call_ensures(cbor::untag, (v,), u),
    ensures
        !(cbor::tree_of(*u) is Tag),
        !(cbor::tree_of(*v) is Tag) ==> cbor::tree_of(*u) == cbor::tree_of(*v),
        cbor::tree_of(*u) matches CborTree::Text(s) ==> (t matches Some(x) && x@ == s),
        !(cbor::tree_of(*u) is Text) ==> t is None,
        cbor::tree_of(*u) matches CborTree::Bool(x) ==> b == Some(x),
        !(cbor::tree_of(*u) is Bool) ==> b is None,
        cbor::tree_of(*u) matches CborTree::Bytes(s) ==> (o matches Some(x) && x@ == s),
        !(cbor::tree_of(*u) is Bytes) && !(cbor::tree_of(*u) is Items) ==> o is None,
{
    lemma_untagged(cbor::tree_of(*v));
}

proof fn lemma_untagged(t: CborTree)
    ensures
        !(cbor::untagged(t) is Tag),
    decreases t,
{
    if let CborTree::Tag(_, inner) = t {
        lemma_untagged(*inner);
    }
}

/// A variant is its name, or a map of its name to what it holds, and nothing else.
pub proof fn law_variant_read<'a>(v: &'a Value, r: Option<(String, Option<&'a Value>)>)
    requires
        call_ensures(cbor::read_variant, (v,), r),
    ensures
        cbor::tree_of(*v) matches CborTree::Text(s) ==> (r matches Some((name, held)) && name@ == s
            && held is None),
        cbor::tree_of(*v) matches CborTree::Entries(e) ==> e.len() == 1 ==> (e[0].0 matches
            CborTree::Text(s) ==> (r matches Some((name, Some(inner))) && name@ == s
            && cbor::tree_of(*inner) == e[0].1)),
        cbor::tree_of(*v) matches CborTree::Entries(e) ==> e.len() != 1 ==> r is None,
        cbor::tree_of(*v) is Int || cbor::tree_of(*v) is Bool || cbor::tree_of(*v) is Null
            || cbor::tree_of(*v) is Items || cbor::tree_of(*v) is Bytes ==> r is None,
{
}

/// A record begins without fields, and each that is put in stands behind the others, under
/// its name.
pub proof fn law_record_made(
    new: Record,
    nothing: Value,
    some: Record,
    before: Value,
    name: &str,
    x: Value,
    more: Record,
    after: Value,
)
    requires
        call_ensures(Record::new, (), new),
        call_ensures(Record::into_value, (new,), nothing),
        call_ensures(Record::into_value, (some,), before),
        call_ensures(Record::with, (some, name, x), more),
        call_ensures(Record::into_value, (more,), after),
    ensures
        cbor::tree_of(nothing) matches CborTree::Entries(e) && e.len() == 0,
        cbor::tree_of(before) matches CborTree::Entries(e) && (cbor::tree_of(after) matches
            CborTree::Entries(f) && f == e.push((CborTree::Text(name@), cbor::tree_of(x)))),
{
    let e = cbor::tree_of(before)->Entries_0;
    let f = cbor::tree_of(after)->Entries_0;
    assert(f =~= e.push((CborTree::Text(name@), cbor::tree_of(x))));
}

/// Exactly the entry at this place has this name, and every key is a short text.
pub open spec fn only(e: Seq<(CborTree, CborTree)>, name: Seq<char>, k: int) -> bool {
    &&& 0 <= k < e.len()
    &&& e[k].0 == CborTree::Text(name)
    &&& forall|i: int|
        0 <= i < e.len() ==> (#[trigger] e[i].0 matches CborTree::Text(s) && encode_utf8(s).len()
            <= 4096 && (s == name ==> i == k))
}

proof fn lemma_only(e: Seq<(CborTree, CborTree)>, name: Seq<char>, k: int)
    requires
        only(e, name, k),
    ensures
        cbor::has_keys(e),
        cbor::field_of(e, name) == Some(e[k].1),
{
    assert forall|i: int| 0 <= i < e.len() implies (cbor::is_named((#[trigger] e[i]).0, name) <==> i
        == k) by {
        assert(e[i].0 is Text);
    }
    cbor::lemma_occurrences_single(e, name, k);
    assert forall|i: int| 0 <= i < e.len() implies cbor::is_key((#[trigger] e[i]).0) by {
        assert(e[i].0 is Text);
    }
}

/// A field is found wherever it stands, unless there is none or more than one of its name.
pub proof fn law_field_found<'a>(
    v: &'a Value,
    f: Option<Fields<'a>>,
    name: &str,
    k: int,
    r: Option<&'a Value>,
    l: Field<'a>,
)
    requires
        call_ensures(cbor::record, (v,), f),
        f is Some,
        call_ensures(cbor::field, (&f->0, name), r),
        call_ensures(cbor::lookup, (&f->0, name), l),
    ensures
        cbor::tree_of(*v) matches CborTree::Entries(e) ==> only(e, name@, k) ==> (r matches Some(x)
            && cbor::tree_of(*x) == e[k].1) && (l matches Field::Found(x) && cbor::tree_of(*x)
            == e[k].1),
        l is Repeated || l is Missing ==> r is None,
{
    if let CborTree::Entries(e) = cbor::tree_of(*v) {
        if only(e, name@, k) {
            lemma_only(e, name@, k);
            assert(f->0@ == e);
            if let Field::Found(x) = l {
                assert(cbor::occurrences(e, name@)[0] == cbor::tree_of(*x));
            }
        }
    }
}

/// A message is read from its fields in whatever order they stand, and whatever others
/// stand among them.
pub proof fn law_fields_in_any_order(
    v: &Value,
    i: int,
    j: int,
    refused: Option<SshMessage>,
    reply: Option<SshMessage>,
    extended: Option<SshMessage>,
)
    requires
        call_ensures(SshMessage::from_body, (92u8, v), refused),
        call_ensures(SshMessage::from_body, (81u8, v), reply),
        call_ensures(SshMessage::from_body, (95u8, v), extended),
    ensures
        cbor::tree_of(*v) matches CborTree::Entries(e) ==> {
            &&& only(e, "reason_code"@, i) && only(e, "description"@, j) ==> (e[i].1 matches
                CborTree::Int(n) ==> (e[j].1 matches CborTree::Text(s) ==> 0 <= n <= 0xffff_ffff
                ==> (refused matches Some(m) && m@ == SshMessageView::ChannelOpenFailure {
                reason_code: n as u32,
                description: s,
            })))
            &&& only(e, "success"@, i) && only(e, "bound_port"@, j) ==> (e[i].1 matches
                CborTree::Bool(b) ==> (e[j].1 matches CborTree::Int(n) ==> 0 <= n <= 0xffff_ffff
                ==> (reply matches Some(m) && m@ == SshMessageView::GlobalReply {
                success: b,
                bound_port: Some(n as u32),
            })))
            &&& only(e, "data_type_code"@, i) && only(e, "data"@, j) ==> (e[i].1 matches
                CborTree::Int(n) ==> (e[j].1 matches CborTree::Bytes(b) ==> 0 <= n <= 0xffff_ffff
                ==> (extended matches Some(m) && m@ == SshMessageView::ChannelExtendedData {
                data_type_code: n as u32,
                data: b,
            })))
        },
{
    if let CborTree::Entries(e) = cbor::tree_of(*v) {
        if only(e, "reason_code"@, i) && only(e, "description"@, j) {
            lemma_only(e, "reason_code"@, i);
            lemma_only(e, "description"@, j);
        }
        if only(e, "success"@, i) && only(e, "bound_port"@, j) {
            lemma_only(e, "success"@, i);
            lemma_only(e, "bound_port"@, j);
        }
        if only(e, "data_type_code"@, i) && only(e, "data"@, j) {
            lemma_only(e, "data_type_code"@, i);
            lemma_only(e, "data"@, j);
        }
    }
}

/// A plain value can be written, and is read back from what it is written as.
pub proof fn law_cbor_read_back(
    v: &Value,
    written: Result<bytes::Bytes, CborEncodeError>,
    data: &[u8],
    r: Result<Value, CborDecodeError>,
)
    requires
        call_ensures(cbor::cbor_encode, (v,), written),
        cbor::is_plain(cbor::tree_of(*v), 100),
        data@ == outside::bytes_content(written->Ok_0),
        call_ensures(cbor::cbor_decode, (data,), r),
    ensures
        written is Ok,
        r matches Ok(u) && cbor::tree_of(u) == cbor::tree_of(*v),
{
}

} // verus!
