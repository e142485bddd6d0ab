//! CBOR values, and reading the fields of the records that messages are written as.
//!
//! `ciborium` turns bytes into values and values into bytes; which value stands
//! for which message is said here and in `message`. A value does not tell how its
//! lengths were written: a name in pieces is read as one in a whole, and a number of
//! at most 16 bytes is an integer wherever it stands.

use crate::outside;
use crate::outside::{
    bytes_from_vec, cbor_integer_from_u64, cbor_integer_to_u64, cbor_read, cbor_write,
    string_from_utf8,
};
use crate::proto::varint;
use crate::text::{join2, same_bytes, same_text};
use ciborium::value::Value;
use vstd::prelude::*;
use vstd::string::*;
use vstd::utf8::*;

verus! {

/// What a CBOR value says.
pub enum CborTree {
    Int(int),
    Bytes(Seq<u8>),
    Text(Seq<char>),
    Bool(bool),
    Null,
    Tag(u64, Box<CborTree>),
    Items(Seq<CborTree>),
    Entries(Seq<(CborTree, CborTree)>),
    /// A floating-point number.
    Float,
}

/// What a `ciborium` value says.
pub open spec fn tree_of(v: Value) -> CborTree
    decreases v,
{
    match v {
        Value::Integer(i) => CborTree::Int(outside::cbor_integer(i)),
        Value::Bytes(b) => CborTree::Bytes(b@),
        Value::Text(s) => CborTree::Text(s@),
        Value::Bool(b) => CborTree::Bool(b),
        Value::Null => CborTree::Null,
        Value::Tag(t, inner) => CborTree::Tag(t, Box::new(tree_of(*inner))),
        Value::Array(items) => CborTree::Items(
            Seq::new(
                items@.len(),
                |i: int|
                    if 0 <= i < items@.len() {
                        tree_of(items@[i])
                    } else {
                        CborTree::Null
                    },
            ),
        ),
        Value::Map(entries) => CborTree::Entries(
            Seq::new(
                entries@.len(),
                |i: int|
                    if 0 <= i < entries@.len() {
                        (tree_of(entries@[i].0), tree_of(entries@[i].1))
                    } else {
                        (CborTree::Null, CborTree::Null)
                    },
            ),
        ),
        _ => CborTree::Float,
    }
}

/// The value holds unsigned 64-bit integers, strings, booleans and nulls only, in
/// arrays and maps that are nested at most `depth` deep.
pub open spec fn is_plain(t: CborTree, depth: nat) -> bool
    decreases depth,
{
    match t {
        CborTree::Int(n) => 0 <= n <= u64::MAX,
        CborTree::Bytes(_) | CborTree::Text(_) | CborTree::Bool(_) | CborTree::Null => true,
        CborTree::Items(items) => depth > 0 && forall|i: int|
            0 <= i < items.len() ==> is_plain(#[trigger] items[i], (depth - 1) as nat),
        CborTree::Entries(entries) => depth > 0 && forall|i: int|
            0 <= i < entries.len() ==> is_plain((#[trigger] entries[i]).0, (depth - 1) as nat)
                && is_plain(entries[i].1, (depth - 1) as nat),
        _ => false,
    }
}

/// The most that arrays, maps and tags may be nested in a value that is written.
pub const MAX_NESTING: usize = 256;

/// Arrays, maps and tags are nested at most `depth` deep.
pub open spec fn nests_within(t: CborTree, depth: nat) -> bool
    decreases depth,
{
    match t {
        CborTree::Tag(_, inner) => depth > 0 && nests_within(*inner, (depth - 1) as nat),
        CborTree::Items(items) => depth > 0 && forall|i: int|
            0 <= i < items.len() ==> nests_within(#[trigger] items[i], (depth - 1) as nat),
        CborTree::Entries(entries) => depth > 0 && forall|i: int|
            0 <= i < entries.len() ==> nests_within((#[trigger] entries[i]).0, (depth - 1) as nat)
                && nests_within(entries[i].1, (depth - 1) as nat),
        _ => true,
    }
}

/// The value holds no floating-point number down to `depth`.
pub open spec fn has_no_float(t: CborTree, depth: nat) -> bool
    decreases depth,
{
    match t {
        CborTree::Float => false,
        CborTree::Tag(_, inner) => depth > 0 ==> has_no_float(*inner, (depth - 1) as nat),
        CborTree::Items(items) => depth > 0 ==> forall|i: int|
            0 <= i < items.len() ==> has_no_float(#[trigger] items[i], (depth - 1) as nat),
        CborTree::Entries(entries) => depth > 0 ==> forall|i: int|
            0 <= i < entries.len() ==> has_no_float((#[trigger] entries[i]).0, (depth - 1) as nat)
                && has_no_float(entries[i].1, (depth - 1) as nat),
        _ => true,
    }
}

/// A value without the tags in front of it.
pub open spec fn untagged(t: CborTree) -> CborTree
    decreases t,
{
    match t {
        CborTree::Tag(_, inner) => untagged(*inner),
        _ => t,
    }
}

/// The longest key of a record, in bytes.
pub const MAX_KEY_SIZE: usize = 4096;

/// The value can be the key of a record.
pub open spec fn is_key(t: CborTree) -> bool {
    match untagged(t) {
        CborTree::Text(s) => encode_utf8(s).len() <= MAX_KEY_SIZE,
        CborTree::Bytes(b) => b.len() <= MAX_KEY_SIZE,
        _ => false,
    }
}

/// Every key can be the key of a record.
pub open spec fn has_keys(m: Seq<(CborTree, CborTree)>) -> bool {
    forall|i: int| 0 <= i < m.len() ==> is_key((#[trigger] m[i]).0)
}

/// The value is the key with the given name, as text or as its UTF-8 bytes.
pub open spec fn is_named(t: CborTree, name: Seq<char>) -> bool {
    match untagged(t) {
        CborTree::Text(s) => s == name,
        CborTree::Bytes(b) => b == encode_utf8(name),
        _ => false,
    }
}

/// The entries of a record: a map whose keys are names.
pub open spec fn record_of(t: CborTree) -> Option<Seq<(CborTree, CborTree)>> {
    match untagged(t) {
        CborTree::Entries(m) => if has_keys(m) {
            Some(m)
        } else {
            None
        },
        _ => None,
    }
}

/// The values that a record holds under a name, in order.
pub open spec fn occurrences(m: Seq<(CborTree, CborTree)>, name: Seq<char>) -> Seq<CborTree>
    decreases m.len(),
{
    if m.len() == 0 {
        Seq::empty()
    } else if is_named(m.last().0, name) {
        occurrences(m.drop_last(), name).push(m.last().1)
    } else {
        occurrences(m.drop_last(), name)
    }
}

/// The value that a record holds under a name, where it holds exactly one.
pub open spec fn field_of(m: Seq<(CborTree, CborTree)>, name: Seq<char>) -> Option<CborTree> {
    if occurrences(m, name).len() == 1 {
        Some(occurrences(m, name)[0])
    } else {
        None
    }
}

/// The tag of a number of any size that is written as its bytes.
pub const TAG_BIG_POSITIVE: u64 = 2;

/// The tag of a negative number of any size that is written as its bytes.
pub const TAG_BIG_NEGATIVE: u64 = 3;

/// An unsigned integer up to a limit. Tags in front of it say nothing, but for those of
/// a number that is written as its bytes.
pub open spec fn uint_of(t: CborTree, max: int) -> Option<int>
    decreases t,
{
    match t {
        CborTree::Int(n) => if 0 <= n <= max {
            Some(n)
        } else {
            None
        },
        CborTree::Tag(tag, inner) => if tag == TAG_BIG_POSITIVE {
            match *inner {
                CborTree::Bytes(b) => if varint::be_value(b) <= max {
                    Some(varint::be_value(b) as int)
                } else {
                    None
                },
                _ => None,
            }
        } else if tag == TAG_BIG_NEGATIVE {
            None
        } else {
            uint_of(*inner, max)
        },
        _ => None,
    }
}

/// A text string.
pub open spec fn text_of(t: CborTree) -> Option<Seq<char>> {
    match untagged(t) {
        CborTree::Text(s) => Some(s),
        _ => None,
    }
}

/// A boolean.
pub open spec fn bool_of(t: CborTree) -> Option<bool> {
    match untagged(t) {
        CborTree::Bool(b) => Some(b),
        _ => None,
    }
}

/// A byte sequence, as a list of numbers or as a byte string.
pub open spec fn octets_of(t: CborTree) -> Option<Seq<u8>> {
    match untagged(t) {
        CborTree::Bytes(b) => Some(b),
        CborTree::Items(items) => if forall|i: int|
            0 <= i < items.len() ==> uint_of(#[trigger] items[i], 255) is Some {
            Some(Seq::new(items.len(), |i: int| uint_of(items[i], 255)->0 as u8))
        } else {
            None
        },
        _ => None,
    }
}

/// The name of a variant that stands in front of what the variant holds: text, or its
/// UTF-8 bytes.
pub open spec fn variant_name(t: CborTree) -> Option<Seq<char>> {
    match untagged(t) {
        CborTree::Text(s) => Some(s),
        CborTree::Bytes(b) => if valid_utf8(b) {
            Some(decode_utf8(b))
        } else {
            None
        },
        _ => None,
    }
}

/// The name of an enum's variant, and what the variant holds where it holds something.
pub open spec fn variant_of(t: CborTree) -> Option<(Seq<char>, Option<CborTree>)> {
    match untagged(t) {
        CborTree::Text(s) => Some((s, None)),
        CborTree::Entries(m) => if m.len() == 1 {
            match variant_name(m[0].0) {
                Some(s) => Some((s, Some(m[0].1))),
                None => None,
            }
        } else {
            None
        },
        _ => None,
    }
}

/// Items under names, in order.
pub open spec fn listed(names: Seq<Seq<char>>, items: Seq<CborTree>) -> Seq<(CborTree, CborTree)> {
    Seq::new(names.len(), |i: int| (CborTree::Text(names[i]), items[i]))
}

/// The fields that a variant holds: a record, or a list of their values in the order in
/// which they are declared; and the items of the list that are left unread.
pub open spec fn content_of(t: CborTree, names: Seq<Seq<char>>) -> Option<
    (Seq<(CborTree, CborTree)>, Seq<CborTree>),
> {
    match t {
        CborTree::Entries(m) => if has_keys(m) {
            Some((m, Seq::empty()))
        } else {
            None
        },
        CborTree::Items(items) => if items.len() >= names.len() {
            Some((listed(names, items), items.skip(names.len() as int)))
        } else {
            None
        },
        _ => None,
    }
}

/// The items behind the name of a variant: what stands with the name, where something
/// does, and what stands behind the whole.
pub open spec fn behind_name(held: Option<CborTree>, next: Seq<CborTree>) -> Seq<CborTree> {
    match held {
        Some(t) => seq![t] + next,
        None => next,
    }
}

/// The entries of a map.
pub open spec fn entries_in(t: CborTree) -> Option<Seq<(CborTree, CborTree)>> {
    match untagged(t) {
        CborTree::Entries(m) => Some(m),
        _ => None,
    }
}

/// The first entry with this name.
pub open spec fn position(m: Seq<(CborTree, CborTree)>, name: Seq<char>) -> Option<int>
    decreases m.len(),
{
    if m.len() == 0 {
        None
    } else {
        match position(m.drop_last(), name) {
            Some(i) => Some(i),
            None => if is_named(m.last().0, name) {
                Some(m.len() - 1)
            } else {
                None
            },
        }
    }
}

/// The keys and values of entries, in the order in which they are written.
pub open spec fn flat(m: Seq<(CborTree, CborTree)>) -> Seq<CborTree> {
    Seq::new(
        2 * m.len(),
        |i: int|
            if i % 2 == 0 {
                m[i / 2].0
            } else {
                m[i / 2].1
            },
    )
}

/// The items taken as so many keys and values in turn.
pub open spec fn paired(items: Seq<CborTree>, n: nat) -> Seq<(CborTree, CborTree)> {
    Seq::new(n, |i: int| (items[2 * i], items[2 * i + 1]))
}

/// The other fields of a record, where the one with the given name stands at `at` and
/// reading it leaves the items `rest`: those in front of it, and as many as stand behind
/// it. There is no other of its name.
pub open spec fn others(
    m: Seq<(CborTree, CborTree)>,
    at: int,
    rest: Seq<CborTree>,
    name: Seq<char>,
) -> Option<Seq<(CborTree, CborTree)>> {
    let behind = (m.len() - at - 1) as nat;
    let after = paired(rest, behind);
    if rest.len() >= 2 * behind && has_keys(m.take(at)) && is_key(m[at].0) && has_keys(after)
        && position(after, name) is None {
        Some(m.take(at) + after)
    } else {
        None
    }
}

/// An unsigned integer as a value.
pub open spec fn uint_tree(n: int) -> CborTree {
    CborTree::Int(n)
}

/// A byte sequence as a value: a list of numbers.
pub open spec fn octets_tree(b: Seq<u8>) -> CborTree {
    CborTree::Items(Seq::new(b.len(), |i: int| CborTree::Int(b[i] as int)))
}

/// A record as a value.
pub open spec fn record_tree(fields: Seq<(Seq<char>, CborTree)>) -> CborTree {
    CborTree::Entries(Seq::new(fields.len(), |i: int| (CborTree::Text(fields[i].0), fields[i].1)))
}

/// No two fields have the same name.
pub open spec fn distinct_names(fields: Seq<(Seq<char>, CborTree)>) -> bool {
    forall|i: int, j: int|
        0 <= i < j < fields.len() ==> (#[trigger] fields[i]).0 != (#[trigger] fields[j]).0
}

/// No name is too long for a key.
pub open spec fn short_names(fields: Seq<(Seq<char>, CborTree)>) -> bool {
    forall|i: int| 0 <= i < fields.len() ==> (#[trigger] fields[i]).0.len() <= 100
}

/// What the names say.
pub open spec fn texts(names: Seq<&'static str>) -> Seq<Seq<char>> {
    Seq::new(names.len(), |i: int| names[i]@)
}

/// What the items say.
pub open spec fn trees(items: Seq<&Value>) -> Seq<CborTree> {
    Seq::new(items.len(), |i: int| tree_of(*items[i]))
}

/// The entries of a `ciborium` map, as what they say.
pub open spec fn entries_of(m: Seq<(Value, Value)>) -> Seq<(CborTree, CborTree)> {
    Seq::new(m.len(), |i: int| (tree_of(m[i].0), tree_of(m[i].1)))
}

proof fn lemma_occurrences_absent(m: Seq<(CborTree, CborTree)>, name: Seq<char>)
    requires
        forall|i: int| 0 <= i < m.len() ==> !is_named((#[trigger] m[i]).0, name),
    ensures
        occurrences(m, name).len() == 0,
    decreases m.len(),
{
    if m.len() > 0 {
        assert forall|i: int| 0 <= i < m.drop_last().len() implies !is_named(
            (#[trigger] m.drop_last()[i]).0,
            name,
        ) by {
            assert(m.drop_last()[i] == m[i]);
        }
        lemma_occurrences_absent(m.drop_last(), name);
    }
}

pub proof fn lemma_occurrences_single(m: Seq<(CborTree, CborTree)>, name: Seq<char>, k: int)
    requires
        0 <= k < m.len(),
        forall|i: int| 0 <= i < m.len() ==> (is_named((#[trigger] m[i]).0, name) <==> i == k),
    ensures
        occurrences(m, name) == seq![m[k].1],
    decreases m.len(),
{
    let rest = m.drop_last();
    if k == m.len() - 1 {
        assert forall|i: int| 0 <= i < rest.len() implies !is_named((#[trigger] rest[i]).0, name) by {
            assert(rest[i] == m[i]);
        }
        lemma_occurrences_absent(rest, name);
        assert(is_named(m[k].0, name));
        assert(occurrences(m, name) =~= seq![m[k].1]);
    } else {
        assert forall|i: int| 0 <= i < rest.len() implies (is_named((#[trigger] rest[i]).0, name)
            <==> i == k) by {
            assert(rest[i] == m[i]);
        }
        lemma_occurrences_single(rest, name, k);
        assert(!is_named(m[m.len() - 1].0, name));
    }
}

proof fn lemma_utf8_len(s: Seq<char>)
    ensures
        encode_utf8(s).len() <= 4 * s.len(),
    decreases s.len(),
{
    if s.len() > 0 {
        lemma_utf8_len(s.drop_first());
    }
}

/// A written record is read as one.
pub proof fn lemma_record(fields: Seq<(Seq<char>, CborTree)>)
    requires
        short_names(fields),
    ensures
        record_of(record_tree(fields)) == Some(record_tree(fields)->Entries_0),
        has_keys(record_tree(fields)->Entries_0),
{
    let m = record_tree(fields)->Entries_0;
    assert forall|i: int| 0 <= i < m.len() implies is_key((#[trigger] m[i]).0) by {
        assert(fields[i].0.len() <= 100);
        lemma_utf8_len(fields[i].0);
    }
}

/// Reading a field of a written record gives back what was written.
pub proof fn lemma_record_field(fields: Seq<(Seq<char>, CborTree)>, k: int)
    requires
        distinct_names(fields),
        0 <= k < fields.len(),
    ensures
        field_of(record_tree(fields)->Entries_0, fields[k].0) == Some(fields[k].1),
{
    let m = record_tree(fields)->Entries_0;
    assert forall|i: int| 0 <= i < m.len() implies (is_named((#[trigger] m[i]).0, fields[k].0)
        <==> i == k) by {
        if i < k {
            assert(fields[i].0 != fields[k].0);
        } else if k < i {
            assert(fields[k].0 != fields[i].0);
        }
    }
    lemma_occurrences_single(m, fields[k].0, k);
}

/// In a written record of two fields either is found, and the other is then all that is
/// left.
pub proof fn lemma_record_of_two(fields: Seq<(Seq<char>, CborTree)>, at: int)
    requires
        distinct_names(fields),
        short_names(fields),
        fields.len() == 2,
        0 <= at < 2,
    ensures
        ({
            let m = record_tree(fields)->Entries_0;
            &&& position(m, fields[at].0) == Some(at)
            &&& m[at].1 == fields[at].1
            &&& others(m, at, flat(m.skip(at + 1)), fields[at].0) == Some(seq![m[1 - at]])
            &&& field_of(seq![m[1 - at]], fields[1 - at].0) == Some(fields[1 - at].1)
        }),
{
    let m = record_tree(fields)->Entries_0;
    let name = fields[at].0;
    lemma_record(fields);
    assert(fields[0].0 != fields[1].0);
    assert(m[0] == (CborTree::Text(fields[0].0), fields[0].1));
    assert(m[1] == (CborTree::Text(fields[1].0), fields[1].1));
    reveal_with_fuel(position, 3);
    assert(m.drop_last() =~= seq![m[0]]);
    assert(m.drop_last().drop_last() =~= Seq::empty());
    let after = paired(flat(m.skip(at + 1)), (1 - at) as nat);
    assert(after =~= m.skip(at + 1));
    if at == 0 {
        assert(after.drop_last() =~= Seq::empty());
    }
    assert(has_keys(m.take(at)));
    assert(has_keys(after));
    assert(m.take(at) + after =~= seq![m[1 - at]]);
    let left = seq![m[1 - at]];
    assert(left.drop_last() =~= Seq::empty());
    reveal_with_fuel(occurrences, 2);
}

/// Reading back a byte sequence.
pub proof fn lemma_octets_roundtrip(b: Seq<u8>)
    ensures
        octets_of(octets_tree(b)) == Some(b),
        is_plain(octets_tree(b), 1),
{
    let items = octets_tree(b)->Items_0;
    assert forall|i: int| 0 <= i < items.len() implies uint_of(#[trigger] items[i], 255) == Some(
        b[i] as int,
    ) by {}
    assert(octets_of(octets_tree(b))->0 =~= b);
    assert forall|i: int| 0 <= i < items.len() implies is_plain(#[trigger] items[i], 0) by {}
}

/// A value that is plain at some depth is plain at any greater one.
pub proof fn lemma_plain_deeper(t: CborTree, d: nat, e: nat)
    requires
        is_plain(t, d),
        d <= e,
    ensures
        is_plain(t, e),
    decreases d,
{
    match t {
        CborTree::Items(items) => {
            assert forall|i: int| 0 <= i < items.len() implies is_plain(
                #[trigger] items[i],
                (e - 1) as nat,
            ) by {
                lemma_plain_deeper(items[i], (d - 1) as nat, (e - 1) as nat);
            }
        },
        CborTree::Entries(entries) => {
            assert forall|i: int| 0 <= i < entries.len() implies is_plain(
                (#[trigger] entries[i]).0,
                (e - 1) as nat,
            ) && is_plain(entries[i].1, (e - 1) as nat) by {
                lemma_plain_deeper(entries[i].0, (d - 1) as nat, (e - 1) as nat);
                lemma_plain_deeper(entries[i].1, (d - 1) as nat, (e - 1) as nat);
            }
        },
        _ => {},
    }
}

/// A plain value is nested no deeper than it may be, and holds no floating-point number.
pub proof fn lemma_plain_written(t: CborTree, d: nat, e: nat)
    requires
        is_plain(t, d),
        d <= e,
    ensures
        nests_within(t, e),
        has_no_float(t, e),
    decreases d,
{
    match t {
        CborTree::Items(items) => {
            assert forall|i: int| 0 <= i < items.len() implies nests_within(
                #[trigger] items[i],
                (e - 1) as nat,
            ) && has_no_float(items[i], (e - 1) as nat) by {
                lemma_plain_written(items[i], (d - 1) as nat, (e - 1) as nat);
            }
        },
        CborTree::Entries(entries) => {
            assert forall|i: int| 0 <= i < entries.len() implies nests_within(
                (#[trigger] entries[i]).0,
                (e - 1) as nat,
            ) && nests_within(entries[i].1, (e - 1) as nat) && has_no_float(
                entries[i].0,
                (e - 1) as nat,
            ) && has_no_float(entries[i].1, (e - 1) as nat) by {
                lemma_plain_written(entries[i].0, (d - 1) as nat, (e - 1) as nat);
                lemma_plain_written(entries[i].1, (d - 1) as nat, (e - 1) as nat);
            }
        },
        _ => {},
    }
}

/// A record of plain values is plain.
pub proof fn lemma_record_plain(fields: Seq<(Seq<char>, CborTree)>, d: nat)
    requires
        forall|i: int| 0 <= i < fields.len() ==> is_plain((#[trigger] fields[i]).1, d),
    ensures
        is_plain(record_tree(fields), d + 1),
{
    let m = record_tree(fields)->Entries_0;
    assert forall|i: int| 0 <= i < m.len() implies is_plain((#[trigger] m[i]).0, d) && is_plain(
        m[i].1,
        d,
    ) by {
        assert(is_plain(fields[i].1, d));
    }
}

/// A value without the tags in front of it.
pub fn untag<'a>(v: &'a Value) -> (r: &'a Value)
    ensures
        tree_of(*r) == untagged(tree_of(*v)),
        !(r is Tag),
    decreases v,
{
    match v {
        Value::Tag(_, inner) => untag(&**inner),
        _ => v,
    }
}

/// Whether a value is the key with the given name.
fn key_is(v: &Value, name: &str) -> (r: bool)
    ensures
        r == is_named(tree_of(*v), name@),
{
    match untag(v) {
        Value::Text(s) => same_text(s.as_str(), name),
        Value::Bytes(b) => same_bytes(b.as_slice(), name.as_bytes()),
        _ => false,
    }
}

/// Whether a value can be the key of a record.
fn can_be_key(v: &Value) -> (r: bool)
    ensures
        r == is_key(tree_of(*v)),
{
    match untag(v) {
        Value::Text(s) => s.as_str().as_bytes().len() <= MAX_KEY_SIZE,
        Value::Bytes(b) => b.len() <= MAX_KEY_SIZE,
        _ => false,
    }
}

/// The key of a field: a value, or the name that the field is declared with.
pub enum Key<'a> {
    Value(&'a Value),
    Name(&'static str),
}

impl<'a> View for Key<'a> {
    type V = CborTree;

    open spec fn view(&self) -> CborTree {
        match self {
            Key::Value(v) => tree_of(**v),
            Key::Name(s) => CborTree::Text(s@),
        }
    }
}

/// Fields, in order.
pub struct Fields<'a> {
    pub entries: Vec<(Key<'a>, &'a Value)>,
}

impl<'a> View for Fields<'a> {
    type V = Seq<(CborTree, CborTree)>;

    open spec fn view(&self) -> Seq<(CborTree, CborTree)> {
        Seq::new(
            self.entries@.len(),
            |i: int| (self.entries@[i].0@, tree_of(*self.entries@[i].1)),
        )
    }
}

/// The first entries of a map, where all their keys can be keys of a record.
fn first_fields<'a>(m: &'a Vec<(Value, Value)>, n: usize) -> (r: Option<Fields<'a>>)
    requires
        n <= m@.len(),
    ensures
        match r {
            Some(f) => f@ == entries_of(m@).take(n as int) && has_keys(f@),
            None => !has_keys(entries_of(m@).take(n as int)),
        },
{
    let mut entries: Vec<(Key<'a>, &'a Value)> = Vec::new();
    let mut i: usize = 0;
    while i < n
        invariant
            i <= n <= m@.len(),
            entries@.len() == i,
            forall|j: int|
                0 <= j < i ==> (#[trigger] entries@[j]).0@ == tree_of(m@[j].0) && tree_of(
                    *entries@[j].1,
                ) == tree_of(m@[j].1) && is_key(tree_of(m@[j].0)),
        decreases n - i,
    {
        if !can_be_key(&m[i].0) {
            assert(!is_key(entries_of(m@).take(n as int)[i as int].0));
            return None;
        }
        entries.push((Key::Value(&m[i].0), &m[i].1));
        i = i + 1;
    }
    let f = Fields { entries };
    assert(f@ =~= entries_of(m@).take(n as int));
    assert forall|j: int| 0 <= j < f@.len() implies is_key((#[trigger] f@[j]).0) by {
        assert(f.entries@[j].0@ == tree_of(m@[j].0));
    }
    Some(f)
}

/// The fields of a record.
pub fn record<'a>(v: &'a Value) -> (r: Option<Fields<'a>>)
    ensures
        match r {
            Some(f) => record_of(tree_of(*v)) == Some(f@),
            None => record_of(tree_of(*v)) is None,
        },
{
    match untag(v) {
        Value::Map(m) => {
            proof {
                assert(untagged(tree_of(*v))->Entries_0 =~= entries_of(m@));
                assert(entries_of(m@).take(m@.len() as int) =~= entries_of(m@));
            }
            first_fields(m, m.len())
        },
        _ => None,
    }
}

/// The entries of a map.
pub fn map_entries<'a>(v: &'a Value) -> (r: Option<&'a Vec<(Value, Value)>>)
    ensures
        match r {
            Some(m) => entries_in(tree_of(*v)) == Some(entries_of(m@)),
            None => entries_in(tree_of(*v)) is None,
        },
{
    match untag(v) {
        Value::Map(m) => {
            assert(untagged(tree_of(*v))->Entries_0 =~= entries_of(m@));
            Some(m)
        },
        _ => None,
    }
}

/// The first entry with this name.
pub fn find(m: &Vec<(Value, Value)>, name: &str) -> (r: Option<usize>)
    ensures
        match r {
            Some(i) => i < m@.len() && position(entries_of(m@), name@) == Some(i as int),
            None => position(entries_of(m@), name@) is None,
        },
{
    let mut i: usize = 0;
    while i < m.len()
        invariant
            i <= m@.len(),
            position(entries_of(m@).take(i as int), name@) is None,
        decreases m@.len() - i,
    {
        proof {
            let next = entries_of(m@).take(i as int + 1);
            assert(next.drop_last() =~= entries_of(m@).take(i as int));
            assert(next.last() == entries_of(m@)[i as int]);
        }
        if key_is(&m[i].0, name) {
            proof {
                lemma_position_found(entries_of(m@), name@, i as int + 1);
            }
            return Some(i);
        }
        i = i + 1;
    }
    assert(entries_of(m@).take(i as int) =~= entries_of(m@));
    None
}

proof fn lemma_position_found(m: Seq<(CborTree, CborTree)>, name: Seq<char>, n: int)
    requires
        0 <= n <= m.len(),
        position(m.take(n), name) is Some,
    ensures
        position(m, name) == position(m.take(n), name),
    decreases m.len(),
{
    if n == m.len() {
        assert(m.take(n) =~= m);
    } else {
        assert(m.drop_last().take(n) =~= m.take(n));
        lemma_position_found(m.drop_last(), name, n);
    }
}

/// The keys and values behind an entry, in the order in which they are written.
pub fn items_behind<'a>(m: &'a Vec<(Value, Value)>, at: usize) -> (r: Vec<&'a Value>)
    requires
        at < m@.len(),
    ensures
        trees(r@) == flat(entries_of(m@).skip(at + 1)),
{
    let mut out: Vec<&'a Value> = Vec::new();
    let n: usize = m.len();
    let mut i: usize = at + 1;
    while i < n
        invariant
            at < i <= n,
            n == m@.len(),
            out@.len() == 2 * (i - at - 1),
            forall|j: int|
                0 <= j < i - at - 1 ==> #[trigger] tree_of(m@[at + 1 + j].0) == tree_of(*out@[2 * j])
                    && tree_of(m@[at + 1 + j].1) == tree_of(*out@[2 * j + 1]),
        decreases n - i,
    {
        let ghost before = out@;
        out.push(&m[i].0);
        out.push(&m[i].1);
        assert forall|j: int| 0 <= j < i - at implies #[trigger] tree_of(m@[at + 1 + j].0)
            == tree_of(*out@[2 * j]) && tree_of(m@[at + 1 + j].1) == tree_of(*out@[2 * j + 1]) by {
            if j < i - at - 1 {
                assert(out@[2 * j] == before[2 * j]);
                assert(out@[2 * j + 1] == before[2 * j + 1]);
            }
        }
        i = i + 1;
    }
    proof {
        let e = entries_of(m@).skip(at + 1);
        assert forall|k: int| 0 <= k < out@.len() implies #[trigger] trees(out@)[k] == flat(e)[k] by {
            let j = k / 2;
            assert(e[j] == (tree_of(m@[at + 1 + j].0), tree_of(m@[at + 1 + j].1)));
        }
        assert(trees(out@) =~= flat(e));
    }
    out
}

/// The other fields of a record, where the one with the given name stands at `at` and
/// reading it leaves the items `rest`.
pub fn other_fields<'a>(
    m: &'a Vec<(Value, Value)>,
    at: usize,
    rest: Vec<&'a Value>,
    name: &str,
) -> (r: Option<Fields<'a>>)
    requires
        at < m@.len(),
    ensures
        match r {
            Some(f) => others(entries_of(m@), at as int, trees(rest@), name@) == Some(f@),
            None => others(entries_of(m@), at as int, trees(rest@), name@) is None,
        },
{
    let behind: usize = m.len() - at - 1;
    let ghost after = paired(trees(rest@), behind as nat);
    let total: usize = rest.len();
    if total / 2 < behind || !can_be_key(&m[at].0) {
        return None;
    }
    let f = match first_fields(m, at) {
        Some(f) => f,
        None => return None,
    };
    let ghost front = f@;
    let Fields { entries } = f;
    let mut entries = entries;
    let mut i: usize = 0;
    while i < behind
        invariant
            i <= behind,
            at < m@.len(),
            behind == m@.len() - at - 1,
            2 * behind <= total,
            total == rest@.len(),
            after == paired(trees(rest@), behind as nat),
            (Fields { entries })@ == front + after.take(i as int),
            has_keys(after.take(i as int)),
            position(after.take(i as int), name@) is None,
        decreases behind - i,
    {
        let key: &'a Value = rest[2 * i];
        let ghost before = (Fields { entries })@;
        proof {
            assert(after[i as int] == (tree_of(*rest@[2 * i]), tree_of(*rest@[2 * i + 1])));
            assert(after.take(i as int + 1) =~= after.take(i as int).push(after[i as int]));
            assert(after.take(i as int + 1).drop_last() =~= after.take(i as int));
        }
        if !can_be_key(key) {
            assert(!is_key(after[i as int].0));
            return None;
        }
        if key_is(key, name) {
            proof {
                lemma_position_found(after, name@, i as int + 1);
            }
            return None;
        }
        entries.push((Key::Value(key), rest[2 * i + 1]));
        proof {
            assert((Fields { entries })@ =~= before.push(after[i as int]));
            assert((Fields { entries })@ =~= front + after.take(i as int + 1));
            assert forall|j: int| 0 <= j < i + 1 implies is_key(
                (#[trigger] after.take(i as int + 1)[j]).0,
            ) by {
                if j < i {
                    assert(after.take(i as int)[j] == after[j]);
                }
            }
        }
        i = i + 1;
    }
    assert(after.take(i as int) =~= after);
    Some(Fields { entries })
}

/// The items behind the name of a variant.
pub fn items_behind_name<'a>(held: Option<&'a Value>, next: Vec<&'a Value>) -> (r: Vec<&'a Value>)
    ensures
        trees(r@) == behind_name(
            match held {
                Some(v) => Some(tree_of(*v)),
                None => None,
            },
            trees(next@),
        ),
{
    match held {
        Some(v) => {
            let mut items: Vec<&'a Value> = Vec::new();
            items.push(v);
            let mut next = next;
            let ghost before = next@;
            items.append(&mut next);
            assert(trees(items@) =~= seq![tree_of(*v)] + trees(before));
            items
        },
        None => next,
    }
}

/// The items that are left unread, and all the items but the first.
pub fn unread_then<'a>(unread: Vec<&'a Value>, items: Vec<&'a Value>) -> (r: Vec<&'a Value>)
    requires
        items@.len() > 0,
    ensures
        trees(r@) == trees(unread@) + trees(items@).skip(1),
{
    let mut all = unread;
    let mut items = items;
    let ghost before = items@;
    items.remove(0);
    let ghost after = items@;
    all.append(&mut items);
    proof {
        assert(trees(after) =~= trees(before).skip(1));
        assert(trees(all@) =~= trees(unread@) + trees(after));
    }
    all
}

/// The fields that a variant holds, and the items that are left unread.
pub fn content<'a>(v: &'a Value, names: Vec<&'static str>) -> (r: Option<
    (Fields<'a>, Vec<&'a Value>),
>)
    ensures
        match r {
            Some((f, unread)) => content_of(tree_of(*v), texts(names@)) == Some(
                (f@, trees(unread@)),
            ),
            None => content_of(tree_of(*v), texts(names@)) is None,
        },
{
    match v {
        Value::Map(m) => {
            proof {
                assert(tree_of(*v)->Entries_0 =~= entries_of(m@));
                assert(entries_of(m@).take(m@.len() as int) =~= entries_of(m@));
            }
            match first_fields(m, m.len()) {
                Some(f) => {
                    let unread: Vec<&'a Value> = Vec::new();
                    assert(trees(unread@) =~= Seq::empty());
                    Some((f, unread))
                },
                None => None,
            }
        },
        Value::Array(items) => {
            let ghost t = tree_of(*v)->Items_0;
            if items.len() < names.len() {
                return None;
            }
            let mut entries: Vec<(Key<'a>, &'a Value)> = Vec::new();
            let mut unread: Vec<&'a Value> = Vec::new();
            let mut i: usize = 0;
            while i < items.len()
                invariant
                    i <= items@.len(),
                    names@.len() <= items@.len(),
                    t.len() == items@.len(),
                    forall|j: int| 0 <= j < items@.len() ==> #[trigger] t[j] == tree_of(items@[j]),
                    entries@.len() == if i < names@.len() {
                        i as int
                    } else {
                        names@.len() as int
                    },
                    unread@.len() == i - entries@.len(),
                    forall|j: int|
                        0 <= j < entries@.len() ==> (#[trigger] entries@[j]).0@ == CborTree::Text(
                            names@[j]@,
                        ) && tree_of(*entries@[j].1) == t[j],
                    forall|j: int|
                        0 <= j < unread@.len() ==> tree_of(*#[trigger] unread@[j]) == t[names@.len()
                            + j],
                decreases items@.len() - i,
            {
                assert(t[i as int] == tree_of(items@[i as int]));
                if i < names.len() {
                    entries.push((Key::Name(names[i]), &items[i]));
                } else {
                    unread.push(&items[i]);
                }
                i = i + 1;
            }
            let f = Fields { entries };
            proof {
                assert(f@ =~= listed(texts(names@), t));
                assert(trees(unread@) =~= t.skip(names@.len() as int));
            }
            Some((f, unread))
        },
        _ => None,
    }
}

/// What a record holds under a name.
pub enum Field<'a> {
    Missing,
    Found(&'a Value),
    Repeated,
}

/// Whether a key is the one with the given name.
fn named(k: &Key<'_>, name: &str) -> (r: bool)
    ensures
        r == is_named(k@, name@),
{
    match k {
        Key::Value(v) => key_is(v, name),
        Key::Name(s) => same_text(s, name),
    }
}

/// Looks up a field.
pub fn lookup<'a>(m: &Fields<'a>, name: &str) -> (r: Field<'a>)
    ensures
        match r {
            Field::Missing => occurrences(m@, name@).len() == 0,
            Field::Found(v) => occurrences(m@, name@) == seq![tree_of(*v)],
            Field::Repeated => occurrences(m@, name@).len() > 1,
        },
{
    let mut found: Option<&'a Value> = None;
    let mut repeated: bool = false;
    let mut i: usize = 0;
    while i < m.entries.len()
        invariant
            i <= m.entries@.len(),
            match found {
                None => !repeated && occurrences(m@.take(i as int), name@).len() == 0,
                Some(v) => if repeated {
                    occurrences(m@.take(i as int), name@).len() > 1
                } else {
                    occurrences(m@.take(i as int), name@) == seq![tree_of(*v)]
                },
            },
        decreases m.entries@.len() - i,
    {
        proof {
            let next = m@.take(i as int + 1);
            assert(next.drop_last() =~= m@.take(i as int));
            assert(next.last() == m@[i as int]);
        }
        if named(&m.entries[i].0, name) {
            match found {
                None => {
                    found = Some(m.entries[i].1);
                    assert(occurrences(m@.take(i as int + 1), name@) =~= seq![
                        tree_of(*m.entries@[i as int].1),
                    ]);
                },
                Some(_) => {
                    repeated = true;
                },
            }
        }
        i = i + 1;
    }
    assert(m@.take(i as int) =~= m@);
    match found {
        None => Field::Missing,
        Some(v) => if repeated {
            Field::Repeated
        } else {
            Field::Found(v)
        },
    }
}

/// The one value under a name.
pub fn field<'a>(m: &Fields<'a>, name: &str) -> (r: Option<&'a Value>)
    ensures
        match r {
            Some(v) => field_of(m@, name@) == Some(tree_of(*v)),
            None => field_of(m@, name@) is None,
        },
{
    match lookup(m, name) {
        Field::Found(v) => Some(v),
        _ => None,
    }
}

proof fn lemma_be_value_at_least(s: Seq<u8>, k: int)
    requires
        0 <= k <= s.len(),
    ensures
        varint::be_value(s.subrange(0, k)) <= varint::be_value(s),
    decreases s.len() - k,
{
    if k < s.len() {
        lemma_be_value_at_least(s, k + 1);
        assert(s.subrange(0, k + 1).drop_last() =~= s.subrange(0, k));
    } else {
        assert(s.subrange(0, k) =~= s);
    }
}

/// Reads a number that is written as its bytes.
fn read_big(b: &[u8]) -> (r: Option<u64>)
    ensures
        match r {
            Some(n) => varint::be_value(b@) == n,
            None => varint::be_value(b@) > u64::MAX,
        },
{
    let mut n: u64 = 0;
    let mut i: usize = 0;
    while i < b.len()
        invariant
            i <= b@.len(),
            varint::be_value(b@.subrange(0, i as int)) == n,
        decreases b@.len() - i,
    {
        proof {
            assert(b@.subrange(0, i as int + 1).drop_last() =~= b@.subrange(0, i as int));
            lemma_be_value_at_least(b@, i as int + 1);
        }
        if n > u64::MAX / 256 {
            return None;
        }
        n = n * 256 + b[i] as u64;
        i = i + 1;
    }
    assert(b@.subrange(0, i as int) =~= b@);
    Some(n)
}

/// Reads an unsigned 64-bit integer.
pub fn read_u64(v: &Value) -> (r: Option<u64>)
    ensures
        match r {
            Some(n) => uint_of(tree_of(*v), u64::MAX as int) == Some(n as int),
            None => uint_of(tree_of(*v), u64::MAX as int) is None,
        },
    decreases v,
{
    match v {
        Value::Integer(i) => cbor_integer_to_u64(i),
        Value::Tag(tag, inner) => if *tag == TAG_BIG_POSITIVE {
            match &**inner {
                Value::Bytes(b) => {
                    assert(tree_of(**inner) == CborTree::Bytes(b@));
                    read_big(b.as_slice())
                },
                _ => None,
            }
        } else if *tag == TAG_BIG_NEGATIVE {
            None
        } else {
            read_u64(&**inner)
        },
        _ => None,
    }
}

proof fn lemma_uint_limit(t: CborTree, max: int)
    requires
        max <= u64::MAX,
    ensures
        uint_of(t, max) == match uint_of(t, u64::MAX as int) {
            Some(n) => if n <= max {
                Some(n)
            } else {
                None
            },
            None => None,
        },
    decreases t,
{
    if let CborTree::Tag(_, inner) = t {
        lemma_uint_limit(*inner, max);
    }
}

/// Reads an unsigned 32-bit integer.
pub fn read_u32(v: &Value) -> (r: Option<u32>)
    ensures
        match r {
            Some(n) => uint_of(tree_of(*v), u32::MAX as int) == Some(n as int),
            None => uint_of(tree_of(*v), u32::MAX as int) is None,
        },
{
    proof {
        lemma_uint_limit(tree_of(*v), u32::MAX as int);
    }
    match read_u64(v) {
        Some(n) => if n <= u32::MAX as u64 {
            Some(n as u32)
        } else {
            None
        },
        None => None,
    }
}

/// Reads a text string.
pub fn read_text(v: &Value) -> (r: Option<String>)
    ensures
        match r {
            Some(s) => text_of(tree_of(*v)) == Some(s@),
            None => text_of(tree_of(*v)) is None,
        },
{
    match untag(v) {
        Value::Text(s) => Some(s.clone()),
        _ => None,
    }
}

/// Reads a boolean.
pub fn read_bool(v: &Value) -> (r: Option<bool>)
    ensures
        r == bool_of(tree_of(*v)),
{
    match untag(v) {
        Value::Bool(b) => Some(*b),
        _ => None,
    }
}

/// Reads a byte sequence.
pub fn read_octets(v: &Value) -> (r: Option<Vec<u8>>)
    ensures
        match r {
            Some(b) => octets_of(tree_of(*v)) == Some(b@),
            None => octets_of(tree_of(*v)) is None,
        },
{
    match untag(v) {
        Value::Bytes(b) => Some(b.clone()),
        Value::Array(items) => {
            let ghost t = untagged(tree_of(*v))->Items_0;
            let mut out: Vec<u8> = Vec::new();
            let mut i: usize = 0;
            while i < items.len()
                invariant
                    i <= items@.len(),
                    t.len() == items@.len(),
                    untagged(tree_of(*v)) == CborTree::Items(t),
                    forall|j: int| 0 <= j < items@.len() ==> #[trigger] t[j] == tree_of(items@[j]),
                    out@.len() == i,
                    forall|j: int|
                        0 <= j < i ==> uint_of(#[trigger] t[j], 255) == Some(out@[j] as int),
                decreases items@.len() - i,
            {
                proof {
                    assert(t[i as int] == tree_of(items@[i as int]));
                    lemma_uint_limit(t[i as int], 255);
                }
                match read_u64(&items[i]) {
                    Some(n) => {
                        if n > 255 {
                            assert(uint_of(t[i as int], 255) is None);
                            return None;
                        }
                        out.push(n as u8);
                    },
                    None => {
                        assert(uint_of(t[i as int], 255) is None);
                        return None;
                    },
                }
                i = i + 1;
            }
            assert(octets_of(tree_of(*v))->0 =~= out@);
            Some(out)
        },
        _ => None,
    }
}

/// Reads the name of an enum's variant and what the variant holds.
pub fn read_variant<'a>(v: &'a Value) -> (r: Option<(String, Option<&'a Value>)>)
    ensures
        match r {
            Some((name, Some(inner))) => variant_of(tree_of(*v)) == Some(
                (name@, Some(tree_of(*inner))),
            ),
            Some((name, None)) => variant_of(tree_of(*v)) == Some((name@, None::<CborTree>)),
            None => variant_of(tree_of(*v)) is None,
        },
{
    match untag(v) {
        Value::Text(s) => Some((s.clone(), None)),
        Value::Map(m) => if m.len() == 1 {
            match untag(&m[0].0) {
                Value::Text(s) => Some((s.clone(), Some(&m[0].1))),
                Value::Bytes(b) => match string_from_utf8(b.clone()) {
                    Ok(s) => Some((s, Some(&m[0].1))),
                    Err(_) => None,
                },
                _ => None,
            }
        } else {
            None
        },
        _ => None,
    }
}

/// An unsigned integer as a value.
pub fn uint_value(n: u64) -> (r: Value)
    ensures
        tree_of(r) == uint_tree(n as int),
{
    Value::Integer(cbor_integer_from_u64(n))
}

/// A text string as a value.
pub fn text_value(s: &str) -> (r: Value)
    ensures
        tree_of(r) == CborTree::Text(s@),
{
    Value::Text(s.to_owned())
}

/// A byte sequence as a value.
pub fn octets_value(b: &[u8]) -> (r: Value)
    ensures
        tree_of(r) == octets_tree(b@),
{
    let mut items: Vec<Value> = Vec::new();
    let mut i: usize = 0;
    while i < b.len()
        invariant
            i <= b@.len(),
            items@.len() == i,
            forall|j: int| 0 <= j < i ==> tree_of(#[trigger] items@[j]) == CborTree::Int(b@[j] as int),
        decreases b@.len() - i,
    {
        items.push(uint_value(b[i] as u64));
        i = i + 1;
    }
    let v = Value::Array(items);
    assert(tree_of(v)->Items_0 =~= octets_tree(b@)->Items_0);
    v
}

/// The fields of a record while it is put together.
pub struct Record {
    entries: Vec<(Value, Value)>,
}

impl Record {
    /// The fields so far.
    pub closed spec fn fields(&self) -> Seq<(Seq<char>, CborTree)> {
        Seq::new(
            self.entries@.len(),
            |i: int| (tree_of(self.entries@[i].0)->Text_0, tree_of(self.entries@[i].1)),
        )
    }

    #[verifier::type_invariant]
    spec fn keys_are_text(self) -> bool {
        forall|i: int| 0 <= i < self.entries@.len() ==> tree_of((#[trigger] self.entries@[i]).0) is Text
    }

    /// A record without fields.
    pub fn new() -> (r: Record)
        ensures
            r.fields() == Seq::<(Seq<char>, CborTree)>::empty(),
    {
        let r = Record { entries: Vec::new() };
        assert(r.fields() =~= Seq::<(Seq<char>, CborTree)>::empty());
        r
    }

    /// The record with one more field.
    pub fn with(self, name: &str, value: Value) -> (r: Record)
        ensures
            r.fields() == self.fields().push((name@, tree_of(value))),
    {
        proof {
            use_type_invariant(&self);
        }
        let ghost before = self.fields();
        let Record { entries } = self;
        let mut entries = entries;
        let key = text_value(name);
        let ghost old_entries = entries@;
        entries.push((key, value));
        assert forall|i: int| 0 <= i < entries@.len() implies tree_of(
            (#[trigger] entries@[i]).0,
        ) is Text by {
            if i < old_entries.len() {
                assert(entries@[i] == old_entries[i]);
            }
        }
        let r = Record { entries };
        assert(r.fields() =~= before.push((name@, tree_of(value))));
        r
    }

    /// The record as a value.
    pub fn into_value(self) -> (r: Value)
        ensures
            tree_of(r) == record_tree(self.fields()),
    {
        proof {
            use_type_invariant(&self);
        }
        let ghost fields = self.fields();
        let v = Value::Map(self.entries);
        proof {
            let m = tree_of(v)->Entries_0;
            assert forall|i: int| 0 <= i < m.len() implies #[trigger] m[i] == record_tree(
                fields,
            )->Entries_0[i] by {
                assert(tree_of(self.entries@[i].0) is Text);
            }
            assert(m =~= record_tree(fields)->Entries_0);
        }
        v
    }
}

/// Why a value could not be written as CBOR.
#[derive(Debug, Clone, PartialEq, Eq)]
pub enum CborEncodeError {
    Ciborium { message: String },
}

impl CborEncodeError {
    /// The error as text.
    pub fn to_string(&self) -> (r: String)
        ensures
            r@ == "CBOR encoding failed: "@ + self->message@,
    {
        match self {
            CborEncodeError::Ciborium { message } => join2("CBOR encoding failed: ", message.as_str()),
        }
    }
}

/// Why bytes could not be read as CBOR.
#[derive(Debug, Clone, PartialEq, Eq)]
pub enum CborDecodeError {
    Ciborium { message: String },
    /// The bytes end before the value does.
    Incomplete,
}

impl CborDecodeError {
    pub open spec fn message(self) -> Seq<char> {
        match self {
            CborDecodeError::Ciborium { message } => "CBOR decoding failed: "@ + message@,
            CborDecodeError::Incomplete => "unexpected end of input"@,
        }
    }

    /// The error as text.
    pub fn to_string(&self) -> (r: String)
        ensures
            r@ == self.message(),
    {
        match self {
            CborDecodeError::Ciborium { message } => join2("CBOR decoding failed: ", message.as_str()),
            CborDecodeError::Incomplete => "unexpected end of input".to_owned(),
        }
    }
}

/// Writes a value as CBOR. Nothing is said of the bytes of a floating-point number.
pub fn cbor_encode(value: &Value) -> (r: Result<bytes::Bytes, CborEncodeError>)
    requires
        nests_within(tree_of(*value), MAX_NESTING as nat),
    ensures
        match r {
            Ok(b) => {
                &&& has_no_float(tree_of(*value), MAX_NESTING as nat) ==> outside::bytes_content(b)
                    == outside::cbor_written(tree_of(*value))
                &&& is_plain(tree_of(*value), 100) ==> outside::cbor_parsed(
                    outside::bytes_content(b),
                ) == Ok::<CborTree, Seq<char>>(tree_of(*value))
            },
            Err(_) => false,
        },
{
    match cbor_write(value) {
        Ok(buf) => Ok(bytes_from_vec(buf)),
        Err(message) => Err(CborEncodeError::Ciborium { message }),
    }
}

/// Reads the CBOR value at the head of a slice.
pub fn cbor_decode(data: &[u8]) -> (r: Result<Value, CborDecodeError>)
    ensures
        match r {
            Ok(v) => outside::cbor_parsed(data@) == Ok::<CborTree, Seq<char>>(tree_of(v)),
            Err(CborDecodeError::Ciborium { message }) => outside::cbor_parsed(data@) == Err::<
                CborTree,
                Seq<char>,
            >(message@),
            Err(CborDecodeError::Incomplete) => false,
        },
{
    match cbor_read(data) {
        Ok(v) => Ok(v),
        Err(message) => Err(CborDecodeError::Ciborium { message }),
    }
}

} // verus!
