//! QUIC variable-length integers.
//!
//! An integer below 2^62 is written big-endian in one, two, four or eight bytes;
//! the two top bits of the first byte tell which.

use vstd::prelude::*;

verus! {

/// One more than the largest variable-length integer.
pub const VARINT_END: u64 = 0x4000_0000_0000_0000;

/// 256 to the given power.
pub open spec fn pow256(k: nat) -> nat
    decreases k,
{
    if k == 0 {
        1
    } else {
        256 * pow256((k - 1) as nat)
    }
}

/// The low `len` bytes of a number, most significant first.
pub open spec fn be_bytes(n: nat, len: nat) -> Seq<u8>
    decreases len,
{
    if len == 0 {
        Seq::empty()
    } else {
        be_bytes(n / 256, (len - 1) as nat).push((n % 256) as u8)
    }
}

/// The number that a byte string spells, most significant byte first.
pub open spec fn be_value(s: Seq<u8>) -> nat
    decreases s.len(),
{
    if s.len() == 0 {
        0
    } else {
        be_value(s.drop_last()) * 256 + s.last() as nat
    }
}

/// The number of bytes that the shortest encoding of a number takes.
pub open spec fn varint_len(n: nat) -> nat {
    if n < 0x40 {
        1
    } else if n < 0x4000 {
        2
    } else if n < 0x4000_0000 {
        4
    } else {
        8
    }
}

/// What the two top bits of the first byte hold for an encoding of `len` bytes.
pub open spec fn varint_class(len: nat) -> nat {
    if len == 1 {
        0
    } else if len == 2 {
        1
    } else if len == 4 {
        2
    } else {
        3
    }
}

/// The number of bytes that an encoding starting with this byte takes.
pub open spec fn varint_extent(first: u8) -> nat {
    if first < 64 {
        1
    } else if first < 128 {
        2
    } else if first < 192 {
        4
    } else {
        8
    }
}

/// The encoding of a number: its big-endian bytes, with the length class in the
/// two top bits of the first.
pub open spec fn varint_bytes(n: nat) -> Seq<u8> {
    let len = varint_len(n);
    let plain = be_bytes(n, len);
    plain.update(0, (plain[0] + 64 * varint_class(len)) as u8)
}

/// The number at the head of a byte string, and what follows it.
pub open spec fn take_varint(s: Seq<u8>) -> Option<(nat, Seq<u8>)> {
    if s.len() == 0 || s.len() < varint_extent(s[0]) {
        None
    } else {
        let len = varint_extent(s[0]) as int;
        Some((be_value(seq![s[0] % 64] + s.subrange(1, len)), s.subrange(len, s.len() as int)))
    }
}

pub proof fn lemma_be_bytes_len(n: nat, len: nat)
    ensures
        be_bytes(n, len).len() == len,
    decreases len,
{
    if len > 0 {
        lemma_be_bytes_len(n / 256, (len - 1) as nat);
    }
}

/// Reading back the bytes of a number that fits gives the number.
pub proof fn lemma_be_value_of_bytes(n: nat, len: nat)
    requires
        n < pow256(len),
    ensures
        be_value(be_bytes(n, len)) == n,
    decreases len,
{
    if len > 0 {
        assert(n / 256 < pow256((len - 1) as nat));
        lemma_be_value_of_bytes(n / 256, (len - 1) as nat);
        assert(be_bytes(n, len).drop_last() =~= be_bytes(n / 256, (len - 1) as nat));
    }
}

/// A byte string spells a number below 256 to the power of its length.
pub proof fn lemma_be_value_bound(s: Seq<u8>)
    ensures
        be_value(s) < pow256(s.len()),
    decreases s.len(),
{
    if s.len() > 0 {
        lemma_be_value_bound(s.drop_last());
    }
}

/// The first byte bounds the number that a byte string spells.
pub proof fn lemma_be_value_first(s: Seq<u8>, k: nat)
    requires
        s.len() > 0,
        s[0] < k,
    ensures
        be_value(s) < k * pow256((s.len() - 1) as nat),
    decreases s.len(),
{
    if s.len() == 1 {
        reveal_with_fuel(be_value, 2);
        assert(s.drop_last() =~= Seq::<u8>::empty());
        assert(k * pow256(0) == k) by (nonlinear_arith)
            requires
                pow256(0) == 1,
        ;
    } else {
        lemma_be_value_first(s.drop_last(), k);
        let p = pow256((s.len() - 2) as nat);
        assert(pow256((s.len() - 1) as nat) == 256 * p);
        assert(k * (256 * p) == 256 * (k * p)) by (nonlinear_arith);
    }
}

/// The first byte of a number that fits with room to spare.
pub proof fn lemma_be_bytes_first(n: nat, len: nat, k: nat)
    requires
        len > 0,
        k <= 256,
        n < k * pow256((len - 1) as nat),
    ensures
        be_bytes(n, len).len() == len,
        be_bytes(n, len)[0] < k,
    decreases len,
{
    lemma_be_bytes_len(n, len);
    if len == 1 {
        assert(k * pow256(0) == k) by (nonlinear_arith)
            requires
                pow256(0) == 1,
        ;
    } else {
        let p = pow256((len - 2) as nat);
        assert(pow256((len - 1) as nat) == 256 * p);
        assert(k * (256 * p) == 256 * (k * p)) by (nonlinear_arith);
        lemma_be_bytes_len(n / 256, (len - 1) as nat);
        lemma_be_bytes_first(n / 256, (len - 1) as nat, k);
    }
}

proof fn lemma_pow256_values()
    ensures
        pow256(0) == 1,
        pow256(1) == 0x100,
        pow256(2) == 0x1_0000,
        pow256(3) == 0x100_0000,
        pow256(4) == 0x1_0000_0000,
        pow256(7) == 0x100_0000_0000_0000,
        pow256(8) == 0x1_0000_0000_0000_0000,
{
    reveal_with_fuel(pow256, 9);
}

/// What an encoding looks like: its length, and its bytes with the class removed.
pub proof fn lemma_varint_bytes(n: nat)
    requires
        n < VARINT_END,
    ensures
        varint_bytes(n).len() == varint_len(n),
        varint_extent(varint_bytes(n)[0]) == varint_len(n),
        varint_bytes(n).update(0, varint_bytes(n)[0] % 64) == be_bytes(n, varint_len(n)),
        be_value(be_bytes(n, varint_len(n))) == n,
        be_bytes(n, varint_len(n)).len() == varint_len(n),
        be_bytes(n, varint_len(n))[0] < 64,
{
    lemma_pow256_values();
    let len = varint_len(n);
    lemma_be_bytes_first(n, len, 64);
    lemma_be_value_of_bytes(n, len);
    let plain = be_bytes(n, len);
    assert(varint_bytes(n).update(0, varint_bytes(n)[0] % 64) =~= plain);
}

/// Decoding gives back the number that was encoded, and leaves what followed it.
pub proof fn lemma_varint_roundtrip(n: nat, rest: Seq<u8>)
    requires
        n < VARINT_END,
    ensures
        take_varint(varint_bytes(n) + rest) == Some((n, rest)),
{
    lemma_varint_bytes(n);
    let s = varint_bytes(n) + rest;
    let len = varint_len(n) as int;
    assert(s[0] == varint_bytes(n)[0]);
    assert(seq![s[0] % 64] + s.subrange(1, len) =~= be_bytes(n, varint_len(n)));
    assert(s.subrange(len, s.len() as int) =~= rest);
}

/// No proper beginning of an encoding can be decoded.
pub proof fn lemma_varint_truncated(n: nat, k: int)
    requires
        n < VARINT_END,
        0 <= k < varint_bytes(n).len(),
    ensures
        take_varint(varint_bytes(n).subrange(0, k)) is None,
{
    lemma_varint_bytes(n);
    if k > 0 {
        assert(varint_bytes(n).subrange(0, k)[0] == varint_bytes(n)[0]);
    }
}

/// Every decoded number is below the limit, and no byte string that decodes to a
/// number is shorter than the number's encoding.
pub proof fn lemma_varint_shortest(s: Seq<u8>)
    ensures
        take_varint(s) matches Some((n, rest)) ==> {
            &&& n < VARINT_END
            &&& rest.len() + varint_len(n) <= s.len()
            &&& rest == s.subrange(s.len() - rest.len(), s.len() as int)
        },
{
    if let Some((n, rest)) = take_varint(s) {
        lemma_pow256_values();
        let len = varint_extent(s[0]) as int;
        let plain = seq![s[0] % 64] + s.subrange(1, len);
        lemma_be_value_first(plain, 64);
        lemma_be_value_bound(plain);
    }
}

/// A value that a variable-length integer can hold.
#[derive(Debug, Clone, Copy, PartialEq, Eq)]
pub struct VarInt {
    value: u64,
}

impl View for VarInt {
    type V = nat;

    closed spec fn view(&self) -> nat {
        self.value as nat
    }
}

impl VarInt {
    #[verifier::type_invariant]
    spec fn in_range(self) -> bool {
        self.value < VARINT_END
    }

    /// The integer, where it is below 2^62.
    pub fn from_u64(value: u64) -> (r: Option<VarInt>)
        ensures
            match r {
                Some(v) => value < VARINT_END && v@ == value,
                None => value >= VARINT_END,
            },
    {
        if value < VARINT_END {
            Some(VarInt { value })
        } else {
            None
        }
    }

    /// The integer itself.
    pub fn into_inner(self) -> (r: u64)
        ensures
            r == self@,
            r < VARINT_END,
    {
        proof {
            use_type_invariant(&self);
        }
        self.value
    }
}

/// Appends the low `len` bytes of a number, most significant first.
pub fn push_be(n: u64, len: usize, buf: &mut Vec<u8>)
    ensures
        final(buf)@ == old(buf)@ + be_bytes(n as nat, len as nat),
    decreases len,
{
    if len > 0 {
        push_be(n / 256, len - 1, buf);
        buf.push((n % 256) as u8);
    }
    assert(buf@ =~= old(buf)@ + be_bytes(n as nat, len as nat));
}

/// Appends the encoding of an integer.
pub fn encode_varint_sync(vi: VarInt, buf: &mut Vec<u8>)
    ensures
        final(buf)@ == old(buf)@ + varint_bytes(vi@),
{
    let x: u64 = vi.into_inner();
    let start: usize = buf.len();
    let (len, class): (usize, u8) = if x < 0x40 {
        (1, 0)
    } else if x < 0x4000 {
        (2, 0x40)
    } else if x < 0x4000_0000 {
        (4, 0x80)
    } else {
        (8, 0xc0)
    };
    push_be(x, len, buf);
    proof {
        lemma_varint_bytes(x as nat);
        assert(buf@[start as int] == be_bytes(x as nat, len as nat)[0]);
    }
    let first: u8 = buf[start];
    buf.set(start, first + class);
    assert(buf@ =~= old(buf)@ + varint_bytes(vi@));
}

/// Decodes the integer at the head of a slice, and tells how many bytes it took;
/// `None` where the slice is too short.
pub fn decode_varint_sync(data: &[u8]) -> (r: Option<(VarInt, usize)>)
    ensures
        match r {
            Some((v, n)) => {
                &&& 0 < n <= data@.len()
                &&& v@ < VARINT_END
                &&& take_varint(data@) == Some((v@, data@.subrange(n as int, data@.len() as int)))
            },
            None => take_varint(data@) is None,
        },
{
    if data.len() == 0 {
        return None;
    }
    let first: u8 = data[0];
    let len: usize = if first < 64 {
        1
    } else if first < 128 {
        2
    } else if first < 192 {
        4
    } else {
        8
    };
    if data.len() < len {
        return None;
    }
    let ghost plain = seq![first % 64] + data@.subrange(1, len as int);
    let mut value: u64 = (first % 64) as u64;
    let mut i: usize = 1;
    proof {
        reveal_with_fuel(be_value, 2);
        assert(plain.subrange(0, 1).drop_last() =~= Seq::<u8>::empty());
    }
    while i < len
        invariant
            1 <= i <= len <= data@.len(),
            len <= 8,
            first == data@[0],
            plain == seq![first % 64] + data@.subrange(1, len as int),
            value == be_value(plain.subrange(0, i as int)),
        decreases len - i,
    {
        proof {
            let part = plain.subrange(0, i as int);
            lemma_be_value_first(part, 64);
            reveal_with_fuel(pow256, 9);
            assert(plain.subrange(0, i as int + 1).drop_last() =~= part);
            assert(plain[i as int] == data@[i as int]);
        }
        value = value * 256 + data[i] as u64;
        i = i + 1;
    }
    proof {
        assert(plain.subrange(0, len as int) =~= plain);
        lemma_varint_shortest(data@);
    }
    Some((VarInt { value }, len))
}

} // verus!
