//! Base64 in the standard alphabet, with padding.

use vstd::prelude::*;
use vstd::string::*;

verus! {

/// The symbol for six bits.
pub open spec fn symbol(v: nat) -> u8 {
    if v < 26 {
        (65 + v) as u8
    } else if v < 52 {
        (71 + v) as u8
    } else if v < 62 {
        (v - 4) as u8
    } else if v == 62 {
        43
    } else {
        47
    }
}

/// The six bits that a symbol stands for.
pub open spec fn sextet(b: u8) -> Option<nat> {
    if 65 <= b <= 90 {
        Some((b - 65) as nat)
    } else if 97 <= b <= 122 {
        Some((b - 71) as nat)
    } else if 48 <= b <= 57 {
        Some((b + 4) as nat)
    } else if b == 43 {
        Some(62)
    } else if b == 47 {
        Some(63)
    } else {
        None
    }
}

/// The symbol that fills up the last group.
pub const PAD: u8 = 61;

/// The encoding of a byte string.
pub open spec fn base64_text(s: Seq<u8>) -> Seq<u8>
    decreases s.len(),
{
    if s.len() == 0 {
        Seq::empty()
    } else if s.len() == 1 {
        seq![symbol(s[0] as nat / 4), symbol(s[0] as nat % 4 * 16), PAD, PAD]
    } else if s.len() == 2 {
        seq![
            symbol(s[0] as nat / 4),
            symbol(s[0] as nat % 4 * 16 + s[1] as nat / 16),
            symbol(s[1] as nat % 16 * 4),
            PAD,
        ]
    } else {
        seq![
            symbol(s[0] as nat / 4),
            symbol(s[0] as nat % 4 * 16 + s[1] as nat / 16),
            symbol(s[1] as nat % 16 * 4 + s[2] as nat / 64),
            symbol(s[2] as nat % 64),
        ] + base64_text(s.subrange(3, s.len() as int))
    }
}

/// The three bytes that four groups of six bits make up.
pub open spec fn three_bytes(a: nat, b: nat, c: nat, d: nat) -> Seq<u8> {
    seq![(a * 4 + b / 16) as u8, (b % 16 * 16 + c / 4) as u8, (c % 4 * 64 + d) as u8]
}

/// How many symbols at the end of a text are padding: two at most.
pub open spec fn pad_count(s: Seq<u8>) -> nat {
    if s.len() == 0 || s.last() != PAD {
        0
    } else if s.len() == 1 || s[s.len() - 2] != PAD {
        1
    } else {
        2
    }
}

/// The bytes of the last group: as many fewer than three as there is padding at its end.
/// Padding stands nowhere else.
pub open spec fn last_group(q: Seq<u8>) -> Option<Seq<u8>> {
    let c = if pad_count(q) == 2 {
        Some(0nat)
    } else {
        sextet(q[2])
    };
    let d = if pad_count(q) >= 1 {
        Some(0nat)
    } else {
        sextet(q[3])
    };
    match (sextet(q[0]), sextet(q[1]), c, d) {
        (Some(a), Some(b), Some(c), Some(d)) => Some(
            three_bytes(a, b, c, d).subrange(0, 3 - pad_count(q)),
        ),
        _ => None,
    }
}

/// The bytes of a group that is not the last.
pub open spec fn full_group(q: Seq<u8>) -> Option<Seq<u8>> {
    match (sextet(q[0]), sextet(q[1]), sextet(q[2]), sextet(q[3])) {
        (Some(a), Some(b), Some(c), Some(d)) => Some(three_bytes(a, b, c, d)),
        _ => None,
    }
}

/// What a text in base64 decodes to. Bits that padding leaves unused are ignored.
pub open spec fn base64_bytes(s: Seq<u8>) -> Option<Seq<u8>>
    decreases s.len(),
{
    if s.len() == 0 {
        Some(Seq::empty())
    } else if s.len() < 4 {
        None
    } else if s.len() == 4 {
        last_group(s)
    } else {
        match (full_group(s.subrange(0, 4)), base64_bytes(s.subrange(4, s.len() as int))) {
            (Some(x), Some(y)) => Some(x + y),
            _ => None,
        }
    }
}

proof fn lemma_symbol(v: nat)
    requires
        v < 64,
    ensures
        sextet(symbol(v)) == Some(v),
        symbol(v) != PAD,
        symbol(v) < 128,
{
}

/// The length of an encoding is a multiple of four, none for the empty string only.
pub proof fn lemma_base64_len(s: Seq<u8>)
    ensures
        base64_text(s).len() % 4 == 0,
        base64_text(s).len() == 0 <==> s.len() == 0,
    decreases s.len(),
{
    if s.len() >= 3 {
        lemma_base64_len(s.subrange(3, s.len() as int));
    }
}

/// An encoding is ASCII, without blanks and control characters.
pub proof fn lemma_base64_ascii(s: Seq<u8>)
    ensures
        crate::text::is_ascii_bytes(base64_text(s)),
        forall|i: int| 0 <= i < base64_text(s).len() ==> 32 < #[trigger] base64_text(s)[i] < 127,
    decreases s.len(),
{
    if s.len() >= 3 {
        let rest = s.subrange(3, s.len() as int);
        lemma_base64_ascii(rest);
        assert forall|i: int| 0 <= i < base64_text(s).len() implies 32 < #[trigger] base64_text(
            s,
        )[i] < 127 by {
            if i >= 4 {
                assert(base64_text(s)[i] == base64_text(rest)[i - 4]);
            }
        }
    }
}

/// Decoding an encoding gives back the byte string.
pub proof fn lemma_base64_roundtrip(s: Seq<u8>)
    ensures
        base64_bytes(base64_text(s)) == Some(s),
    decreases s.len(),
{
    let t = base64_text(s);
    if s.len() == 0 {
        assert(base64_bytes(t)->0 =~= s);
    } else if s.len() == 1 {
        lemma_symbol(s[0] as nat / 4);
        lemma_symbol(s[0] as nat % 4 * 16);
        assert(last_group(t)->0 =~= s);
    } else if s.len() == 2 {
        lemma_symbol(s[0] as nat / 4);
        lemma_symbol(s[0] as nat % 4 * 16 + s[1] as nat / 16);
        lemma_symbol(s[1] as nat % 16 * 4);
        assert(last_group(t)->0 =~= s);
    } else {
        let rest = s.subrange(3, s.len() as int);
        lemma_base64_roundtrip(rest);
        lemma_base64_len(rest);
        lemma_symbol(s[0] as nat / 4);
        lemma_symbol(s[0] as nat % 4 * 16 + s[1] as nat / 16);
        lemma_symbol(s[1] as nat % 16 * 4 + s[2] as nat / 64);
        lemma_symbol(s[2] as nat % 64);
        assert(t.subrange(4, t.len() as int) =~= base64_text(rest));
        let head = t.subrange(0, 4);
        assert(full_group(head)->0 =~= s.subrange(0, 3));
        if rest.len() == 0 {
            assert(t =~= head);
            assert(last_group(t)->0 =~= s);
        } else {
            assert(s.subrange(0, 3) + rest =~= s);
        }
    }
}

/// A text is base64 exactly when its length is a multiple of four and every byte but the
/// padding at its end, of at most two, is a symbol. It stands for three bytes in each
/// group of four, but for one fewer with each byte of padding.
pub proof fn lemma_base64_accepted(s: Seq<u8>)
    ensures
        base64_bytes(s) is Some <==> s.len() % 4 == 0 && forall|i: int|
            0 <= i < s.len() - pad_count(s) ==> sextet(#[trigger] s[i]) is Some,
        base64_bytes(s) matches Some(b) ==> b.len() == s.len() / 4 * 3 - pad_count(s),
    decreases s.len(),
{
    if s.len() > 4 {
        let head = s.subrange(0, 4);
        let rest = s.subrange(4, s.len() as int);
        lemma_base64_accepted(rest);
        assert(rest.last() == s.last());
        if rest.len() >= 2 {
            assert(rest[rest.len() - 2] == s[s.len() - 2]);
        }
        if base64_bytes(s) is Some {
            assert forall|i: int| 0 <= i < s.len() - pad_count(s) implies sextet(
                #[trigger] s[i],
            ) is Some by {
                if i < 4 {
                    assert(s[i] == head[i]);
                } else {
                    assert(s[i] == rest[i - 4]);
                }
            }
        } else if s.len() % 4 == 0 && (forall|i: int|
            0 <= i < s.len() - pad_count(s) ==> sextet(#[trigger] s[i]) is Some) {
            assert(sextet(s[0]) is Some && sextet(s[1]) is Some && sextet(s[2]) is Some && sextet(
                s[3],
            ) is Some);
            assert forall|i: int| 0 <= i < rest.len() - pad_count(rest) implies sextet(
                #[trigger] rest[i],
            ) is Some by {
                assert(rest[i] == s[i + 4]);
            }
        }
    } else if s.len() == 4 {
        assert(sextet(PAD) is None);
        if forall|i: int| 0 <= i < s.len() - pad_count(s) ==> sextet(#[trigger] s[i]) is Some {
            assert(sextet(s[0]) is Some && sextet(s[1]) is Some);
            assert(pad_count(s) < 2 ==> sextet(s[2]) is Some);
            assert(pad_count(s) < 1 ==> sextet(s[3]) is Some);
        }
    }
}

/// Different byte strings have different encodings.
pub proof fn lemma_base64_injective(a: Seq<u8>, b: Seq<u8>)
    requires
        base64_text(a) == base64_text(b),
    ensures
        a == b,
{
    lemma_base64_roundtrip(a);
    lemma_base64_roundtrip(b);
}

/// The six bits that a symbol stands for.
fn sextet_of(b: u8) -> (r: Option<u8>)
    ensures
        match r {
            Some(v) => v < 64 && sextet(b) == Some(v as nat),
            None => sextet(b) is None,
        },
{
    if 65 <= b && b <= 90 {
        Some(b - 65)
    } else if 97 <= b && b <= 122 {
        Some(b - 71)
    } else if 48 <= b && b <= 57 {
        Some(b + 4)
    } else if b == 43 {
        Some(62)
    } else if b == 47 {
        Some(63)
    } else {
        None
    }
}

/// The three bytes that four groups of six bits make up.
fn join_sextets(a: u8, b: u8, c: u8, d: u8) -> (r: (u8, u8, u8))
    requires
        a < 64,
        b < 64,
        c < 64,
        d < 64,
    ensures
        seq![r.0, r.1, r.2] == three_bytes(a as nat, b as nat, c as nat, d as nat),
{
    (a * 4 + b / 16, b % 16 * 16 + c / 4, c % 4 * 64 + d)
}

/// Decodes base64 in the standard alphabet. It is an error where the length is no
/// multiple of four or a symbol is not in the alphabet; padding may be the last byte, or
/// the last two.
pub fn decode_base64_standard(input: &str) -> (r: Result<Vec<u8>, ()>)
    ensures
        match r {
            Ok(v) => base64_bytes(input.spec_bytes()) == Some(v@),
            Err(_) => base64_bytes(input.spec_bytes()) is None,
        },
{
    let symbols = input.as_bytes();
    let len: usize = symbols.len();
    let mut out: Vec<u8> = Vec::new();
    let mut pos: usize = 0;
    let ghost all = symbols@;
    proof {
        assert(all.subrange(0, all.len() as int) =~= all);
        if let Some(y) = base64_bytes(all) {
            assert(Seq::<u8>::empty() + y =~= y);
        }
    }
    while len - pos > 4
        invariant
            pos <= len,
            len == symbols@.len(),
            all == symbols@,
            all == input.spec_bytes(),
            base64_bytes(all) == (match base64_bytes(all.subrange(pos as int, len as int)) {
                Some(y) => Some(out@ + y),
                None => None,
            }),
        decreases len - pos,
    {
        let ghost rest = all.subrange(pos as int, len as int);
        let ghost q = rest.subrange(0, 4);
        let ghost before = out@;
        proof {
            assert(rest.subrange(4, rest.len() as int) =~= all.subrange(pos as int + 4, len as int));
            assert(q[0] == all[pos as int] && q[1] == all[pos + 1] && q[2] == all[pos + 2] && q[3]
                == all[pos + 3]);
        }
        match (
            sextet_of(symbols[pos]),
            sextet_of(symbols[pos + 1]),
            sextet_of(symbols[pos + 2]),
            sextet_of(symbols[pos + 3]),
        ) {
            (Some(a), Some(b), Some(c), Some(d)) => {
                let (x, y, z): (u8, u8, u8) = join_sextets(a, b, c, d);
                out.push(x);
                out.push(y);
                out.push(z);
                proof {
                    let group = seq![x, y, z];
                    assert(full_group(q) == Some(group));
                    assert(out@ =~= before + group);
                    if let Some(tail) = base64_bytes(all.subrange(pos as int + 4, len as int)) {
                        assert(before + (group + tail) =~= out@ + tail);
                    }
                }
            },
            _ => {
                assert(full_group(q) is None);
                return Err(());
            },
        }
        pos = pos + 4;
    }
    let ghost rest = all.subrange(pos as int, len as int);
    if len - pos == 0 {
        assert(out@ + Seq::<u8>::empty() =~= out@);
        return Ok(out);
    }
    if len - pos < 4 {
        return Err(());
    }
    let c_byte: u8 = symbols[pos + 2];
    let d_byte: u8 = symbols[pos + 3];
    let c_val: Option<u8> = if c_byte == PAD && d_byte == PAD {
        Some(0)
    } else {
        sextet_of(c_byte)
    };
    let d_val: Option<u8> = if d_byte == PAD {
        Some(0)
    } else {
        sextet_of(d_byte)
    };
    let ghost before = out@;
    match (sextet_of(symbols[pos]), sextet_of(symbols[pos + 1]), c_val, d_val) {
        (Some(a), Some(b), Some(c), Some(d)) => {
            let (x, y, z): (u8, u8, u8) = join_sextets(a, b, c, d);
            out.push(x);
            if !(c_byte == PAD && d_byte == PAD) {
                out.push(y);
            }
            if c_byte != PAD && d_byte != PAD {
                out.push(z);
            }
            assert(last_group(rest) == Some(seq![x, y, z].subrange(0, 3 - pad_count(rest))));
            assert(out@ =~= before + last_group(rest)->0);
            Ok(out)
        },
        _ => Err(()),
    }
}

} // verus!
