//! Text: comparing, joining and splitting strings, and writing numbers.

use crate::outside::string_from_utf8;
use vstd::prelude::*;
use vstd::string::*;
use vstd::utf8::*;

verus! {

/// The characters that a string of ASCII bytes spells.
pub open spec fn ascii_chars(bytes: Seq<u8>) -> Seq<char> {
    bytes.map_values(|b: u8| b as char)
}

/// Every byte is ASCII.
pub open spec fn is_ascii_bytes(bytes: Seq<u8>) -> bool {
    forall|i: int| 0 <= i < bytes.len() ==> #[trigger] bytes[i] < 128
}

/// ASCII bytes are UTF-8, and encode the characters with the same numbers.
pub proof fn lemma_ascii_utf8(bytes: Seq<u8>)
    requires
        is_ascii_bytes(bytes),
    ensures
        valid_utf8(bytes),
        decode_utf8(bytes) == ascii_chars(bytes),
        encode_utf8(ascii_chars(bytes)) == bytes,
{
    let chars = ascii_chars(bytes);
    assert(is_ascii_chars(chars)) by {
        assert forall|i: int| 0 <= i < chars.len() implies '\0' <= #[trigger] chars[i] <= '\u{7f}' by {
            assert(bytes[i] < 128);
        }
    }
    is_ascii_chars_encode_utf8(chars);
    assert(encode_utf8(chars) =~= bytes) by {
        assert forall|i: int| 0 <= i < bytes.len() implies #[trigger] encode_utf8(chars)[i] == bytes[i] by {
            let b: u8 = bytes[i];
            assert(b < 128);
            assert(chars[i] as u8 == b);
        }
    }
    encode_utf8_valid_utf8(chars);
    encode_utf8_decode_utf8(chars);
}

/// Two strings are the same exactly when their UTF-8 encodings are.
pub proof fn lemma_encode_utf8_injective(a: Seq<char>, b: Seq<char>)
    requires
        encode_utf8(a) == encode_utf8(b),
    ensures
        a == b,
{
    encode_utf8_decode_utf8(a);
    encode_utf8_decode_utf8(b);
}

/// Whether two byte strings are the same.
pub fn same_bytes(a: &[u8], b: &[u8]) -> (r: bool)
    ensures
        r == (a@ == b@),
{
    if a.len() != b.len() {
        return false;
    }
    let mut i: usize = 0;
    while i < a.len()
        invariant
            i <= a@.len(),
            a@.len() == b@.len(),
            forall|j: int| 0 <= j < i ==> a@[j] == b@[j],
        decreases a@.len() - i,
    {
        if a[i] != b[i] {
            return false;
        }
        i = i + 1;
    }
    assert(a@ =~= b@);
    true
}

/// Whether two strings are the same.
pub fn same_text(a: &str, b: &str) -> (r: bool)
    ensures
        r == (a@ == b@),
{
    let r = same_bytes(a.as_bytes(), b.as_bytes());
    proof {
        if r {
            lemma_encode_utf8_injective(a@, b@);
        }
    }
    r
}

/// The string spelled by ASCII bytes.
pub fn ascii_string(bytes: Vec<u8>) -> (r: String)
    requires
        is_ascii_bytes(bytes@),
    ensures
        r@ == ascii_chars(bytes@),
{
    proof {
        lemma_ascii_utf8(bytes@);
    }
    match string_from_utf8(bytes) {
        Ok(s) => s,
        Err(e) => e,
    }
}

/// One string followed by another.
pub fn join2(a: &str, b: &str) -> (r: String)
    ensures
        r@ == a@ + b@,
{
    let mut s = a.to_owned();
    s.append(b);
    s
}

/// Three strings one after another.
pub fn join3(a: &str, b: &str, c: &str) -> (r: String)
    ensures
        r@ == a@ + b@ + c@,
{
    let mut s = a.to_owned();
    s.append(b);
    s.append(c);
    s
}

/// The character for a digit below sixteen.
pub open spec fn digit_char(d: nat) -> char {
    if d < 10 {
        (48 + d) as char
    } else {
        (87 + d) as char
    }
}

/// A number written in a base between two and sixteen, without leading zeros.
pub open spec fn numeral(base: nat, n: nat) -> Seq<char>
    decreases n,
{
    if n < base || base < 2 {
        seq![digit_char(n)]
    } else {
        proof {
            assert(0 <= n / base < n) by (nonlinear_arith)
                requires
                    base >= 2,
                    n >= base,
            ;
        }
        numeral(base, n / base).push(digit_char(n % base))
    }
}

/// A number written in decimal.
pub open spec fn decimal(n: nat) -> Seq<char> {
    numeral(10, n)
}

/// A number written in lower-case hexadecimal.
pub open spec fn hexadecimal(n: nat) -> Seq<char> {
    numeral(16, n)
}

/// Appends the digits of `n` in the given base.
fn push_numeral(base: u64, n: u64, out: &mut Vec<u8>)
    requires
        2 <= base <= 16,
        is_ascii_bytes(old(out)@),
    ensures
        is_ascii_bytes(final(out)@),
        ascii_chars(final(out)@) == ascii_chars(old(out)@) + numeral(base as nat, n as nat),
    decreases n,
{
    if n >= base {
        proof {
            assert(0 <= n / base < n) by (nonlinear_arith)
                requires
                    base >= 2,
                    n >= base,
            ;
        }
        push_numeral(base, n / base, out);
    }
    proof {
        assert(0 <= n % base < base) by (nonlinear_arith)
            requires
                base >= 2,
        ;
        if n < base {
            assert(n % base == n) by (nonlinear_arith)
                requires
                    n < base,
            ;
        }
    }
    let d: u64 = n % base;
    let b: u8 = if d < 10 {
        48 + d as u8
    } else {
        87 + d as u8
    };
    let ghost before = out@;
    out.push(b);
    proof {
        assert(ascii_chars(out@) =~= ascii_chars(before).push(b as char));
        assert(b as char == digit_char(d as nat));
        assert(ascii_chars(old(out)@) + numeral(base as nat, n as nat) =~= ascii_chars(before).push(
            b as char,
        ));
    }
}

/// A number in decimal.
pub fn decimal_string(n: u64) -> (r: String)
    ensures
        r@ == decimal(n as nat),
{
    let mut out: Vec<u8> = Vec::new();
    push_numeral(10, n, &mut out);
    proof {
        assert(ascii_chars(Seq::<u8>::empty()) + decimal(n as nat) =~= decimal(n as nat));
    }
    ascii_string(out)
}

/// A number in lower-case hexadecimal.
pub fn hexadecimal_string(n: u64) -> (r: String)
    ensures
        r@ == hexadecimal(n as nat),
{
    let mut out: Vec<u8> = Vec::new();
    push_numeral(16, n, &mut out);
    proof {
        assert(ascii_chars(Seq::<u8>::empty()) + hexadecimal(n as nat) =~= hexadecimal(n as nat));
    }
    ascii_string(out)
}

/// A byte written with two hexadecimal digits.
pub open spec fn hex_byte(b: u8) -> Seq<char> {
    seq![digit_char(b as nat / 16), digit_char(b as nat % 16)]
}

/// A byte with two hexadecimal digits.
pub fn hex_byte_string(b: u8) -> (r: String)
    ensures
        r@ == hex_byte(b),
{
    let hi: u8 = b / 16;
    let lo: u8 = b % 16;
    let mut out: Vec<u8> = Vec::new();
    out.push(if hi < 10 {
        48 + hi
    } else {
        87 + hi
    });
    out.push(if lo < 10 {
        48 + lo
    } else {
        87 + lo
    });
    assert(ascii_chars(out@) =~= hex_byte(b));
    ascii_string(out)
}

/// The place of the first occurrence of a character; the length where there is none.
pub open spec fn find_char(s: Seq<char>, c: char) -> nat
    decreases s.len(),
{
    if s.len() == 0 || s[0] == c {
        0
    } else {
        1 + find_char(s.drop_first(), c)
    }
}

/// `find_char` is the least place that holds the character.
pub proof fn lemma_find_char(s: Seq<char>, c: char)
    ensures
        find_char(s, c) <= s.len(),
        find_char(s, c) < s.len() ==> s[find_char(s, c) as int] == c,
        forall|i: int| 0 <= i < find_char(s, c) ==> #[trigger] s[i] != c,
    decreases s.len(),
{
    if s.len() != 0 && s[0] != c {
        lemma_find_char(s.drop_first(), c);
        assert forall|i: int| 0 <= i < find_char(s, c) implies #[trigger] s[i] != c by {
            if i > 0 {
                assert(s[i] == s.drop_first()[i - 1]);
            }
        }
    }
}

/// Whether a string holds a character.
pub fn contains_char(s: &str, c: char) -> (r: bool)
    ensures
        r == s@.contains(c),
{
    let mut found: bool = false;
    for ch in it: s.chars()
        invariant
            it.seq() == s@,
            it.index() <= s@.len(),
            found == exists|j: int| 0 <= j < it.index() && #[trigger] s@[j] == c,
    {
        if ch == c {
            found = true;
        }
    }
    found
}

/// The parts of a string before and after the first occurrence of a character.
pub open spec fn split_first(s: Seq<char>, c: char) -> Option<(Seq<char>, Seq<char>)> {
    let at = find_char(s, c);
    if at < s.len() {
        Some((s.subrange(0, at as int), s.subrange(at as int + 1, s.len() as int)))
    } else {
        None
    }
}

/// A string split at the first occurrence of a character, which is dropped.
pub fn split_once_char<'a>(s: &'a str, c: char) -> (r: Option<(&'a str, &'a str)>)
    ensures
        match r {
            Some((a, b)) => split_first(s@, c) == Some((a@, b@)),
            None => split_first(s@, c) is None,
        },
{
    let n: usize = s.unicode_len();
    let mut i: usize = 0;
    let mut found: bool = false;
    for ch in it: s.chars()
        invariant
            it.seq() == s@,
            n == s@.len(),
            i <= it.index() <= n,
            found ==> i < n && s@[i as int] == c,
            !found ==> i == it.index(),
            forall|j: int| 0 <= j < i ==> #[trigger] s@[j] != c,
    {
        if !found {
            if ch == c {
                found = true;
            } else {
                i = i + 1;
            }
        }
    }
    proof {
        lemma_find_char(s@, c);
        let at = find_char(s@, c);
        assert(at == i as nat) by {
            if at < i {
                assert(s@[at as int] != c);
            } else if i < at {
                assert(s@[i as int] != c);
            }
        }
    }
    if found {
        Some((s.substring_char(0, i), s.substring_char(i + 1, n)))
    } else {
        None
    }
}

/// Splitting at a character that stands between two parts gives the parts back,
/// where the first does not hold it.
pub proof fn lemma_split_joined(a: Seq<char>, c: char, b: Seq<char>)
    requires
        !a.contains(c),
    ensures
        split_first(a + seq![c] + b, c) == Some((a, b)),
{
    let s = a + seq![c] + b;
    let at = find_char(s, c);
    lemma_find_char(s, c);
    assert(s[a.len() as int] == c);
    if at < a.len() {
        assert(a[at as int] == s[at as int]);
        assert(a.contains(c));
    }
    if a.len() < at {
        assert(s[a.len() as int] != c);
    }
    assert(s.subrange(0, a.len() as int) =~= a);
    assert(s.subrange(a.len() as int + 1, s.len() as int) =~= b);
}

/// An ASCII capital as a small letter; any other character as it is.
pub open spec fn to_lower(c: char) -> char {
    if 'A' <= c <= 'Z' {
        (c as u32 + 32) as char
    } else {
        c
    }
}

/// The same text but for the case of ASCII letters.
pub open spec fn same_ignoring_case(a: Seq<char>, b: Seq<char>) -> bool {
    a.len() == b.len() && forall|i: int|
        0 <= i < a.len() ==> to_lower(#[trigger] a[i]) == to_lower(b[i])
}

fn lower(c: char) -> (r: char)
    ensures
        r == to_lower(c),
{
    if 'A' <= c && c <= 'Z' {
        ((c as u8) + 32) as char
    } else {
        c
    }
}

/// Whether two strings are the same but for the case of ASCII letters.
pub fn eq_ignore_ascii_case(a: &str, b: &str) -> (r: bool)
    ensures
        r == same_ignoring_case(a@, b@),
{
    let n: usize = a.unicode_len();
    if n != b.unicode_len() {
        return false;
    }
    let mut i: usize = 0;
    while i < n
        invariant
            i <= n,
            n == a@.len(),
            n == b@.len(),
            forall|j: int| 0 <= j < i ==> to_lower(#[trigger] a@[j]) == to_lower(b@[j]),
        decreases n - i,
    {
        if lower(a.get_char(i)) != lower(b.get_char(i)) {
            assert(to_lower(a@[i as int]) != to_lower(b@[i as int]));
            return false;
        }
        i = i + 1;
    }
    true
}

/// A space or a tab.
pub open spec fn is_blank(c: char) -> bool {
    c == ' ' || c == '\t'
}

/// How many blanks a text starts with.
pub open spec fn leading_blanks(s: Seq<char>) -> nat
    decreases s.len(),
{
    if s.len() == 0 || !is_blank(s[0]) {
        0
    } else {
        1 + leading_blanks(s.drop_first())
    }
}

/// How many blanks a text ends with.
pub open spec fn trailing_blanks(s: Seq<char>) -> nat
    decreases s.len(),
{
    if s.len() == 0 || !is_blank(s.last()) {
        0
    } else {
        1 + trailing_blanks(s.drop_last())
    }
}

/// A text without the blanks at its ends.
pub open spec fn trimmed(s: Seq<char>) -> Seq<char> {
    let t = s.subrange(leading_blanks(s) as int, s.len() as int);
    t.subrange(0, t.len() - trailing_blanks(t))
}

pub proof fn lemma_leading_blanks(s: Seq<char>)
    ensures
        leading_blanks(s) <= s.len(),
        leading_blanks(s) < s.len() ==> !is_blank(s[leading_blanks(s) as int]),
        forall|i: int| 0 <= i < leading_blanks(s) ==> is_blank(#[trigger] s[i]),
    decreases s.len(),
{
    if s.len() != 0 && is_blank(s[0]) {
        lemma_leading_blanks(s.drop_first());
        assert forall|i: int| 0 <= i < leading_blanks(s) implies is_blank(#[trigger] s[i]) by {
            if i > 0 {
                assert(s[i] == s.drop_first()[i - 1]);
            }
        }
    }
}

pub proof fn lemma_trailing_blanks(s: Seq<char>)
    ensures
        trailing_blanks(s) <= s.len(),
        trailing_blanks(s) < s.len() ==> !is_blank(s[s.len() - trailing_blanks(s) - 1]),
        forall|i: int| s.len() - trailing_blanks(s) <= i < s.len() ==> is_blank(#[trigger] s[i]),
    decreases s.len(),
{
    if s.len() != 0 && is_blank(s.last()) {
        lemma_trailing_blanks(s.drop_last());
        assert forall|i: int| s.len() - trailing_blanks(s) <= i < s.len() implies is_blank(
            #[trigger] s[i],
        ) by {
            if i < s.len() - 1 {
                assert(s[i] == s.drop_last()[i]);
            }
        }
    }
}

/// A text that neither starts nor ends with a blank stays as it is.
pub proof fn lemma_trimmed_unchanged(s: Seq<char>)
    requires
        s.len() > 0 ==> !is_blank(s[0]) && !is_blank(s.last()),
    ensures
        trimmed(s) == s,
{
    assert(s.subrange(0, s.len() as int) =~= s);
}

/// A string without the blanks at its ends.
pub fn trim_blanks<'a>(s: &'a str) -> (r: &'a str)
    ensures
        r@ == trimmed(s@),
{
    let n: usize = s.unicode_len();
    let mut from: usize = 0;
    while from < n && (s.get_char(from) == ' ' || s.get_char(from) == '\t')
        invariant
            from <= n,
            n == s@.len(),
            forall|i: int| 0 <= i < from ==> is_blank(#[trigger] s@[i]),
        decreases n - from,
    {
        from = from + 1;
    }
    proof {
        lemma_leading_blanks(s@);
        let k = leading_blanks(s@);
        assert(k == from as nat) by {
            if k < from {
                assert(is_blank(s@[k as int]));
            } else if from < k {
                assert(is_blank(s@[from as int]));
            }
        }
    }
    let ghost t = s@.subrange(from as int, n as int);
    let mut to: usize = n;
    while to > from && (s.get_char(to - 1) == ' ' || s.get_char(to - 1) == '\t')
        invariant
            from <= to <= n,
            n == s@.len(),
            t == s@.subrange(from as int, n as int),
            forall|i: int| to - from <= i < t.len() ==> is_blank(#[trigger] t[i]),
        decreases to - from,
    {
        assert(t[to - from - 1] == s@[to - 1]);
        to = to - 1;
    }
    proof {
        lemma_trailing_blanks(t);
        let k = trailing_blanks(t);
        assert(t.len() - k == to - from) by {
            if t.len() - k > to - from {
                assert(is_blank(t[t.len() - k - 1]));
            } else if t.len() - k < to - from {
                assert(is_blank(t[to - from - 1]));
                assert(t[to - from - 1] == s@[to - 1]);
            }
        }
        assert(s@.subrange(from as int, to as int) =~= t.subrange(0, t.len() - k));
    }
    s.substring_char(from, to)
}

} // verus!
