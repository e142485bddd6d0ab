//! How numbers and bytes are written as text, and how text is taken apart.

use crate::encoding;
use crate::laws::connect;
use crate::proto::auth;
use crate::text;
use vstd::prelude::*;
use vstd::string::*;
use vstd::utf8::*;

verus! {

/// What a digit stands for; less than nothing where it is none.
pub open spec fn digit(c: char) -> int {
    if '0' <= c <= '9' {
        c as int - '0' as int
    } else if 'a' <= c <= 'f' {
        c as int - 'a' as int + 10
    } else {
        -1
    }
}

/// The number that digits stand for, the last of them for itself.
pub open spec fn value(s: Seq<char>, base: int) -> int
    decreases s.len(),
{
    if s.len() == 0 {
        0
    } else {
        value(s.drop_last(), base) * base + digit(s.last())
    }
}

proof fn lemma_numeral(base: nat, n: nat)
    requires
        2 <= base <= 16,
    ensures
        text::numeral(base, n).len() > 0,
        value(text::numeral(base, n), base as int) == n,
        text::numeral(base, n)[0] == '0' ==> n == 0,
        n == 0 ==> text::numeral(base, n).len() == 1,
        forall|i: int|
            0 <= i < text::numeral(base, n).len()
                ==> 0 <= digit(#[trigger] text::numeral(base, n)[i])
                < base,
    decreases n,
{
    let s = text::numeral(base, n);
    if n < base {
        assert(s.drop_last() =~= Seq::<char>::empty());
        reveal_with_fuel(value, 2);
    } else {
        assert(0 < n / base < n && n == n / base * base + n % base && 0 <= n % base < base)
            by (nonlinear_arith)
            requires
                base >= 2,
                n >= base,
        ;
        lemma_numeral(base, n / base);
        assert(s.drop_last() =~= text::numeral(base, n / base));
        assert(s[0] == text::numeral(base, n / base)[0]);
        assert forall|i: int| 0 <= i < s.len() implies 0 <= digit(#[trigger] s[i]) < base by {
            if i < s.len() - 1 {
                assert(s[i] == text::numeral(base, n / base)[i]);
            }
        }
    }
}

/// A number is written in digits of its base, the largest first, without leading zeros.
pub proof fn law_number_as_text(n: u64, r: String, hex: String)
    requires
        call_ensures(text::decimal_string, (n,), r),
        call_ensures(text::hexadecimal_string, (n,), hex),
    ensures
        value(r@, 10) == n,
        r@.len() > 0 && (r@[0] == '0' ==> r@ == seq!['0']),
        forall|i: int| 0 <= i < r@.len() ==> '0' <= #[trigger] r@[i] <= '9',
        value(hex@, 16) == n,
        hex@.len() > 0 && (hex@[0] == '0' ==> hex@ == seq!['0']),
        forall|i: int|
            0 <= i < hex@.len() ==> ('0' <= #[trigger] hex@[i] <= '9' || 'a' <= hex@[i] <= 'f'),
{
    lemma_numeral(10, n as nat);
    lemma_numeral(16, n as nat);
    assert forall|i: int| 0 <= i < r@.len() implies '0' <= #[trigger] r@[i] <= '9' by {
        assert(0 <= digit(text::numeral(10, n as nat)[i]) < 10);
    }
    assert forall|i: int| 0 <= i < hex@.len() implies ('0' <= #[trigger] hex@[i] <= '9' || 'a'
        <= hex@[i] <= 'f') by {
        assert(0 <= digit(text::numeral(16, n as nat)[i]) < 16);
    }
    if r@[0] == '0' {
        assert(r@ =~= seq!['0']);
    }
    if hex@[0] == '0' {
        assert(hex@ =~= seq!['0']);
    }
}

/// A byte is written with two digits, the higher first.
pub proof fn law_byte_as_text(b: u8, r: String)
    requires
        call_ensures(text::hex_byte_string, (b,), r),
    ensures
        r@.len() == 2,
        16 * digit(r@[0]) + digit(r@[1]) == b,
        0 <= digit(r@[0]) < 16 && 0 <= digit(r@[1]) < 16,
{
}

/// The letter for six bits: capitals, small letters, digits, plus, slash.
pub open spec fn letter(v: int) -> char {
    if v < 26 {
        ('A' as int + v) as char
    } else if v < 52 {
        ('a' as int + v - 26) as char
    } else if v < 62 {
        ('0' as int + v - 52) as char
    } else if v == 62 {
        '+'
    } else {
        '/'
    }
}

/// Six of the bits of a number of 24: the first, the second, the third or the last.
pub open spec fn six_of(n: int, at: int) -> int {
    if at == 0 {
        n / 0x4_0000
    } else if at == 1 {
        n / 0x1000 % 0x40
    } else if at == 2 {
        n / 0x40 % 0x40
    } else {
        n % 0x40
    }
}

/// A byte string in base64: three bytes at a time are a number of 24 bits, written as four
/// letters; what is missing at the end counts as zero, and its letters are equal signs.
pub open spec fn coded(s: Seq<u8>) -> Seq<char>
    decreases s.len(),
{
    if s.len() == 0 {
        Seq::empty()
    } else if s.len() == 1 {
        let n = s[0] * 0x1_0000;
        seq![letter(six_of(n, 0)), letter(six_of(n, 1)), '=', '=']
    } else if s.len() == 2 {
        let n = s[0] * 0x1_0000 + s[1] * 0x100;
        seq![letter(six_of(n, 0)), letter(six_of(n, 1)), letter(six_of(n, 2)), '=']
    } else {
        let n = s[0] * 0x1_0000 + s[1] * 0x100 + s[2];
        seq![
            letter(six_of(n, 0)),
            letter(six_of(n, 1)),
            letter(six_of(n, 2)),
            letter(six_of(n, 3)),
        ] + coded(s.skip(3))
    }
}

proof fn lemma_letter(v: nat)
    requires
        v < 64,
    ensures
        encoding::symbol(v) as char == letter(v as int),
{
}

proof fn lemma_parts(n: int, d: int, q: int, r: int)
    by (nonlinear_arith)
    requires
        d > 0,
        n == q * d + r,
        0 <= r < d,
    ensures
        n / d == q,
        n % d == r,
{
}

proof fn lemma_sixes(a: nat, b: nat, c: nat)
    requires
        a < 256 && b < 256 && c < 256,
    ensures
        six_of((a * 0x1_0000 + b * 0x100 + c) as int, 0) == a / 4,
        six_of((a * 0x1_0000 + b * 0x100 + c) as int, 1) == a % 4 * 16 + b / 16,
        six_of((a * 0x1_0000 + b * 0x100 + c) as int, 2) == b % 16 * 4 + c / 64,
        six_of((a * 0x1_0000 + b * 0x100 + c) as int, 3) == c % 64,
{
    let n = (a * 0x1_0000 + b * 0x100 + c) as int;
    let (p, q) = ((a / 4) as int, (a % 4) as int);
    let (r, s) = ((b / 16) as int, (b % 16) as int);
    let (t, u) = ((c / 64) as int, (c % 64) as int);
    assert(a == 4 * p + q && 0 <= q < 4);
    assert(b == 16 * r + s && 0 <= s < 16 && 0 <= r < 16);
    assert(c == 64 * t + u && 0 <= u < 64 && 0 <= t < 4);
    lemma_parts(n, 0x4_0000, p, q * 0x1_0000 + b * 0x100 + c);
    lemma_parts(n, 0x1000, p * 0x40 + (q * 16 + r), s * 0x100 + c);
    lemma_parts(p * 0x40 + (q * 16 + r), 0x40, p, q * 16 + r);
    lemma_parts(n, 0x40, (p * 0x40 + (q * 16 + r)) * 0x40 + (s * 4 + t), u);
    lemma_parts(
        (p * 0x40 + (q * 16 + r)) * 0x40 + (s * 4 + t),
        0x40,
        p * 0x40 + (q * 16 + r),
        s * 4 + t,
    );
}

proof fn lemma_letters(a: u8, b: u8, c: u8, d: u8, w: Seq<char>)
    requires
        w.len() == 4,
        a as char == w[0] && b as char == w[1] && c as char == w[2] && d as char == w[3],
    ensures
        text::ascii_chars(seq![a, b, c, d]) == w,
{
    assert(text::ascii_chars(seq![a, b, c, d]) =~= w);
}

proof fn lemma_letters_add(s: Seq<u8>, t: Seq<u8>)
    ensures
        text::ascii_chars(s + t) == text::ascii_chars(s) + text::ascii_chars(t),
{
    assert(text::ascii_chars(s + t) =~= text::ascii_chars(s) + text::ascii_chars(t));
}

proof fn lemma_group(a: nat, b: nat, c: nat)
    requires
        a < 256 && b < 256 && c < 256,
    ensures
        ({
            let n = (a * 0x1_0000 + b * 0x100 + c) as int;
            &&& encoding::symbol(a / 4) as char == letter(six_of(n, 0))
            &&& encoding::symbol(a % 4 * 16 + b / 16) as char == letter(six_of(n, 1))
            &&& encoding::symbol(b % 16 * 4 + c / 64) as char == letter(six_of(n, 2))
            &&& encoding::symbol(c % 64) as char == letter(six_of(n, 3))
        }),
{
    lemma_letter(a / 4);
    lemma_letter(a % 4 * 16 + b / 16);
    lemma_letter(b % 16 * 4 + c / 64);
    lemma_letter(c % 64);
    lemma_sixes(a, b, c);
}

proof fn lemma_coded(s: Seq<u8>)
    ensures
        text::ascii_chars(encoding::base64_text(s)) == coded(s),
    decreases s.len(),
{
    let t = encoding::base64_text(s);
    if s.len() == 0 {
        assert(text::ascii_chars(t) =~= coded(s));
    } else if s.len() == 1 {
        lemma_group(s[0] as nat, 0, 0);
        lemma_letters(t[0], t[1], t[2], t[3], coded(s));
        assert(t =~= seq![t[0], t[1], t[2], t[3]]);
    } else if s.len() == 2 {
        lemma_group(s[0] as nat, s[1] as nat, 0);
        lemma_letters(t[0], t[1], t[2], t[3], coded(s));
        assert(t =~= seq![t[0], t[1], t[2], t[3]]);
    } else {
        let rest = s.skip(3);
        assert(rest =~= s.subrange(3, s.len() as int));
        lemma_coded(rest);
        lemma_group(s[0] as nat, s[1] as nat, s[2] as nat);
        let head = seq![t[0], t[1], t[2], t[3]];
        let shown = seq![coded(s)[0], coded(s)[1], coded(s)[2], coded(s)[3]];
        lemma_letters(t[0], t[1], t[2], t[3], shown);
        lemma_letters_add(head, encoding::base64_text(rest));
        assert(t =~= head + encoding::base64_text(rest));
        assert(coded(s) =~= shown + coded(rest));
    }
}

/// What a client writes for a user name and a password is base64 of the two with a colon
/// between them.
pub proof fn law_credentials_in_base64(username: Seq<char>, password: Seq<char>)
    ensures
        connect::basic_text(username, password) == coded(
            encode_utf8(username + seq![':'] + password),
        ),
        auth::basic_header(username, password) == "Basic "@ + coded(
            encode_utf8(username + seq![':'] + password),
        ),
{
    lemma_coded(encode_utf8(username + seq![':'] + password));
}

/// Whatever is written in base64 is read back from it.
pub proof fn law_base64_read(input: &str, bytes: Seq<u8>, r: Result<Vec<u8>, ()>)
    requires
        call_ensures(encoding::decode_base64_standard, (input,), r),
        input@ == coded(bytes),
    ensures
        r matches Ok(v) && v@ == bytes,
{
    lemma_coded(bytes);
    let t = encoding::base64_text(bytes);
    encoding::lemma_base64_ascii(bytes);
    text::lemma_ascii_utf8(t);
    encoding::lemma_base64_roundtrip(bytes);
}

/// What is no base64 is refused: its length is no multiple of four, or a character other
/// than a letter of base64 stands before its last two, or an equal sign before a letter.
pub proof fn law_no_base64_refused(input: &str, i: int, r: Result<Vec<u8>, ()>)
    requires
        call_ensures(encoding::decode_base64_standard, (input,), r),
        is_ascii_chars(input@),
    ensures
        input@.len() % 4 != 0 ==> r is Err,
        0 <= i < input@.len() - 2 && (forall|v: int| 0 <= v < 64
            ==> input@[i] != #[trigger] letter(v))
            ==> r is Err,
        r matches Ok(v) ==> v@.len() <= input@.len() / 4 * 3,
{
    let s = input.spec_bytes();
    is_ascii_chars_encode_utf8(input@);
    encoding::lemma_base64_accepted(s);
    if 0 <= i < input@.len() - 2 && r is Ok {
        assert(s[i] == input@[i] as u8);
        assert(encoding::sextet(s[i]) is Some);
        let v = encoding::sextet(s[i])->0;
        assert(letter(v as int) == input@[i]);
    }
}

/// A text is split at the first occurrence of the character, which is dropped.
pub proof fn law_split_at_first<'a>(s: &'a str, c: char, r: Option<(&'a str, &'a str)>, has: bool)
    requires
        call_ensures(text::split_once_char, (s, c), r),
        call_ensures(text::contains_char, (s, c), has),
    ensures
        r is Some <==> s@.contains(c),
        has <==> s@.contains(c),
        r matches Some((a, b)) ==> s@ == a@ + seq![c] + b@ && !a@.contains(c),
{
    text::lemma_find_char(s@, c);
    let at = text::find_char(s@, c);
    if let Some((a, b)) = r {
        assert(s@ =~= a@ + seq![c] + b@);
        assert(s@[at as int] == c);
        if a@.contains(c) {
            let j = choose|j: int| 0 <= j < a@.len() && a@[j] == c;
            assert(s@[j] == c);
        }
    }
}

/// Two characters are the same letter.
pub open spec fn same_letter(a: char, b: char) -> bool {
    ||| a == b
    ||| 'A' <= a <= 'Z' && b as int == a as int + 32
    ||| 'A' <= b <= 'Z' && a as int == b as int + 32
}

/// Two texts are the same but for case exactly where each of their characters is the same
/// letter, and the same exactly where each is the same character.
pub proof fn law_texts_compared(a: &str, b: &str, alike: bool, same: bool)
    requires
        call_ensures(text::eq_ignore_ascii_case, (a, b), alike),
        call_ensures(text::same_text, (a, b), same),
    ensures
        alike <==> a@.len() == b@.len() && forall|i: int|
            0 <= i < a@.len() ==> same_letter(#[trigger] a@[i], b@[i]),
        same <==> a@ == b@,
{
    if a@.len() == b@.len() {
        assert forall|i: int| 0 <= i < a@.len() implies same_letter(#[trigger] a@[i], b@[i]) == (
        text::to_lower(a@[i]) == text::to_lower(b@[i])) by {}
        if alike {
            assert forall|i: int| 0 <= i < a@.len() implies same_letter(#[trigger] a@[i],
                b@[i]) by {
                assert(text::to_lower(a@[i]) == text::to_lower(b@[i]));
            }
        }
    }
}

/// The spaces and tabs at the ends of a text are taken away, and nothing else.
pub proof fn law_blanks_taken_away<'a>(s: &'a str, r: &'a str) -> (at: (int, int))
    requires
        call_ensures(text::trim_blanks, (s,), r),
    ensures
        0 <= at.0 <= at.1 <= s@.len(),
        r@ == s@.subrange(at.0, at.1),
        forall|i: int| 0 <= i < at.0 ==> (#[trigger] s@[i] == ' ' || s@[i] == '\t'),
        forall|i: int| at.1 <= i < s@.len() ==> (#[trigger] s@[i] == ' ' || s@[i] == '\t'),
        r@.len() > 0 ==> r@[0] != ' ' && r@[0] != '\t' && r@.last() != ' ' && r@.last() != '\t',
{
    text::lemma_leading_blanks(s@);
    let n = text::leading_blanks(s@) as int;
    let t = s@.subrange(n, s@.len() as int);
    text::lemma_trailing_blanks(t);
    let m = s@.len() - text::trailing_blanks(t);
    assert(r@ =~= s@.subrange(n, m));
    assert forall|i: int| 0 <= i < n implies (#[trigger] s@[i] == ' ' || s@[i] == '\t') by {
        assert(text::is_blank(s@[i]));
    }
    assert forall|i: int| m <= i < s@.len() implies (#[trigger] s@[i] == ' ' || s@[i] == '\t') by {
        assert(text::is_blank(t[i - n]));
    }
    if r@.len() > 0 {
        assert(r@.last() == t[t.len() - text::trailing_blanks(t) - 1]);
        assert(r@[0] == s@[n]);
    }
    (n, m)
}

} // verus!
