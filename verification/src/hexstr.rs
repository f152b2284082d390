use vstd::prelude::*;

use crate::text::push_char;

verus! {

#[verifier::external_type_specification]
#[verifier::external_body]
pub struct ExFromHexError(hex::FromHexError);

pub open spec fn is_hex_digit(c: char) -> bool {
    ||| (48 <= c as u32 && c as u32 <= 57)
    ||| (97 <= c as u32 && c as u32 <= 102)
    ||| (65 <= c as u32 && c as u32 <= 70)
}

/// The value of a hexadecimal digit of either case.
pub open spec fn hex_value(c: char) -> int {
    if 48 <= c as u32 && c as u32 <= 57 {
        c as u32 - 48
    } else if 97 <= c as u32 && c as u32 <= 102 {
        c as u32 - 87
    } else {
        c as u32 - 55
    }
}

/// An even number of hexadecimal digits.
pub open spec fn hex_valid(s: Seq<char>) -> bool {
    &&& s.len() % 2 == 0
    &&& forall|i: int| 0 <= i < s.len() ==> is_hex_digit(#[trigger] s[i])
}

/// The bytes that pairs of hexadecimal digits stand for, high digit first.
pub open spec fn hex_bytes(s: Seq<char>) -> Seq<u8> {
    Seq::new(s.len() / 2, |i: int| (16 * hex_value(s[2 * i]) + hex_value(s[2 * i + 1])) as u8)
}

/// The lower-case hexadecimal digit for `n`, which is below sixteen.
pub open spec fn hex_char(n: int) -> char {
    if n < 10 {
        (n + 48) as char
    } else {
        (n + 87) as char
    }
}

/// Two lower-case hexadecimal digits for each byte, high digit first.
pub open spec fn hex_encoded(b: Seq<u8>) -> Seq<char> {
    Seq::new(
        2 * b.len(),
        |i: int|
            if i % 2 == 0 {
                hex_char((b[i / 2] / 16) as int)
            } else {
                hex_char((b[i / 2] % 16) as int)
            },
    )
}

/// `s` without the leading characters equal to `c`.
pub open spec fn trim_start_char(s: Seq<char>, c: char) -> Seq<char>
    decreases s.len(),
{
    if s.len() > 0 && s[0] == c {
        trim_start_char(s.drop_first(), c)
    } else {
        s
    }
}

/// `s` without the trailing characters equal to `c`.
pub open spec fn trim_end_char(s: Seq<char>, c: char) -> Seq<char>
    decreases s.len(),
{
    if s.len() > 0 && s.last() == c {
        trim_end_char(s.drop_last(), c)
    } else {
        s
    }
}

/// `s` without its leading repetitions of `0x`.
pub open spec fn strip_0x(s: Seq<char>) -> Seq<char>
    decreases s.len(),
{
    if s.len() >= 2 && s[0] == '0' && s[1] == 'x' {
        strip_0x(s.subrange(2, s.len() as int))
    } else {
        s
    }
}

/// The hexadecimal digits of a quoted, `0x`-prefixed hex string.
pub open spec fn hex_payload(s: Seq<char>) -> Seq<char> {
    strip_0x(trim_end_char(trim_start_char(s, '"'), '"'))
}

/// Calls `hex::decode`: it succeeds exactly on an even number of
/// hexadecimal digits of either case, and gives the bytes they stand for.
#[verifier::external_body]
fn decode_hex(s: &str) -> (r: Result<Vec<u8>, hex::FromHexError>)
    ensures
        r is Ok <==> hex_valid(s@),
        r matches Ok(v) ==> v@ == hex_bytes(s@),
{
    hex::decode(s)
}

/// Calls `hex::encode`: two lower-case hexadecimal digits per byte.
#[verifier::external_body]
fn encode_hex(bytes: &[u8]) -> (s: String)
    ensures
        s@ == hex_encoded(bytes@),
{
    hex::encode(bytes)
}

/// Makes `hex::FromHexError::InvalidStringLength`.
#[verifier::external_body]
fn invalid_string_length() -> hex::FromHexError {
    hex::FromHexError::InvalidStringLength
}

proof fn lemma_trim_start_step(s: Seq<char>, c: char, a: int)
    requires
        0 <= a < s.len(),
        s[a] == c,
    ensures
        trim_start_char(s.subrange(a, s.len() as int), c) == trim_start_char(
            s.subrange(a + 1, s.len() as int),
            c,
        ),
{
    assert(s.subrange(a, s.len() as int).drop_first() =~= s.subrange(a + 1, s.len() as int));
}

proof fn lemma_trim_end_step(s: Seq<char>, c: char, b: int)
    requires
        0 < b <= s.len(),
        s[b - 1] == c,
    ensures
        trim_end_char(s.subrange(0, b), c) == trim_end_char(s.subrange(0, b - 1), c),
{
    assert(s.subrange(0, b).drop_last() =~= s.subrange(0, b - 1));
}

/// The hex digits of `hex` once quotes around it and `0x` prefixes are taken off.
fn payload(hex: &str) -> (p: &str)
    ensures
        p@ == hex_payload(hex@),
{
    let n = hex.unicode_len();
    let mut a: usize = 0;
    assert(hex@.subrange(0, n as int) =~= hex@);
    while a < n && hex.get_char(a) == '"'
        invariant
            n == hex@.len(),
            a <= n,
            trim_start_char(hex@, '"') == trim_start_char(hex@.subrange(a as int, n as int), '"'),
        decreases n - a,
    {
        proof {
            lemma_trim_start_step(hex@, '"', a as int);
        }
        a = a + 1;
    }
    let ghost t = hex@.subrange(a as int, n as int);
    assert(trim_start_char(hex@, '"') == t) by {
        if t.len() > 0 {
            assert(t[0] == hex@[a as int]);
        }
    }
    let mut b: usize = n;
    assert(t.subrange(0, (b - a) as int) =~= t);
    while b > a && hex.get_char(b - 1) == '"'
        invariant
            n == hex@.len(),
            a <= b <= n,
            t == hex@.subrange(a as int, n as int),
            trim_end_char(t, '"') == trim_end_char(t.subrange(0, (b - a) as int), '"'),
        decreases b,
    {
        proof {
            assert(t[(b - a) - 1] == hex@[b - 1]);
            lemma_trim_end_step(t, '"', (b - a) as int);
        }
        b = b - 1;
    }
    let ghost u = t.subrange(0, (b - a) as int);
    assert(trim_end_char(t, '"') == u) by {
        if u.len() > 0 {
            assert(u.last() == hex@[b - 1]);
        }
    }
    assert(u =~= hex@.subrange(a as int, b as int));
    while b - a >= 2 && hex.get_char(a) == '0' && hex.get_char(a + 1) == 'x'
        invariant
            n == hex@.len(),
            a <= b <= n,
            strip_0x(u) == strip_0x(hex@.subrange(a as int, b as int)),
        decreases b - a,
    {
        proof {
            let w = hex@.subrange(a as int, b as int);
            assert(w[0] == '0' && w[1] == 'x');
            assert(w.subrange(2, w.len() as int) =~= hex@.subrange(a + 2, b as int));
        }
        a = a + 2;
    }
    proof {
        let w = hex@.subrange(a as int, b as int);
        if w.len() >= 2 {
            assert(w[0] == hex@[a as int] && w[1] == hex@[a + 1]);
        }
    }
    hex.substring_char(a, b)
}

/// The bytes that a hex string stands for; the string may be quoted and `0x`-prefixed.
pub fn bytes_from_hex(hex: &str) -> (r: Result<Vec<u8>, hex::FromHexError>)
    ensures
        r is Ok <==> hex_valid(hex_payload(hex@)),
        r matches Ok(v) ==> v@ == hex_bytes(hex_payload(hex@)),
{
    decode_hex(payload(hex))
}

/// The 32-byte hash that a hex string stands for; the string may be quoted
/// and `0x`-prefixed. Any other number of bytes is an error.
pub fn hash_from_hex(hex: &str) -> (r: Result<Vec<u8>, hex::FromHexError>)
    ensures
        r is Ok <==> hex_valid(hex_payload(hex@)) && hex_bytes(hex_payload(hex@)).len() == 32,
        r matches Ok(v) ==> v@ == hex_bytes(hex_payload(hex@)),
{
    match bytes_from_hex(hex) {
        Ok(v) => {
            if v.len() == 32 {
                Ok(v)
            } else {
                Err(invalid_string_length())
            }
        },
        Err(e) => Err(e),
    }
}

/// `0x` followed by the lower-case hex digits of `bytes`.
pub fn prefixed_hex(bytes: &[u8]) -> (s: String)
    ensures
        s@ == seq!['0', 'x'] + hex_encoded(bytes@),
{
    let mut s = String::new();
    push_char(&mut s, '0');
    push_char(&mut s, 'x');
    let digits = encode_hex(bytes);
    s.append(digits.as_str());
    assert(s@ =~= seq!['0', 'x'] + hex_encoded(bytes@));
    s
}

proof fn lemma_hex_char(n: int)
    requires
        0 <= n < 16,
    ensures
        is_hex_digit(hex_char(n)),
        hex_value(hex_char(n)) == n,
        hex_char(n) != 'x',
        hex_char(n) != '"',
{
}

/// Hex encoding is undone by hex decoding.
pub proof fn lemma_hex_roundtrip(b: Seq<u8>)
    ensures
        hex_valid(hex_encoded(b)),
        hex_bytes(hex_encoded(b)) == b,
{
    let e = hex_encoded(b);
    assert forall|i: int| 0 <= i < e.len() implies is_hex_digit(#[trigger] e[i]) by {
        lemma_hex_char((b[i / 2] / 16) as int);
        lemma_hex_char((b[i / 2] % 16) as int);
    }
    assert forall|i: int| 0 <= i < b.len() implies #[trigger] hex_bytes(e)[i] == b[i] by {
        assert((2 * i) / 2 == i);
        assert((2 * i + 1) / 2 == i);
        assert((2 * i) % 2 == 0);
        assert((2 * i + 1) % 2 == 1);
        lemma_hex_char((b[i] / 16) as int);
        lemma_hex_char((b[i] % 16) as int);
    }
    assert(hex_bytes(e) =~= b);
}

/// A `0x`-prefixed hex rendering reads back as the bytes it was made of.
pub proof fn lemma_prefixed_hex_roundtrip(b: Seq<u8>)
    ensures
        hex_valid(hex_payload(seq!['0', 'x'] + hex_encoded(b))),
        hex_bytes(hex_payload(seq!['0', 'x'] + hex_encoded(b))) == b,
{
    let e = hex_encoded(b);
    let s = seq!['0', 'x'] + e;
    lemma_hex_roundtrip(b);
    assert forall|i: int| 0 <= i < e.len() implies #[trigger] e[i] != 'x' && e[i] != '"' by {
        lemma_hex_char((b[i / 2] / 16) as int);
        lemma_hex_char((b[i / 2] % 16) as int);
    }
    assert(trim_start_char(s, '"') == s);
    assert(trim_end_char(s, '"') == s) by {
        if e.len() > 0 {
            assert(s.last() == e[e.len() - 1]);
        }
    }
    assert(s.subrange(2, s.len() as int) =~= e);
    assert(strip_0x(e) == e) by {
        if e.len() >= 2 {
            assert(e[1] != 'x');
        }
    }
}

} // verus!
