use vstd::prelude::*;
use rustc_serialize::base64::ToBase64;

verus! {

/// The character of the URL-safe base64 alphabet for a 6-bit value.
pub open spec fn b64_digit(v: int) -> char {
    if v < 26 {
        (65 + v) as u8 as char
    } else if v < 52 {
        (97 + (v - 26)) as u8 as char
    } else if v < 62 {
        (48 + (v - 52)) as u8 as char
    } else if v == 62 {
        '-'
    } else {
        '_'
    }
}

/// URL-safe base64 without padding: each group of three bytes becomes four
/// characters, a final group of two bytes three characters, of one byte two.
pub open spec fn b64url(b: Seq<u8>) -> Seq<char>
    decreases b.len(),
{
    let x0 = if b.len() > 0 { b[0] as int } else { 0 };
    let x1 = if b.len() > 1 { b[1] as int } else { 0 };
    let x2 = if b.len() > 2 { b[2] as int } else { 0 };
    if b.len() == 0 {
        seq![]
    } else if b.len() == 1 {
        seq![b64_digit(x0 / 4), b64_digit((x0 % 4) * 16)]
    } else if b.len() == 2 {
        seq![b64_digit(x0 / 4), b64_digit((x0 % 4) * 16 + x1 / 16), b64_digit((x1 % 16) * 4)]
    } else {
        seq![
            b64_digit(x0 / 4),
            b64_digit((x0 % 4) * 16 + x1 / 16),
            b64_digit((x1 % 16) * 4 + x2 / 64),
            b64_digit(x2 % 64),
        ] + b64url(b.subrange(3, b.len() as int))
    }
}

/// Relies on rustc_serialize's `ToBase64::to_base64` with the `URL_SAFE`
/// configuration: the alphabet with `-` and `_`, no padding, no line breaks.
#[verifier::external_body]
pub(crate) fn base64_url_encode(bytes: &[u8]) -> (r: String)
    ensures
        r@ == b64url(bytes@),
{
    bytes.to_base64(rustc_serialize::base64::URL_SAFE)
}


/// The 6-bit value of a character of the URL-safe base64 alphabet.
pub open spec fn b64_value(c: char) -> int {
    let n = c as u32 as int;
    if 65 <= n <= 90 {
        n - 65
    } else if 97 <= n <= 122 {
        n - 71
    } else if 48 <= n <= 57 {
        n + 4
    } else if c == '-' {
        62
    } else {
        63
    }
}

/// Reads unpadded URL-safe base64 back into bytes.
pub open spec fn b64url_decode(s: Seq<char>) -> Seq<u8>
    decreases s.len(),
{
    let v0 = if s.len() > 0 { b64_value(s[0]) } else { 0 };
    let v1 = if s.len() > 1 { b64_value(s[1]) } else { 0 };
    let v2 = if s.len() > 2 { b64_value(s[2]) } else { 0 };
    let v3 = if s.len() > 3 { b64_value(s[3]) } else { 0 };
    if s.len() < 2 {
        seq![]
    } else if s.len() == 2 {
        seq![(v0 * 4 + v1 / 16) as u8]
    } else if s.len() == 3 {
        seq![(v0 * 4 + v1 / 16) as u8, ((v1 % 16) * 16 + v2 / 4) as u8]
    } else {
        seq![
            (v0 * 4 + v1 / 16) as u8,
            ((v1 % 16) * 16 + v2 / 4) as u8,
            ((v2 % 4) * 64 + v3) as u8,
        ] + b64url_decode(s.subrange(4, s.len() as int))
    }
}

/// Every character of the alphabet stands for the value it was chosen for,
/// and none of them is a period.
pub proof fn lemma_b64_digit(v: int)
    requires
        0 <= v < 64,
    ensures
        b64_value(b64_digit(v)) == v,
        b64_digit(v) != '.',
{
}

/// Decoding the encoding of a byte string gives the byte string back, the
/// encoding is empty exactly when the bytes are, and it holds no period.
pub proof fn lemma_b64url_round_trip(b: Seq<u8>)
    ensures
        b64url_decode(b64url(b)) == b,
        b64url(b).len() == 0 <==> b.len() == 0,
        forall|i: int| 0 <= i < b64url(b).len() ==> #[trigger] b64url(b)[i] != '.',
    decreases b.len(),
{
    let x0 = if b.len() > 0 { b[0] as int } else { 0 };
    let x1 = if b.len() > 1 { b[1] as int } else { 0 };
    let x2 = if b.len() > 2 { b[2] as int } else { 0 };
    lemma_b64_digit(x0 / 4);
    lemma_b64_digit((x0 % 4) * 16);
    lemma_b64_digit((x0 % 4) * 16 + x1 / 16);
    lemma_b64_digit((x1 % 16) * 4);
    lemma_b64_digit((x1 % 16) * 4 + x2 / 64);
    lemma_b64_digit(x2 % 64);
    let e = b64url(b);
    if b.len() == 0 {
    } else if b.len() == 1 {
        assert(b64url_decode(e) =~= b);
    } else if b.len() == 2 {
        assert(b64url_decode(e) =~= b);
    } else {
        let rest = b.subrange(3, b.len() as int);
        lemma_b64url_round_trip(rest);
        let head = seq![
            b64_digit(x0 / 4),
            b64_digit((x0 % 4) * 16 + x1 / 16),
            b64_digit((x1 % 16) * 4 + x2 / 64),
            b64_digit(x2 % 64),
        ];
        assert(e == head + b64url(rest));
        assert(e.subrange(4, e.len() as int) =~= b64url(rest));
        assert(b64url_decode(e) =~= b);
        assert forall|i: int| 0 <= i < e.len() implies #[trigger] e[i] != '.' by {
            if i >= 4 {
                assert(e[i] == b64url(rest)[i - 4]);
            }
        }
    }
}


/// Four characters for every three bytes, and one more for each byte left.
pub proof fn lemma_b64url_len(b: Seq<u8>)
    ensures
        b64url(b).len() == (4 * b.len() + 2) / 3,
    decreases b.len(),
{
    if b.len() >= 3 {
        lemma_b64url_len(b.subrange(3, b.len() as int));
    }
}

} // verus!
