//! Standard base64 (RFC 4648 alphabet, padded) over bytes, and the decoding
//! that undoes it.

use vstd::prelude::*;

verus! {

/// The ASCII byte of a base64 digit of value `v < 64`.
pub open spec fn digit(v: u8) -> u8 {
    if v < 26 {
        (65 + v) as u8  // 'A'..'Z'
    } else if v < 52 {
        (97 + (v - 26)) as u8  // 'a'..'z'
    } else if v < 62 {
        (48 + (v - 52)) as u8  // '0'..'9'
    } else if v == 62 {
        43  // '+'

    } else {
        47  // '/'

    }
}

/// The value of a base64 digit given by its ASCII byte.
pub open spec fn digit_value(c: u8) -> u8 {
    if 65 <= c <= 90 {
        (c - 65) as u8
    } else if 97 <= c <= 122 {
        (c - 97 + 26) as u8
    } else if 48 <= c <= 57 {
        (c - 48 + 52) as u8
    } else if c == 43 {
        62
    } else {
        63
    }
}

/// The padding byte `=`.
pub open spec fn pad() -> u8 {
    61
}

/// The four digits of a group of three bytes; with fewer than three bytes the
/// missing digits are padding.
pub open spec fn encode_group(b0: u8, b1: u8, b2: u8, n: int) -> Seq<u8> {
    let d0 = digit(b0 >> 2u8);
    let d1 = digit(((b0 & 3u8) << 4u8) | (b1 >> 4u8));
    let d2 = digit(((b1 & 15u8) << 2u8) | (b2 >> 6u8));
    let d3 = digit(b2 & 63u8);
    if n == 1 {
        seq![d0, d1, pad(), pad()]
    } else if n == 2 {
        seq![d0, d1, d2, pad()]
    } else {
        seq![d0, d1, d2, d3]
    }
}

/// Standard padded base64 of `b`, as ASCII bytes.
pub open spec fn base64_spec(b: Seq<u8>) -> Seq<u8>
    decreases b.len(),
{
    if b.len() == 0 {
        Seq::empty()
    } else if b.len() == 1 {
        encode_group(b[0], 0, 0, 1)
    } else if b.len() == 2 {
        encode_group(b[0], b[1], 0, 2)
    } else {
        encode_group(b[0], b[1], b[2], 3) + base64_spec(b.subrange(3, b.len() as int))
    }
}

/// The bytes of a group of four digits.
pub open spec fn decode_group(g: Seq<u8>) -> Seq<u8> {
    let v0 = digit_value(g[0]);
    let v1 = digit_value(g[1]);
    let v2 = digit_value(g[2]);
    let v3 = digit_value(g[3]);
    let b0 = ((v0 << 2u8) | (v1 >> 4u8)) as u8;
    let b1 = ((v1 << 4u8) | (v2 >> 2u8)) as u8;
    let b2 = ((v2 << 6u8) | v3) as u8;
    if g[2] == pad() {
        seq![b0]
    } else if g[3] == pad() {
        seq![b0, b1]
    } else {
        seq![b0, b1, b2]
    }
}

/// Decodes padded base64 text, four digits at a time.
pub open spec fn base64_decode_spec(s: Seq<u8>) -> Seq<u8>
    decreases s.len(),
{
    if s.len() < 4 {
        Seq::empty()
    } else {
        decode_group(s.subrange(0, 4)) + base64_decode_spec(s.subrange(4, s.len() as int))
    }
}

proof fn lemma_digit_value(v: u8)
    requires
        v < 64,
    ensures
        digit_value(digit(v)) == v,
        digit(v) != pad(),
{
}

proof fn lemma_group_bits(b0: u8, b1: u8, b2: u8)
    by (bit_vector)
    ensures
        b0 >> 2u8 < 64u8,
        ((b0 & 3u8) << 4u8) | (b1 >> 4u8) < 64u8,
        ((b1 & 15u8) << 2u8) | (b2 >> 6u8) < 64u8,
        b2 & 63u8 < 64u8,
        (((b0 >> 2u8) << 2u8) | ((((b0 & 3u8) << 4u8) | (b1 >> 4u8)) >> 4u8)) == b0,
        (((((b0 & 3u8) << 4u8) | (b1 >> 4u8)) << 4u8) | ((((b1 & 15u8) << 2u8) | (b2 >> 6u8))
            >> 2u8)) == b1,
        (((((b1 & 15u8) << 2u8) | (b2 >> 6u8)) << 6u8) | (b2 & 63u8)) == b2,
{
}

proof fn lemma_group_round_trip(b0: u8, b1: u8, b2: u8, n: int)
    requires
        1 <= n <= 3,
    ensures
        decode_group(encode_group(b0, b1, b2, n)) == seq![b0, b1, b2].subrange(0, n),
{
    lemma_group_bits(b0, b1, b2);
    lemma_digit_value(b0 >> 2u8);
    lemma_digit_value(((b0 & 3u8) << 4u8) | (b1 >> 4u8));
    lemma_digit_value(((b1 & 15u8) << 2u8) | (b2 >> 6u8));
    lemma_digit_value(b2 & 63u8);
    assert(decode_group(encode_group(b0, b1, b2, n)) =~= seq![b0, b1, b2].subrange(0, n));
}

/// Decoding the base64 of `b` gives `b` back.
pub proof fn lemma_base64_round_trip(b: Seq<u8>)
    ensures
        base64_decode_spec(base64_spec(b)) == b,
    decreases b.len(),
{
    if b.len() == 0 {
    } else if b.len() < 3 {
        let n = b.len() as int;
        let b1: u8 = if n == 2 { b[1] } else { 0 };
        lemma_group_round_trip(b[0], b1, 0, n);
        let e = base64_spec(b);
        assert(e.subrange(0, 4) =~= e);
        assert(base64_decode_spec(e.subrange(4, 4)) =~= Seq::<u8>::empty());
        assert(base64_decode_spec(e) =~= b);
    } else {
        let rest = b.subrange(3, b.len() as int);
        lemma_base64_round_trip(rest);
        lemma_group_round_trip(b[0], b[1], b[2], 3);
        let g = encode_group(b[0], b[1], b[2], 3);
        let e = base64_spec(b);
        assert(e.subrange(0, 4) =~= g);
        assert(e.subrange(4, e.len() as int) =~= base64_spec(rest));
        assert(base64_decode_spec(e) =~= b);
    }
}

/// Relies on base64's `encode` (STANDARD configuration: RFC 4648 alphabet,
/// with padding, no line breaks) and `String::into_bytes`.
#[verifier::external_body]
pub(crate) fn base64_encode(b: &[u8]) -> (r: Vec<u8>)
    ensures
        r@ == base64_spec(b@),
{
    base64::encode(b).into_bytes()
}

} // verus!
