//! Standard base64 (RFC 4648, with padding), as the `base64` crate's
//! `STANDARD` engine writes and reads it.
use vstd::prelude::*;

verus! {

/// The character of the standard base64 alphabet for a 6-bit value.
pub open spec fn base64_char(v: int) -> char {
    if v < 26 {
        ('A' as int + v) as char
    } else if v < 52 {
        ('a' as int + (v - 26)) as char
    } else if v < 62 {
        ('0' as int + (v - 52)) as char
    } else if v == 62 {
        '+'
    } else {
        '/'
    }
}

/// Standard base64 with padding: every three bytes become four characters
/// of six bits each, and a last group of one or two bytes is padded with
/// `=` to four characters.
pub open spec fn base64_standard_encode(bytes: Seq<u8>) -> Seq<char>
    decreases bytes.len(),
{
    let b0 = bytes[0] as int;
    let b1 = bytes[1] as int;
    let b2 = bytes[2] as int;
    if bytes.len() == 0 {
        seq![]
    } else if bytes.len() == 1 {
        seq![base64_char(b0 / 4), base64_char((b0 % 4) * 16), '=', '=']
    } else if bytes.len() == 2 {
        seq![base64_char(b0 / 4), base64_char((b0 % 4) * 16 + b1 / 16), base64_char((b1 % 16) * 4), '=']
    } else {
        seq![
            base64_char(b0 / 4),
            base64_char((b0 % 4) * 16 + b1 / 16),
            base64_char((b1 % 16) * 4 + b2 / 64),
            base64_char(b2 % 64),
        ] + base64_standard_encode(bytes.subrange(3, bytes.len() as int))
    }
}

/// What `STANDARD` decodes a text to: it requires canonical padding and no
/// trailing bits, so it accepts exactly the texts that encoding writes, and
/// gives back the bytes they encode.
pub open spec fn base64_standard_decode(text: Seq<char>) -> Option<Seq<u8>> {
    if exists|bytes: Seq<u8>| base64_standard_encode(bytes) == text {
        Some(choose|bytes: Seq<u8>| base64_standard_encode(bytes) == text)
    } else {
        None
    }
}

proof fn lemma_char_injective(v: int, w: int)
    requires
        0 <= v < 64,
        0 <= w < 64,
        base64_char(v) == base64_char(w),
    ensures
        v == w,
{
}

proof fn lemma_char_not_pad(v: int)
    requires
        0 <= v < 64,
    ensures
        base64_char(v) != '=',
{
}

proof fn lemma_one_byte(a0: u8, b0: u8)
    by (bit_vector)
    requires
        a0 / 4 == b0 / 4,
        (a0 % 4) * 16 == (b0 % 4) * 16,
    ensures
        a0 == b0,
{
}

proof fn lemma_two_bytes(a0: u8, a1: u8, b0: u8, b1: u8)
    by (bit_vector)
    requires
        a0 / 4 == b0 / 4,
        (a0 % 4) * 16 + a1 / 16 == (b0 % 4) * 16 + b1 / 16,
        (a1 % 16) * 4 == (b1 % 16) * 4,
    ensures
        a0 == b0,
        a1 == b1,
{
}

proof fn lemma_three_bytes(a0: u8, a1: u8, a2: u8, b0: u8, b1: u8, b2: u8)
    by (bit_vector)
    requires
        a0 / 4 == b0 / 4,
        (a0 % 4) * 16 + a1 / 16 == (b0 % 4) * 16 + b1 / 16,
        (a1 % 16) * 4 + a2 / 64 == (b1 % 16) * 4 + b2 / 64,
        a2 % 64 == b2 % 64,
    ensures
        a0 == b0,
        a1 == b1,
        a2 == b2,
{
}

proof fn lemma_sextets(x: u8, y: u8, z: u8)
    by (bit_vector)
    ensures
        x / 4 < 64,
        (x % 4) * 16 + y / 16 < 64,
        (y % 16) * 4 + z / 64 < 64,
        z % 64 < 64,
        (x % 4) * 16 < 64,
        (y % 16) * 4 < 64,
{
}

/// Two byte strings with the same encoding are the same.
pub proof fn lemma_encode_injective(a: Seq<u8>, b: Seq<u8>)
    requires
        base64_standard_encode(a) == base64_standard_encode(b),
    ensures
        a == b,
    decreases a.len(),
{
    let ea = base64_standard_encode(a);
    let eb = base64_standard_encode(b);
    lemma_sextets(a[0], a[1], a[2]);
    lemma_sextets(b[0], b[1], b[2]);
    if a.len() == 0 || b.len() == 0 {
        assert(ea.len() == 0 && eb.len() == 0);
        assert(a =~= b);
        return;
    }
    assert(ea[0] == eb[0] && ea[1] == eb[1] && ea[2] == eb[2] && ea[3] == eb[3]);
    lemma_char_injective(a[0] as int / 4, b[0] as int / 4);
    if a.len() == 1 || b.len() == 1 {
        if a.len() != 1 {
            lemma_char_not_pad((a[1] as int % 16) * 4 + (if a.len() == 2 { 0 } else { a[2] as int / 64 }));
        }
        if b.len() != 1 {
            lemma_char_not_pad((b[1] as int % 16) * 4 + (if b.len() == 2 { 0 } else { b[2] as int / 64 }));
        }
        lemma_char_injective((a[0] as int % 4) * 16, (b[0] as int % 4) * 16);
        lemma_one_byte(a[0], b[0]);
        assert(a =~= b);
        return;
    }
    lemma_char_injective((a[0] as int % 4) * 16 + a[1] as int / 16, (b[0] as int % 4) * 16 + b[1] as int / 16);
    if a.len() == 2 || b.len() == 2 {
        if a.len() != 2 {
            lemma_char_not_pad(a[2] as int % 64);
        }
        if b.len() != 2 {
            lemma_char_not_pad(b[2] as int % 64);
        }
        lemma_char_injective((a[1] as int % 16) * 4, (b[1] as int % 16) * 4);
        lemma_two_bytes(a[0], a[1], b[0], b[1]);
        assert(a =~= b);
        return;
    }
    lemma_char_injective((a[1] as int % 16) * 4 + a[2] as int / 64, (b[1] as int % 16) * 4 + b[2] as int / 64);
    lemma_char_injective(a[2] as int % 64, b[2] as int % 64);
    lemma_three_bytes(a[0], a[1], a[2], b[0], b[1], b[2]);
    let ta = a.subrange(3, a.len() as int);
    let tb = b.subrange(3, b.len() as int);
    assert(ea.subrange(4, ea.len() as int) =~= base64_standard_encode(ta));
    assert(eb.subrange(4, eb.len() as int) =~= base64_standard_encode(tb));
    lemma_encode_injective(ta, tb);
    assert(a =~= seq![a[0], a[1], a[2]] + ta);
    assert(b =~= seq![b[0], b[1], b[2]] + tb);
}

/// Decoding an encoding gives the bytes back.
pub proof fn lemma_decode_encode(bytes: Seq<u8>)
    ensures
        base64_standard_decode(base64_standard_encode(bytes)) == Some(bytes),
{
    let text = base64_standard_encode(bytes);
    assert(base64_standard_encode(bytes) == text);
    let chosen = choose|b: Seq<u8>| base64_standard_encode(b) == text;
    lemma_encode_injective(chosen, bytes);
}

} // verus!
