//! Base64 (RFC 4648, standard alphabet, with `=` padding).
use vstd::prelude::*;

use crate::text::push_char;

verus! {

/// The character of the standard Base64 alphabet for a 6-bit value `v`.
pub open spec fn base64_digit(v: int) -> char {
    if v < 26 {
        (v + 65) as char
    } else if v < 52 {
        (v - 26 + 97) as char
    } else if v < 62 {
        (v - 52 + 48) as char
    } else if v == 62 {
        '+'
    } else {
        '/'
    }
}

/// The four output characters for one input group `b0 b1 b2`, of which the
/// first `n` bytes (1 to 3) are real input; missing bytes are read as zero and
/// the characters that carry none of their bits are `=`.
pub open spec fn encode_group(b0: u8, b1: u8, b2: u8, n: int) -> Seq<char> {
    seq![
        base64_digit(b0 as int / 4),
        base64_digit((b0 as int % 4) * 16 + b1 as int / 16),
        if n >= 2 { base64_digit((b1 as int % 16) * 4 + b2 as int / 64) } else { '=' },
        if n >= 3 { base64_digit(b2 as int % 64) } else { '=' },
    ]
}

/// Base64 text of `bytes`: each group of three bytes becomes four characters,
/// and a final group of one or two bytes is padded with `=`.
pub open spec fn base64(bytes: Seq<u8>) -> Seq<char>
    decreases bytes.len(),
{
    if bytes.len() == 0 {
        seq![]
    } else if bytes.len() == 1 {
        encode_group(bytes[0], 0, 0, 1)
    } else if bytes.len() == 2 {
        encode_group(bytes[0], bytes[1], 0, 2)
    } else {
        encode_group(bytes[0], bytes[1], bytes[2], 3) + base64(bytes.skip(3))
    }
}

fn digit_char(v: u32) -> (c: char)
    requires
        v < 64,
    ensures
        c == base64_digit(v as int),
{
    if v < 26 {
        ((v + 65) as u8) as char
    } else if v < 52 {
        ((v - 26 + 97) as u8) as char
    } else if v < 62 {
        ((v - 52 + 48) as u8) as char
    } else if v == 62 {
        '+'
    } else {
        '/'
    }
}

proof fn lemma_triple_sextets(b0: u8, b1: u8, b2: u8, triple: u32)
    requires
        triple == ((b0 as u32) << 16u32) | ((b1 as u32) << 8u32) | (b2 as u32),
    ensures
        (triple >> 18u32) & 0x3f == b0 / 4,
        (triple >> 12u32) & 0x3f == (b0 % 4) * 16 + b1 / 16,
        (triple >> 6u32) & 0x3f == (b1 % 16) * 4 + b2 / 64,
        triple & 0x3f == b2 % 64,
{
    assert((triple >> 18u32) & 0x3f == b0 / 4) by (bit_vector)
        requires
            triple == ((b0 as u32) << 16u32) | ((b1 as u32) << 8u32) | (b2 as u32),
    ;
    assert((triple >> 12u32) & 0x3f == (b0 % 4) * 16 + b1 / 16) by (bit_vector)
        requires
            triple == ((b0 as u32) << 16u32) | ((b1 as u32) << 8u32) | (b2 as u32),
    ;
    assert((triple >> 6u32) & 0x3f == (b1 % 16) * 4 + b2 / 64) by (bit_vector)
        requires
            triple == ((b0 as u32) << 16u32) | ((b1 as u32) << 8u32) | (b2 as u32),
    ;
    assert(triple & 0x3f == b2 % 64) by (bit_vector)
        requires
            triple == ((b0 as u32) << 16u32) | ((b1 as u32) << 8u32) | (b2 as u32),
    ;
}

/// Encodes `input` as Base64 text.
pub fn encode_base64(input: Vec<u8>) -> (output: String)
    ensures
        output@ == base64(input@),
{
    let mut output = String::new();
    let len = input.len();
    let mut index: usize = 0;
    assert(input@.skip(0) =~= input@);
    while index < len
        invariant
            len == input@.len(),
            index <= len,
            base64(input@) == output@ + base64(input@.skip(index as int)),
        decreases len - index,
    {
        let ghost rest = input@.skip(index as int);
        let remaining = len - index;
        let byte0 = input[index];
        let byte1 = if remaining > 1 { input[index + 1] } else { 0 };
        let byte2 = if remaining > 2 { input[index + 2] } else { 0 };
        let triple: u32 = ((byte0 as u32) << 16u32) | ((byte1 as u32) << 8u32) | (byte2 as u32);
        proof {
            lemma_triple_sextets(byte0, byte1, byte2, triple);
        }
        let char0 = digit_char((triple >> 18u32) & 0x3f);
        let char1 = digit_char((triple >> 12u32) & 0x3f);
        let char2 = digit_char((triple >> 6u32) & 0x3f);
        let char3 = digit_char(triple & 0x3f);
        let ghost before = output@;
        push_char(&mut output, char0);
        push_char(&mut output, char1);
        if remaining > 1 {
            push_char(&mut output, char2);
        } else {
            push_char(&mut output, '=');
        }
        if remaining > 2 {
            push_char(&mut output, char3);
        } else {
            push_char(&mut output, '=');
        }
        let n: usize = if remaining > 3 { 3 } else { remaining };
        proof {
            let group = encode_group(byte0, byte1, byte2, n as int);
            assert(output@ =~= before + group);
            assert(rest.len() == remaining as int);
            assert(rest[0] == byte0);
            if remaining > 1 {
                assert(rest[1] == byte1);
            }
            if remaining > 2 {
                assert(rest[2] == byte2);
                assert(rest.skip(3) =~= input@.skip(index + 3));
            }
            if remaining <= 3 {
                assert(input@.skip(index + n) =~= Seq::<u8>::empty());
            }
            assert(base64(rest) =~= group + base64(input@.skip(index + n)));
        }
        index = index + n;
    }
    assert(input@.skip(len as int) =~= Seq::<u8>::empty());
    output
}

/// The 6-bit value of a character of the standard Base64 alphabet
/// (`-1` for any other character).
pub open spec fn base64_value(c: char) -> int {
    if 'A' <= c && c <= 'Z' {
        c as int - 65
    } else if 'a' <= c && c <= 'z' {
        c as int - 97 + 26
    } else if '0' <= c && c <= '9' {
        c as int - 48 + 52
    } else if c == '+' {
        62
    } else if c == '/' {
        63
    } else {
        -1
    }
}

/// A character that may appear in Base64 text: the 64 alphabet characters and `=`.
pub open spec fn is_base64_char(c: char) -> bool {
    base64_value(c) >= 0 || c == '='
}

/// The bytes carried by one four-character group; `=` in the third or fourth
/// position marks a group that carries one or two bytes.
pub open spec fn decode_quad(c0: char, c1: char, c2: char, c3: char) -> Seq<u8> {
    let v0 = base64_value(c0);
    let v1 = base64_value(c1);
    let v2 = if c2 == '=' { 0 } else { base64_value(c2) };
    let v3 = if c3 == '=' { 0 } else { base64_value(c3) };
    let x = (v0 * 4 + v1 / 16) as u8;
    let y = ((v1 % 16) * 16 + v2 / 4) as u8;
    let z = ((v2 % 4) * 64 + v3) as u8;
    if c2 == '=' {
        seq![x]
    } else if c3 == '=' {
        seq![x, y]
    } else {
        seq![x, y, z]
    }
}

/// Standard Base64 decoding of text made of four-character groups.
pub open spec fn base64_decode(text: Seq<char>) -> Seq<u8>
    decreases text.len(),
{
    if text.len() < 4 {
        seq![]
    } else {
        decode_quad(text[0], text[1], text[2], text[3]) + base64_decode(text.skip(4))
    }
}

proof fn lemma_digit_value(v: int)
    requires
        0 <= v < 64,
    ensures
        base64_value(base64_digit(v)) == v,
        base64_digit(v) != '=',
{
}

proof fn lemma_group_roundtrip(b0: u8, b1: u8, b2: u8, n: int)
    requires
        1 <= n <= 3,
        n < 2 ==> b1 == 0,
        n < 3 ==> b2 == 0,
    ensures
        ({
            let g = encode_group(b0, b1, b2, n);
            decode_quad(g[0], g[1], g[2], g[3]) == seq![b0, b1, b2].take(n)
        }),
        forall|i: int| 0 <= i < 4 ==> is_base64_char(#[trigger] encode_group(b0, b1, b2, n)[i]),
{
    let g = encode_group(b0, b1, b2, n);
    lemma_digit_value(b0 as int / 4);
    lemma_digit_value((b0 as int % 4) * 16 + b1 as int / 16);
    lemma_digit_value((b1 as int % 16) * 4 + b2 as int / 64);
    lemma_digit_value(b2 as int % 64);
    assert(decode_quad(g[0], g[1], g[2], g[3]) =~= seq![b0, b1, b2].take(n));
}

/// Base64 output is four characters for every started group of three bytes.
pub proof fn lemma_base64_length(bytes: Seq<u8>)
    ensures
        base64(bytes).len() == 4 * ((bytes.len() + 2) / 3),
    decreases bytes.len(),
{
    if bytes.len() > 2 {
        lemma_base64_length(bytes.skip(3));
    }
}

/// Every character of Base64 output belongs to the Base64 alphabet or is the
/// padding character `=`.
pub proof fn lemma_base64_alphabet(bytes: Seq<u8>)
    ensures
        forall|i: int| 0 <= i < base64(bytes).len() ==> is_base64_char(#[trigger] base64(bytes)[i]),
    decreases bytes.len(),
{
    if bytes.len() == 1 {
        lemma_group_roundtrip(bytes[0], 0, 0, 1);
    } else if bytes.len() == 2 {
        lemma_group_roundtrip(bytes[0], bytes[1], 0, 2);
    } else if bytes.len() > 2 {
        lemma_group_roundtrip(bytes[0], bytes[1], bytes[2], 3);
        lemma_base64_alphabet(bytes.skip(3));
        let g = encode_group(bytes[0], bytes[1], bytes[2], 3);
        assert forall|i: int| 0 <= i < base64(bytes).len() implies is_base64_char(
            #[trigger] base64(bytes)[i],
        ) by {
            if i >= 4 {
                assert(base64(bytes)[i] == base64(bytes.skip(3))[i - 4]);
            } else {
                assert(base64(bytes)[i] == g[i]);
            }
        }
    }
}

/// Decoding the Base64 text of any byte sequence gives the bytes back.
pub proof fn lemma_base64_roundtrip(bytes: Seq<u8>)
    ensures
        base64_decode(base64(bytes)) == bytes,
    decreases bytes.len(),
{
    let t = base64(bytes);
    if bytes.len() == 1 {
        lemma_group_roundtrip(bytes[0], 0, 0, 1);
        assert(t.skip(4) =~= Seq::<char>::empty());
        assert(base64_decode(t.skip(4)) =~= Seq::<u8>::empty());
        assert(seq![bytes[0], 0u8, 0u8].take(1) =~= bytes);
        assert(base64_decode(t) =~= bytes);
    } else if bytes.len() == 2 {
        lemma_group_roundtrip(bytes[0], bytes[1], 0, 2);
        assert(t.skip(4) =~= Seq::<char>::empty());
        assert(base64_decode(t.skip(4)) =~= Seq::<u8>::empty());
        assert(seq![bytes[0], bytes[1], 0u8].take(2) =~= bytes);
        assert(base64_decode(t) =~= bytes);
    } else if bytes.len() > 2 {
        lemma_group_roundtrip(bytes[0], bytes[1], bytes[2], 3);
        lemma_base64_roundtrip(bytes.skip(3));
        let g = encode_group(bytes[0], bytes[1], bytes[2], 3);
        assert(t.skip(4) =~= base64(bytes.skip(3)));
        assert(t[0] == g[0] && t[1] == g[1] && t[2] == g[2] && t[3] == g[3]);
        assert(bytes =~= seq![bytes[0], bytes[1], bytes[2]] + bytes.skip(3));
        assert(base64_decode(t) =~= bytes);
    }
}

/// Input split after a whole number of three-byte groups encodes piecewise:
/// the encoding of the whole is the encoding of the first part followed by
/// that of the rest.
pub proof fn lemma_base64_concat(first: Seq<u8>, rest: Seq<u8>)
    requires
        first.len() % 3 == 0,
    ensures
        base64(first + rest) == base64(first) + base64(rest),
    decreases first.len(),
{
    if first.len() == 0 {
        assert(first + rest =~= rest);
    } else {
        let whole = first + rest;
        lemma_base64_concat(first.skip(3), rest);
        assert(whole.skip(3) =~= first.skip(3) + rest);
        if first.len() == 3 {
            assert(first.skip(3) =~= Seq::<u8>::empty());
            assert(first.skip(3) + rest =~= rest);
        }
        assert(base64(whole) =~= base64(first) + base64(rest));
    }
}

} // verus!
