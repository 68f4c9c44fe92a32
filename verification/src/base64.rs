//! Standard-alphabet Base64 decoding for file contents sent over the proxy.
use vstd::prelude::*;
use vstd::string::StringSliceAdditionalSpecFns;

verus! {

/// The value of a Base64 alphabet byte; bytes outside the alphabet count as 0.
pub open spec fn b64_value(b: u8) -> u8 {
    if 65 <= b <= 90 { (b - 65) as u8 }
    else if 97 <= b <= 122 { (b - 71) as u8 }
    else if 48 <= b <= 57 { (b + 4) as u8 }
    else if b == 43 { 62 }
    else if b == 47 { 63 }
    else { 0 }
}

fn is_b64_byte_exec(b: u8) -> (r: bool)
    ensures
        r == is_b64_byte(b),
{
    (65 <= b && b <= 90) || (97 <= b && b <= 122) || (48 <= b && b <= 57) || b == 43 || b == 47
}

fn b64_value_exec(b: u8) -> (v: u8)
    ensures
        v == b64_value(b),
        v < 64,
{
    if 65 <= b && b <= 90 { b - 65 }
    else if 97 <= b && b <= 122 { b - 71 }
    else if 48 <= b && b <= 57 { b + 4 }
    else if b == 43 { 62 }
    else if b == 47 { 63 }
    else { 0 }
}

pub open spec fn byte0(a: u8, b: u8) -> u8 { ((a << 2u8) | (b >> 4u8)) as u8 }
pub open spec fn byte1(b: u8, c: u8) -> u8 { ((b << 4u8) | (c >> 2u8)) as u8 }
pub open spec fn byte2(c: u8, d: u8) -> u8 { ((c << 6u8) | d) as u8 }

/// The bytes encoded by a run of Base64 characters (no padding): every full group
/// of four gives three bytes; a final group of two gives one, of three gives two,
/// and a single leftover character gives nothing.
pub open spec fn decode_groups(s: Seq<u8>) -> Seq<u8>
    decreases s.len(),
{
    if s.len() >= 4 {
        let (a, b, c, d) = (b64_value(s[0]), b64_value(s[1]), b64_value(s[2]), b64_value(s[3]));
        seq![byte0(a, b), byte1(b, c), byte2(c, d)] + decode_groups(s.skip(4))
    } else if s.len() == 2 {
        seq![byte0(b64_value(s[0]), b64_value(s[1]))]
    } else if s.len() == 3 {
        let (a, b, c) = (b64_value(s[0]), b64_value(s[1]), b64_value(s[2]));
        seq![byte0(a, b), byte1(b, c)]
    } else {
        seq![]
    }
}

/// `s` without its trailing `'='` bytes.
pub open spec fn trim_padding(s: Seq<u8>) -> Seq<u8>
    decreases s.len(),
{
    if s.len() > 0 && s.last() == 61 { trim_padding(s.drop_last()) } else { s }
}

/// Whether a byte is in the standard Base64 alphabet (`A-Z a-z 0-9 + /`).
pub open spec fn is_b64_byte(b: u8) -> bool {
    (65 <= b <= 90) || (97 <= b <= 122) || (48 <= b <= 57) || b == 43 || b == 47
}

/// Whether a text is Base64: after its trailing `'='` bytes are taken off, every
/// byte is in the alphabet and no single character is left over at the end.
pub open spec fn base64_valid(input: Seq<u8>) -> bool {
    let t = trim_padding(input);
    &&& t.len() % 4 != 1
    &&& forall|i: int| 0 <= i < t.len() ==> is_b64_byte(#[trigger] t[i])
}

/// The bytes a Base64 text decodes to.
pub open spec fn base64_decode_spec(input: Seq<u8>) -> Seq<u8> {
    decode_groups(trim_padding(input))
}

fn padding_end(bytes: &[u8], end: usize) -> (r: usize)
    requires
        end <= bytes@.len(),
    ensures
        r <= end,
        bytes@.take(r as int) == trim_padding(bytes@.take(end as int)),
    decreases end,
{
    if end > 0 && bytes[end - 1] == 61 {
        assert(bytes@.take(end as int).drop_last() == bytes@.take(end - 1));
        padding_end(bytes, end - 1)
    } else {
        end
    }
}

/// Whether the first `n` bytes are all in the Base64 alphabet.
fn all_in_alphabet(bytes: &[u8], n: usize) -> (r: bool)
    requires
        n <= bytes@.len(),
    ensures
        r == forall|j: int| 0 <= j < n ==> is_b64_byte(#[trigger] bytes@.take(n as int)[j]),
{
    let ghost s = bytes@.take(n as int);
    let mut k: usize = 0;
    while k < n
        invariant
            k <= n <= bytes@.len(),
            s == bytes@.take(n as int),
            forall|j: int| 0 <= j < k ==> is_b64_byte(#[trigger] s[j]),
        decreases n - k,
    {
        if !is_b64_byte_exec(bytes[k]) {
            assert(!is_b64_byte(s[k as int]));
            return false;
        }
        k += 1;
    }
    true
}

/// Decodes standard Base64 (`A-Z a-z 0-9 + /`, trailing `=` ignored, padding not
/// required). Fails on a byte outside the alphabet and on a single character
/// left over after the last group of four.
pub fn base64_decode(input: &str) -> (r: Result<Vec<u8>, ()>)
    ensures
        r is Ok <==> base64_valid(input.spec_bytes()),
        r matches Ok(v) ==> v@ == base64_decode_spec(input.spec_bytes()),
{
    let bytes = input.as_bytes();
    let n = padding_end(bytes, bytes.len());
    assert(bytes@.take(bytes@.len() as int) == bytes@);
    let ghost s = bytes@.take(n as int);
    assert(input.spec_bytes() == bytes@);
    assert(s.len() == n);
    if n % 4 == 1 || !all_in_alphabet(bytes, n) {
        return Err(());
    }
    let mut out: Vec<u8> = Vec::new();
    let mut i: usize = 0;
    assert(s.skip(0) == s);
    while n >= 4 && i <= n - 4
        invariant
            i <= n <= bytes@.len(),
            s == bytes@.take(n as int),
            out@ + decode_groups(s.skip(i as int)) == decode_groups(s),
        decreases n - i,
    {
        let a = b64_value_exec(bytes[i]);
        let b = b64_value_exec(bytes[i + 1]);
        let c = b64_value_exec(bytes[i + 2]);
        let d = b64_value_exec(bytes[i + 3]);
        proof {
            let t = s.skip(i as int);
            assert(t[0] == bytes@[i as int] && t[1] == bytes@[i + 1] && t[2] == bytes@[i + 2] && t[3] == bytes@[i + 3]);
            assert(t.skip(4) == s.skip(i + 4));
        }
        out.push((a << 2) | (b >> 4));
        out.push((b << 4) | (c >> 2));
        out.push((c << 6) | d);
        proof {
            let t = s.skip(i as int);
            assert(out@ + decode_groups(s.skip(i + 4)) =~= decode_groups(s));
        }
        i += 4;
    }
    let rem = n - i;
    proof {
        let t = s.skip(i as int);
        assert(t.len() == rem);
    }
    if rem == 2 {
        let a = b64_value_exec(bytes[i]);
        let b = b64_value_exec(bytes[i + 1]);
        out.push((a << 2) | (b >> 4));
        proof {
            let t = s.skip(i as int);
            assert(t[0] == bytes@[i as int] && t[1] == bytes@[i + 1]);
        }
    } else if rem == 3 {
        let a = b64_value_exec(bytes[i]);
        let b = b64_value_exec(bytes[i + 1]);
        let c = b64_value_exec(bytes[i + 2]);
        out.push((a << 2) | (b >> 4));
        out.push((b << 4) | (c >> 2));
        proof {
            let t = s.skip(i as int);
            assert(t[0] == bytes@[i as int] && t[1] == bytes@[i + 1] && t[2] == bytes@[i + 2]);
        }
    }
    assert(out@ =~= decode_groups(s));
    Ok(out)
}

/// The Base64 alphabet byte of a six-bit value.
pub open spec fn b64_char(v: u8) -> u8 {
    if v < 26 { (v + 65) as u8 }
    else if v < 52 { (v + 71) as u8 }
    else if v < 62 { (v - 4) as u8 }
    else if v == 62 { 43 }
    else { 47 }
}

pub open spec fn sextet0(x: u8) -> u8 { x >> 2u8 }
pub open spec fn sextet1(x: u8, y: u8) -> u8 { (((x & 3u8) << 4u8) | (y >> 4u8)) as u8 }
pub open spec fn sextet2(y: u8, z: u8) -> u8 { (((y & 15u8) << 2u8) | (z >> 6u8)) as u8 }
pub open spec fn sextet3(z: u8) -> u8 { z & 63u8 }

/// The standard Base64 text of some bytes, without padding: each group of
/// three bytes as four characters, a last group of two as three, of one as two.
pub open spec fn encode_groups(b: Seq<u8>) -> Seq<u8>
    decreases b.len(),
{
    if b.len() >= 3 {
        seq![b64_char(sextet0(b[0])), b64_char(sextet1(b[0], b[1])), b64_char(sextet2(b[1], b[2])),
            b64_char(sextet3(b[2]))] + encode_groups(b.skip(3))
    } else if b.len() == 2 {
        seq![b64_char(sextet0(b[0])), b64_char(sextet1(b[0], b[1])), b64_char(sextet2(b[1], 0u8))]
    } else if b.len() == 1 {
        seq![b64_char(sextet0(b[0])), b64_char(sextet1(b[0], 0u8))]
    } else {
        seq![]
    }
}

/// The standard Base64 text of some bytes, padded with `'='` to a multiple of
/// four characters.
pub open spec fn encode_padded(b: Seq<u8>) -> Seq<u8> {
    let pad: nat = if b.len() % 3 == 1 { 2 } else if b.len() % 3 == 2 { 1 } else { 0 };
    encode_groups(b) + Seq::new(pad, |i: int| 61u8)
}

proof fn lemma_char_value(v: u8)
    requires
        v < 64,
    ensures
        b64_value(b64_char(v)) == v,
        b64_char(v) != 61,
        is_b64_byte(b64_char(v)),
{
}

proof fn lemma_sextets(x: u8, y: u8, z: u8)
    by (bit_vector)
    ensures
        sextet0(x) < 64,
        sextet1(x, y) < 64,
        sextet2(y, z) < 64,
        sextet3(z) < 64,
        byte0(sextet0(x), sextet1(x, y)) == x,
        byte1(sextet1(x, y), sextet2(y, z)) == y,
        byte2(sextet2(y, z), sextet3(z)) == z,
{
}

proof fn lemma_trim_unpadded(s: Seq<u8>, k: nat)
    requires
        s.len() == 0 || s.last() != 61,
    ensures
        trim_padding(s + Seq::new(k, |i: int| 61u8)) == s,
    decreases k,
{
    let p = Seq::new(k, |i: int| 61u8);
    if k == 0 {
        assert(s + p =~= s);
    } else {
        let q = Seq::new((k - 1) as nat, |i: int| 61u8);
        assert((s + p).drop_last() =~= s + q);
        lemma_trim_unpadded(s, (k - 1) as nat);
    }
}

proof fn lemma_encode_groups_round_trip(b: Seq<u8>)
    ensures
        decode_groups(encode_groups(b)) == b,
        encode_groups(b).len() == 0 || encode_groups(b).last() != 61,
        encode_groups(b).len() % 4 != 1,
        forall|i: int| 0 <= i < encode_groups(b).len() ==> is_b64_byte(#[trigger] encode_groups(b)[i]),
    decreases b.len(),
{
    if b.len() >= 3 {
        lemma_sextets(b[0], b[1], b[2]);
        lemma_char_value(sextet0(b[0]));
        lemma_char_value(sextet1(b[0], b[1]));
        lemma_char_value(sextet2(b[1], b[2]));
        lemma_char_value(sextet3(b[2]));
        lemma_encode_groups_round_trip(b.skip(3));
        let head = seq![b64_char(sextet0(b[0])), b64_char(sextet1(b[0], b[1])),
            b64_char(sextet2(b[1], b[2])), b64_char(sextet3(b[2]))];
        let e = encode_groups(b);
        assert(e == head + encode_groups(b.skip(3)));
        assert(e.skip(4) =~= encode_groups(b.skip(3)));
        assert forall|i: int| 0 <= i < e.len() implies is_b64_byte(#[trigger] e[i]) by {
            if i >= 4 {
                assert(e[i] == encode_groups(b.skip(3))[i - 4]);
            }
        }
        assert(decode_groups(e) =~= seq![b[0], b[1], b[2]] + b.skip(3));
        assert(seq![b[0], b[1], b[2]] + b.skip(3) =~= b);
    } else if b.len() == 2 {
        lemma_sextets(b[0], b[1], 0u8);
        lemma_char_value(sextet0(b[0]));
        lemma_char_value(sextet1(b[0], b[1]));
        lemma_char_value(sextet2(b[1], 0u8));
        assert(decode_groups(encode_groups(b)) =~= b);
    } else if b.len() == 1 {
        lemma_sextets(b[0], 0u8, 0u8);
        lemma_char_value(sextet0(b[0]));
        lemma_char_value(sextet1(b[0], 0u8));
        assert(decode_groups(encode_groups(b)) =~= b);
    } else {
        assert(decode_groups(encode_groups(b)) =~= b);
    }
}

/// Standard Base64 encoding, with or without its `'='` padding, is accepted
/// and decodes back to the bytes it encoded.
pub proof fn lemma_decode_round_trip(b: Seq<u8>)
    ensures
        base64_valid(encode_padded(b)),
        base64_valid(encode_groups(b)),
        base64_decode_spec(encode_padded(b)) == b,
        base64_decode_spec(encode_groups(b)) == b,
{
    lemma_encode_groups_round_trip(b);
    let pad: nat = if b.len() % 3 == 1 { 2 } else if b.len() % 3 == 2 { 1 } else { 0 };
    lemma_trim_unpadded(encode_groups(b), pad);
    lemma_trim_unpadded(encode_groups(b), 0);
    assert(encode_groups(b) + Seq::new(0, |i: int| 61u8) =~= encode_groups(b));
}

} // verus!
