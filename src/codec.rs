//! The reversible per-byte transform that hides the reference answer.

use vstd::prelude::*;

verus! {

/// Rotation of a byte one bit to the right.
pub open spec fn rotr1(x: u8) -> u8 {
    (x >> 1u8) | (x << 7u8)
}

/// Rotation of a byte one bit to the left.
pub open spec fn rotl1(x: u8) -> u8 {
    (x << 1u8) | (x >> 7u8)
}

/// The obfuscation of one byte: add 4 modulo 256, xor with 0x17, rotate
/// right by one bit.
pub open spec fn obfuscated(b: u8) -> u8 {
    rotr1((((b as int) + 4) % 256) as u8 ^ 0x17u8)
}

/// The inverse transform: rotate left by one bit, xor with 0x17, subtract 4
/// modulo 256.
pub open spec fn deobfuscated(b: u8) -> u8 {
    (((rotl1(b) ^ 0x17u8) as int + 252) % 256) as u8
}

/// Every byte of a sequence obfuscated.
pub open spec fn obfuscated_seq(s: Seq<u8>) -> Seq<u8> {
    s.map_values(|b: u8| obfuscated(b))
}

/// Every byte of a sequence deobfuscated.
pub open spec fn deobfuscated_seq(s: Seq<u8>) -> Seq<u8> {
    s.map_values(|b: u8| deobfuscated(b))
}

/// Obfuscates one byte.
pub fn encode_byte(b: u8) -> (r: u8)
    ensures
        r == obfuscated(b),
{
    let t: u8 = b.wrapping_add(4) ^ 0x17u8;
    (t >> 1u8) | (t << 7u8)
}

/// Recovers a byte from its obfuscated form.
pub fn decode_byte(b: u8) -> (r: u8)
    ensures
        r == deobfuscated(b),
{
    let t: u8 = ((b << 1u8) | (b >> 7u8)) ^ 0x17u8;
    t.wrapping_sub(4)
}

/// Obfuscates every byte of `data`.
pub fn encode_bytes(data: &[u8]) -> (r: Vec<u8>)
    ensures
        r@ == obfuscated_seq(data@),
{
    let mut out: Vec<u8> = Vec::with_capacity(data.len());
    let mut i: usize = 0;
    while i < data.len()
        invariant
            i <= data@.len(),
            out@ == obfuscated_seq(data@.take(i as int)),
        decreases data@.len() - i,
    {
        out.push(encode_byte(data[i]));
        i = i + 1;
        assert(data@.take(i as int) == data@.take(i - 1).push(data@[i - 1]));
    }
    assert(data@.take(i as int) == data@);
    out
}

/// Recovers every byte of `data` from its obfuscated form.
pub fn decode_bytes(data: &[u8]) -> (r: Vec<u8>)
    ensures
        r@ == deobfuscated_seq(data@),
{
    let mut out: Vec<u8> = Vec::with_capacity(data.len());
    let mut i: usize = 0;
    while i < data.len()
        invariant
            i <= data@.len(),
            out@ == deobfuscated_seq(data@.take(i as int)),
        decreases data@.len() - i,
    {
        out.push(decode_byte(data[i]));
        i = i + 1;
        assert(data@.take(i as int) == data@.take(i - 1).push(data@[i - 1]));
    }
    assert(data@.take(i as int) == data@);
    out
}

/// Deobfuscating an obfuscated byte gives the byte back, for each of the 256
/// byte values.
pub proof fn lemma_byte_round_trip(b: u8)
    ensures
        deobfuscated(obfuscated(b)) == b,
{
    let a: u8 = (((b as int) + 4) % 256) as u8;
    let t: u8 = a ^ 0x17u8;
    assert(rotl1(rotr1(t)) == t) by (bit_vector);
    assert((t ^ 0x17u8) == a) by (bit_vector)
        requires t == a ^ 0x17u8;
}

/// The transform is a bijection on bytes: obfuscating a deobfuscated byte
/// gives the byte back too.
pub proof fn lemma_byte_inverse_round_trip(b: u8)
    ensures
        obfuscated(deobfuscated(b)) == b,
{
    let t: u8 = rotl1(b) ^ 0x17u8;
    assert(rotr1(rotl1(b)) == b) by (bit_vector);
    assert((t ^ 0x17u8) == rotl1(b)) by (bit_vector)
        requires t == rotl1(b) ^ 0x17u8;
}

/// Deobfuscating an obfuscated sequence, of any length, gives the sequence
/// back.
pub proof fn lemma_round_trip(s: Seq<u8>)
    ensures
        deobfuscated_seq(obfuscated_seq(s)) == s,
{
    assert forall|i: int| 0 <= i < s.len() implies #[trigger] deobfuscated_seq(
        obfuscated_seq(s),
    )[i] == s[i] by {
        lemma_byte_round_trip(s[i]);
    }
    assert(deobfuscated_seq(obfuscated_seq(s)) =~= s);
}

} // verus!
