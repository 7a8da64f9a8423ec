//! The blob layout: key, nonce, a length-prefixed encrypted section and a
//! length-prefixed obfuscated section, integers little-endian.

use vstd::prelude::*;
use vstd::slice::slice_subrange;
use vstd::slice::slice_to_vec;

verus! {

/// Length of the cipher key field.
pub const KEY_LEN: usize = 32;

/// Length of the cipher nonce field.
pub const NONCE_LEN: usize = 24;

/// Offset of the encrypted section's length field.
pub const HEADER_LEN: usize = 56;

/// The largest length a section can declare.
pub const MAX_SECTION_LEN: usize = 0xffff_ffff;

/// Four little-endian bytes of an unsigned 32-bit count.
pub open spec fn le32(n: nat) -> Seq<u8> {
    seq![
        (n % 256) as u8,
        ((n / 256) % 256) as u8,
        ((n / 65536) % 256) as u8,
        ((n / 16777216) % 256) as u8,
    ]
}

/// The count that four little-endian bytes hold.
pub open spec fn from_le32(s: Seq<u8>) -> nat {
    (s[0] as nat) + 256 * (s[1] as nat) + 65536 * (s[2] as nat) + 16777216 * (s[3] as nat)
}

/// The blob that holds the four fields, in order, each section preceded by its
/// length.
pub open spec fn blob_layout(
    key: Seq<u8>,
    nonce: Seq<u8>,
    encrypted: Seq<u8>,
    obfuscated: Seq<u8>,
) -> Seq<u8> {
    key + nonce + le32(encrypted.len()) + encrypted + le32(obfuscated.len()) + obfuscated
}

/// The fields that a blob holds, or `None` where a declared length runs past
/// its end. Trailing bytes are ignored.
pub open spec fn parsed(b: Seq<u8>) -> Option<(Seq<u8>, Seq<u8>, Seq<u8>, Seq<u8>)> {
    if b.len() < 60 {
        None
    } else {
        let clen = from_le32(b.subrange(56, 60)) as int;
        if b.len() < 64 + clen {
            None
        } else {
            let olen = from_le32(b.subrange(60 + clen, 64 + clen)) as int;
            if b.len() < 64 + clen + olen {
                None
            } else {
                Some(
                    (
                        b.subrange(0, 32),
                        b.subrange(32, 56),
                        b.subrange(60, 60 + clen),
                        b.subrange(64 + clen, 64 + clen + olen),
                    ),
                )
            }
        }
    }
}

/// The fields of a blob.
pub struct BlobParts {
    pub key: Vec<u8>,
    pub nonce: Vec<u8>,
    pub encrypted: Vec<u8>,
    pub obfuscated: Vec<u8>,
}

impl BlobParts {
    /// The four fields as sequences.
    pub open spec fn fields(&self) -> (Seq<u8>, Seq<u8>, Seq<u8>, Seq<u8>) {
        (self.key@, self.nonce@, self.encrypted@, self.obfuscated@)
    }
}

/// Writing a count as four bytes and reading it back gives the count.
pub proof fn lemma_le32_round_trip(n: nat)
    requires
        n <= 0xffff_ffff,
    ensures
        from_le32(le32(n)) == n,
{
    assert(n == (n % 256) + 256 * ((n / 256) % 256) + 65536 * ((n / 65536) % 256) + 16777216 * (
    (n / 16777216) % 256)) by (nonlinear_arith)
        requires
            n <= 0xffff_ffff,
    ;
}

/// Appends the bytes of `src` to `out`.
fn append_bytes(out: &mut Vec<u8>, src: &[u8])
    ensures
        final(out)@ == old(out)@ + src@,
{
    let mut i: usize = 0;
    while i < src.len()
        invariant
            i <= src@.len(),
            out@ == old(out)@ + src@.take(i as int),
        decreases src@.len() - i,
    {
        out.push(src[i]);
        i = i + 1;
        assert(src@.take(i as int) == src@.take(i - 1).push(src@[i - 1]));
    }
    assert(src@.take(i as int) == src@);
}

/// Appends a count as four little-endian bytes.
fn append_le32(out: &mut Vec<u8>, n: u32)
    ensures
        final(out)@ == old(out)@ + le32(n as nat),
{
    out.push((n % 256) as u8);
    out.push(((n / 256) % 256) as u8);
    out.push(((n / 65536) % 256) as u8);
    out.push(((n / 16777216) % 256) as u8);
    assert(out@ =~= old(out)@ + le32(n as nat));
}

/// Reads the count held by the four bytes of `b` at `at`.
fn read_le32(b: &[u8], at: usize) -> (r: u32)
    requires
        at + 4 <= b@.len(),
    ensures
        r as nat == from_le32(b@.subrange(at as int, at + 4)),
{
    let b0: u32 = b[at] as u32;
    let b1: u32 = b[at + 1] as u32;
    let b2: u32 = b[at + 2] as u32;
    let b3: u32 = b[at + 3] as u32;
    b0 + 256 * b1 + 65536 * b2 + 16777216 * b3
}

/// Serialises the four fields into one blob.
pub fn serialize_blob(key: &[u8], nonce: &[u8], encrypted: &[u8], obfuscated: &[u8]) -> (r: Vec<
    u8,
>)
    requires
        encrypted@.len() <= MAX_SECTION_LEN,
        obfuscated@.len() <= MAX_SECTION_LEN,
    ensures
        r@ == blob_layout(key@, nonce@, encrypted@, obfuscated@),
{
    let mut out: Vec<u8> = Vec::new();
    append_bytes(&mut out, key);
    append_bytes(&mut out, nonce);
    append_le32(&mut out, encrypted.len() as u32);
    append_bytes(&mut out, encrypted);
    append_le32(&mut out, obfuscated.len() as u32);
    append_bytes(&mut out, obfuscated);
    out
}

/// Slices a blob into its fields; fails where a declared length runs past the
/// end of the blob.
pub fn parse_blob(blob: &[u8]) -> (r: Option<BlobParts>)
    ensures
        match r {
            Some(p) => parsed(blob@) == Some(p.fields()),
            None => parsed(blob@) is None,
        },
{
    if blob.len() < HEADER_LEN + 8 {
        return None;
    }
    let clen = read_le32(blob, HEADER_LEN) as usize;
    if blob.len() - (HEADER_LEN + 8) < clen {
        return None;
    }
    let olen = read_le32(blob, HEADER_LEN + 4 + clen) as usize;
    if blob.len() - (HEADER_LEN + 8) - clen < olen {
        return None;
    }
    let start_obf: usize = HEADER_LEN + 8 + clen;
    let parts = BlobParts {
        key: slice_to_vec(slice_subrange(blob, 0, KEY_LEN)),
        nonce: slice_to_vec(slice_subrange(blob, KEY_LEN, HEADER_LEN)),
        encrypted: slice_to_vec(slice_subrange(blob, HEADER_LEN + 4, HEADER_LEN + 4 + clen)),
        obfuscated: slice_to_vec(slice_subrange(blob, start_obf, start_obf + olen)),
    };
    Some(parts)
}

/// Slicing a serialised blob gives back the four fields it was made of.
pub proof fn lemma_parse_layout(key: Seq<u8>, nonce: Seq<u8>, encrypted: Seq<u8>, obfuscated: Seq<u8>)
    requires
        key.len() == KEY_LEN,
        nonce.len() == NONCE_LEN,
        encrypted.len() <= MAX_SECTION_LEN,
        obfuscated.len() <= MAX_SECTION_LEN,
    ensures
        parsed(blob_layout(key, nonce, encrypted, obfuscated)) == Some(
            (key, nonce, encrypted, obfuscated),
        ),
{
    let b = blob_layout(key, nonce, encrypted, obfuscated);
    let e = encrypted.len() as int;
    let o = obfuscated.len() as int;
    lemma_le32_round_trip(encrypted.len());
    lemma_le32_round_trip(obfuscated.len());
    assert(b.subrange(56, 60) =~= le32(encrypted.len()));
    assert(b.subrange(60 + e, 64 + e) =~= le32(obfuscated.len()));
    assert(b.subrange(0, 32) =~= key);
    assert(b.subrange(32, 56) =~= nonce);
    assert(b.subrange(60, 60 + e) =~= encrypted);
    assert(b.subrange(64 + e, 64 + e + o) =~= obfuscated);
}

/// A serialised blob cut short by any positive number of bytes, up to the
/// whole of both sections and their length fields, no longer parses.
pub proof fn lemma_truncated_blob_is_corrupt(
    key: Seq<u8>,
    nonce: Seq<u8>,
    encrypted: Seq<u8>,
    obfuscated: Seq<u8>,
    cut: nat,
)
    requires
        key.len() == KEY_LEN,
        nonce.len() == NONCE_LEN,
        encrypted.len() <= MAX_SECTION_LEN,
        obfuscated.len() <= MAX_SECTION_LEN,
        0 < cut <= 8 + encrypted.len() + obfuscated.len(),
    ensures
        ({
            let b = blob_layout(key, nonce, encrypted, obfuscated);
            parsed(b.take(b.len() - cut)) is None
        }),
{
    let b = blob_layout(key, nonce, encrypted, obfuscated);
    let c = b.take(b.len() - cut);
    let e = encrypted.len() as int;
    lemma_le32_round_trip(encrypted.len());
    lemma_le32_round_trip(obfuscated.len());
    if c.len() >= 60 {
        assert(c.subrange(56, 60) =~= le32(encrypted.len()));
        if c.len() >= 64 + e {
            assert(c.subrange(60 + e, 64 + e) =~= le32(obfuscated.len()));
        }
    }
}

} // verus!
