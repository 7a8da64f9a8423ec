//! LZMA compression of the bytecode, through the lzma-rs crate.

use vstd::prelude::*;

verus! {

/// What lzma-rs's encoder writes for `data`.
pub uninterp spec fn lzma_compressed(data: Seq<u8>) -> Seq<u8>;

/// What lzma-rs's decoder recovers from `data`, or `None` where it rejects it.
pub uninterp spec fn lzma_decompressed(data: Seq<u8>) -> Option<Seq<u8>>;

/// The bytes that an optional buffer holds.
pub open spec fn bytes_of(r: Option<Vec<u8>>) -> Option<Seq<u8>> {
    match r {
        Some(v) => Some(v@),
        None => None,
    }
}

/// Relies on lzma_rs::lzma_compress with default options: a deterministic
/// encoder of its input, whose output lzma_rs::lzma_decompress turns back into
/// the input. Reading a slice and writing a `Vec` cannot fail, so the only
/// error it can return does not occur.
#[verifier::external_body]
fn lzma_compress_bytes(data: &[u8]) -> (r: Vec<u8>)
    ensures
        r@ == lzma_compressed(data@),
        lzma_decompressed(r@) == Some(data@),
{
    let mut input: &[u8] = data;
    let mut out: Vec<u8> = Vec::new();
    lzma_rs::lzma_compress(&mut input, &mut out).unwrap();
    out
}

/// Relies on lzma_rs::lzma_decompress with default options: it reports a
/// malformed or truncated stream as an error, and recovers exactly the input
/// of lzma_rs::lzma_compress from that function's output.
#[verifier::external_body]
fn lzma_decompress_bytes(data: &[u8]) -> (r: Option<Vec<u8>>)
    ensures
        bytes_of(r) == lzma_decompressed(data@),
        forall|d: Seq<u8>| #[trigger] lzma_compressed(d) == data@ ==> bytes_of(r) == Some(d),
{
    let mut input: &[u8] = data;
    let mut out: Vec<u8> = Vec::new();
    match lzma_rs::lzma_decompress(&mut input, &mut out) {
        Ok(()) => Some(out),
        Err(_) => None,
    }
}

/// Compresses `data`.
pub fn compress(data: &[u8]) -> (r: Vec<u8>)
    ensures
        r@ == lzma_compressed(data@),
        lzma_decompressed(r@) == Some(data@),
{
    lzma_compress_bytes(data)
}

/// Decompresses `data`, or `None` where it is no valid compressed stream.
pub fn decompress(data: &[u8]) -> (r: Option<Vec<u8>>)
    ensures
        bytes_of(r) == lzma_decompressed(data@),
        forall|d: Seq<u8>| #[trigger] lzma_compressed(d) == data@ ==> bytes_of(r) == Some(d),
{
    lzma_decompress_bytes(data)
}

} // verus!
