//! The XChaCha20 stream cipher that hides the compressed bytecode.

use chacha20::cipher::KeyIvInit;
use chacha20::cipher::StreamCipher;
use vstd::prelude::*;

verus! {

/// The first `len` bytes of the XChaCha20 keystream for `key` and `nonce`.
pub uninterp spec fn xchacha20_keystream(key: Seq<u8>, nonce: Seq<u8>, len: nat) -> Seq<u8>;

/// `data` xored, byte by byte, with the keystream for `key` and `nonce`.
pub open spec fn keystream_xor(key: Seq<u8>, nonce: Seq<u8>, data: Seq<u8>) -> Seq<u8> {
    Seq::new(data.len(), |i: int| data[i] ^ xchacha20_keystream(key, nonce, data.len())[i])
}

/// The largest input the cipher is applied to here; the keystream of one
/// key and nonce runs far longer.
pub const MAX_CIPHER_INPUT: usize = 0xffff_ffff;

/// Relies on chacha20::XChaCha20, built by `KeyIvInit::new` from a 32-byte key
/// and a 24-byte nonce, and on `StreamCipher::apply_keystream`, which xors the
/// keystream into the buffer in place. The keystream depends on the key and
/// the nonce alone; it panics only past 2^32 - 1 blocks of 64 bytes.
#[verifier::external_body]
fn xchacha20_apply(key: &[u8], nonce: &[u8], data: &mut Vec<u8>)
    requires
        key@.len() == 32,
        nonce@.len() == 24,
        old(data)@.len() <= MAX_CIPHER_INPUT,
    ensures
        final(data)@.len() == old(data)@.len(),
        forall|i: int|
            0 <= i < old(data)@.len() ==> #[trigger] final(data)@[i] == old(data)@[i]
                ^ xchacha20_keystream(key@, nonce@, old(data)@.len())[i],
{
    let mut c = chacha20::XChaCha20::new(
        chacha20::Key::from_slice(key),
        chacha20::XNonce::from_slice(nonce),
    );
    c.apply_keystream(data.as_mut_slice());
}

/// Encrypts or decrypts `data` with XChaCha20: both directions are the same
/// keystream xor.
pub fn apply_cipher(key: &[u8], nonce: &[u8], data: &[u8]) -> (r: Vec<u8>)
    requires
        key@.len() == 32,
        nonce@.len() == 24,
        data@.len() <= MAX_CIPHER_INPUT,
    ensures
        r@ == keystream_xor(key@, nonce@, data@),
        r@.len() == data@.len(),
{
    let mut buf: Vec<u8> = vstd::slice::slice_to_vec(data);
    xchacha20_apply(key, nonce, &mut buf);
    assert(buf@ =~= keystream_xor(key@, nonce@, data@));
    buf
}

/// Decrypting with the key and nonce that encrypted gives the plaintext back.
pub proof fn lemma_cipher_round_trip(key: Seq<u8>, nonce: Seq<u8>, plaintext: Seq<u8>)
    ensures
        keystream_xor(key, nonce, keystream_xor(key, nonce, plaintext)) == plaintext,
{
    let c = keystream_xor(key, nonce, plaintext);
    let ks = xchacha20_keystream(key, nonce, plaintext.len());
    assert forall|i: int| 0 <= i < plaintext.len() implies #[trigger] keystream_xor(
        key,
        nonce,
        c,
    )[i] == plaintext[i] by {
        let p = plaintext[i];
        let k = ks[i];
        assert((p ^ k) ^ k == p) by (bit_vector);
    }
    assert(keystream_xor(key, nonce, c) =~= plaintext);
}

} // verus!
