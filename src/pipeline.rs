//! The two phases: packing a script and its reference answer into a blob, and
//! unpacking the blob to check a user's input against the reference answer.

use crate::blob::blob_layout;
use crate::blob::lemma_parse_layout;
use crate::blob::lemma_truncated_blob_is_corrupt;
use crate::blob::parse_blob;
use crate::blob::parsed;
use crate::blob::serialize_blob;
use crate::blob::KEY_LEN;
use crate::blob::MAX_SECTION_LEN;
use crate::blob::NONCE_LEN;
use crate::cipher::apply_cipher;
use crate::cipher::keystream_xor;
use crate::cipher::lemma_cipher_round_trip;
use crate::codec::decode_bytes;
use crate::codec::deobfuscated_seq;
use crate::codec::encode_bytes;
use crate::codec::lemma_round_trip;
use crate::codec::obfuscated_seq;
use crate::compress::compress;
use crate::compress::decompress;
use crate::compress::lzma_compressed;
use crate::compress::lzma_decompressed;
use crate::script::compile_script;
use crate::script::lua_compiles;
use crate::script::run_verifier;
use crate::PipelineError;
use rand::RngCore;
use vstd::prelude::*;

verus! {

/// Relies on rand::rngs::OsRng and RngCore::fill_bytes: `n` bytes from the
/// operating system's secure generator. Nothing is known of their values. It
/// panics only where the operating system's source itself fails.
#[verifier::external_body]
fn random_bytes(n: usize) -> (r: Vec<u8>)
    ensures
        r@.len() == n,
{
    let mut buf: Vec<u8> = vec![0u8; n];
    rand::rngs::OsRng.fill_bytes(&mut buf);
    buf
}

/// Both sections of a blob for `bytecode` and `answer` fit their 32-bit
/// length fields.
pub open spec fn fits(bytecode: Seq<u8>, answer: Seq<u8>) -> bool {
    lzma_compressed(bytecode).len() <= MAX_SECTION_LEN && answer.len() <= MAX_SECTION_LEN
}

/// The blob that holds `bytecode`, compressed and encrypted with `key` and
/// `nonce`, and `answer`, obfuscated.
pub open spec fn sealed_blob(
    bytecode: Seq<u8>,
    answer: Seq<u8>,
    key: Seq<u8>,
    nonce: Seq<u8>,
) -> Seq<u8> {
    blob_layout(
        key,
        nonce,
        keystream_xor(key, nonce, lzma_compressed(bytecode)),
        obfuscated_seq(answer),
    )
}

/// The bytecode and reference answer that a blob holds, or the error that
/// unpacking it meets.
pub open spec fn unpacked(blob: Seq<u8>) -> Result<(Seq<u8>, Seq<u8>), PipelineError> {
    match parsed(blob) {
        None => Err(PipelineError::CorruptBlob),
        Some((key, nonce, encrypted, obfuscated)) => match lzma_decompressed(
            keystream_xor(key, nonce, encrypted),
        ) {
            None => Err(PipelineError::Decompress),
            Some(bytecode) => Ok((bytecode, deobfuscated_seq(obfuscated))),
        },
    }
}

/// Builds the blob for `bytecode` and `answer` with the given key and nonce.
pub fn seal(bytecode: &[u8], answer: &[u8], key: &[u8], nonce: &[u8]) -> (r: Result<
    Vec<u8>,
    PipelineError,
>)
    requires
        key@.len() == KEY_LEN,
        nonce@.len() == NONCE_LEN,
    ensures
        match r {
            Ok(b) => fits(bytecode@, answer@) && b@ == sealed_blob(
                bytecode@,
                answer@,
                key@,
                nonce@,
            ) && unpacked(b@) == Ok::<(Seq<u8>, Seq<u8>), PipelineError>((bytecode@, answer@)),
            Err(e) => !fits(bytecode@, answer@) && e == PipelineError::TooLarge,
        },
{
    if answer.len() > MAX_SECTION_LEN {
        return Err(PipelineError::TooLarge);
    }
    let compressed = compress(bytecode);
    if compressed.len() > MAX_SECTION_LEN {
        return Err(PipelineError::TooLarge);
    }
    let encrypted = apply_cipher(key, nonce, compressed.as_slice());
    let obfuscated = encode_bytes(answer);
    proof {
        lemma_parse_layout(key@, nonce@, encrypted@, obfuscated@);
        lemma_cipher_round_trip(key@, nonce@, compressed@);
        lemma_round_trip(answer@);
    }
    Ok(serialize_blob(key, nonce, encrypted.as_slice(), obfuscated.as_slice()))
}

/// Compiles `source` and packs its bytecode with `answer` under a fresh
/// random key and nonce. The blob unpacks to that bytecode and `answer`.
pub fn pack(source: &[u8], answer: &[u8]) -> (r: Result<Vec<u8>, PipelineError>)
    ensures
        match r {
            Ok(b) => lua_compiles(source@) && exists|bytecode: Seq<u8>, key: Seq<u8>, nonce: Seq<u8>|
                key.len() == KEY_LEN && nonce.len() == NONCE_LEN && fits(bytecode, answer@) && b@
                    == #[trigger] sealed_blob(bytecode, answer@, key, nonce) && unpacked(b@)
                    == Ok::<(Seq<u8>, Seq<u8>), PipelineError>((bytecode, answer@)),
            Err(e) => (e == PipelineError::Compile && !lua_compiles(source@)) || (e
                == PipelineError::TooLarge && lua_compiles(source@) && exists|bytecode: Seq<u8>|
                !#[trigger] fits(bytecode, answer@)),
        },
{
    let bytecode = match compile_script(source) {
        Ok(bc) => bc,
        Err(e) => return Err(e),
    };
    let key = random_bytes(KEY_LEN);
    let nonce = random_bytes(NONCE_LEN);
    seal(bytecode.as_slice(), answer, key.as_slice(), nonce.as_slice())
}

/// Recovers the bytecode and the plain reference answer from a blob.
pub fn unpack(blob: &[u8]) -> (r: Result<(Vec<u8>, Vec<u8>), PipelineError>)
    ensures
        match r {
            Ok((bytecode, answer)) => unpacked(blob@) == Ok::<(Seq<u8>, Seq<u8>), PipelineError>(
                (bytecode@, answer@),
            ),
            Err(e) => unpacked(blob@) == Err::<(Seq<u8>, Seq<u8>), PipelineError>(e),
        },
        forall|bytecode: Seq<u8>, answer: Seq<u8>, key: Seq<u8>, nonce: Seq<u8>|
            key.len() == KEY_LEN && nonce.len() == NONCE_LEN && fits(bytecode, answer) && #[trigger] sealed_blob(
                bytecode,
                answer,
                key,
                nonce,
            ) == blob@ ==> unpacked(blob@) == Ok::<(Seq<u8>, Seq<u8>), PipelineError>(
                (bytecode, answer),
            ),
{
    assert forall|bytecode: Seq<u8>, answer: Seq<u8>, key: Seq<u8>, nonce: Seq<u8>|
        key.len() == KEY_LEN && nonce.len() == NONCE_LEN && fits(bytecode, answer) && #[trigger] sealed_blob(
            bytecode,
            answer,
            key,
            nonce,
        ) == blob@ implies parsed(blob@) == Some(
        (key, nonce, keystream_xor(key, nonce, lzma_compressed(bytecode)), obfuscated_seq(answer)),
    ) && keystream_xor(key, nonce, keystream_xor(key, nonce, lzma_compressed(bytecode)))
        == lzma_compressed(bytecode) && deobfuscated_seq(obfuscated_seq(answer)) == answer by {
        lemma_parse_layout(
            key,
            nonce,
            keystream_xor(key, nonce, lzma_compressed(bytecode)),
            obfuscated_seq(answer),
        );
        lemma_cipher_round_trip(key, nonce, lzma_compressed(bytecode));
        lemma_round_trip(answer);
    }
    let parts = match parse_blob(blob) {
        Some(p) => p,
        None => return Err(PipelineError::CorruptBlob),
    };
    let plain = apply_cipher(parts.key.as_slice(), parts.nonce.as_slice(), parts.encrypted.as_slice());
    let bytecode = match decompress(plain.as_slice()) {
        Some(bc) => bc,
        None => return Err(PipelineError::Decompress),
    };
    let answer = decode_bytes(parts.obfuscated.as_slice());
    Ok((bytecode, answer))
}

/// Whether the verifier's output equals the reference answer, byte for byte
/// and in full length.
pub fn answers_match(produced: &[u8], reference: &[u8]) -> (r: bool)
    ensures
        r == (produced@ == reference@),
{
    if produced.len() != reference.len() {
        return false;
    }
    let mut i: usize = 0;
    while i < produced.len()
        invariant
            i <= produced@.len(),
            produced@.len() == reference@.len(),
            forall|j: int| 0 <= j < i ==> produced@[j] == reference@[j],
        decreases produced@.len() - i,
    {
        if produced[i] != reference[i] {
            return false;
        }
        i = i + 1;
    }
    assert(produced@ =~= reference@);
    true
}

/// Runs the verifier held by `bytecode` on `user_input` and compares its
/// output with `reference`.
pub fn verify(user_input: &str, bytecode: &[u8], reference: &[u8]) -> (r: Result<
    bool,
    PipelineError,
>)
    ensures
        r is Err ==> r == Err::<bool, PipelineError>(PipelineError::ScriptExecution),
{
    match run_verifier(bytecode, user_input) {
        Ok(produced) => Ok(answers_match(produced.as_slice(), reference)),
        Err(e) => Err(e),
    }
}

/// Unpacks `blob` and checks `user_input` with the script it holds.
pub fn check_blob(blob: &[u8], user_input: &str) -> (r: Result<bool, PipelineError>)
    ensures
        match unpacked(blob@) {
            Err(e) => r == Err::<bool, PipelineError>(e),
            Ok(_) => r is Ok || r == Err::<bool, PipelineError>(PipelineError::ScriptExecution),
        },
{
    match unpack(blob) {
        Ok((bytecode, answer)) => verify(user_input, bytecode.as_slice(), answer.as_slice()),
        Err(e) => Err(e),
    }
}

/// A sealed blob cut short by any positive number of bytes taken from its
/// encrypted or obfuscated section (length fields included) fails to unpack
/// as a corrupt blob.
pub proof fn lemma_truncated_sealed_blob_fails(
    bytecode: Seq<u8>,
    answer: Seq<u8>,
    key: Seq<u8>,
    nonce: Seq<u8>,
    cut: nat,
)
    requires
        key.len() == KEY_LEN,
        nonce.len() == NONCE_LEN,
        fits(bytecode, answer),
        0 < cut <= 8 + lzma_compressed(bytecode).len() + answer.len(),
    ensures
        ({
            let b = sealed_blob(bytecode, answer, key, nonce);
            unpacked(b.take(b.len() - cut)) == Err::<(Seq<u8>, Seq<u8>), PipelineError>(
                PipelineError::CorruptBlob,
            )
        }),
{
    lemma_truncated_blob_is_corrupt(
        key,
        nonce,
        keystream_xor(key, nonce, lzma_compressed(bytecode)),
        obfuscated_seq(answer),
        cut,
    );
}

} // verus!
