use rua_just_in_time::blob::serialize_blob;
use rua_just_in_time::cipher::apply_cipher;
use rua_just_in_time::codec::encode_bytes;
use rua_just_in_time::pipeline::answers_match;
use rua_just_in_time::pipeline::check_blob;
use rua_just_in_time::pipeline::pack;
use rua_just_in_time::pipeline::seal;
use rua_just_in_time::pipeline::unpack;
use rua_just_in_time::pipeline::verify;
use rua_just_in_time::script::compile_script;
use rua_just_in_time::script::run_verifier;
use rua_just_in_time::PipelineError;

const CONSTANT_X: &[u8] = b"return function(_) return 'X' end";

#[test]
fn seal_then_unpack() {
    let bytecode = b"\x1bLua not really bytecode".to_vec();
    let answer = b"flag{abc}".to_vec();
    let blob = seal(&bytecode, &answer, &[5u8; 32], &[6u8; 24]).unwrap();
    assert_eq!(&blob[0..32], &[5u8; 32]);
    assert_eq!(&blob[32..56], &[6u8; 24]);
    let (bc, ans) = unpack(&blob).unwrap();
    assert_eq!(bc, bytecode);
    assert_eq!(ans, answer);
}

#[test]
fn unpack_returns_plain_answer_not_obfuscated() {
    let blob = seal(b"code", b"\x00", &[1u8; 32], &[2u8; 24]).unwrap();
    assert_eq!(*blob.last().unwrap(), 0x89);
    assert_eq!(unpack(&blob).unwrap().1, vec![0u8]);
}

#[test]
fn pack_then_unpack_gives_compiled_bytecode() {
    let blob = pack(CONSTANT_X, b"X").unwrap();
    let (bc, ans) = unpack(&blob).unwrap();
    assert_eq!(ans, b"X".to_vec());
    assert_eq!(bc, compile_script(CONSTANT_X).unwrap());
}

#[test]
fn truncated_blob_fails_to_unpack() {
    let blob = seal(b"some bytecode here", b"answer", &[9u8; 32], &[8u8; 24]).unwrap();
    for cut in 1..=blob.len() - 56 {
        assert_eq!(unpack(&blob[..blob.len() - cut]), Err(PipelineError::CorruptBlob));
    }
}

#[test]
fn bad_stream_fails_to_decompress() {
    let key = [4u8; 32];
    let nonce = [4u8; 24];
    let enc = apply_cipher(&key, &nonce, b"garbage");
    let blob = serialize_blob(&key, &nonce, &enc, &encode_bytes(b"a"));
    assert_eq!(unpack(&blob), Err(PipelineError::Decompress));
}

#[test]
fn constant_routine_with_matching_answer_is_correct() {
    let blob = pack(CONSTANT_X, b"X").unwrap();
    assert_eq!(check_blob(&blob, "anything"), Ok(true));
    assert_eq!(check_blob(&blob, ""), Ok(true));
}

#[test]
fn constant_routine_with_other_answer_is_wrong() {
    let blob = pack(CONSTANT_X, b"Y").unwrap();
    assert_eq!(check_blob(&blob, "anything"), Ok(false));
    assert_eq!(check_blob(&blob, "X"), Ok(false));
}

#[test]
fn verifier_sees_the_input() {
    let bc = compile_script(b"return function(s) return string.upper(s) end").unwrap();
    assert_eq!(run_verifier(&bc, "abc"), Ok(b"ABC".to_vec()));
    assert_eq!(verify("abc", &bc, b"ABC"), Ok(true));
    assert_eq!(verify("abd", &bc, b"ABC"), Ok(false));
}

#[test]
fn bad_source_is_a_compile_error() {
    assert_eq!(compile_script(b"return function("), Err(PipelineError::Compile));
    assert_eq!(pack(b"return function(", b"X"), Err(PipelineError::Compile));
}

#[test]
fn raising_routine_is_a_script_error() {
    let bc = compile_script(b"return function(s) error('no') end").unwrap();
    assert_eq!(verify("x", &bc, b"X"), Err(PipelineError::ScriptExecution));
    let bc = compile_script(b"return 42").unwrap();
    assert_eq!(run_verifier(&bc, "x"), Err(PipelineError::ScriptExecution));
}

#[test]
fn pack_draws_fresh_key_and_nonce() {
    let a = pack(CONSTANT_X, b"X").unwrap();
    let b = pack(CONSTANT_X, b"X").unwrap();
    assert_ne!(&a[0..32], &b[0..32]);
    assert_ne!(&a[32..56], &b[32..56]);
}

#[test]
fn answers_match_cases() {
    assert!(answers_match(b"abc", b"abc"));
    assert!(answers_match(b"", b""));
    assert!(!answers_match(b"abc", b"abd"));
    assert!(!answers_match(b"ab", b"abc"));
    assert!(!answers_match(b"abc", b"ab"));
}

#[test]
fn bytecode_is_not_accepted_as_source() {
    let bc = compile_script(CONSTANT_X).unwrap();
    assert_eq!(bc[0], 0x1b);
    assert_eq!(compile_script(&bc), Err(PipelineError::Compile));
}
