use rua_just_in_time::blob::parse_blob;
use rua_just_in_time::blob::serialize_blob;

fn sample() -> (Vec<u8>, Vec<u8>, Vec<u8>, Vec<u8>) {
    let key: Vec<u8> = (0..32).collect();
    let nonce: Vec<u8> = (100..124).collect();
    let enc: Vec<u8> = vec![9, 8, 7, 6, 5];
    let obf: Vec<u8> = vec![1, 2, 3];
    (key, nonce, enc, obf)
}

#[test]
fn serialized_layout() {
    let (key, nonce, enc, obf) = sample();
    let b = serialize_blob(&key, &nonce, &enc, &obf);
    assert_eq!(b.len(), 32 + 24 + 4 + 5 + 4 + 3);
    assert_eq!(&b[0..32], &key[..]);
    assert_eq!(&b[32..56], &nonce[..]);
    assert_eq!(&b[56..60], &[5, 0, 0, 0]);
    assert_eq!(&b[60..65], &enc[..]);
    assert_eq!(&b[65..69], &[3, 0, 0, 0]);
    assert_eq!(&b[69..72], &obf[..]);
}

#[test]
fn parse_recovers_fields() {
    let (key, nonce, enc, obf) = sample();
    let b = serialize_blob(&key, &nonce, &enc, &obf);
    let p = parse_blob(&b).expect("well-formed blob");
    assert_eq!(p.key, key);
    assert_eq!(p.nonce, nonce);
    assert_eq!(p.encrypted, enc);
    assert_eq!(p.obfuscated, obf);
}

#[test]
fn parse_ignores_trailing_bytes() {
    let (key, nonce, enc, obf) = sample();
    let mut b = serialize_blob(&key, &nonce, &enc, &obf);
    b.extend_from_slice(&[0xaa, 0xbb]);
    let p = parse_blob(&b).expect("well-formed blob");
    assert_eq!(p.encrypted, enc);
    assert_eq!(p.obfuscated, obf);
}

#[test]
fn every_truncation_is_corrupt() {
    let (key, nonce, enc, obf) = sample();
    let b = serialize_blob(&key, &nonce, &enc, &obf);
    for cut in 1..=b.len() {
        assert!(parse_blob(&b[..b.len() - cut]).is_none(), "cut {}", cut);
    }
}

#[test]
fn empty_sections() {
    let key = vec![0u8; 32];
    let nonce = vec![0u8; 24];
    let b = serialize_blob(&key, &nonce, &[], &[]);
    assert_eq!(b.len(), 64);
    let p = parse_blob(&b).expect("well-formed blob");
    assert!(p.encrypted.is_empty());
    assert!(p.obfuscated.is_empty());
}

#[test]
fn oversized_declared_length_is_corrupt() {
    let mut b = vec![0u8; 64];
    b[56..60].copy_from_slice(&0xffff_ffffu32.to_le_bytes());
    assert!(parse_blob(&b).is_none());
}
