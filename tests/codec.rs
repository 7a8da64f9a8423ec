use rua_just_in_time::codec::decode_byte;
use rua_just_in_time::codec::decode_bytes;
use rua_just_in_time::codec::encode_byte;
use rua_just_in_time::codec::encode_bytes;

#[test]
fn every_byte_round_trips() {
    for b in 0..=255u8 {
        assert_eq!(decode_byte(encode_byte(b)), b);
        assert_eq!(encode_byte(decode_byte(b)), b);
    }
}

#[test]
fn transform_is_a_bijection() {
    let mut seen = [false; 256];
    for b in 0..=255u8 {
        let e = encode_byte(b) as usize;
        assert!(!seen[e]);
        seen[e] = true;
    }
}

#[test]
fn zero_byte_golden_value() {
    let expected = ((0u8.wrapping_add(4)) ^ 0x17).rotate_right(1);
    assert_eq!(expected, 0x89);
    assert_eq!(encode_byte(0x00), expected);
    assert_eq!(decode_byte(0x89), 0x00);
}

#[test]
fn transform_matches_formula_for_all_bytes() {
    for b in 0..=255u8 {
        assert_eq!(encode_byte(b), (b.wrapping_add(4) ^ 0x17).rotate_right(1));
    }
}

#[test]
fn sequence_round_trips() {
    let answer = b"kctf-jr{2ba0fc74c0db3117617f5343f7269ce7612324b541c881f53ac2693812c1884b}";
    let enc = encode_bytes(answer);
    assert_eq!(enc.len(), answer.len());
    assert_ne!(enc.as_slice(), &answer[..]);
    assert_eq!(decode_bytes(&enc), answer.to_vec());
}

#[test]
fn empty_sequence_round_trips() {
    assert!(encode_bytes(&[]).is_empty());
    assert!(decode_bytes(&[]).is_empty());
}

#[test]
fn encode_bytes_example() {
    assert_eq!(encode_bytes(b"X"), vec![encode_byte(b'X')]);
    assert_eq!(encode_bytes(&[0, 0]), vec![0x89, 0x89]);
}
