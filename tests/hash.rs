use cuid1::{encode_digest, hash, CuidError};

#[test]
fn encode_digest_exact() {
    assert_eq!(encode_digest(&[1, 0], 2), Ok("74".to_string()));
    assert_eq!(encode_digest(&[1, 0], 1), Ok("7".to_string()));
    assert_eq!(encode_digest(&[0, 35], 1), Ok("z".to_string()));
}

#[test]
fn encode_digest_of_zero() {
    assert_eq!(encode_digest(&[], 1), Ok("0".to_string()));
    assert_eq!(encode_digest(&[0, 0, 0], 1), Ok("0".to_string()));
    assert_eq!(encode_digest(&[0, 0, 0], 0), Ok(String::new()));
}

#[test]
fn encode_digest_too_long() {
    assert_eq!(encode_digest(&[1, 0], 3), Err(CuidError::EncodingLengthError));
    assert_eq!(encode_digest(&[], 2), Err(CuidError::EncodingLengthError));
}

#[test]
fn hash_of_empty_input_exact() {
    let expected = "qhwy9hczxnhp8h02w8vk5ozzfbicdzl7bm3tokbnp700ruweb66gvvn2smv2u019fy0avhunqj6eta7kgi9qwexyqb5aufudz52";
    assert_eq!(hash(&[Vec::new()], 99), Ok(expected.to_string()));
    assert_eq!(hash(&[], 10), Ok(expected[..10].to_string()));
}

#[test]
fn hash_digests_before_encoding() {
    // Written in base 36 without digesting, these bytes would read "74".
    let r = hash(&[vec![1, 0]], 2).unwrap();
    assert_eq!(r, "6h");
    assert_ne!(r, "74");
}

#[test]
fn hash_single_bytes_differ() {
    let zero = hash(&[vec![0x00]], 4).unwrap();
    let one = hash(&[vec![0x01]], 4).unwrap();
    assert_eq!(zero, "hzt7");
    assert_eq!(one, "v8ho");
    assert_ne!(zero, one);
}

#[test]
fn hash_is_deterministic() {
    let blocks = vec![vec![9, 8, 7], vec![6, 5], vec![]];
    assert_eq!(hash(&blocks, 20), hash(&blocks, 20));
}

#[test]
fn hash_reads_blocks_in_order_as_one_stream() {
    let split = hash(&[b"ab".to_vec(), b"c".to_vec()], 12);
    let whole = hash(&[b"abc".to_vec()], 12);
    assert_eq!(split, Ok("t5hwonfuv75s".to_string()));
    assert_eq!(split, whole);
    assert_ne!(hash(&[b"c".to_vec(), b"ab".to_vec()], 12), whole);
}

#[test]
fn hash_length_and_alphabet() {
    for length in 0..=99u16 {
        let r = hash(&[vec![3, 1, 4, 1, 5]], length);
        if let Ok(s) = r {
            assert_eq!(s.len(), length as usize);
            assert!(s.chars().all(|c| c.is_ascii_digit() || c.is_ascii_lowercase()));
        }
    }
    let s = hash(&[vec![3, 1, 4, 1, 5]], 90).unwrap();
    assert_eq!(s.len(), 90);
}

#[test]
fn hash_longer_than_any_digest_fails() {
    assert_eq!(hash(&[vec![0x00]], 101), Err(CuidError::EncodingLengthError));
    assert_eq!(hash(&[vec![0xff; 16]], 500), Err(CuidError::EncodingLengthError));
    assert_eq!(hash(&[], u16::MAX), Err(CuidError::EncodingLengthError));
}

#[test]
fn hash_longer_than_this_digest_fails() {
    // This digest has 99 base-36 digits; a 100th is never padded in.
    assert_eq!(hash(&[vec![0x00]], 100), Err(CuidError::EncodingLengthError));
    assert_eq!(hash(&[Vec::new()], 100), Err(CuidError::EncodingLengthError));
}

#[test]
fn hash_changes_with_any_single_byte() {
    let base: Vec<u8> = (0..16u8).collect();
    let reference = hash(&[vec![0xaa; 4], base.clone()], 12).unwrap();
    for i in 0..base.len() {
        let mut changed = base.clone();
        changed[i] ^= 0x01;
        let other = hash(&[vec![0xaa; 4], changed], 12).unwrap();
        assert_ne!(other, reference);
    }
}
