use meshanger::encryption::{decrypt_message, derive_key, encrypt_message, generate_key, make_aad, make_nonce};
use sha2::{Digest, Sha256};

#[test]
fn nonce_is_sender_then_counter_then_zeros() {
    let nonce = make_nonce(0x0102030405060708, 0x1112131415161718);
    assert_eq!(
        nonce,
        [
            0x01, 0x02, 0x03, 0x04, 0x05, 0x06, 0x07, 0x08, 0x11, 0x12, 0x13, 0x14, 0x15, 0x16,
            0x17, 0x18, 0, 0, 0, 0, 0, 0, 0, 0
        ]
    );
}

#[test]
fn nonce_of_zero_is_all_zero() {
    assert_eq!(make_nonce(0, 0), [0u8; 24]);
}

#[test]
fn nonces_differ_when_counter_differs() {
    assert_ne!(make_nonce(7, 1), make_nonce(7, 2));
    assert_ne!(make_nonce(1, 7), make_nonce(2, 7));
    assert_ne!(make_nonce(1, 2), make_nonce(2, 1));
}

#[test]
fn aad_is_sender_then_counter() {
    let aad = make_aad(1, 256);
    assert_eq!(aad, vec![0, 0, 0, 0, 0, 0, 0, 1, 0, 0, 0, 0, 0, 0, 1, 0]);
}

#[test]
fn aad_uses_big_endian() {
    assert_eq!(make_aad(u64::MAX, 0), vec![255, 255, 255, 255, 255, 255, 255, 255, 0, 0, 0, 0, 0, 0, 0, 0]);
}

#[test]
fn sealed_message_opens_with_same_key_sender_and_counter() {
    let key = [7u8; 32];
    let ciphertext = encrypt_message(&key, 3, 9, b"hello room");
    assert_eq!(ciphertext.len(), b"hello room".len() + 16);
    assert_ne!(&ciphertext[..10], b"hello room");
    assert_eq!(decrypt_message(&key, 3, 9, &ciphertext), Ok(b"hello room".to_vec()));
}

#[test]
fn empty_message_seals_to_a_tag() {
    let key = [1u8; 32];
    let ciphertext = encrypt_message(&key, 0, 0, b"");
    assert_eq!(ciphertext.len(), 16);
    assert_eq!(decrypt_message(&key, 0, 0, &ciphertext), Ok(Vec::new()));
}

#[test]
fn sealing_is_deterministic_for_same_inputs() {
    let key = [9u8; 32];
    assert_eq!(encrypt_message(&key, 1, 2, b"abc"), encrypt_message(&key, 1, 2, b"abc"));
    assert_ne!(encrypt_message(&key, 1, 2, b"abc"), encrypt_message(&key, 1, 3, b"abc"));
}

#[test]
fn wrong_counter_does_not_open() {
    let key = [7u8; 32];
    let ciphertext = encrypt_message(&key, 3, 9, b"hello");
    assert_eq!(decrypt_message(&key, 3, 10, &ciphertext), Err(String::from("aead::Error")));
}

#[test]
fn wrong_sender_does_not_open() {
    let key = [7u8; 32];
    let ciphertext = encrypt_message(&key, 3, 9, b"hello");
    assert!(decrypt_message(&key, 4, 9, &ciphertext).is_err());
}

#[test]
fn wrong_key_does_not_open() {
    let ciphertext = encrypt_message(&[7u8; 32], 3, 9, b"hello");
    assert_eq!(decrypt_message(&[8u8; 32], 3, 9, &ciphertext), Err(String::from("aead::Error")));
}

#[test]
fn tampered_ciphertext_does_not_open() {
    let key = [7u8; 32];
    let mut ciphertext = encrypt_message(&key, 3, 9, b"hello");
    ciphertext[0] ^= 1;
    assert!(decrypt_message(&key, 3, 9, &ciphertext).is_err());
}

#[test]
fn short_ciphertext_does_not_open() {
    assert!(decrypt_message(&[0u8; 32], 0, 0, &[1, 2, 3]).is_err());
}

#[test]
fn derived_key_is_sha256_of_random_then_input() {
    let random = [5u8; 32];
    let key = derive_key(&random, "context");
    let mut data = random.to_vec();
    data.extend_from_slice(b"context");
    let expected: [u8; 32] = Sha256::digest(&data).into();
    assert_eq!(key, expected);
    assert_ne!(key, random);
}

#[test]
fn derived_key_of_empty_input_hashes_random_alone() {
    let random = [0u8; 32];
    let expected: [u8; 32] = Sha256::digest(&random).into();
    assert_eq!(derive_key(&random, ""), expected);
}

#[test]
fn derived_key_uses_utf8_bytes() {
    let random = [1u8; 32];
    let mut data = random.to_vec();
    data.extend_from_slice("é".as_bytes());
    let expected: [u8; 32] = Sha256::digest(&data).into();
    assert_eq!(derive_key(&random, "é"), expected);
}

#[test]
fn generated_keys_differ() {
    let a = generate_key("ctx").expect("randomness");
    let b = generate_key("ctx").expect("randomness");
    assert_ne!(a, b);
}
