//! Key derivation against a known digest, and the sealed file format.

use host_discovery::crypto::{
    decrypt_payload, derive_key_from_machine_id, derive_key_from_string, encrypt_payload,
};

#[test]
fn derived_key_matches_the_sha256_digest() {
    // SHA-256 of b"test-machine-netmapper-2026-secure-aes256-gcm".
    let expected: [u8; 32] = [
        152, 19, 144, 235, 79, 165, 180, 216, 97, 142, 12, 23, 0, 3, 213, 7, 87, 51, 204, 11,
        134, 105, 110, 96, 56, 195, 227, 83, 224, 213, 165, 76,
    ];
    let key = derive_key_from_machine_id("test-machine");
    assert_eq!(key.len(), 32);
    assert_eq!(key.as_slice(), &expected);
    // The same machine identifier derives the same key.
    let again = derive_key_from_machine_id("test-machine");
    assert_eq!(key, again);
}

#[test]
fn string_key_matches_the_sha256_digest() {
    // SHA-256 of b"hello".
    let expected: [u8; 32] = [
        44, 242, 77, 186, 95, 176, 163, 14, 38, 232, 59, 42, 197, 185, 226, 158, 27, 22, 30, 92, 31, 167, 66, 94, 115, 4, 51, 98, 147, 139, 152, 36,
    ];
    let key = derive_key_from_string("hello");
    assert_eq!(key.len(), 32);
    // A digest, not the input echoed back.
    assert_ne!(&key[0..5], b"hello");
    assert_eq!(key.as_slice(), &expected);
}

#[test]
fn encrypt_decrypt_roundtrip() {
    let key = derive_key_from_machine_id("test-machine");
    let nonce: Vec<u8> = vec![7; 12];
    let payload = b"This is a test database with some data".to_vec();
    let sealed = encrypt_payload(key.as_slice(), nonce.as_slice(), payload.as_slice())
        .expect("sealing succeeds");
    assert_eq!(sealed.len(), payload.len() + 28);
    assert_eq!(&sealed[0..12], nonce.as_slice());
    // The ciphertext is not the plaintext.
    assert_ne!(&sealed[12..12 + payload.len()], payload.as_slice());
    let opened = decrypt_payload(key.as_slice(), sealed.as_slice()).expect("opening succeeds");
    assert_eq!(opened, payload);
}

#[test]
fn tampered_payload_is_rejected() {
    let key = derive_key_from_machine_id("test-machine");
    let nonce: Vec<u8> = vec![9; 12];
    let payload = b"secret".to_vec();
    let mut sealed = encrypt_payload(key.as_slice(), nonce.as_slice(), payload.as_slice())
        .expect("sealing succeeds");
    let last = sealed.len() - 1;
    sealed[last] ^= 0x01;
    assert!(decrypt_payload(key.as_slice(), sealed.as_slice()).is_err());
    // A different key is rejected too.
    let other = derive_key_from_machine_id("other-machine");
    let sealed_ok = encrypt_payload(key.as_slice(), nonce.as_slice(), payload.as_slice())
        .expect("sealing succeeds");
    assert!(decrypt_payload(other.as_slice(), sealed_ok.as_slice()).is_err());
}

#[test]
fn too_short_data_is_rejected_outright() {
    let key = derive_key_from_machine_id("test-machine");
    let r = decrypt_payload(key.as_slice(), &[1, 2, 3]);
    assert_eq!(r.err().as_deref(), Some("Invalid encrypted file: too short"));
}
