use askkit::cipher::{encrypt_then_decrypt, KeyringAesGcmCipher};
use askkit::error::AppError;

fn test_key() -> Vec<u8> {
    (0u8..32u8).collect()
}

#[test]
fn round_trip_bytes() {
    let cipher = KeyringAesGcmCipher::from_key(test_key());
    let plaintext: Vec<u8> = b"attack at dawn".to_vec();
    let recovered = encrypt_then_decrypt(&cipher, &plaintext);
    assert_eq!(recovered, plaintext);
}

#[test]
fn round_trip_empty() {
    let cipher = KeyringAesGcmCipher::from_key(test_key());
    let plaintext: Vec<u8> = Vec::new();
    let recovered = encrypt_then_decrypt(&cipher, &plaintext);
    assert_eq!(recovered, plaintext);
}

#[test]
fn ciphertext_layout() {
    let cipher = KeyringAesGcmCipher::from_key(test_key());
    let plaintext: Vec<u8> = b"xyz".to_vec();
    let ct = cipher.encrypt(&plaintext).unwrap();
    // 12-byte nonce + payload + 16-byte tag
    assert_eq!(ct.len(), plaintext.len() + 28);
    let pt = cipher.decrypt(&ct).unwrap();
    assert_eq!(pt, plaintext);
}

#[test]
fn truncated_ciphertext_is_decode_error() {
    let cipher = KeyringAesGcmCipher::from_key(test_key());
    for n in 0..12usize {
        let short: Vec<u8> = vec![7u8; n];
        assert_eq!(cipher.decrypt(&short), Err(AppError::AesGcm));
    }
}

#[test]
fn tampered_ciphertext_fails() {
    let cipher = KeyringAesGcmCipher::from_key(test_key());
    let mut ct = cipher.encrypt(&b"secret".to_vec()).unwrap();
    let last = ct.len() - 1;
    ct[last] ^= 0x01;
    assert_eq!(cipher.decrypt(&ct), Err(AppError::AesGcm));
}

#[test]
fn wrong_key_fails() {
    let cipher = KeyringAesGcmCipher::from_key(test_key());
    let other = KeyringAesGcmCipher::from_key(vec![9u8; 32]);
    let ct = cipher.encrypt(&b"secret".to_vec()).unwrap();
    assert_eq!(other.decrypt(&ct), Err(AppError::AesGcm));
}

#[test]
fn round_trip_text() {
    let cipher = KeyringAesGcmCipher::from_key(test_key());
    let ct = cipher.encrypt_str_base64("gsk_SECRET-REDACTED").unwrap();
    let pt = cipher.decrypt_base64_str(&ct).unwrap();
    assert_eq!(pt, "gsk_SECRET-REDACTED");
}

#[test]
fn bad_base64_is_decode_error() {
    let cipher = KeyringAesGcmCipher::from_key(test_key());
    assert_eq!(
        cipher.decrypt_base64_str("not//valid==base64!!"),
        Err(AppError::Base64Decode)
    );
}

#[test]
fn base64_of_truncated_ciphertext_is_aead_error() {
    let cipher = KeyringAesGcmCipher::from_key(test_key());
    // "AAAA" decodes to three zero bytes: shorter than one nonce.
    assert_eq!(cipher.decrypt_base64_str("AAAA"), Err(AppError::AesGcm));
}

#[test]
fn error_kinds_are_stable() {
    assert_eq!(AppError::AesGcm.kind(), "AesGcmError");
    assert_eq!(AppError::TransactionInUse.kind(), "TransactionInUse");
    assert_eq!(AppError::AgentRequired.kind(), "AgentRequiredError");
    assert_eq!(AppError::Json.kind(), "JsonError");
}
