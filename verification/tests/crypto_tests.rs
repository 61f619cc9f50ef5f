use dealer_store::crypto::{decrypt_data, encrypt_data, generate_encryption_key};

#[test]
fn test_encryption_roundtrip() {
    let key = generate_encryption_key().unwrap();
    let original = "my-secret-session-token-12345".to_string();

    let encrypted = encrypt_data(original.clone(), key.clone()).unwrap();
    let decrypted = decrypt_data(encrypted, key).unwrap();

    assert_eq!(original, decrypted);
}

#[test]
fn test_different_keys_fail() {
    let key1 = generate_encryption_key().unwrap();
    let key2 = generate_encryption_key().unwrap();
    let data = "secret".to_string();

    let encrypted = encrypt_data(data, key1).unwrap();
    let result = decrypt_data(encrypted, key2);

    assert!(result.is_err());
}

#[test]
fn ciphertext_differs_from_plaintext_and_carries_overhead() {
    let key = generate_encryption_key().unwrap();
    let original = "hello".to_string();
    let encrypted = encrypt_data(original.clone(), key).unwrap();
    assert_ne!(encrypted, original);
    // frame: base64(nonce 12 ++ ciphertext (5 + 16 tag)) = base64 of 33 bytes
    assert_eq!(encrypted.len(), 44);
}

#[test]
fn malformed_keys_are_rejected() {
    assert!(encrypt_data("x".to_string(), "not base64!!!".to_string()).is_err());
    // valid base64 of the wrong length
    assert!(encrypt_data("x".to_string(), "AAAA".to_string()).is_err());
    assert!(decrypt_data("AAAA".to_string(), "not base64!!!".to_string()).is_err());
}

#[test]
fn truncated_frames_are_rejected() {
    let key = generate_encryption_key().unwrap();
    // too short to even hold a nonce
    assert!(decrypt_data("AAAA".to_string(), key.clone()).is_err());
    // tampering with the frame breaks the authentication tag
    let encrypted = encrypt_data("payload".to_string(), key.clone()).unwrap();
    let mut bytes: Vec<char> = encrypted.chars().collect();
    let first = bytes[0];
    bytes[0] = if first == 'A' { 'B' } else { 'A' };
    let tampered: String = bytes.into_iter().collect();
    assert!(decrypt_data(tampered, key).is_err());
}

#[test]
fn generated_keys_decode_to_32_bytes() {
    // 32 bytes in standard padded base64 is 44 characters
    let key = generate_encryption_key().unwrap();
    assert_eq!(key.len(), 44);
}
