use base64::Engine;
use secure_vault::crypto::{decrypt_json, encrypt_json};
use secure_vault::errors::VaultError;

#[test]
fn round_trip_returns_plaintext() {
    let blob = encrypt_json("[]", "Correct1!").unwrap();
    let back = decrypt_json(&blob, "Correct1!").unwrap();
    assert_eq!(back, "[]");
}

#[test]
fn round_trip_larger_payload() {
    let payload = "[{\"site\":\"example.com\",\"username\":\"alice\",\"password\":\"S3cret!pw\"}]";
    let blob = encrypt_json(payload, "Master#Pass9").unwrap();
    let back = decrypt_json(&blob, "Master#Pass9").unwrap();
    assert_eq!(back, payload);
}

#[test]
fn round_trip_non_ascii_plaintext() {
    let payload = "entr\u{e9}e \u{2603} caf\u{e9}";
    let blob = encrypt_json(payload, "Winter!Pass7").unwrap();
    let back = decrypt_json(&blob, "Winter!Pass7").unwrap();
    assert_eq!(back, payload);
}

#[test]
fn concrete_scenario_blob_shape() {
    let blob = encrypt_json("[]", "Correct1!").unwrap();
    assert!(blob.len() >= 40);
    assert_eq!(decrypt_json(&blob, "Correct1!").unwrap(), "[]");
    assert!(decrypt_json(&blob, "Wrong1!!").is_err());
}

#[test]
fn wrong_password_is_opaque_error() {
    let blob = encrypt_json("top secret", "RightPass1!").unwrap();
    let err = decrypt_json(&blob, "WrongPass1!").unwrap_err();
    assert_eq!(err, VaultError::Decryption);
}

#[test]
fn two_encryptions_differ() {
    let a = encrypt_json("same plaintext", "SamePass1!").unwrap();
    let b = encrypt_json("same plaintext", "SamePass1!").unwrap();
    assert_ne!(a, b);
}

#[test]
fn blob_decodes_to_framed_bytes() {
    let blob = encrypt_json("[]", "Correct1!").unwrap();
    let data = base64::engine::general_purpose::STANDARD
        .decode(blob.as_bytes())
        .unwrap();
    // salt(16) + nonce(12) + ciphertext(2) + tag(16)
    assert_eq!(data.len(), 46);
}

#[test]
fn tampered_blob_fails_in_every_region() {
    let blob = encrypt_json("[]", "Correct1!").unwrap();
    let data = base64::engine::general_purpose::STANDARD
        .decode(blob.as_bytes())
        .unwrap();
    // one byte inside the salt, the nonce, the ciphertext, and the tag
    for &pos in &[0usize, 16, 28, data.len() - 1] {
        let mut bad = data.clone();
        bad[pos] ^= 0x01;
        let bad_blob = base64::engine::general_purpose::STANDARD.encode(&bad);
        let err = decrypt_json(&bad_blob, "Correct1!").unwrap_err();
        assert_eq!(err, VaultError::Decryption);
    }
}

#[test]
fn tampered_text_fails() {
    let blob = encrypt_json("[]", "Correct1!").unwrap();
    let mut chars: Vec<char> = blob.chars().collect();
    let first = chars[0];
    chars[0] = if first == 'A' { 'B' } else { 'A' };
    let bad_blob: String = chars.into_iter().collect();
    assert!(decrypt_json(&bad_blob, "Correct1!").is_err());
}

#[test]
fn invalid_encoding_fails() {
    let err = decrypt_json("@@@ not base64 @@@", "Correct1!").unwrap_err();
    assert_eq!(err, VaultError::Decryption);
}

#[test]
fn short_blob_fails() {
    // valid base64, but fewer than 28 decoded bytes
    let short = base64::engine::general_purpose::STANDARD.encode([0u8; 20]);
    let err = decrypt_json(&short, "Correct1!").unwrap_err();
    assert_eq!(err, VaultError::Decryption);
}

#[test]
fn empty_blob_fails() {
    let err = decrypt_json("", "Correct1!").unwrap_err();
    assert_eq!(err, VaultError::Decryption);
}
