use base64::Engine;
use wsp::crypto::{
    decrypt_message, encrypt_message, open_with_password, seal_with_password, CryptoError, Identity,
};
use wsp::encoding::hex_encode;
use wsp::protocol::{generate_group_id, generate_session_id, PlainMessage};

#[test]
fn test_key_exchange() {
    let alice = Identity::generate();
    let bob = Identity::generate();

    let alice_shared = alice.key_exchange(&bob.public_key_bytes()).unwrap();
    let bob_shared = bob.key_exchange(&alice.public_key_bytes()).unwrap();

    assert_eq!(alice_shared, bob_shared);
}

#[test]
fn test_encryption() {
    let key = vec![0u8; 32];
    let message = b"Hello, World!";

    let (nonce, ciphertext) = encrypt_message(&key, message).unwrap();
    let plaintext = decrypt_message(&key, &nonce, &ciphertext).unwrap();

    assert_eq!(plaintext, message);
}

#[test]
fn test_encryption_rejects_bad_inputs() {
    let key = vec![9u8; 32];
    let (nonce, ct) = encrypt_message(&key, b"secret").unwrap();
    assert_eq!(nonce.len(), 12);
    assert_ne!(ct, b"secret".to_vec(), "ciphertext must differ from plaintext");

    // Wrong key length.
    assert_eq!(encrypt_message(&[1u8; 16], b"x").unwrap_err(), CryptoError::InvalidKeyLength);
    assert_eq!(
        decrypt_message(&[1u8; 16], &nonce, &ct).unwrap_err(),
        CryptoError::InvalidKeyLength
    );
    // Wrong nonce length.
    assert_eq!(decrypt_message(&key, &nonce[..4], &ct).unwrap_err(), CryptoError::InvalidNonceLength);
    // Wrong key: authentication fails.
    assert_eq!(decrypt_message(&[1u8; 32], &nonce, &ct).unwrap_err(), CryptoError::AeadFailure);
    // Tampered ciphertext: authentication fails.
    let mut bad = ct.clone();
    bad[0] = bad[0].wrapping_add(1);
    assert_eq!(decrypt_message(&key, &nonce, &bad).unwrap_err(), CryptoError::AeadFailure);
}

#[test]
fn test_identity_roundtrip_through_secret_bytes() {
    let id = Identity::generate();
    let copy = Identity::from_secret_bytes(id.secret_key_bytes()).unwrap();
    assert_eq!(copy.public_key_bytes(), id.public_key_bytes());
    assert!(Identity::from_secret_bytes(vec![1u8; 5]).is_err());
}

#[test]
fn test_public_key_b64_matches_standard_engine() {
    let id = Identity::generate();
    let expected = base64::engine::general_purpose::STANDARD.encode(id.public_key_bytes());
    assert_eq!(id.public_key_b64(), expected);
}

#[test]
fn test_password_sealed_blob_roundtrip() {
    let secret = b"identity record bytes";
    let sealed = seal_with_password(b"hunter2", secret);
    assert_eq!(sealed.len(), secret.len() + 28);

    let opened = open_with_password(b"hunter2", &sealed).unwrap();
    assert_eq!(opened, secret.to_vec());

    // A wrong password fails authentication; a short blob is rejected outright.
    assert_eq!(open_with_password(b"hunter3", &sealed).unwrap_err(), CryptoError::AeadFailure);
    assert_eq!(open_with_password(b"hunter2", &sealed[..10]).unwrap_err(), CryptoError::BlobTooShort);
}

#[test]
fn test_hex_encoding() {
    assert_eq!(hex_encode(&[]), "");
    assert_eq!(hex_encode(&[0x00, 0x0f, 0xa5, 0xff]), "000fa5ff");

    let id = PlainMessage::generate_id();
    assert_eq!(id.len(), 16);
    assert!(id.chars().all(|c| c.is_ascii_hexdigit()));

    let sid = generate_session_id();
    assert_eq!(sid.len(), 32);
    assert!(sid.chars().all(|c| c.is_ascii_hexdigit()));

    let gid = generate_group_id();
    assert_eq!(gid.len(), 32);
    assert!(gid.chars().all(|c| c.is_ascii_hexdigit()));
}

#[test]
fn test_byte_order_helpers() {
    assert!(wsp::bytes_eq(b"abc", b"abc"));
    assert!(!wsp::bytes_eq(b"abc", b"abd"));
    assert!(!wsp::bytes_eq(b"abc", b"ab"));
    assert!(wsp::bytes_lt(b"abc", b"abd"));
    assert!(wsp::bytes_lt(b"ab", b"abc"));
    assert!(!wsp::bytes_lt(b"abc", b"abc"));
    assert!(!wsp::bytes_lt(b"b", b"abc"));
}
