use anyplug::crypto::{
    agree, decrypt, decrypt_with_key_bytes, derive_session_key, encrypt_message,
    encrypt_with_key_bytes, generate_key_pair, hex_decode, hex_encode, CryptoError,
};

#[test]
fn test_key_exchange_roundtrip() {
    let (alice_pub, alice_priv) = generate_key_pair().unwrap();
    let (bob_pub, bob_priv) = generate_key_pair().unwrap();
    let alice_secret = agree(alice_priv, &bob_pub).unwrap();
    let bob_secret = agree(bob_priv, &alice_pub).unwrap();
    assert_eq!(alice_secret, bob_secret);
}

#[test]
fn test_encrypt_decrypt() {
    let (_, priv_bytes) = generate_key_pair().unwrap();
    let (_, _peer_priv) = generate_key_pair().unwrap();
    let (peer_pub, _) = generate_key_pair().unwrap();
    let shared = agree(priv_bytes, &peer_pub).unwrap();
    let key = derive_session_key(&shared).unwrap();
    let plaintext = b"Hello, USB/IP!";
    let encrypted = encrypt_message(&key, plaintext).unwrap();
    let decrypted = decrypt(&key, &encrypted).unwrap();
    assert_eq!(plaintext.as_slice(), &decrypted);
}

#[test]
fn test_hex_roundtrip() {
    let original = vec![0xde, 0xad, 0xbe, 0xef];
    let hex = hex_encode(&original);
    let decoded = hex_decode(&hex).unwrap();
    assert_eq!(original, decoded);
}

#[test]
fn hex_encode_is_lower_case_pairs() {
    assert_eq!(hex_encode(&[0x00, 0x0f, 0xa0, 0xff]), "000fa0ff");
    assert_eq!(hex_encode(&[]), "");
}

#[test]
fn hex_decode_rejects_bad_text() {
    assert!(hex_decode("abc").is_none());
    assert!(hex_decode("zz").is_none());
    assert_eq!(hex_decode("0A0b").unwrap(), vec![0x0a, 0x0b]);
}

#[test]
fn agree_rejects_short_peer_key() {
    let (_, private) = generate_key_pair().unwrap();
    assert_eq!(agree(private, &[1, 2, 3]).unwrap_err(), CryptoError::KeyAgreement);
}

#[test]
fn sealed_frame_is_nonce_length_nonce_then_ciphertext() {
    let key = [7u8; 32];
    let ct = encrypt_with_key_bytes(&key, b"abc").unwrap();
    assert_eq!(ct.len(), 3 + 32);
    assert_eq!(&ct[0..4], &[0, 0, 0, 12]);
    assert_eq!(decrypt_with_key_bytes(&key, &ct).unwrap(), b"abc".to_vec());
    let mut tampered = ct.clone();
    tampered[20] ^= 1;
    assert!(decrypt_with_key_bytes(&key, &tampered).is_err());
    assert!(encrypt_with_key_bytes(&[1u8; 31], b"x").is_err());
}
