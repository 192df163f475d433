use aes_gcm::aead::Aead;
use aes_gcm::KeyInit;
use base64::Engine;
use ed25519_dalek::Verifier;
use sha2::Digest;
use vaultsyn::keygen::{check_identity, generate_identity, Identity};
use vaultsyn::message::{
    try_decrypt_and_verify_message, try_encrypt_and_sign_message, DecodeError, MessageEnvelope,
};

fn b64_decode(s: &str) -> Vec<u8> {
    base64::prelude::BASE64_STANDARD.decode(s).unwrap()
}

fn b64_encode(b: &[u8]) -> String {
    base64::prelude::BASE64_STANDARD.encode(b)
}

#[test]
fn generated_identity_checks_out() {
    let id = generate_identity("alice".to_string());
    assert_eq!(id.username, "alice");
    assert!(check_identity(&id));
    // 32 bytes of standard padded base64 are 44 characters ending in `=`.
    assert_eq!(id.ed25519_public.len(), 44);
    assert!(id.ed25519_public.ends_with('='));
    assert_eq!(b64_decode(&id.ed25519_public).len(), 32);
    assert_eq!(b64_decode(&id.x25519_private).len(), 32);
}

#[test]
fn corrupt_identity_rejected() {
    let mut id = generate_identity("alice".to_string());
    id.x25519_public = id.ed25519_public.clone();
    assert!(!check_identity(&id));
    let mut id2 = generate_identity("bob".to_string());
    id2.ed25519_private = "not base64!".to_string();
    assert!(!check_identity(&id2));
}

#[test]
fn round_trip_hello() {
    let a = generate_identity("alice".to_string());
    let b = generate_identity("bob".to_string());
    let env = try_encrypt_and_sign_message(&a, &b.x25519_public, "hello").unwrap();
    assert_eq!(env.from, "alice");
    let out = try_decrypt_and_verify_message(&env, &b, &a.ed25519_public, &a.x25519_public);
    assert_eq!(out.unwrap(), "hello");
}

#[test]
fn round_trip_empty_string() {
    let a = generate_identity("alice".to_string());
    let b = generate_identity("bob".to_string());
    let env = try_encrypt_and_sign_message(&a, &b.x25519_public, "").unwrap();
    let out = try_decrypt_and_verify_message(&env, &b, &a.ed25519_public, &a.x25519_public);
    assert_eq!(out.unwrap(), "");
}

#[test]
fn round_trip_multibyte() {
    let a = generate_identity("alice".to_string());
    let b = generate_identity("bob".to_string());
    let msg = "héllo wörld — ☂ 🌍 λ";
    let env = try_encrypt_and_sign_message(&a, &b.x25519_public, msg).unwrap();
    let out = try_decrypt_and_verify_message(&env, &b, &a.ed25519_public, &a.x25519_public);
    assert_eq!(out.unwrap(), msg);
}

#[test]
fn nonce_uniqueness() {
    let a = generate_identity("alice".to_string());
    let b = generate_identity("bob".to_string());
    let e1 = try_encrypt_and_sign_message(&a, &b.x25519_public, "same text").unwrap();
    let e2 = try_encrypt_and_sign_message(&a, &b.x25519_public, "same text").unwrap();
    assert_ne!(e1.nonce, e2.nonce);
    assert_ne!(e1.ciphertext, e2.ciphertext);
}

fn sealed_pair() -> (Identity, Identity, MessageEnvelope) {
    let a = generate_identity("alice".to_string());
    let b = generate_identity("bob".to_string());
    let env = try_encrypt_and_sign_message(&a, &b.x25519_public, "hello").unwrap();
    (a, b, env)
}

#[test]
fn tamper_any_ciphertext_bit_fails_decryption() {
    let (a, b, env) = sealed_pair();
    let ct = b64_decode(&env.ciphertext);
    for byte in 0..ct.len() {
        for bit in 0..8 {
            let mut bad = ct.clone();
            bad[byte] ^= 1u8 << bit;
            let mut tampered = env.clone();
            tampered.ciphertext = b64_encode(&bad);
            let out =
                try_decrypt_and_verify_message(&tampered, &b, &a.ed25519_public, &a.x25519_public);
            assert_eq!(out.unwrap_err(), DecodeError::DecryptionFailure);
        }
    }
}

#[test]
fn tamper_any_nonce_bit_fails_decryption() {
    let (a, b, env) = sealed_pair();
    let nonce = b64_decode(&env.nonce);
    assert_eq!(nonce.len(), 12);
    for byte in 0..nonce.len() {
        for bit in 0..8 {
            let mut bad = nonce.clone();
            bad[byte] ^= 1u8 << bit;
            let mut tampered = env.clone();
            tampered.nonce = b64_encode(&bad);
            let out =
                try_decrypt_and_verify_message(&tampered, &b, &a.ed25519_public, &a.x25519_public);
            assert_eq!(out.unwrap_err(), DecodeError::DecryptionFailure);
        }
    }
}

#[test]
fn corrupt_last_nonce_byte_fails_decryption() {
    let (a, b, env) = sealed_pair();
    let mut nonce = b64_decode(&env.nonce);
    let last = nonce.len() - 1;
    nonce[last] ^= 0xff;
    let mut tampered = env.clone();
    tampered.nonce = b64_encode(&nonce);
    let out = try_decrypt_and_verify_message(&tampered, &b, &a.ed25519_public, &a.x25519_public);
    assert_eq!(out.unwrap_err(), DecodeError::DecryptionFailure);
}

#[test]
fn key_mismatch_fails_decryption() {
    let (a, _b, env) = sealed_pair();
    let c = generate_identity("carol".to_string());
    let out = try_decrypt_and_verify_message(&env, &c, &a.ed25519_public, &a.x25519_public);
    assert_eq!(out.unwrap_err(), DecodeError::DecryptionFailure);
}

#[test]
fn signature_binding() {
    let (a, b, env) = sealed_pair();
    let c = generate_identity("carol".to_string());
    // Right DH pairing, wrong signing key: decryption passes, the
    // signature check does not.
    let out = try_decrypt_and_verify_message(&env, &b, &c.ed25519_public, &a.x25519_public);
    assert_eq!(out.unwrap_err(), DecodeError::SignatureInvalid);
}

#[test]
fn malformed_key_fields_are_key_decode_errors() {
    let (a, b, env) = sealed_pair();
    let out = try_decrypt_and_verify_message(&env, &b, &a.ed25519_public, "not base64!");
    assert_eq!(out.unwrap_err(), DecodeError::KeyDecodeError);
    let short = b64_encode(&[1u8, 2, 3]);
    let out = try_decrypt_and_verify_message(&env, &b, &a.ed25519_public, &short);
    assert_eq!(out.unwrap_err(), DecodeError::KeyDecodeError);
    let out = try_decrypt_and_verify_message(&env, &b, "###", &a.x25519_public);
    assert_eq!(out.unwrap_err(), DecodeError::KeyDecodeError);
    let mut bad_nonce = env.clone();
    bad_nonce.nonce = b64_encode(&[0u8; 11]);
    let out = try_decrypt_and_verify_message(&bad_nonce, &b, &a.ed25519_public, &a.x25519_public);
    assert_eq!(out.unwrap_err(), DecodeError::KeyDecodeError);
    let mut bad_sig = env.clone();
    bad_sig.signature = b64_encode(&[0u8; 63]);
    let out = try_decrypt_and_verify_message(&bad_sig, &b, &a.ed25519_public, &a.x25519_public);
    assert_eq!(out.unwrap_err(), DecodeError::KeyDecodeError);
}

#[test]
fn bad_sender_keys_refuse_sealing() {
    let mut a = generate_identity("alice".to_string());
    let b = generate_identity("bob".to_string());
    a.x25519_private = "###".to_string();
    assert!(try_encrypt_and_sign_message(&a, &b.x25519_public, "hello").is_none());
    let a2 = generate_identity("alice".to_string());
    assert!(try_encrypt_and_sign_message(&a2, "short", "hello").is_none());
}

#[test]
fn interop_with_outside_crates() {
    // Decrypt and verify by hand with the underlying crates, so the
    // library's sealed envelope is held against the real protocol.
    let (a, b, env) = sealed_pair();
    let b_secret = x25519_dalek::StaticSecret::from(
        <[u8; 32]>::try_from(b64_decode(&b.x25519_private)).unwrap(),
    );
    let a_public = x25519_dalek::PublicKey::from(
        <[u8; 32]>::try_from(b64_decode(&a.x25519_public)).unwrap(),
    );
    let shared = b_secret.diffie_hellman(&a_public);
    let key_bytes = sha2::Sha256::digest(shared.as_bytes());
    let cipher = aes_gcm::Aes256Gcm::new(aes_gcm::Key::<aes_gcm::Aes256Gcm>::from_slice(
        &key_bytes,
    ));
    let nonce = b64_decode(&env.nonce);
    let ct = b64_decode(&env.ciphertext);
    let plain = cipher
        .decrypt(aes_gcm::Nonce::from_slice(&nonce), ct.as_slice())
        .unwrap();
    assert_eq!(String::from_utf8(plain).unwrap(), "hello");

    let vk = ed25519_dalek::VerifyingKey::from_bytes(
        &<[u8; 32]>::try_from(b64_decode(&a.ed25519_public)).unwrap(),
    )
    .unwrap();
    let sig = ed25519_dalek::Signature::from_bytes(
        &<[u8; 64]>::try_from(b64_decode(&env.signature)).unwrap(),
    );
    vk.verify(&ct, &sig).unwrap();
}
