//! Cryptographic primitives, taken on trust at their interface: X25519 key
//! agreement, SHA-256 key derivation, AES-256-GCM authenticated encryption,
//! and Ed25519 detached signatures. Each outside call stands behind one
//! wrapper whose contract names its result; the protocol built on these
//! wrappers is verified against those names.

use aes_gcm::aead::Aead;
use aes_gcm::KeyInit;
use ed25519_dalek::Signer;
use ed25519_dalek::Verifier;
use rand::RngCore;
use sha2::Digest;
use vstd::prelude::*;

verus! {

/// Longest plaintext the library encrypts, in bytes. AES-GCM refuses
/// plaintexts over 2^36 bytes; this bound keeps every call well inside
/// that limit.
pub const MAX_PLAINTEXT_BYTES: usize = 0x1000_0000;

/// The X25519 shared secret computed from one party's 32 secret bytes and
/// the other party's 32 public-key bytes, as `StaticSecret::diffie_hellman`
/// computes it.
pub uninterp spec fn x25519_shared(secret: Seq<u8>, public: Seq<u8>) -> Seq<u8>;

/// The X25519 public key derived from 32 secret bytes, as
/// `x25519_dalek::PublicKey::from(&StaticSecret)` computes it.
pub uninterp spec fn x25519_public_of(secret: Seq<u8>) -> Seq<u8>;

/// The SHA-256 digest of a byte sequence, as `sha2::Sha256::digest`
/// computes it.
pub uninterp spec fn sha256_of(bytes: Seq<u8>) -> Seq<u8>;

/// The AES-256-GCM ciphertext (with its appended 16-byte tag) of a
/// plaintext under a 32-byte key and a 12-byte nonce, as
/// `Aes256Gcm::encrypt` computes it.
pub uninterp spec fn aead_ct_of(key: Seq<u8>, nonce: Seq<u8>, plaintext: Seq<u8>) -> Seq<u8>;

/// What `Aes256Gcm::decrypt` returns for a ciphertext under a key and
/// nonce: the recovered plaintext, or `None` when the authentication tag
/// does not check out.
pub uninterp spec fn aead_open_of(key: Seq<u8>, nonce: Seq<u8>, ciphertext: Seq<u8>) -> Option<
    Seq<u8>,
>;

/// The Ed25519 verifying key derived from a 32-byte signing key, as
/// `ed25519_dalek::VerifyingKey::from(&SigningKey)` computes it.
pub uninterp spec fn ed25519_public_of(secret: Seq<u8>) -> Seq<u8>;

/// Whether 32 bytes are a valid compressed Edwards point, i.e. whether
/// `ed25519_dalek::VerifyingKey::from_bytes` accepts them.
pub uninterp spec fn ed25519_point_valid(public: Seq<u8>) -> bool;

/// The detached Ed25519 signature over a message under a 32-byte signing
/// key, as `SigningKey::sign` computes it (Ed25519 signing is
/// deterministic).
pub uninterp spec fn ed25519_sig_of(secret: Seq<u8>, msg: Seq<u8>) -> Seq<u8>;

/// Whether an Ed25519 signature verifies for a public key and message, as
/// `VerifyingKey::verify` decides it.
pub uninterp spec fn ed25519_verifies(public: Seq<u8>, msg: Seq<u8>, sig: Seq<u8>) -> bool;

/// Relies on `x25519_dalek::StaticSecret::diffie_hellman`: the shared
/// secret is a function of the two inputs, and Diffie-Hellman agreement
/// holds — when `public` is the public key of some secret `s2`, both
/// parties compute the same shared secret.
#[verifier::external_body]
pub(crate) fn x25519_dh(secret: &Vec<u8>, public: &Vec<u8>) -> (r: Vec<u8>)
    requires
        secret@.len() == 32,
        public@.len() == 32,
    ensures
        r@ == x25519_shared(secret@, public@),
        r@.len() == 32,
        forall|s2: Seq<u8>|
            public@ == x25519_public_of(s2) ==> r@ == x25519_shared(
                s2,
                x25519_public_of(secret@),
            ),
{
    let sec = x25519_dalek::StaticSecret::from(<[u8; 32]>::try_from(secret.as_slice()).unwrap());
    let pk = x25519_dalek::PublicKey::from(<[u8; 32]>::try_from(public.as_slice()).unwrap());
    sec.diffie_hellman(&pk).as_bytes().to_vec()
}

/// Relies on `x25519_dalek::PublicKey::from(&StaticSecret)`: the public
/// key of 32 secret bytes.
#[verifier::external_body]
pub(crate) fn x25519_public(secret: &Vec<u8>) -> (r: Vec<u8>)
    requires
        secret@.len() == 32,
    ensures
        r@ == x25519_public_of(secret@),
        r@.len() == 32,
{
    let sec = x25519_dalek::StaticSecret::from(<[u8; 32]>::try_from(secret.as_slice()).unwrap());
    x25519_dalek::PublicKey::from(&sec).as_bytes().to_vec()
}

/// Relies on `x25519_dalek::StaticSecret::random_from_rng` with the
/// operating-system RNG: 32 fresh secret bytes. Nothing more is claimed of
/// a random value.
#[verifier::external_body]
pub(crate) fn x25519_generate() -> (r: Vec<u8>)
    ensures
        r@.len() == 32,
{
    let sec = x25519_dalek::StaticSecret::random_from_rng(rand::rngs::OsRng);
    sec.to_bytes().to_vec()
}

/// Relies on `sha2::Sha256::digest`: the 32-byte SHA-256 digest.
#[verifier::external_body]
pub(crate) fn sha256(bytes: &Vec<u8>) -> (r: Vec<u8>)
    ensures
        r@ == sha256_of(bytes@),
        r@.len() == 32,
{
    sha2::Sha256::digest(bytes).to_vec()
}

/// Relies on `aes_gcm::Aes256Gcm::encrypt` (with `KeyInit::new` for the
/// key schedule): the ciphertext is a function of key, nonce and
/// plaintext, is 16 bytes (the tag) longer than the plaintext, and
/// decrypting it under the same key and nonce gives the plaintext back.
/// Encryption succeeds for every plaintext under `MAX_PLAINTEXT_BYTES`.
#[verifier::external_body]
pub(crate) fn aead_encrypt(key: &Vec<u8>, nonce: &Vec<u8>, plaintext: &Vec<u8>) -> (r: Vec<u8>)
    requires
        key@.len() == 32,
        nonce@.len() == 12,
        plaintext@.len() <= MAX_PLAINTEXT_BYTES,
    ensures
        r@ == aead_ct_of(key@, nonce@, plaintext@),
        r@.len() == plaintext@.len() + 16,
        aead_open_of(key@, nonce@, r@) == Some(plaintext@),
{
    let cipher = aes_gcm::Aes256Gcm::new(aes_gcm::Key::<aes_gcm::Aes256Gcm>::from_slice(key));
    cipher.encrypt(aes_gcm::Nonce::from_slice(nonce), plaintext.as_slice()).unwrap()
}

/// Relies on `aes_gcm::Aes256Gcm::decrypt`: it returns the plaintext
/// exactly when the authentication tag checks out, and inverts
/// `Aes256Gcm::encrypt` — a ciphertext produced under the same key and
/// nonce decrypts to the plaintext it was made from.
#[verifier::external_body]
pub(crate) fn aead_decrypt(key: &Vec<u8>, nonce: &Vec<u8>, ciphertext: &Vec<u8>) -> (r: Option<
    Vec<u8>,
>)
    requires
        key@.len() == 32,
        nonce@.len() == 12,
    ensures
        r is Some <==> aead_open_of(key@, nonce@, ciphertext@) is Some,
        r is Some ==> Some(r.unwrap()@) == aead_open_of(key@, nonce@, ciphertext@),
        forall|p: Seq<u8>|
            ciphertext@ == aead_ct_of(key@, nonce@, p) ==> r is Some && r.unwrap()@ == p,
{
    let cipher = aes_gcm::Aes256Gcm::new(aes_gcm::Key::<aes_gcm::Aes256Gcm>::from_slice(key));
    match cipher.decrypt(aes_gcm::Nonce::from_slice(nonce), ciphertext.as_slice()) {
        Ok(p) => Some(p),
        Err(_) => None,
    }
}

/// Relies on `rand::RngCore::fill_bytes` over the operating-system RNG:
/// 12 fresh nonce bytes. Nothing more is claimed of a random value.
#[verifier::external_body]
pub(crate) fn random_nonce() -> (r: Vec<u8>)
    ensures
        r@.len() == 12,
{
    let mut bytes = [0u8; 12];
    rand::rngs::OsRng.fill_bytes(&mut bytes);
    bytes.to_vec()
}

/// Relies on `ed25519_dalek::SigningKey::generate` with the
/// operating-system RNG: 32 fresh signing-key bytes. Nothing more is
/// claimed of a random value.
#[verifier::external_body]
pub(crate) fn ed25519_generate() -> (r: Vec<u8>)
    ensures
        r@.len() == 32,
{
    let key = ed25519_dalek::SigningKey::generate(&mut rand::rngs::OsRng);
    key.to_bytes().to_vec()
}

/// Relies on `ed25519_dalek::VerifyingKey::from(&SigningKey)`: the
/// verifying key of 32 signing-key bytes; its bytes are a valid point
/// (`VerifyingKey::to_bytes` round-trips through `from_bytes`).
#[verifier::external_body]
pub(crate) fn ed25519_public(secret: &Vec<u8>) -> (r: Vec<u8>)
    requires
        secret@.len() == 32,
    ensures
        r@ == ed25519_public_of(secret@),
        r@.len() == 32,
        ed25519_point_valid(r@),
{
    let key = ed25519_dalek::SigningKey::from_bytes(
        &<[u8; 32]>::try_from(secret.as_slice()).unwrap(),
    );
    ed25519_dalek::VerifyingKey::from(&key).to_bytes().to_vec()
}

/// Relies on `ed25519_dalek::SigningKey::sign` (through the `Signer`
/// trait): the 64-byte detached signature, a deterministic function of
/// the signing key and the message.
#[verifier::external_body]
pub(crate) fn ed25519_sign(secret: &Vec<u8>, msg: &Vec<u8>) -> (r: Vec<u8>)
    requires
        secret@.len() == 32,
    ensures
        r@ == ed25519_sig_of(secret@, msg@),
        r@.len() == 64,
{
    let key = ed25519_dalek::SigningKey::from_bytes(
        &<[u8; 32]>::try_from(secret.as_slice()).unwrap(),
    );
    key.sign(msg).to_bytes().to_vec()
}

/// Relies on `ed25519_dalek::VerifyingKey::from_bytes` (`Err`, and so
/// `None` here, exactly when the bytes are not a valid compressed point)
/// and `VerifyingKey::verify` (through the `Verifier` trait; `true`
/// exactly when the signature verifies). A signature made by
/// `SigningKey::sign` verifies under the matching verifying key.
#[verifier::external_body]
pub(crate) fn ed25519_verify(public: &Vec<u8>, msg: &Vec<u8>, sig: &Vec<u8>) -> (r: Option<bool>)
    requires
        public@.len() == 32,
        sig@.len() == 64,
    ensures
        r is Some <==> ed25519_point_valid(public@),
        r is Some ==> r.unwrap() == ed25519_verifies(public@, msg@, sig@),
        forall|s2: Seq<u8>|
            public@ == ed25519_public_of(s2) && sig@ == ed25519_sig_of(s2, msg@) ==> r == Some(
                true,
            ),
{
    let key = match ed25519_dalek::VerifyingKey::from_bytes(
        &<[u8; 32]>::try_from(public.as_slice()).unwrap(),
    ) {
        Ok(k) => k,
        Err(_) => {
            return None;
        },
    };
    let signature = ed25519_dalek::Signature::from_bytes(
        &<[u8; 64]>::try_from(sig.as_slice()).unwrap(),
    );
    Some(key.verify(msg, &signature).is_ok())
}

} // verus!
