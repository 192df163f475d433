//! The envelope protocol: authenticated encryption of a plaintext for one
//! receiver, detached signing of the ciphertext, and the inverse checks.
//!
//! Both ends derive the pair's symmetric key as SHA-256 over the raw X25519
//! shared secret — no salt and no context string, so one fixed key serves a
//! key pair for the lifetime of both identities (a known weakness of the
//! protocol, kept as it is). The signature covers only the ciphertext
//! bytes: not the nonce and not the `from`/`to` tags, so a swapped nonce is
//! caught by the AEAD tag check alone, never by the signature (also kept).

use crate::crypto::{
    aead_ct_of, aead_decrypt, aead_encrypt, aead_open_of, ed25519_point_valid, ed25519_public_of,
    ed25519_sig_of, ed25519_sign, ed25519_verifies, ed25519_verify, random_nonce, sha256,
    sha256_of, x25519_dh, x25519_public_of, x25519_shared, MAX_PLAINTEXT_BYTES,
};
use crate::encoding::{b64_decode, b64_decode_of, b64_encode, string_from_utf8};
use crate::keygen::{ed_secret_of, private_keys_wf, x_secret_of, Identity};
use vstd::prelude::*;
use vstd::string::*;
use vstd::utf8::{decode_utf8, encode_utf8, encode_utf8_decode_utf8, encode_utf8_valid_utf8, valid_utf8};

verus! {

/// The encrypted and signed unit for one message. Binary fields are
/// base64 text. `to` is carried but not cryptographically bound.
#[derive(Clone)]
pub struct MessageEnvelope {
    pub from: String,
    pub to: String,
    pub ciphertext: String,
    pub nonce: String,
    pub signature: String,
}

/// The wire unit the relay broadcasts: the envelope plus the sender's
/// public keys, so a receiver who has never seen this peer can still
/// verify and decrypt (trust on first use; nothing binds the keys to the
/// username).
#[derive(Clone)]
pub struct VaultsynTransport {
    pub envelope: MessageEnvelope,
    pub sender_ed25519_pub: String,
    pub sender_x25519_pub: String,
}

/// Why an incoming envelope or frame was rejected.
#[derive(Clone, Copy, Debug, PartialEq, Eq, Structural)]
pub enum DecodeError {
    /// A key, nonce or signature field is not base64 of the right size,
    /// or a verifying key is not a valid point.
    KeyDecodeError,
    /// The AEAD tag check failed: wrong key, tampered ciphertext or
    /// tampered nonce.
    DecryptionFailure,
    /// The detached signature does not verify.
    SignatureInvalid,
    /// The decrypted plaintext is not valid UTF-8.
    EncodingError,
    /// The wire frame does not parse as a transport.
    MalformedTransport,
}

/// The symmetric key a pair derives: SHA-256 over the raw X25519 shared
/// secret.
pub open spec fn pair_key(my_secret: Seq<u8>, their_public: Seq<u8>) -> Seq<u8> {
    sha256_of(x25519_shared(my_secret, their_public))
}

/// The identity's X25519 private field decodes to a 32-byte key: what
/// opening an envelope needs of the receiver.
pub open spec fn dh_private_wf(id: Identity) -> bool {
    &&& b64_decode_of(id.x25519_private@) is Some
    &&& x_secret_of(id).len() == 32
}

/// The envelope's binary fields are exactly those of an envelope sealed by
/// the holder of `x_secret` and `ed_secret` for the receiver public key
/// `receiver_public`, carrying plaintext `msg`, under the envelope's own
/// nonce.
pub open spec fn sealed_with(
    env: MessageEnvelope,
    x_secret: Seq<u8>,
    ed_secret: Seq<u8>,
    receiver_public: Seq<u8>,
    msg: Seq<char>,
) -> bool {
    let key = pair_key(x_secret, receiver_public);
    b64_decode_of(env.nonce@) matches Some(nonce) && {
        let ct = aead_ct_of(key, nonce, encode_utf8(msg));
        &&& nonce.len() == 12
        &&& b64_decode_of(env.ciphertext@) == Some(ct)
        &&& b64_decode_of(env.signature@) == Some(ed25519_sig_of(ed_secret, ct))
        &&& ed25519_sig_of(ed_secret, ct).len() == 64
    }
}

/// The exact outcome of `decrypt_and_verify_message`, with the checks in
/// the order the function runs them: sender DH key and envelope fields are
/// decoded first, then the AEAD opens the ciphertext, then the sender's
/// verifying key is parsed and the signature checked, and last the
/// plaintext is read as UTF-8. (Decryption before signature verification
/// mirrors the protocol as deployed; AEAD failure reveals no plaintext.)
pub open spec fn decrypt_verify_spec(
    env: MessageEnvelope,
    receiver_x_secret: Seq<u8>,
    sender_ed25519_pub: Seq<char>,
    sender_x25519_pub: Seq<char>,
) -> Result<Seq<char>, DecodeError> {
    if !(b64_decode_of(sender_x25519_pub) matches Some(sx) && sx.len() == 32)
        || !(b64_decode_of(env.nonce@) matches Some(n) && n.len() == 12) || b64_decode_of(
        env.ciphertext@,
    ) is None {
        Err(DecodeError::KeyDecodeError)
    } else {
        let key = pair_key(receiver_x_secret, b64_decode_of(sender_x25519_pub).unwrap());
        let nonce = b64_decode_of(env.nonce@).unwrap();
        let ct = b64_decode_of(env.ciphertext@).unwrap();
        if aead_open_of(key, nonce, ct) is None {
            Err(DecodeError::DecryptionFailure)
        } else if !(b64_decode_of(sender_ed25519_pub) matches Some(se) && se.len() == 32
            && ed25519_point_valid(se)) || !(b64_decode_of(env.signature@) matches Some(sg)
            && sg.len() == 64) {
            Err(DecodeError::KeyDecodeError)
        } else if !ed25519_verifies(
            b64_decode_of(sender_ed25519_pub).unwrap(),
            ct,
            b64_decode_of(env.signature@).unwrap(),
        ) {
            Err(DecodeError::SignatureInvalid)
        } else if !valid_utf8(aead_open_of(key, nonce, ct).unwrap()) {
            Err(DecodeError::EncodingError)
        } else {
            Ok(decode_utf8(aead_open_of(key, nonce, ct).unwrap()))
        }
    }
}

/// An input on which the round trip is owed: the envelope was sealed by
/// the holder of the secrets `a_x` and `a_ed` for the receiver's own DH
/// public key, carrying `msg`, and the sender public keys handed in
/// alongside it are the ones derived from those secrets.
pub open spec fn round_trip_pre(
    env: MessageEnvelope,
    receiver_x_secret: Seq<u8>,
    sender_ed25519_pub: Seq<char>,
    sender_x25519_pub: Seq<char>,
    msg: Seq<char>,
    a_x: Seq<u8>,
    a_ed: Seq<u8>,
) -> bool {
    &&& a_x.len() == 32
    &&& x25519_public_of(a_x).len() == 32
    &&& ed25519_public_of(a_ed).len() == 32
    &&& b64_decode_of(sender_x25519_pub) == Some(x25519_public_of(a_x))
    &&& b64_decode_of(sender_ed25519_pub) == Some(ed25519_public_of(a_ed))
    &&& sealed_with(env, a_x, a_ed, x25519_public_of(receiver_x_secret), msg)
}

/// Seals `message` for the holder of `receiver_public` (base64 of a
/// 32-byte X25519 key): derives the pair key, encrypts under a fresh
/// random 12-byte nonce, and signs the raw ciphertext bytes with the
/// sender's signing key. The nonce must be fresh and uniform on every
/// call — nonce reuse under the same pair key breaks the AEAD; the trusted
/// nonce source draws from the operating-system RNG.
pub fn encrypt_and_sign_message(sender: &Identity, receiver_public: &str, message: &str) -> (r:
    MessageEnvelope)
    requires
        private_keys_wf(*sender),
        b64_decode_of(receiver_public@) matches Some(p) && p.len() == 32,
        encode_utf8(message@).len() <= MAX_PLAINTEXT_BYTES,
    ensures
        sealed_with(
            r,
            x_secret_of(*sender),
            ed_secret_of(*sender),
            b64_decode_of(receiver_public@).unwrap(),
            message@,
        ),
        r.from@ == sender.username@,
        r.to@ == "receiver"@,
{
    let receiver_key = match b64_decode(receiver_public) {
        Some(v) => v,
        None => vstd::pervasive::unreached(),
    };
    let x_private = match b64_decode(sender.x25519_private.as_str()) {
        Some(v) => v,
        None => vstd::pervasive::unreached(),
    };
    let ed_private = match b64_decode(sender.ed25519_private.as_str()) {
        Some(v) => v,
        None => vstd::pervasive::unreached(),
    };
    let shared = x25519_dh(&x_private, &receiver_key);
    let key = sha256(&shared);
    let nonce = random_nonce();
    let msg_bytes = message.as_bytes_vec();
    let ciphertext = aead_encrypt(&key, &nonce, &msg_bytes);
    let signature = ed25519_sign(&ed_private, &ciphertext);
    MessageEnvelope {
        from: sender.username.clone(),
        to: "receiver".to_owned(),
        ciphertext: b64_encode(&ciphertext),
        nonce: b64_encode(&nonce),
        signature: b64_encode(&signature),
    }
}

/// Opens an envelope: derives the same pair key from the receiver's DH
/// secret and the sender's DH public key (X25519 agreement makes the two
/// derivations meet), AEAD-decrypts, verifies the detached signature over
/// the ciphertext, and decodes the plaintext as UTF-8. Never returns
/// partial plaintext: any failure is one of the typed errors, exactly as
/// `decrypt_verify_spec` lays them out. The last `ensures` clause is the
/// round trip: on an envelope honestly sealed for this receiver, with the
/// sender's matching public keys, it returns exactly the sealed plaintext.
pub fn decrypt_and_verify_message(
    envelope: &MessageEnvelope,
    receiver: &Identity,
    sender_ed25519_pub: &str,
    sender_x25519_pub: &str,
) -> (r: Result<String, DecodeError>)
    requires
        dh_private_wf(*receiver),
    ensures
        r matches Ok(s) ==> decrypt_verify_spec(
            *envelope,
            x_secret_of(*receiver),
            sender_ed25519_pub@,
            sender_x25519_pub@,
        ) == Ok::<Seq<char>, DecodeError>(s@),
        r matches Err(e) ==> decrypt_verify_spec(
            *envelope,
            x_secret_of(*receiver),
            sender_ed25519_pub@,
            sender_x25519_pub@,
        ) == Err::<Seq<char>, DecodeError>(e),
        forall|msg: Seq<char>, a_x: Seq<u8>, a_ed: Seq<u8>|
            #[trigger] round_trip_pre(
                *envelope,
                x_secret_of(*receiver),
                sender_ed25519_pub@,
                sender_x25519_pub@,
                msg,
                a_x,
                a_ed,
            ) ==> (r matches Ok(s) && s@ == msg),
{
    let receiver_secret = match b64_decode(receiver.x25519_private.as_str()) {
        Some(v) => v,
        None => vstd::pervasive::unreached(),
    };
    let sender_public = match b64_decode(sender_x25519_pub) {
        Some(v) => v,
        None => {
            return Err(DecodeError::KeyDecodeError);
        },
    };
    if sender_public.len() != 32 {
        return Err(DecodeError::KeyDecodeError);
    }
    let nonce = match b64_decode(envelope.nonce.as_str()) {
        Some(v) => v,
        None => {
            return Err(DecodeError::KeyDecodeError);
        },
    };
    if nonce.len() != 12 {
        return Err(DecodeError::KeyDecodeError);
    }
    let ciphertext = match b64_decode(envelope.ciphertext.as_str()) {
        Some(v) => v,
        None => {
            return Err(DecodeError::KeyDecodeError);
        },
    };
    let shared = x25519_dh(&receiver_secret, &sender_public);
    let key = sha256(&shared);
    let plaintext = match aead_decrypt(&key, &nonce, &ciphertext) {
        Some(p) => p,
        None => {
            return Err(DecodeError::DecryptionFailure);
        },
    };
    let verifying_key = match b64_decode(sender_ed25519_pub) {
        Some(v) => v,
        None => {
            return Err(DecodeError::KeyDecodeError);
        },
    };
    if verifying_key.len() != 32 {
        return Err(DecodeError::KeyDecodeError);
    }
    let signature = match b64_decode(envelope.signature.as_str()) {
        Some(v) => v,
        None => {
            return Err(DecodeError::KeyDecodeError);
        },
    };
    if signature.len() != 64 {
        return Err(DecodeError::KeyDecodeError);
    }
    let verified = match ed25519_verify(&verifying_key, &ciphertext, &signature) {
        Some(b) => b,
        None => {
            return Err(DecodeError::KeyDecodeError);
        },
    };
    if !verified {
        return Err(DecodeError::SignatureInvalid);
    }
    proof {
        broadcast use encode_utf8_valid_utf8;
        broadcast use encode_utf8_decode_utf8;
    }
    match string_from_utf8(plaintext) {
        Some(s) => Ok(s),
        None => Err(DecodeError::EncodingError),
    }
}

/// Seals `message` for `receiver_public` after checking the key material
/// itself, so it asks nothing of its caller: `None` exactly when the
/// sender's private fields or the receiver key are not base64 of 32 bytes,
/// or the message is longer than `MAX_PLAINTEXT_BYTES`.
pub fn try_encrypt_and_sign_message(
    sender: &Identity,
    receiver_public: &str,
    message: &str,
) -> (r: Option<MessageEnvelope>)
    ensures
        r is Some <==> {
            &&& private_keys_wf(*sender)
            &&& b64_decode_of(receiver_public@) matches Some(p) && p.len() == 32
            &&& encode_utf8(message@).len() <= MAX_PLAINTEXT_BYTES
        },
        r matches Some(env) ==> {
            &&& sealed_with(
                env,
                x_secret_of(*sender),
                ed_secret_of(*sender),
                b64_decode_of(receiver_public@).unwrap(),
                message@,
            )
            &&& env.from@ == sender.username@
            &&& env.to@ == "receiver"@
        },
{
    let x_private = match b64_decode(sender.x25519_private.as_str()) {
        Some(v) => v,
        None => {
            return None;
        },
    };
    if x_private.len() != 32 {
        return None;
    }
    let ed_private = match b64_decode(sender.ed25519_private.as_str()) {
        Some(v) => v,
        None => {
            return None;
        },
    };
    if ed_private.len() != 32 {
        return None;
    }
    let receiver_key = match b64_decode(receiver_public) {
        Some(v) => v,
        None => {
            return None;
        },
    };
    if receiver_key.len() != 32 {
        return None;
    }
    if message.as_bytes_vec().len() > MAX_PLAINTEXT_BYTES {
        return None;
    }
    Some(encrypt_and_sign_message(sender, receiver_public, message))
}

/// Opens an envelope after checking the receiver's own key material, so it
/// asks nothing of its caller: when the receiver's X25519 private field is
/// not base64 of 32 bytes the answer is `KeyDecodeError`; otherwise the
/// outcome is exactly `decrypt_verify_spec`.
pub fn try_decrypt_and_verify_message(
    envelope: &MessageEnvelope,
    receiver: &Identity,
    sender_ed25519_pub: &str,
    sender_x25519_pub: &str,
) -> (r: Result<String, DecodeError>)
    ensures
        !dh_private_wf(*receiver) ==> (r matches Err(e) && e == DecodeError::KeyDecodeError),
        dh_private_wf(*receiver) ==> {
            let spec_r = decrypt_verify_spec(
                *envelope,
                x_secret_of(*receiver),
                sender_ed25519_pub@,
                sender_x25519_pub@,
            );
            &&& (r matches Ok(s) ==> spec_r == Ok::<Seq<char>, DecodeError>(s@))
            &&& (r matches Err(e) ==> spec_r == Err::<Seq<char>, DecodeError>(e))
        },
{
    let x_private = match b64_decode(receiver.x25519_private.as_str()) {
        Some(v) => v,
        None => {
            return Err(DecodeError::KeyDecodeError);
        },
    };
    if x_private.len() != 32 {
        return Err(DecodeError::KeyDecodeError);
    }
    decrypt_and_verify_message(envelope, receiver, sender_ed25519_pub, sender_x25519_pub)
}

} // verus!

