//! Long-lived user identities: an Ed25519 signing pair and an X25519
//! Diffie-Hellman pair, carried as base64 text so they can be stored and
//! shipped as plain strings.

use crate::crypto::{
    ed25519_generate, ed25519_public, ed25519_public_of, x25519_generate, x25519_public,
    x25519_public_of,
};
use crate::encoding::{b64_decode, b64_decode_of, b64_encode};
use vstd::prelude::*;

verus! {

/// One user's identity. The four key fields hold standard base64; private
/// material never leaves the process except through these fields when the
/// user exports it. Immutable after creation.
#[derive(Clone)]
pub struct Identity {
    pub username: String,
    pub ed25519_public: String,
    pub ed25519_private: String,
    pub x25519_public: String,
    pub x25519_private: String,
}

/// The decoded 32 bytes of the identity's Ed25519 signing key.
pub open spec fn ed_secret_of(id: Identity) -> Seq<u8> {
    b64_decode_of(id.ed25519_private@).unwrap()
}

/// The decoded 32 bytes of the identity's X25519 secret key.
pub open spec fn x_secret_of(id: Identity) -> Seq<u8> {
    b64_decode_of(id.x25519_private@).unwrap()
}

/// The identity's private fields decode to 32-byte keys: what sealing a
/// message needs of the sender.
pub open spec fn private_keys_wf(id: Identity) -> bool {
    &&& b64_decode_of(id.ed25519_private@) is Some
    &&& ed_secret_of(id).len() == 32
    &&& b64_decode_of(id.x25519_private@) is Some
    &&& x_secret_of(id).len() == 32
}

/// A well-formed identity: the private fields decode to 32-byte keys and
/// each public field decodes to the public key derived from the matching
/// private key.
pub open spec fn identity_wf(id: Identity) -> bool {
    &&& private_keys_wf(id)
    &&& b64_decode_of(id.ed25519_public@) == Some(ed25519_public_of(ed_secret_of(id)))
    &&& b64_decode_of(id.x25519_public@) == Some(x25519_public_of(x_secret_of(id)))
    &&& ed25519_public_of(ed_secret_of(id)).len() == 32
    &&& x25519_public_of(x_secret_of(id)).len() == 32
}

/// Creates a fresh identity for `username`: one Ed25519 signing pair and
/// one X25519 pair, all four keys encoded as base64.
pub fn generate_identity(username: String) -> (r: Identity)
    ensures
        identity_wf(r),
        r.username@ == username@,
{
    let ed_private = ed25519_generate();
    let ed_public = ed25519_public(&ed_private);
    let x_private = x25519_generate();
    let x_public = x25519_public(&x_private);
    Identity {
        username,
        ed25519_public: b64_encode(&ed_public),
        ed25519_private: b64_encode(&ed_private),
        x25519_public: b64_encode(&x_public),
        x25519_private: b64_encode(&x_private),
    }
}

/// Byte-vector equality, spelled out so contracts can speak of the views.
pub(crate) fn bytes_eq(a: &Vec<u8>, b: &Vec<u8>) -> (r: bool)
    ensures
        r == (a@ == b@),
{
    if a.len() != b.len() {
        assert(a@ != b@);
        return false;
    }
    let mut i: usize = 0;
    while i < a.len()
        invariant
            0 <= i <= a@.len(),
            a@.len() == b@.len(),
            forall|j: int| 0 <= j < i ==> a@[j] == b@[j],
        decreases a@.len() - i,
    {
        if a[i] != b[i] {
            return false;
        }
        i = i + 1;
    }
    proof {
        assert(a@ =~= b@);
    }
    true
}

/// Decides whether an identity is well-formed: every key field decodes to
/// 32 bytes of base64 and the public keys match the private ones. An
/// identity that came from `generate_identity` always passes.
pub fn check_identity(id: &Identity) -> (r: bool)
    ensures
        r == identity_wf(*id),
{
    let ed_private = match b64_decode(id.ed25519_private.as_str()) {
        Some(v) => v,
        None => {
            return false;
        },
    };
    if ed_private.len() != 32 {
        return false;
    }
    let x_private = match b64_decode(id.x25519_private.as_str()) {
        Some(v) => v,
        None => {
            return false;
        },
    };
    if x_private.len() != 32 {
        return false;
    }
    let ed_public_claim = match b64_decode(id.ed25519_public.as_str()) {
        Some(v) => v,
        None => {
            return false;
        },
    };
    let x_public_claim = match b64_decode(id.x25519_public.as_str()) {
        Some(v) => v,
        None => {
            return false;
        },
    };
    let ed_public = ed25519_public(&ed_private);
    let x_public = x25519_public(&x_private);
    bytes_eq(&ed_public_claim, &ed_public) && bytes_eq(&x_public_claim, &x_public)
}

} // verus!
