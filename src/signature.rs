use ed25519_dalek::{Signature, VerifyingKey};
use vstd::prelude::*;

verus! {

/// Whether Ed25519 accepts `signature` as a signature of `message` under
/// `public_key`.
pub uninterp spec fn ed25519_accepts(
    public_key: Seq<u8>,
    message: Seq<u8>,
    signature: Seq<u8>,
) -> bool;

/// Relies on ed25519-dalek: `VerifyingKey::try_from` reads a 32-byte public
/// key, `Signature::from_slice` a 64-byte signature, and
/// `VerifyingKey::verify_strict` checks the signature over the message. A
/// key or signature that cannot be read is a rejection.
#[verifier::external_body]
pub(crate) fn verify_signature(public_key: &[u8], message: &[u8], signature: &[u8]) -> (r: bool)
    ensures
        r == ed25519_accepts(public_key@, message@, signature@),
        r ==> public_key@.len() == 32 && signature@.len() == 64,
{
    let key = match VerifyingKey::try_from(public_key) {
        Ok(k) => k,
        Err(_) => return false,
    };
    let sig = match Signature::from_slice(signature) {
        Ok(s) => s,
        Err(_) => return false,
    };
    key.verify_strict(message, &sig).is_ok()
}

} // verus!
