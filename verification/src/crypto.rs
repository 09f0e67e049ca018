//! The threshold-cryptography capability the replica consumes.
//!
//! A replica holds one secret key share of its group's threshold scheme and
//! can produce only partial signatures with it; aggregated signatures are
//! verified against a group's combined public key. The primitives come from
//! the `threshold_crypto` crate and are trusted; everything the protocol
//! decides about their results is stated here over plain byte strings.

use vstd::prelude::*;

verus! {

#[verifier::external_type_specification]
#[verifier::external_body]
pub struct ExSecretKeyShare(threshold_crypto::SecretKeyShare);

/// Whether `sig` is a valid signature over `msg` under the public key
/// encoded by `key`. BLS verification is deterministic: the result is a
/// function of the three byte strings alone. Bytes that do not decode to a
/// key or to a signature verify nothing.
pub uninterp spec fn sig_verifies(key: Seq<u8>, sig: Seq<u8>, msg: Seq<u8>) -> bool;

/// Relies on `threshold_crypto::PublicKey::verify` (with
/// `PublicKey::from_bytes` and `Signature::from_bytes` decoding the
/// arguments): deterministic BLS verification of `sig` over `msg` under the
/// 48-byte key `key`; any undecodable argument verifies as false.
#[verifier::external_body]
pub fn verify_sig(key: &Vec<u8>, sig: &Vec<u8>, msg: &Vec<u8>) -> (r: bool)
    ensures
        r == sig_verifies(key@, sig@, msg@),
{
    let k: [u8; 48] = match key.as_slice().try_into() { Ok(a) => a, Err(_) => return false };
    let s: [u8; 96] = match sig.as_slice().try_into() { Ok(a) => a, Err(_) => return false };
    let pk = match threshold_crypto::PublicKey::from_bytes(k) { Ok(p) => p, Err(_) => return false };
    let sg = match threshold_crypto::Signature::from_bytes(s) { Ok(x) => x, Err(_) => return false };
    pk.verify(&sg, msg.as_slice())
}

/// Relies on `threshold_crypto::SecretKeyShare::sign` and
/// `SignatureShare::to_bytes`: this share's partial BLS signature over
/// `msg`, as its 96-byte encoding.
#[verifier::external_body]
pub fn sign_share(secret_key: &threshold_crypto::SecretKeyShare, msg: &Vec<u8>) -> (r: Vec<u8>)
    ensures
        r@.len() == 96,
{
    secret_key.sign(msg.as_slice()).to_bytes().to_vec()
}

/// Relies on `threshold_crypto::SecretKeyShare::public_key_share` and
/// `PublicKeyShare::to_bytes`: the 48-byte public counterpart of this
/// replica's key share, its identity within the group.
#[verifier::external_body]
pub fn public_key_share_bytes(secret_key: &threshold_crypto::SecretKeyShare) -> (r: Vec<u8>)
    ensures
        r@.len() == 48,
{
    secret_key.public_key_share().to_bytes().to_vec()
}

} // verus!
