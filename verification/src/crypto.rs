//! Cryptographic primitives: SHA-256 hashing and secp256k1 compact
//! signatures over 32-byte message digests.
//!
//! The implementations live in outside crates; each call site below carries
//! the contract this crate relies on.
use sha2::Digest;
use vstd::prelude::*;

verus! {

/// A 32-byte SHA-256 digest.
pub type SaitoHash = [u8; 32];

/// A 33-byte compact secp256k1 public key.
pub type SaitoPublicKey = [u8; 33];

/// A 32-byte secp256k1 secret key.
pub type SaitoPrivateKey = [u8; 32];

/// A 64-byte compact ECDSA signature.
pub type SaitoSignature = [u8; 64];

/// The SHA-256 digest of a byte sequence. The digest is a pure function of
/// the input bytes; its 32-byte length is carried by the result type of
/// [`hash`].
pub uninterp spec fn sha256_of(data: Seq<u8>) -> Seq<u8>;

/// Whether 32 bytes are a valid secp256k1 secret key: a scalar that is
/// neither zero nor at or above the curve order.
pub uninterp spec fn sk_valid(key: Seq<u8>) -> bool;

/// The compact ECDSA signature that the deterministic (RFC 6979) signer
/// produces for a 32-byte digest under a valid secret key.
pub uninterp spec fn ecdsa_sign_of(msg: Seq<u8>, key: Seq<u8>) -> Seq<u8>;

/// Whether a 64-byte compact signature verifies for a 32-byte digest under a
/// 33-byte compressed public key. False whenever the signature or the key
/// does not parse.
pub uninterp spec fn ecdsa_verify_of(msg: Seq<u8>, sig: Seq<u8>, pubkey: Seq<u8>) -> bool;

/// The compressed public key derived from a valid secret key.
pub uninterp spec fn pubkey_of(key: Seq<u8>) -> Seq<u8>;

/// Relies on sha2's `Sha256::digest`: the 32-byte SHA-256 digest of the
/// input, a pure function of the input bytes.
#[verifier::external_body]
pub fn hash(data: &Vec<u8>) -> (r: SaitoHash)
    ensures
        r@ == sha256_of(data@),
{
    sha2::Sha256::digest(data.as_slice()).into()
}

/// Relies on secp256k1: `SecretKey::from_secret_bytes` accepts exactly the
/// byte arrays that encode a nonzero scalar below the curve order, and
/// `sign_ecdsa` then produces the deterministic RFC 6979 compact signature
/// for the digest, a pure function of digest and key. The signature is
/// normalized, so `Signature::verify` accepts it under the public key
/// derived from the same secret key.
#[verifier::external_body]
pub fn sign(msg_hash: &SaitoHash, privatekey: &SaitoPrivateKey) -> (r: Option<SaitoSignature>)
    ensures
        r is Some <==> sk_valid(privatekey@),
        r matches Some(s) ==> s@ == ecdsa_sign_of(msg_hash@, privatekey@),
        r matches Some(s) ==> ecdsa_verify_of(msg_hash@, s@, pubkey_of(privatekey@)),
{
    match secp256k1::SecretKey::from_secret_bytes(*privatekey) {
        Ok(sk) => {
            let msg = secp256k1::Message::from_digest(*msg_hash);
            Some(sk.sign_ecdsa(msg).serialize_compact())
        }
        Err(_) => None,
    }
}

/// Relies on secp256k1: `Signature::from_compact`, `PublicKey::
/// from_byte_array_compressed` and `Signature::verify`. Returns whether the
/// signature verifies for the digest under the key; false when the signature
/// or the key does not parse. The outcome is a pure function of the three
/// inputs.
#[verifier::external_body]
pub fn verify(msg_hash: &SaitoHash, sig: &SaitoSignature, publickey: &SaitoPublicKey) -> (r: bool)
    ensures
        r == ecdsa_verify_of(msg_hash@, sig@, publickey@),
{
    let msg = secp256k1::Message::from_digest(*msg_hash);
    match (
        secp256k1::ecdsa::Signature::from_compact(sig),
        secp256k1::PublicKey::from_byte_array_compressed(*publickey),
    ) {
        (Ok(s), Ok(p)) => s.verify(msg, &p).is_ok(),
        _ => false,
    }
}

/// Relies on secp256k1: `PublicKey::from_secret_key` derives the public key
/// of a valid secret key, and `serialize` yields its 33-byte compressed
/// form, a pure function of the secret key.
#[verifier::external_body]
pub fn generate_publickey(privatekey: &SaitoPrivateKey) -> (r: Option<SaitoPublicKey>)
    ensures
        r is Some <==> sk_valid(privatekey@),
        r matches Some(p) ==> p@ == pubkey_of(privatekey@),
{
    match secp256k1::SecretKey::from_secret_bytes(*privatekey) {
        Ok(sk) => Some(secp256k1::PublicKey::from_secret_key(&sk).serialize()),
        Err(_) => None,
    }
}

} // verus!
