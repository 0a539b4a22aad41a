//! Trusted boundary around the cryptographic and environmental calls:
//! SHA-256 hex digests, secp256k1 key handling, entropy, and the clock.
use vstd::prelude::*;
use sha2::Digest;
use rand::RngCore;

verus! {

/// The lowercase hexadecimal rendering of the SHA-256 digest of a byte
/// sequence. The digest itself is left unspecified: it is a fixed function
/// of the input bytes alone.
pub uninterp spec fn sha256_hex_of(data: Seq<u8>) -> Seq<char>;

/// Relies on sha2's `Sha256::digest` and generic-array's `LowerHex`:
/// the digest is 32 bytes, rendered as 64 lowercase hex characters, and
/// depends on the input bytes alone.
#[verifier::external_body]
pub(crate) fn sha256_hex(data: &[u8]) -> (r: String)
    ensures
        r@ == sha256_hex_of(data@),
        r@.len() == 64,
{
    let digest = sha2::Sha256::digest(data);
    format!("{:x}", digest)
}

/// The SHA-256 hex digest of the UTF-8 bytes of a string.
pub(crate) fn sha256_hex_str(s: &str) -> (r: String)
    ensures
        r@ == sha256_hex_of(vstd::utf8::encode_utf8(s@)),
        r@.len() == 64,
{
    sha256_hex(s.as_bytes())
}

/// Relies on chrono's `Utc::now().to_rfc3339()`: the current instant in a
/// fixed textual form. The result depends on the clock, so nothing is
/// promised of it.
#[verifier::external_body]
pub(crate) fn now_rfc3339() -> String {
    chrono::Utc::now().to_rfc3339()
}

/// Relies on rand's `OsRng::fill_bytes`: fills the buffer from the
/// operating system's entropy source. Panics only on catastrophic entropy
/// failure, which is fatal by design. The result is random, so nothing is
/// promised of it.
#[verifier::external_body]
pub(crate) fn random_bytes_32() -> [u8; 32] {
    let mut buf = [0u8; 32];
    rand::rngs::OsRng.fill_bytes(&mut buf);
    buf
}

#[verifier::external_type_specification]
#[verifier::external_body]
pub struct ExSecretKey(secp256k1::SecretKey);

#[verifier::external_type_specification]
#[verifier::external_body]
pub struct ExPublicKey(secp256k1::PublicKey);

/// Relies on secp256k1's `SecretKey::from_slice`: `Ok` exactly when the 32
/// bytes form a valid nonzero scalar below the curve order, which is a
/// property of the bytes alone; nothing further is claimed of the key.
#[verifier::external_body]
pub(crate) fn secret_key_from_bytes(bytes: &[u8; 32]) -> Option<secp256k1::SecretKey> {
    secp256k1::SecretKey::from_slice(bytes).ok()
}

/// Relies on secp256k1's `PublicKey::from_secret_key`: derives the public
/// curve point of a secret key. Nothing is claimed of the opaque result.
#[verifier::external_body]
pub(crate) fn public_key_of(secret_key: &secp256k1::SecretKey) -> secp256k1::PublicKey {
    let secp = secp256k1::Secp256k1::new();
    secp256k1::PublicKey::from_secret_key(&secp, secret_key)
}

/// Relies on secp256k1's `PublicKey::serialize`: the 33-byte compressed
/// encoding of the public point.
#[verifier::external_body]
pub(crate) fn serialize_public_key(public_key: &secp256k1::PublicKey) -> (r: Vec<u8>)
    ensures
        r@.len() == 33,
{
    public_key.serialize().to_vec()
}

} // verus!
