//! A key pair together with the address derived from its public key.
use vstd::prelude::*;
use crate::crypto::{
    random_bytes_32, secret_key_from_bytes, public_key_of, serialize_public_key, sha256_hex,
    sha256_hex_of,
};

verus! {

/// Failure of key generation. Fatal by design: the caller must abort the
/// operation rather than fall back to a weak key.
#[derive(Clone, Copy, Debug, PartialEq, Eq, Structural)]
pub enum KeyGenError {
    EntropyFailure,
}

/// An account's key material. The address is the lowercase SHA-256 hex
/// digest of the 33-byte compressed serialization of the public key.
pub struct User {
    pub private_key: secp256k1::SecretKey,
    pub public_key: secp256k1::PublicKey,
    pub public_key_bytes: Vec<u8>,
    pub address: String,
}

impl User {
    /// The address is exactly the hex SHA-256 digest of the serialized
    /// public key.
    pub open spec fn wf(self) -> bool {
        &&& self.public_key_bytes@.len() == 33
        &&& self.address@ == sha256_hex_of(self.public_key_bytes@)
        &&& self.address@.len() == 64
    }

    /// Draws 32 bytes of entropy, re-drawing in the negligible case that
    /// they do not form a valid secret scalar, derives the public key, and
    /// hashes its serialization into the address. Gives up with
    /// `EntropyFailure` only if a whole run of draws yields no valid
    /// scalar, which indicates a broken entropy source.
    pub fn new() -> (r: Result<User, KeyGenError>)
        ensures
            match r {
                Ok(u) => u.wf(),
                Err(e) => e == KeyGenError::EntropyFailure,
            },
    {
        let mut attempts: u32 = 0;
        let mut candidate: Option<secp256k1::SecretKey> = None;
        while candidate.is_none() && attempts < 32
            decreases 32 - attempts,
        {
            let entropy = random_bytes_32();
            candidate = secret_key_from_bytes(&entropy);
            attempts = attempts + 1;
        }
        match candidate {
            None => Err(KeyGenError::EntropyFailure),
            Some(private_key) => {
                let public_key = public_key_of(&private_key);
                let public_key_bytes = serialize_public_key(&public_key);
                let address = sha256_hex(public_key_bytes.as_slice());
                Ok(User { private_key, public_key, public_key_bytes, address })
            },
        }
    }
}

} // verus!
