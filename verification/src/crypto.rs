//! Hash primitives (SHA-256, double SHA-256, RIPEMD-160, HASH160) and key
//! material placeholders.
//!
//! The hash computations themselves come from the `sha2` and `ripemd` crates;
//! each digest is named by an uninterpreted spec function of the input bytes,
//! and the compositions (`hash160`, `sha256d`) are verified against those
//! names.

use crate::error::SdkError;
use ripemd::Digest as _;
use sha2::Digest as _;
use vstd::prelude::*;

verus! {

#[derive(Debug, Clone, Default)]
pub struct PrivateKey(pub [u8; 32]);

/// A compressed public key.
#[derive(Debug, Clone)]
pub struct PublicKey(pub [u8; 33]);

impl Default for PublicKey {
    fn default() -> (r: Self)
        ensures
            r.0@ =~= Seq::new(33, |i: int| 0u8),
    {
        Self([0u8; 33])
    }
}

#[derive(Debug, Clone, Default)]
pub struct KeyPair {
    pub private: PrivateKey,
    pub public: PublicKey,
}

/// A SHA-256 digest.
#[derive(Debug, Clone, Default)]
pub struct Sha256(pub [u8; 32]);

/// A RIPEMD-160 digest.
#[derive(Debug, Clone, Default)]
pub struct Ripemd160(pub [u8; 20]);

/// A HASH160 digest: RIPEMD-160 applied to a SHA-256 digest.
#[derive(Debug, Clone, Default)]
pub struct Hash160(pub [u8; 20]);

/// The SHA-256 digest of a byte sequence, as computed by the `sha2` crate.
pub uninterp spec fn sha256_of(data: Seq<u8>) -> Seq<u8>;

/// The RIPEMD-160 digest of a byte sequence, as computed by the `ripemd` crate.
pub uninterp spec fn ripemd160_of(data: Seq<u8>) -> Seq<u8>;

/// Double SHA-256 (aka hash256), used by the checksummed text encoding.
pub open spec fn spec_sha256d(data: Seq<u8>) -> Seq<u8> {
    sha256_of(sha256_of(data))
}

/// Relies on `sha2::Sha256` through the `Digest` API: the 32-byte digest is a
/// pure function of the input bytes.
#[verifier::external_body]
pub fn sha256(data: &[u8]) -> (r: Sha256)
    ensures
        r.0@ == sha256_of(data@),
{
    let mut hasher = sha2::Sha256::new();
    hasher.update(data);
    let out = hasher.finalize();
    let mut bytes = [0u8; 32];
    bytes.copy_from_slice(&out);
    Sha256(bytes)
}

/// Relies on `ripemd::Ripemd160` through the `Digest` API: the 20-byte digest
/// is a pure function of the input bytes.
#[verifier::external_body]
pub fn ripemd160(data: &[u8]) -> (r: Ripemd160)
    ensures
        r.0@ == ripemd160_of(data@),
{
    let mut hasher = ripemd::Ripemd160::new();
    hasher.update(data);
    let out = hasher.finalize();
    let mut bytes = [0u8; 20];
    bytes.copy_from_slice(&out);
    Ripemd160(bytes)
}

/// HASH160: RIPEMD-160 over SHA-256.
pub fn hash160(data: &[u8]) -> (r: Hash160)
    ensures
        r.0@ == ripemd160_of(sha256_of(data@)),
{
    let sha = sha256(data);
    let rip = ripemd160(sha.0.as_slice());
    Hash160(rip.0)
}

/// Double SHA-256 (aka hash256) used by Base58Check.
pub fn sha256d(data: &[u8]) -> (r: [u8; 32])
    ensures
        r@ == spec_sha256d(data@),
{
    let first = sha256(data);
    let second = sha256(first.0.as_slice());
    second.0
}

pub fn generate_keypair() -> (r: Result<KeyPair, SdkError>)
    ensures
        r matches Err(SdkError::NotImplemented(_)),
{
    Err(SdkError::NotImplemented("generate_keypair"))
}

pub fn sign(_privkey: &PrivateKey, _msg: &[u8]) -> (r: Result<Vec<u8>, SdkError>)
    ensures
        r matches Err(SdkError::NotImplemented(_)),
{
    Err(SdkError::NotImplemented("sign"))
}

pub fn verify(_pubkey: &PublicKey, _msg: &[u8], _sig: &[u8]) -> (r: Result<bool, SdkError>)
    ensures
        r matches Err(SdkError::NotImplemented(_)),
{
    Err(SdkError::NotImplemented("verify"))
}

} // verus!
