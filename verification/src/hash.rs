//! Hash functions with a digest of 64 bytes, and hashing to scalars and to points.
//!
//! The schemes hash whole byte strings: where several hashes share a prefix, the prefix is
//! built once and copied. A digest depends on the bytes fed to the hash and on nothing else,
//! which is what [`Hash512::hash`] promises of every hash.
use blake2::Blake2b512 as Blake2bHasher;
use sha2::Digest;
use sha2::Sha512 as Sha512Hasher;
use sha3::Keccak512 as Keccak512Hasher;
use vstd::prelude::*;

use crate::ristretto::{decode, ristretto_from_uniform_bytes, GroupElement, Point};
use crate::scalar::{group_order, le_value, Scalar};

verus! {

/// A hash function whose digest has 64 bytes.
pub trait Hash512 {
    /// The digest of `data`.
    spec fn digest(data: Seq<u8>) -> Seq<u8>;

    /// Hashes `data`.
    fn hash(data: &[u8]) -> (out: [u8; 64])
        ensures
            out@ == Self::digest(data@),
    ;
}

/// The SHA-512 digest of `data`.
pub uninterp spec fn sha512(data: Seq<u8>) -> Seq<u8>;

/// The Keccak-512 digest of `data`.
pub uninterp spec fn keccak512(data: Seq<u8>) -> Seq<u8>;

/// The BLAKE2b-512 digest of `data`.
pub uninterp spec fn blake2b512(data: Seq<u8>) -> Seq<u8>;

/// SHA-512.
pub struct Sha512;

/// Keccak-512.
pub struct Keccak512;

/// BLAKE2b with a digest of 512 bits.
pub struct Blake2b512;

impl Hash512 for Sha512 {
    open spec fn digest(data: Seq<u8>) -> Seq<u8> {
        sha512(data)
    }

    fn hash(data: &[u8]) -> (out: [u8; 64]) {
        sha512_digest(data)
    }
}

impl Hash512 for Keccak512 {
    open spec fn digest(data: Seq<u8>) -> Seq<u8> {
        keccak512(data)
    }

    fn hash(data: &[u8]) -> (out: [u8; 64]) {
        keccak512_digest(data)
    }
}

impl Hash512 for Blake2b512 {
    open spec fn digest(data: Seq<u8>) -> Seq<u8> {
        blake2b512(data)
    }

    fn hash(data: &[u8]) -> (out: [u8; 64]) {
        blake2b512_digest(data)
    }
}

/// The scalar to which `H` hashes `data`: the digest, read as a number, reduced modulo ℓ.
pub open spec fn scalar_of<H: Hash512>(data: Seq<u8>) -> nat {
    le_value(H::digest(data)) % group_order()
}

/// The group element to which `H` hashes `data`: the image of the digest under the one-way
/// map of Ristretto.
pub open spec fn element_of<H: Hash512>(data: Seq<u8>) -> GroupElement {
    decode(ristretto_from_uniform_bytes(H::digest(data)))
}

/// Hashes `data` to a scalar.
pub fn hash_to_scalar<H: Hash512>(data: &[u8]) -> (out: Scalar)
    ensures
        out@ == scalar_of::<H>(data@),
{
    let digest = H::hash(data);
    Scalar::from_bytes_mod_order_wide(&digest)
}

/// Hashes `data` to a point.
pub fn hash_to_point<H: Hash512>(data: &[u8]) -> (out: Point)
    ensures
        out@ == element_of::<H>(data@),
{
    let digest = H::hash(data);
    Point::from_uniform_bytes(&digest)
}

/// `Digest::digest` of `sha2::Sha512`: the SHA-512 digest of `data`.
#[verifier::external_body]
fn sha512_digest(data: &[u8]) -> (out: [u8; 64])
    ensures
        out@ == sha512(data@),
{
    Sha512Hasher::digest(data).into()
}

/// `Digest::digest` of `sha3::Keccak512`: the Keccak-512 digest of `data`.
#[verifier::external_body]
fn keccak512_digest(data: &[u8]) -> (out: [u8; 64])
    ensures
        out@ == keccak512(data@),
{
    Keccak512Hasher::digest(data).into()
}

/// `Digest::digest` of `blake2::Blake2b512`: the BLAKE2b-512 digest of `data`.
#[verifier::external_body]
fn blake2b512_digest(data: &[u8]) -> (out: [u8; 64])
    ensures
        out@ == blake2b512(data@),
{
    Blake2bHasher::digest(data).into()
}

} // verus!
