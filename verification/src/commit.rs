//! The commitments that the rounds hash.
//!
//! At a member with the public key `P` and the response `r`, a round commits to the challenge
//! `c` with `r·G + c·P` and, in the linkable schemes, with `r·H_p(P) + c·I`, where `I` is a key
//! image and `H_p` hashes the encoding of a point to a point. A signer who knows `k` with
//! `P = k·G` and `I = k·H_p(P)` answers with `r = a − c·k`: both commitments are then those of
//! the nonce `a`, whatever `c` is.
use vstd::prelude::*;

use crate::hash::{element_of, hash_to_point, Hash512};
use crate::ristretto::{GroupElement, Point};
use crate::scalar::{lemma_response_closes, mul_mod, sub_mod, Scalar};

verus! {

/// The point to which `H` hashes the public key `key`.
pub open spec fn hashed_key<H: Hash512>(key: GroupElement) -> GroupElement {
    element_of::<H>(key.encoding())
}

/// The public key of the private key `k`: `k·G`.
pub open spec fn public_key(k: nat) -> GroupElement {
    GroupElement::generator().scaled(k)
}

/// The response that closes a ring: `a − c·k`, for the nonce `a`, the challenge `c` and the
/// private key `k`.
pub open spec fn closing_response(nonce: nat, c: nat, k: nat) -> nat {
    sub_mod(nonce, mul_mod(c, k))
}

/// The commitment to the challenge `c` on the public key `key`, with the response `r`:
/// `r·G + c·key`.
pub open spec fn key_commitment(r: nat, c: nat, key: GroupElement) -> GroupElement {
    GroupElement::generator().scaled(r).plus(key.scaled(c))
}

/// The commitment to the challenge `c` on the key image `image`, with the response `r`, at the
/// member whose public key is `key`: `r·H_p(key) + c·image`.
pub open spec fn image_commitment<H: Hash512>(
    r: nat,
    c: nat,
    key: GroupElement,
    image: GroupElement,
) -> GroupElement {
    hashed_key::<H>(key).scaled(r).plus(image.scaled(c))
}

/// With the closing response, the commitment on the signer's public key is that of the nonce.
pub proof fn lemma_key_commitment_closes(nonce: nat, c: nat, k: nat)
    ensures
        key_commitment(closing_response(nonce, c, k), c, public_key(k)) == public_key(nonce),
{
    lemma_response_closes(nonce, c, k, 1);
}

/// With the closing response, the commitment on the signer's key image `k·base` is `a·base`.
pub proof fn lemma_image_commitment_closes(nonce: nat, c: nat, k: nat, base: GroupElement)
    ensures
        base.scaled(closing_response(nonce, c, k)).plus(base.scaled(k).scaled(c)) == base.scaled(
            nonce,
        ),
{
    lemma_response_closes(nonce, c, k, base.log);
}

/// The point to which `H` hashes the public key `key`.
pub fn hash_key<H: Hash512>(key: &Point) -> (out: Point)
    ensures
        out@ == hashed_key::<H>(key@),
{
    let encoded = key.to_bytes();
    hash_to_point::<H>(&encoded)
}

/// The public key `k·G` of the private key `k`.
pub fn public_key_of(k: &Scalar) -> (out: Point)
    ensures
        out@ == public_key(k@),
{
    Point::generator().scaled(k)
}

/// The commitment `r·G + c·key`.
pub fn commit_to_key(r: &Scalar, c: &Scalar, key: &Point) -> (out: Point)
    ensures
        out@ == key_commitment(r@, c@, key@),
{
    let generator = Point::generator();
    Point::combined(r, &generator, c, key)
}

/// The commitment `r·H_p(key) + c·image`.
pub fn commit_to_image<H: Hash512>(r: &Scalar, c: &Scalar, key: &Point, image: &Point) -> (out:
    Point)
    ensures
        out@ == image_commitment::<H>(r@, c@, key@, image@),
{
    let hashed = hash_key::<H>(key);
    Point::combined(r, &hashed, c, image)
}

} // verus!
