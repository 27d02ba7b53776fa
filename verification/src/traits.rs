//! What the schemes have in common: signing, verifying, linking, key images.
//!
//! The hash and the source of nonces are chosen at each call. What a call returns is said by
//! each scheme, on its own `sign`, `verify`, `link` and `generate_key_image`.
use vstd::prelude::*;

use crate::hash::Hash512;
use crate::rng::ScalarSource;

verus! {

/// Signing a message within a ring.
pub trait Sign<PrivateKey, Ring>: Sized {
    /// Whether the private key(s) `k` can sign within `ring`, the decoys, at `secret_index`.
    spec fn signable(k: &PrivateKey, ring: &Ring, secret_index: usize) -> bool;

    /// Signs `message` with `k`. The ring of the signature is `ring` with the public key(s) of
    /// `k` put in at `secret_index`.
    fn sign<H: Hash512, R: ScalarSource>(
        k: PrivateKey,
        ring: Ring,
        secret_index: usize,
        message: &[u8],
    ) -> (signature: Self)
        requires
            Self::signable(&k, &ring, secret_index),
    ;
}

/// Verifying a signature.
pub trait Verify: Sized {
    /// Whether `signature` is a signature of `message` by a member of its ring.
    fn verify<H: Hash512>(signature: Self, message: &[u8]) -> bool;
}

/// Linking two signatures.
pub trait Link: Sized {
    /// Whether the two signatures show a common key image.
    spec fn linked(signature_1: &Self, signature_2: &Self) -> bool;

    /// Whether the two signatures were made with a common private key.
    fn link(signature_1: Self, signature_2: Self) -> (linked: bool)
        ensures
            linked == Self::linked(&signature_1, &signature_2),
    ;
}

/// Computing key images ahead of a signature.
pub trait KeyImageGen<PrivateKey, KeyImages> {
    /// Whether the private key(s) `k` have key images.
    spec fn has_key_image(k: &PrivateKey) -> bool;

    /// The key image(s) of `k`.
    fn generate_key_image<H: Hash512>(k: PrivateKey) -> KeyImages
        requires
            Self::has_key_image(&k),
    ;
}

} // verus!
