//! Spontaneous Anonymous Group (SAG) signatures: ring signatures that cannot be linked.
//!
//! Every hash of the chain starts with the encodings of the ring and the message. Round `i`
//! takes the challenge `c` to the hash of that prefix and of `r_i·G + c·P_i`, where `P_i` is
//! the member's public key and `r_i` its response.
use vstd::prelude::*;

use crate::bytes::{append, joined};
use crate::chain::{closes, first_challenge, lemma_chain_closes, run, secret_challenge};
use crate::commit::{
    closing_response, commit_to_key, key_commitment, lemma_key_commitment_closes, public_key,
    public_key_of,
};
use crate::hash::{hash_to_scalar, scalar_of, Hash512};
use crate::ristretto::{append_encodings, encodings, GroupElement, Point};
use crate::rng::{draw, ScalarSource};
use crate::scalar::Scalar;
use crate::traits::{Sign, Verify};

verus! {

/// A SAG signature.
#[derive(Clone, Debug)]
pub struct SAG {
    /// The challenge `c_0`.
    pub challenge: Scalar,
    /// The responses, one for each member of the ring.
    pub responses: Vec<Scalar>,
    /// The public keys of the ring, that of the signer among them.
    pub ring: Vec<Point>,
}

/// What a SAG signature holds: the challenge, the responses and the ring.
pub struct SagModel {
    pub challenge: nat,
    pub responses: Seq<nat>,
    pub ring: Seq<GroupElement>,
}

impl View for SAG {
    type V = SagModel;

    open spec fn view(&self) -> SagModel {
        SagModel {
            challenge: self.challenge@,
            responses: self.responses.deep_view(),
            ring: self.ring.deep_view(),
        }
    }
}

/// The bytes with which every hash of the chain starts: the encodings of the ring, then the
/// message.
pub open spec fn prefix(ring: Seq<GroupElement>, message: Seq<u8>) -> Seq<u8> {
    encodings(ring) + message
}

/// The challenge that follows the commitment `commitment`.
pub open spec fn challenge_after<H: Hash512>(prefix: Seq<u8>, commitment: GroupElement) -> nat {
    scalar_of::<H>(prefix + commitment.encoding())
}

/// The rounds of a ring with these responses.
pub open spec fn rounds<H: Hash512>(
    prefix: Seq<u8>,
    responses: Seq<nat>,
    ring: Seq<GroupElement>,
) -> spec_fn(int, nat) -> nat {
    |i: int, c: nat| challenge_after::<H>(prefix, key_commitment(responses[i], c, ring[i]))
}

impl SagModel {
    /// Whether the signature is one of `message`: it has as many responses as members, at
    /// least two, and its chain closes.
    pub open spec fn verifies<H: Hash512>(self, message: Seq<u8>) -> bool {
        &&& self.ring.len() >= 2
        &&& self.responses.len() == self.ring.len()
        &&& closes(
            rounds::<H>(prefix(self.ring, message), self.responses, self.ring),
            self.ring.len() as int,
            self.challenge,
        )
    }

    /// The signature of `message` by the private key `k`, hidden among `decoys` at the index
    /// `secret`, made with the nonce `nonce` and the responses `drawn`.
    pub open spec fn signed<H: Hash512>(
        k: nat,
        decoys: Seq<GroupElement>,
        secret: int,
        message: Seq<u8>,
        nonce: nat,
        drawn: Seq<nat>,
    ) -> SagModel {
        let ring = decoys.insert(secret, public_key(k));
        let n = ring.len() as int;
        let prefix = prefix(ring, message);
        let seed = challenge_after::<H>(prefix, public_key(nonce));
        let draft = rounds::<H>(prefix, drawn, ring);
        let c_secret = secret_challenge(draft, n, secret, seed);
        SagModel {
            challenge: first_challenge(draft, n, secret, seed),
            responses: drawn.update(secret, closing_response(nonce, c_secret, k)),
            ring,
        }
    }
}

/// Every signature verifies: whatever the private key, the decoys, the secret index, the
/// message and the nonces, the signature made of them is a signature of that message.
pub proof fn lemma_signature_verifies<H: Hash512>(
    k: nat,
    decoys: Seq<GroupElement>,
    secret: int,
    message: Seq<u8>,
    nonce: nat,
    drawn: Seq<nat>,
)
    requires
        decoys.len() >= 1,
        0 <= secret <= decoys.len(),
        drawn.len() == decoys.len() + 1,
    ensures
        SagModel::signed::<H>(k, decoys, secret, message, nonce, drawn).verifies::<H>(message),
{
    let signature = SagModel::signed::<H>(k, decoys, secret, message, nonce, drawn);
    let ring = signature.ring;
    let n = ring.len() as int;
    let prefix = prefix(ring, message);
    let seed = challenge_after::<H>(prefix, public_key(nonce));
    let draft = rounds::<H>(prefix, drawn, ring);
    let signed = rounds::<H>(prefix, signature.responses, ring);
    let c_secret = secret_challenge(draft, n, secret, seed);
    lemma_key_commitment_closes(nonce, c_secret, k);
    lemma_chain_closes(draft, signed, n, secret, seed);
}

/// The secret index does not show: a signer who hides at `secret_1` and one who hides at
/// `secret_2`, the first and the last index among them, both make signatures that verify.
pub proof fn lemma_any_index_verifies<H: Hash512>(
    k: nat,
    decoys: Seq<GroupElement>,
    secret_1: int,
    secret_2: int,
    message: Seq<u8>,
    nonce: nat,
    drawn: Seq<nat>,
)
    requires
        decoys.len() >= 1,
        0 <= secret_1 <= decoys.len(),
        0 <= secret_2 <= decoys.len(),
        drawn.len() == decoys.len() + 1,
    ensures
        SagModel::signed::<H>(k, decoys, secret_1, message, nonce, drawn).verifies::<H>(message),
        SagModel::signed::<H>(k, decoys, secret_2, message, nonce, drawn).verifies::<H>(message),
{
    lemma_signature_verifies::<H>(k, decoys, secret_1, message, nonce, drawn);
    lemma_signature_verifies::<H>(k, decoys, secret_2, message, nonce, drawn);
}

/// The bytes with which every hash of the chain starts.
fn chain_prefix(ring: &Vec<Point>, message: &[u8]) -> (out: Vec<u8>)
    ensures
        out@ == prefix(ring.deep_view(), message@),
{
    let mut out: Vec<u8> = Vec::new();
    append_encodings(&mut out, ring);
    append(&mut out, message);
    assert(out@ =~= prefix(ring.deep_view(), message@));
    out
}

/// The challenge that follows the commitment `commitment`.
fn next_challenge<H: Hash512>(prefix: &Vec<u8>, commitment: &Point) -> (out: Scalar)
    ensures
        out@ == challenge_after::<H>(prefix@, commitment@),
{
    let encoded = commitment.to_bytes();
    let data = joined(prefix, &encoded);
    hash_to_scalar::<H>(data.as_slice())
}

/// One round: the challenge that follows `c` at a member with the response `r` and the public
/// key `key`.
fn round<H: Hash512>(prefix: &Vec<u8>, r: &Scalar, c: &Scalar, key: &Point) -> (out: Scalar)
    ensures
        out@ == challenge_after::<H>(prefix@, key_commitment(r@, c@, key@)),
{
    let commitment = commit_to_key(r, c, key);
    next_challenge::<H>(prefix, &commitment)
}

impl SAG {
    /// Signs `message` with the private key `k`, the nonce `nonce` and the responses
    /// `responses`, of which the one at `secret_index` is replaced. The ring of the signature
    /// is `ring` with the public key `k·G` put in at `secret_index`.
    pub fn sign_with_nonces<H: Hash512>(
        k: Scalar,
        ring: Vec<Point>,
        secret_index: usize,
        message: &[u8],
        nonce: Scalar,
        responses: Vec<Scalar>,
    ) -> (signature: SAG)
        requires
            ring.len() >= 1,
            secret_index <= ring.len(),
            responses.len() == ring.len() + 1,
        ensures
            signature@ == SagModel::signed::<H>(
                k@,
                ring.deep_view(),
                secret_index as int,
                message@,
                nonce@,
                responses.deep_view(),
            ),
            signature@.verifies::<H>(message@),
    {
        let ghost decoys = ring.deep_view();
        let ghost drawn = responses.deep_view();
        let ghost secret = secret_index as int;
        let mut ring = ring;
        let mut responses = responses;
        ring.insert(secret_index, public_key_of(&k));
        let n = ring.len();
        let ghost members = ring.deep_view();
        assert(members =~= decoys.insert(secret, public_key(k@)));

        let prefix = chain_prefix(&ring, message);
        let seed = next_challenge::<H>(&prefix, &public_key_of(&nonce));
        let ghost draft = rounds::<H>(prefix@, drawn, members);

        let mut c = seed;
        let mut i: usize = secret_index + 1;
        while i < n
            invariant
                secret == secret_index,
                secret_index + 1 <= i <= n,
                n == ring.len(),
                n == responses.len(),
                members == ring.deep_view(),
                drawn == responses.deep_view(),
                draft == rounds::<H>(prefix@, drawn, members),
                c@ == run(draft, secret + 1, i as int, seed@),
            decreases n - i,
        {
            c = round::<H>(&prefix, &responses[i], &c, &ring[i]);
            i += 1;
        }
        let challenge = c;
        let mut i: usize = 0;
        while i < secret_index
            invariant
                i <= secret_index < n,
                n == ring.len(),
                n == responses.len(),
                members == ring.deep_view(),
                drawn == responses.deep_view(),
                draft == rounds::<H>(prefix@, drawn, members),
                c@ == run(draft, 0, i as int, challenge@),
            decreases secret_index - i,
        {
            c = round::<H>(&prefix, &responses[i], &c, &ring[i]);
            i += 1;
        }
        responses[secret_index] = nonce.minus(&c.times(&k));
        let signature = SAG { challenge, responses, ring };
        proof {
            let model = SagModel::signed::<H>(k@, decoys, secret, message@, nonce@, drawn);
            assert(signature@.responses =~= model.responses);
            lemma_signature_verifies::<H>(k@, decoys, secret, message@, nonce@, drawn);
        }
        signature
    }
}

impl Sign<Scalar, Vec<Point>> for SAG {
    /// There is a decoy, and the secret index is at most the number of decoys.
    open spec fn signable(k: &Scalar, ring: &Vec<Point>, secret_index: usize) -> bool {
        ring.len() >= 1 && secret_index <= ring.len() && ring.len() < usize::MAX
    }

    /// Signs `message` with the private key `k`, with nonces drawn from `R`. The signature is
    /// the one that [`SagModel::signed`] describes for some nonces, and it verifies.
    fn sign<H: Hash512, R: ScalarSource>(
        k: Scalar,
        ring: Vec<Point>,
        secret_index: usize,
        message: &[u8],
    ) -> (signature: SAG)
        ensures
            exists|nonce: nat, drawn: Seq<nat>|
                drawn.len() == ring.len() + 1 && signature@ == #[trigger] SagModel::signed::<H>(
                    k@,
                    ring.deep_view(),
                    secret_index as int,
                    message@,
                    nonce,
                    drawn,
                ),
            signature@.verifies::<H>(message@),
    {
        let mut source = R::new();
        let nonce = source.scalar();
        let responses = draw(&mut source, ring.len() + 1);
        let ghost drawn = responses.deep_view();
        let ghost decoys = ring.deep_view();
        let signature = SAG::sign_with_nonces::<H>(k, ring, secret_index, message, nonce, responses);
        assert(signature@ == SagModel::signed::<H>(
            k@,
            decoys,
            secret_index as int,
            message@,
            nonce@,
            drawn,
        ));
        signature
    }
}

impl Verify for SAG {
    /// Whether `signature` is a signature of `message`.
    fn verify<H: Hash512>(signature: SAG, message: &[u8]) -> (valid: bool)
        ensures
            valid == signature@.verifies::<H>(message@),
    {
        let n = signature.ring.len();
        if n < 2 || signature.responses.len() != n {
            return false;
        }
        let prefix = chain_prefix(&signature.ring, message);
        let ghost all = rounds::<H>(prefix@, signature@.responses, signature@.ring);
        let mut c = signature.challenge;
        let mut j: usize = 0;
        while j < n
            invariant
                j <= n,
                n == signature.ring.len(),
                n == signature.responses.len(),
                all == rounds::<H>(prefix@, signature@.responses, signature@.ring),
                c@ == run(all, 0, j as int, signature.challenge@),
            decreases n - j,
        {
            c = round::<H>(&prefix, &signature.responses[j], &c, &signature.ring[j]);
            j += 1;
        }
        signature.challenge.equals(&c)
    }
}

} // verus!
