//! Back's Linkable Spontaneous Anonymous Group (bLSAG) signatures: ring signatures that show
//! when two of them were made with one private key.
//!
//! A signature carries the key image `k·H_p(k·G)` of its private key `k`, where `H_p` hashes the
//! encoding of a point to a point. Every hash of the chain starts with the message. Round `i`
//! takes the challenge `c` to the hash of the message, of `r_i·G + c·P_i` and of
//! `r_i·H_p(P_i) + c·I`, where `P_i` is the member's public key, `r_i` its response and `I` the
//! key image.
use vstd::prelude::*;

use crate::bytes::append;
use crate::chain::{closes, first_challenge, lemma_chain_closes, run, secret_challenge};
use crate::commit::{
    closing_response, commit_to_image, commit_to_key, hash_key, hashed_key, image_commitment,
    key_commitment, lemma_image_commitment_closes, lemma_key_commitment_closes, public_key,
    public_key_of,
};
use crate::hash::{hash_to_scalar, scalar_of, Hash512};
use crate::ristretto::{GroupElement, Point};
use crate::rng::{draw, ScalarSource};
use crate::scalar::Scalar;
use crate::traits::{KeyImageGen, Link, Sign, Verify};

verus! {

/// A bLSAG signature.
#[derive(Clone, Debug)]
pub struct BLSAG {
    /// The challenge `c_0`.
    pub challenge: Scalar,
    /// The responses, one for each member of the ring.
    pub responses: Vec<Scalar>,
    /// The public keys of the ring, that of the signer among them.
    pub ring: Vec<Point>,
    /// The key image of the signer's private key.
    pub key_image: Point,
}

/// What a bLSAG signature holds: the challenge, the responses, the ring and the key image.
pub struct BlsagModel {
    pub challenge: nat,
    pub responses: Seq<nat>,
    pub ring: Seq<GroupElement>,
    pub key_image: GroupElement,
}

impl View for BLSAG {
    type V = BlsagModel;

    open spec fn view(&self) -> BlsagModel {
        BlsagModel {
            challenge: self.challenge@,
            responses: self.responses.deep_view(),
            ring: self.ring.deep_view(),
            key_image: self.key_image@,
        }
    }
}

/// The key image of the private key `k`: `k·H_p(k·G)`.
pub open spec fn key_image<H: Hash512>(k: nat) -> GroupElement {
    hashed_key::<H>(public_key(k)).scaled(k)
}

/// The challenge that follows the two commitments of a round.
pub open spec fn challenge_after<H: Hash512>(
    message: Seq<u8>,
    first: GroupElement,
    second: GroupElement,
) -> nat {
    scalar_of::<H>(message + first.encoding() + second.encoding())
}

/// The rounds of a ring with these responses and this key image.
pub open spec fn rounds<H: Hash512>(
    message: Seq<u8>,
    responses: Seq<nat>,
    ring: Seq<GroupElement>,
    image: GroupElement,
) -> spec_fn(int, nat) -> nat {
    |i: int, c: nat|
        challenge_after::<H>(
            message,
            key_commitment(responses[i], c, ring[i]),
            image_commitment::<H>(responses[i], c, ring[i], image),
        )
}

impl BlsagModel {
    /// Whether the signature is one of `message`: it has as many responses as members, at
    /// least two, and its chain closes.
    pub open spec fn verifies<H: Hash512>(self, message: Seq<u8>) -> bool {
        &&& self.ring.len() >= 2
        &&& self.responses.len() == self.ring.len()
        &&& closes(
            rounds::<H>(message, self.responses, self.ring, self.key_image),
            self.ring.len() as int,
            self.challenge,
        )
    }

    /// Whether two signatures show the same key image.
    pub open spec fn links(self, other: BlsagModel) -> bool {
        self.key_image == other.key_image
    }

    /// The signature of `message` by the private key `k`, hidden among `decoys` at the index
    /// `secret`, made with the nonce `nonce` and the responses `drawn`.
    pub open spec fn signed<H: Hash512>(
        k: nat,
        decoys: Seq<GroupElement>,
        secret: int,
        message: Seq<u8>,
        nonce: nat,
        drawn: Seq<nat>,
    ) -> BlsagModel {
        let ring = decoys.insert(secret, public_key(k));
        let n = ring.len() as int;
        let image = key_image::<H>(k);
        let seed = challenge_after::<H>(
            message,
            public_key(nonce),
            hashed_key::<H>(public_key(k)).scaled(nonce),
        );
        let draft = rounds::<H>(message, drawn, ring, image);
        let c_secret = secret_challenge(draft, n, secret, seed);
        BlsagModel {
            challenge: first_challenge(draft, n, secret, seed),
            responses: drawn.update(secret, closing_response(nonce, c_secret, k)),
            ring,
            key_image: image,
        }
    }
}

/// Every signature verifies: whatever the private key, the decoys, the secret index, the
/// message and the nonces, the signature made of them is a signature of that message.
pub proof fn lemma_signature_verifies<H: Hash512>(
    k: nat,
    decoys: Seq<GroupElement>,
    secret: int,
    message: Seq<u8>,
    nonce: nat,
    drawn: Seq<nat>,
)
    requires
        decoys.len() >= 1,
        0 <= secret <= decoys.len(),
        drawn.len() == decoys.len() + 1,
    ensures
        BlsagModel::signed::<H>(k, decoys, secret, message, nonce, drawn).verifies::<H>(message),
{
    let signature = BlsagModel::signed::<H>(k, decoys, secret, message, nonce, drawn);
    let ring = signature.ring;
    let n = ring.len() as int;
    let hashed = hashed_key::<H>(public_key(k));
    let seed = challenge_after::<H>(message, public_key(nonce), hashed.scaled(nonce));
    let draft = rounds::<H>(message, drawn, ring, signature.key_image);
    let signed = rounds::<H>(message, signature.responses, ring, signature.key_image);
    let c_secret = secret_challenge(draft, n, secret, seed);
    lemma_key_commitment_closes(nonce, c_secret, k);
    lemma_image_commitment_closes(nonce, c_secret, k, hashed);
    lemma_chain_closes(draft, signed, n, secret, seed);
}

/// The secret index does not show: a signer who hides at `secret_1` and one who hides at
/// `secret_2`, the first and the last index among them, both make signatures that verify.
pub proof fn lemma_any_index_verifies<H: Hash512>(
    k: nat,
    decoys: Seq<GroupElement>,
    secret_1: int,
    secret_2: int,
    message: Seq<u8>,
    nonce: nat,
    drawn: Seq<nat>,
)
    requires
        decoys.len() >= 1,
        0 <= secret_1 <= decoys.len(),
        0 <= secret_2 <= decoys.len(),
        drawn.len() == decoys.len() + 1,
    ensures
        BlsagModel::signed::<H>(k, decoys, secret_1, message, nonce, drawn).verifies::<H>(message),
        BlsagModel::signed::<H>(k, decoys, secret_2, message, nonce, drawn).verifies::<H>(message),
{
    lemma_signature_verifies::<H>(k, decoys, secret_1, message, nonce, drawn);
    lemma_signature_verifies::<H>(k, decoys, secret_2, message, nonce, drawn);
}

/// Two signatures by one private key link, whatever their rings, secret indices, messages and
/// nonces.
pub proof fn lemma_same_key_links<H: Hash512>(
    k: nat,
    decoys_1: Seq<GroupElement>,
    secret_1: int,
    message_1: Seq<u8>,
    nonce_1: nat,
    drawn_1: Seq<nat>,
    decoys_2: Seq<GroupElement>,
    secret_2: int,
    message_2: Seq<u8>,
    nonce_2: nat,
    drawn_2: Seq<nat>,
)
    ensures
        BlsagModel::signed::<H>(k, decoys_1, secret_1, message_1, nonce_1, drawn_1).links(
            BlsagModel::signed::<H>(k, decoys_2, secret_2, message_2, nonce_2, drawn_2),
        ),
{
}

/// The key image of a signature is the key image of the private key that made it.
pub proof fn lemma_signature_shows_key_image<H: Hash512>(
    k: nat,
    decoys: Seq<GroupElement>,
    secret: int,
    message: Seq<u8>,
    nonce: nat,
    drawn: Seq<nat>,
)
    ensures
        BlsagModel::signed::<H>(k, decoys, secret, message, nonce, drawn).key_image
            == key_image::<H>(k),
{
}

/// The challenge that follows the two commitments of a round.
pub fn next_challenge<H: Hash512>(message: &[u8], first: &Point, second: &Point) -> (out: Scalar)
    ensures
        out@ == challenge_after::<H>(message@, first@, second@),
{
    let mut data: Vec<u8> = Vec::new();
    append(&mut data, message);
    append(&mut data, &first.to_bytes());
    append(&mut data, &second.to_bytes());
    assert(data@ =~= message@ + first@.encoding() + second@.encoding());
    hash_to_scalar::<H>(data.as_slice())
}

/// One round: the challenge that follows `c` at a member with the response `r` and the public
/// key `key`.
fn round<H: Hash512>(message: &[u8], r: &Scalar, c: &Scalar, key: &Point, image: &Point) -> (out:
    Scalar)
    ensures
        out@ == challenge_after::<H>(
            message@,
            key_commitment(r@, c@, key@),
            image_commitment::<H>(r@, c@, key@, image@),
        ),
{
    let first = commit_to_key(r, c, key);
    let second = commit_to_image::<H>(r, c, key, image);
    next_challenge::<H>(message, &first, &second)
}

impl BLSAG {
    /// Signs `message` with the private key `k`, the nonce `nonce` and the responses
    /// `responses`, of which the one at `secret_index` is replaced. The ring of the signature
    /// is `ring` with the public key `k·G` put in at `secret_index`.
    pub fn sign_with_nonces<H: Hash512>(
        k: Scalar,
        ring: Vec<Point>,
        secret_index: usize,
        message: &[u8],
        nonce: Scalar,
        responses: Vec<Scalar>,
    ) -> (signature: BLSAG)
        requires
            ring.len() >= 1,
            secret_index <= ring.len(),
            responses.len() == ring.len() + 1,
        ensures
            signature@ == BlsagModel::signed::<H>(
                k@,
                ring.deep_view(),
                secret_index as int,
                message@,
                nonce@,
                responses.deep_view(),
            ),
            signature@.verifies::<H>(message@),
    {
        let ghost decoys = ring.deep_view();
        let ghost drawn = responses.deep_view();
        let ghost secret = secret_index as int;
        let mut ring = ring;
        let mut responses = responses;
        let own_key = public_key_of(&k);
        let hashed = hash_key::<H>(&own_key);
        let key_image = hashed.scaled(&k);
        ring.insert(secret_index, own_key);
        let n = ring.len();
        let ghost members = ring.deep_view();
        assert(members =~= decoys.insert(secret, public_key(k@)));

        let seed = next_challenge::<H>(message, &public_key_of(&nonce), &hashed.scaled(&nonce));
        let ghost draft = rounds::<H>(message@, drawn, members, key_image@);

        let mut c = seed;
        let mut i: usize = secret_index + 1;
        while i < n
            invariant
                secret == secret_index,
                secret_index + 1 <= i <= n,
                n == ring.len(),
                n == responses.len(),
                members == ring.deep_view(),
                drawn == responses.deep_view(),
                draft == rounds::<H>(message@, drawn, members, key_image@),
                c@ == run(draft, secret + 1, i as int, seed@),
            decreases n - i,
        {
            c = round::<H>(message, &responses[i], &c, &ring[i], &key_image);
            i += 1;
        }
        let challenge = c;
        let mut i: usize = 0;
        while i < secret_index
            invariant
                i <= secret_index < n,
                n == ring.len(),
                n == responses.len(),
                members == ring.deep_view(),
                drawn == responses.deep_view(),
                draft == rounds::<H>(message@, drawn, members, key_image@),
                c@ == run(draft, 0, i as int, challenge@),
            decreases secret_index - i,
        {
            c = round::<H>(message, &responses[i], &c, &ring[i], &key_image);
            i += 1;
        }
        responses[secret_index] = nonce.minus(&c.times(&k));
        let signature = BLSAG { challenge, responses, ring, key_image };
        proof {
            let model = BlsagModel::signed::<H>(k@, decoys, secret, message@, nonce@, drawn);
            assert(signature@.responses =~= model.responses);
            lemma_signature_verifies::<H>(k@, decoys, secret, message@, nonce@, drawn);
        }
        signature
    }
}

impl KeyImageGen<Scalar, Point> for BLSAG {
    /// Every private key has a key image.
    open spec fn has_key_image(k: &Scalar) -> bool {
        true
    }

    /// The key image `k·H_p(k·G)` of the private key `k`.
    fn generate_key_image<H: Hash512>(k: Scalar) -> (image: Point)
        ensures
            image@ == key_image::<H>(k@),
    {
        hash_key::<H>(&public_key_of(&k)).scaled(&k)
    }
}

impl Sign<Scalar, Vec<Point>> for BLSAG {
    /// There is a decoy, and the secret index is at most the number of decoys.
    open spec fn signable(k: &Scalar, ring: &Vec<Point>, secret_index: usize) -> bool {
        ring.len() >= 1 && secret_index <= ring.len() && ring.len() < usize::MAX
    }

    /// Signs `message` with the private key `k`, with nonces drawn from `R`. The signature is
    /// the one that [`BlsagModel::signed`] describes for some nonces; it verifies, and its key
    /// image is that of `k`.
    fn sign<H: Hash512, R: ScalarSource>(
        k: Scalar,
        ring: Vec<Point>,
        secret_index: usize,
        message: &[u8],
    ) -> (signature: BLSAG)
        ensures
            exists|nonce: nat, drawn: Seq<nat>|
                drawn.len() == ring.len() + 1 && signature@ == #[trigger] BlsagModel::signed::<H>(
                    k@,
                    ring.deep_view(),
                    secret_index as int,
                    message@,
                    nonce,
                    drawn,
                ),
            signature@.verifies::<H>(message@),
            signature@.key_image == key_image::<H>(k@),
    {
        let mut source = R::new();
        let nonce = source.scalar();
        let responses = draw(&mut source, ring.len() + 1);
        let ghost drawn = responses.deep_view();
        let ghost decoys = ring.deep_view();
        let signature = BLSAG::sign_with_nonces::<H>(
            k,
            ring,
            secret_index,
            message,
            nonce,
            responses,
        );
        assert(signature@ == BlsagModel::signed::<H>(
            k@,
            decoys,
            secret_index as int,
            message@,
            nonce@,
            drawn,
        ));
        signature
    }
}

impl Verify for BLSAG {
    /// Whether `signature` is a signature of `message`.
    fn verify<H: Hash512>(signature: BLSAG, message: &[u8]) -> (valid: bool)
        ensures
            valid == signature@.verifies::<H>(message@),
    {
        let n = signature.ring.len();
        if n < 2 || signature.responses.len() != n {
            return false;
        }
        let ghost all = rounds::<H>(
            message@,
            signature@.responses,
            signature@.ring,
            signature@.key_image,
        );
        let mut c = signature.challenge;
        let mut j: usize = 0;
        while j < n
            invariant
                j <= n,
                n == signature.ring.len(),
                n == signature.responses.len(),
                all == rounds::<H>(
                    message@,
                    signature@.responses,
                    signature@.ring,
                    signature@.key_image,
                ),
                c@ == run(all, 0, j as int, signature.challenge@),
            decreases n - j,
        {
            c = round::<H>(
                message,
                &signature.responses[j],
                &c,
                &signature.ring[j],
                &signature.key_image,
            );
            j += 1;
        }
        signature.challenge.equals(&c)
    }
}

impl Link for BLSAG {
    /// The two signatures show the same key image.
    open spec fn linked(signature_1: &BLSAG, signature_2: &BLSAG) -> bool {
        signature_1@.links(signature_2@)
    }

    /// Whether the two signatures were made with one private key.
    fn link(signature_1: BLSAG, signature_2: BLSAG) -> (linked: bool) {
        signature_1.key_image.equals(&signature_2.key_image)
    }
}

} // verus!
