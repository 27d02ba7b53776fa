//! Concise Linkable Spontaneous Anonymous Group (CLSAG) signatures: ring signatures by several
//! private keys at once, of which the first alone links.
//!
//! The ring is a matrix as in MLSAG, but the columns are aggregated: with coefficients `μ_j`
//! that a hash derives from the ring and the key images, a row `i` stands in the chain with the
//! one key `Σ μ_j·P_ij`, the signer with the one private key `Σ μ_j·k_j` and the one key image
//! `Σ μ_j·I_j`, where `I_j = k_j·H_p(k_0·G)`. So a signature has one response for each row.
//!
//! The labels that separate the hashes are `CSLAG_`, followed by the column in decimal, for
//! the coefficients and `CSLAG_c` for the chain: signatures are exchanged with these labels,
//! spelling included.
use vstd::prelude::*;

use crate::blsag::{challenge_after, next_challenge};
use crate::bytes::{append, decimal, decimal_digits};
use crate::chain::{closes, first_challenge, lemma_chain_closes, run, secret_challenge};
use crate::commit::{
    closing_response, commit_to_image, commit_to_key, hash_key, hashed_key, image_commitment,
    key_commitment, lemma_image_commitment_closes, lemma_key_commitment_closes, public_key,
    public_key_of,
};
use crate::hash::{hash_to_scalar, scalar_of, Hash512};
use crate::mlsag::{clone_scalars, has_shape, is_matrix, public_keys, public_keys_of};
use crate::ristretto::{
    append_encodings, append_row_encodings, encodings, row_encodings, GroupElement, Point,
};
use crate::rng::{draw, ScalarSource};
use crate::scalar::{add_mod, group_order, mul_mod, Scalar};
use crate::traits::{KeyImageGen, Link, Sign, Verify};

verus! {

/// A CLSAG signature.
#[derive(Clone, Debug)]
pub struct CLSAG {
    /// The challenge `c_0`.
    pub challenge: Scalar,
    /// The responses, one for each row of the ring.
    pub responses: Vec<Scalar>,
    /// The public keys of the ring, row by row, those of the signer among them.
    pub ring: Vec<Vec<Point>>,
    /// The key images of the signer's private keys, one for each column. Only the first links.
    pub key_images: Vec<Point>,
}

/// What a CLSAG signature holds: the challenge, the responses, the ring and the key images.
pub struct ClsagModel {
    pub challenge: nat,
    pub responses: Seq<nat>,
    pub ring: Seq<Seq<GroupElement>>,
    pub key_images: Seq<GroupElement>,
}

impl View for CLSAG {
    type V = ClsagModel;

    open spec fn view(&self) -> ClsagModel {
        ClsagModel {
            challenge: self.challenge@,
            responses: self.responses.deep_view(),
            ring: self.ring.deep_view(),
            key_images: self.key_images.deep_view(),
        }
    }
}

/// The label of the hashes of this scheme: `CSLAG_` in ASCII.
pub open spec fn label() -> Seq<u8> {
    seq![67u8, 83u8, 76u8, 65u8, 71u8, 95u8]
}

/// The key images of the private keys `ks`: `k_j·H_p(k_0·G)` for each of them.
pub open spec fn key_images<H: Hash512>(ks: Seq<nat>) -> Seq<GroupElement> {
    Seq::new(ks.len(), |j: int| hashed_key::<H>(public_key(ks[0])).scaled(ks[j]))
}

/// The bytes that every coefficient hashes after its label: the encodings of the ring, row by
/// row, then those of the key images.
pub open spec fn coefficient_suffix(
    ring: Seq<Seq<GroupElement>>,
    images: Seq<GroupElement>,
) -> Seq<u8> {
    row_encodings(ring) + encodings(images)
}

/// The coefficient `μ_j` of the column `j`: the hash of the label, the column in decimal, the
/// ring and the key images.
pub open spec fn coefficient<H: Hash512>(j: nat, suffix: Seq<u8>) -> nat {
    scalar_of::<H>(label() + decimal_digits(j) + suffix)
}

/// The coefficients of all columns.
pub open spec fn coefficients<H: Hash512>(
    ring: Seq<Seq<GroupElement>>,
    images: Seq<GroupElement>,
) -> Seq<nat> {
    Seq::new(images.len(), |j: int| coefficient::<H>(j as nat, coefficient_suffix(ring, images)))
}

/// The sum `Σ w_j·P_j` over the first `count` of the points.
pub open spec fn weighted_sum(weights: Seq<nat>, points: Seq<GroupElement>, count: int) -> GroupElement
    decreases count,
{
    if count <= 0 {
        GroupElement::identity()
    } else {
        weighted_sum(weights, points, count - 1).plus(points[count - 1].scaled(weights[count - 1]))
    }
}

/// The sum `Σ w_j·k_j` over the first `count` of the scalars.
pub open spec fn weighted_total(weights: Seq<nat>, ks: Seq<nat>, count: int) -> nat
    decreases count,
{
    if count <= 0 {
        0
    } else {
        add_mod(weighted_total(weights, ks, count - 1), mul_mod(weights[count - 1], ks[count - 1]))
    }
}

/// The one key or key image that stands for a row of them.
pub open spec fn aggregate(weights: Seq<nat>, points: Seq<GroupElement>) -> GroupElement {
    weighted_sum(weights, points, points.len() as int)
}

/// The one private key that stands for the private keys `ks`.
pub open spec fn aggregate_private_key(weights: Seq<nat>, ks: Seq<nat>) -> nat {
    weighted_total(weights, ks, ks.len() as int)
}

/// The bytes with which every hash of the chain starts: the label `CSLAG_c`, the encodings of
/// the ring, row by row, then the message.
pub open spec fn chain_prefix(ring: Seq<Seq<GroupElement>>, message: Seq<u8>) -> Seq<u8> {
    label() + seq![99u8] + row_encodings(ring) + message
}

/// The rounds of a ring with these responses, these coefficients and this aggregate key image.
pub open spec fn rounds<H: Hash512>(
    prefix: Seq<u8>,
    responses: Seq<nat>,
    ring: Seq<Seq<GroupElement>>,
    weights: Seq<nat>,
    image: GroupElement,
) -> spec_fn(int, nat) -> nat {
    |i: int, c: nat|
        challenge_after::<H>(
            prefix,
            key_commitment(responses[i], c, aggregate(weights, ring[i])),
            image_commitment::<H>(responses[i], c, ring[i][0], image),
        )
}

impl ClsagModel {
    /// Whether the signature has the shape of one: at least two rows and one column, as many
    /// key images as columns, and a response for each row.
    pub open spec fn well_formed(self) -> bool {
        &&& self.ring.len() >= 2
        &&& self.key_images.len() >= 1
        &&& is_matrix(self.ring, self.ring.len(), self.key_images.len())
        &&& self.responses.len() == self.ring.len()
    }

    /// Whether the signature is one of `message`: it is well formed and its chain closes.
    pub open spec fn verifies<H: Hash512>(self, message: Seq<u8>) -> bool {
        let weights = coefficients::<H>(self.ring, self.key_images);
        &&& self.well_formed()
        &&& closes(
            rounds::<H>(
                chain_prefix(self.ring, message),
                self.responses,
                self.ring,
                weights,
                aggregate(weights, self.key_images),
            ),
            self.ring.len() as int,
            self.challenge,
        )
    }

    /// Whether two signatures show the same first key image.
    pub open spec fn links(self, other: ClsagModel) -> bool {
        &&& self.key_images.len() >= 1
        &&& other.key_images.len() >= 1
        &&& self.key_images[0] == other.key_images[0]
    }

    /// The signature of `message` by the private keys `ks`, hidden among the rows `decoys` at
    /// the index `secret`, made with the nonce `nonce` and the responses `drawn`.
    pub open spec fn signed<H: Hash512>(
        ks: Seq<nat>,
        decoys: Seq<Seq<GroupElement>>,
        secret: int,
        message: Seq<u8>,
        nonce: nat,
        drawn: Seq<nat>,
    ) -> ClsagModel {
        let ring = decoys.insert(secret, public_keys(ks));
        let n = ring.len() as int;
        let images = key_images::<H>(ks);
        let weights = coefficients::<H>(ring, images);
        let prefix = chain_prefix(ring, message);
        let seed = challenge_after::<H>(
            prefix,
            public_key(nonce),
            hashed_key::<H>(public_key(ks[0])).scaled(nonce),
        );
        let draft = rounds::<H>(prefix, drawn, ring, weights, aggregate(weights, images));
        let c_secret = secret_challenge(draft, n, secret, seed);
        let k = aggregate_private_key(weights, ks);
        ClsagModel {
            challenge: first_challenge(draft, n, secret, seed),
            responses: drawn.update(secret, closing_response(nonce, c_secret, k)),
            ring,
            key_images: images,
        }
    }
}

/// Whether the private keys `ks` can sign among the rows `decoys` at the index `secret`: there
/// is a key and a decoy, every row has a public key for each private key, and the index is at
/// most the number of decoys.
pub open spec fn can_sign<T>(ks: Seq<nat>, decoys: Seq<Seq<T>>, secret: int) -> bool {
    &&& ks.len() >= 1
    &&& decoys.len() >= 1
    &&& is_matrix(decoys, decoys.len(), ks.len())
    &&& 0 <= secret <= decoys.len()
}

/// Aggregating commutes with multiplying a base: `Σ w_j·(k_j·B) = (Σ w_j·k_j)·B`.
pub proof fn lemma_aggregate_of_multiples(
    weights: Seq<nat>,
    ks: Seq<nat>,
    base: GroupElement,
    points: Seq<GroupElement>,
    count: int,
)
    requires
        0 <= count <= ks.len(),
        points.len() == ks.len(),
        forall|j: int| 0 <= j < ks.len() ==> #[trigger] points[j] == base.scaled(ks[j]),
    ensures
        weighted_sum(weights, points, count) == base.scaled(weighted_total(weights, ks, count)),
    decreases count,
{
    if count > 0 {
        lemma_aggregate_of_multiples(weights, ks, base, points, count - 1);
        let total = weighted_total(weights, ks, count - 1);
        let w = weights[count - 1];
        let k = ks[count - 1];
        assert(points[count - 1] == base.scaled(k));
        lemma_distributes(total, w, k, base.log);
    } else {
        assert(mul_mod(0, base.log) == 0) by {
            assert(0 * base.log == 0) by (nonlinear_arith);
        }
    }
}

/// Modulo ℓ, `s·b + w·(k·b) = (s + w·k)·b`.
proof fn lemma_distributes(s: nat, w: nat, k: nat, b: nat)
    ensures
        add_mod(mul_mod(s, b), mul_mod(w, mul_mod(k, b))) == mul_mod(add_mod(s, mul_mod(w, k)), b),
{
    let m = group_order() as int;
    let (si, wi, ki, bi) = (s as int, w as int, k as int, b as int);
    assert(mul_mod(w, mul_mod(k, b)) as int == (wi * (ki * bi)) % m) by {
        vstd::arithmetic::div_mod::lemma_mul_mod_noop_right(wi, ki * bi, m);
    }
    assert(add_mod(mul_mod(s, b), mul_mod(w, mul_mod(k, b))) as int == (si * bi + wi * (ki * bi))
        % m) by {
        vstd::arithmetic::div_mod::lemma_add_mod_noop(si * bi, wi * (ki * bi), m);
    }
    assert(add_mod(s, mul_mod(w, k)) as int == (si + wi * ki) % m) by {
        vstd::arithmetic::div_mod::lemma_add_mod_noop_right(si, wi * ki, m);
    }
    assert(mul_mod(add_mod(s, mul_mod(w, k)), b) as int == ((si + wi * ki) * bi) % m) by {
        vstd::arithmetic::div_mod::lemma_mul_mod_noop_left(si + wi * ki, bi, m);
    }
    assert(si * bi + wi * (ki * bi) == (si + wi * ki) * bi) by (nonlinear_arith);
}

/// Every signature verifies: whatever the private keys, the decoys, the secret index, the
/// message and the nonces, the signature made of them is a signature of that message.
pub proof fn lemma_signature_verifies<H: Hash512>(
    ks: Seq<nat>,
    decoys: Seq<Seq<GroupElement>>,
    secret: int,
    message: Seq<u8>,
    nonce: nat,
    drawn: Seq<nat>,
)
    requires
        can_sign(ks, decoys, secret),
        drawn.len() == decoys.len() + 1,
    ensures
        ClsagModel::signed::<H>(ks, decoys, secret, message, nonce, drawn).verifies::<H>(message),
{
    let signature = ClsagModel::signed::<H>(ks, decoys, secret, message, nonce, drawn);
    let ring = signature.ring;
    let n = ring.len() as int;
    let images = signature.key_images;
    let weights = coefficients::<H>(ring, images);
    let prefix = chain_prefix(ring, message);
    let hashed = hashed_key::<H>(public_key(ks[0]));
    let seed = challenge_after::<H>(prefix, public_key(nonce), hashed.scaled(nonce));
    let image = aggregate(weights, images);
    let draft = rounds::<H>(prefix, drawn, ring, weights, image);
    let signed = rounds::<H>(prefix, signature.responses, ring, weights, image);
    let c_secret = secret_challenge(draft, n, secret, seed);
    let k = aggregate_private_key(weights, ks);
    assert(ring[secret] == public_keys(ks));
    assert(aggregate(weights, ring[secret]) == public_key(k)) by {
        lemma_aggregate_of_multiples(
            weights,
            ks,
            GroupElement::generator(),
            public_keys(ks),
            ks.len() as int,
        );
    }
    assert(image == hashed.scaled(k)) by {
        lemma_aggregate_of_multiples(weights, ks, hashed, images, ks.len() as int);
    }
    lemma_key_commitment_closes(nonce, c_secret, k);
    lemma_image_commitment_closes(nonce, c_secret, k, hashed);
    lemma_chain_closes(draft, signed, n, secret, seed);
}

/// The secret index does not show: a signer who hides at `secret_1` and one who hides at
/// `secret_2`, the first and the last index among them, both make signatures that verify.
pub proof fn lemma_any_index_verifies<H: Hash512>(
    ks: Seq<nat>,
    decoys: Seq<Seq<GroupElement>>,
    secret_1: int,
    secret_2: int,
    message: Seq<u8>,
    nonce: nat,
    drawn: Seq<nat>,
)
    requires
        can_sign(ks, decoys, secret_1),
        can_sign(ks, decoys, secret_2),
        drawn.len() == decoys.len() + 1,
    ensures
        ClsagModel::signed::<H>(ks, decoys, secret_1, message, nonce, drawn).verifies::<H>(
            message,
        ),
        ClsagModel::signed::<H>(ks, decoys, secret_2, message, nonce, drawn).verifies::<H>(
            message,
        ),
{
    lemma_signature_verifies::<H>(ks, decoys, secret_1, message, nonce, drawn);
    lemma_signature_verifies::<H>(ks, decoys, secret_2, message, nonce, drawn);
}

/// Two signatures by private keys with the same first key link, whatever their other keys,
/// their rings, secret indices, messages and nonces.
pub proof fn lemma_same_key_links<H: Hash512>(
    ks_1: Seq<nat>,
    decoys_1: Seq<Seq<GroupElement>>,
    secret_1: int,
    message_1: Seq<u8>,
    nonce_1: nat,
    drawn_1: Seq<nat>,
    ks_2: Seq<nat>,
    decoys_2: Seq<Seq<GroupElement>>,
    secret_2: int,
    message_2: Seq<u8>,
    nonce_2: nat,
    drawn_2: Seq<nat>,
)
    requires
        ks_1.len() >= 1,
        ks_2.len() >= 1,
        ks_1[0] == ks_2[0],
    ensures
        ClsagModel::signed::<H>(ks_1, decoys_1, secret_1, message_1, nonce_1, drawn_1).links(
            ClsagModel::signed::<H>(ks_2, decoys_2, secret_2, message_2, nonce_2, drawn_2),
        ),
{
}

/// The key images of a signature are the key images of the private keys that made it.
pub proof fn lemma_signature_shows_key_images<H: Hash512>(
    ks: Seq<nat>,
    decoys: Seq<Seq<GroupElement>>,
    secret: int,
    message: Seq<u8>,
    nonce: nat,
    drawn: Seq<nat>,
)
    ensures
        ClsagModel::signed::<H>(ks, decoys, secret, message, nonce, drawn).key_images
            == key_images::<H>(ks),
{
}

/// A signature with the ring, the key images, the challenge and the responses that signing
/// gives is the signature that signing gives.
proof fn lemma_is_signed<H: Hash512>(
    signature: ClsagModel,
    ks: Seq<nat>,
    decoys: Seq<Seq<GroupElement>>,
    secret: int,
    message: Seq<u8>,
    nonce: nat,
    drawn: Seq<nat>,
)
    requires
        signature.ring == decoys.insert(secret, public_keys(ks)),
        signature.key_images == key_images::<H>(ks),
        ({
            let weights = coefficients::<H>(signature.ring, signature.key_images);
            let prefix = chain_prefix(signature.ring, message);
            let seed = challenge_after::<H>(
                prefix,
                public_key(nonce),
                hashed_key::<H>(public_key(ks[0])).scaled(nonce),
            );
            let draft = rounds::<H>(
                prefix,
                drawn,
                signature.ring,
                weights,
                aggregate(weights, signature.key_images),
            );
            let n = signature.ring.len() as int;
            &&& signature.challenge == first_challenge(draft, n, secret, seed)
            &&& signature.responses == drawn.update(
                secret,
                closing_response(
                    nonce,
                    secret_challenge(draft, n, secret, seed),
                    aggregate_private_key(weights, ks),
                ),
            )
        }),
    ensures
        signature == ClsagModel::signed::<H>(ks, decoys, secret, message, nonce, drawn),
{
}

/// The label of the hashes of this scheme.
fn label_bytes() -> (out: Vec<u8>)
    ensures
        out@ == label(),
{
    let mut out: Vec<u8> = Vec::new();
    out.push(67u8);
    out.push(83u8);
    out.push(76u8);
    out.push(65u8);
    out.push(71u8);
    out.push(95u8);
    assert(out@ =~= label());
    out
}

/// The coefficients of all columns.
fn coefficients_of<H: Hash512>(ring: &Vec<Vec<Point>>, images: &Vec<Point>) -> (out: Vec<Scalar>)
    ensures
        out.len() == images.len(),
        out.deep_view() == coefficients::<H>(ring.deep_view(), images.deep_view()),
{
    let ghost suffix = coefficient_suffix(ring.deep_view(), images.deep_view());
    let mut tail: Vec<u8> = Vec::new();
    append_row_encodings(&mut tail, ring);
    append_encodings(&mut tail, images);
    assert(tail@ =~= suffix);
    let mut out: Vec<Scalar> = Vec::new();
    let mut j: usize = 0;
    while j < images.len()
        invariant
            j <= images.len(),
            out.len() == j,
            tail@ == suffix,
            forall|t: int| 0 <= t < j ==> (#[trigger] out[t])@ == coefficient::<H>(t as nat, suffix),
        decreases images.len() - j,
    {
        let mut data = label_bytes();
        let digits = decimal(j);
        append(&mut data, digits.as_slice());
        append(&mut data, tail.as_slice());
        assert(data@ =~= label() + decimal_digits(j as nat) + suffix);
        out.push(hash_to_scalar::<H>(data.as_slice()));
        j += 1;
    }
    assert(out.deep_view() =~= coefficients::<H>(ring.deep_view(), images.deep_view()));
    out
}

/// The one key or key image that stands for a row of them.
fn aggregate_of(weights: &Vec<Scalar>, points: &Vec<Point>) -> (out: Point)
    requires
        weights.len() == points.len(),
    ensures
        out@ == aggregate(weights.deep_view(), points.deep_view()),
{
    let mut total = Point::identity();
    let mut j: usize = 0;
    while j < points.len()
        invariant
            j <= points.len(),
            weights.len() == points.len(),
            total@ == weighted_sum(weights.deep_view(), points.deep_view(), j as int),
        decreases points.len() - j,
    {
        total = total.plus(&points[j].scaled(&weights[j]));
        j += 1;
    }
    total
}

/// The one private key that stands for the private keys `ks`.
fn aggregate_private_key_of(weights: &Vec<Scalar>, ks: &Vec<Scalar>) -> (out: Scalar)
    requires
        weights.len() == ks.len(),
    ensures
        out@ == aggregate_private_key(weights.deep_view(), ks.deep_view()),
{
    let mut total = Scalar::zero();
    let mut j: usize = 0;
    while j < ks.len()
        invariant
            j <= ks.len(),
            weights.len() == ks.len(),
            total@ == weighted_total(weights.deep_view(), ks.deep_view(), j as int),
        decreases ks.len() - j,
    {
        total = total.plus(&weights[j].times(&ks[j]));
        j += 1;
    }
    total
}

/// The bytes with which every hash of the chain starts.
fn prefix_of(ring: &Vec<Vec<Point>>, message: &[u8]) -> (out: Vec<u8>)
    ensures
        out@ == chain_prefix(ring.deep_view(), message@),
{
    let mut out = label_bytes();
    out.push(99u8);
    append_row_encodings(&mut out, ring);
    append(&mut out, message);
    assert(out@ =~= chain_prefix(ring.deep_view(), message@));
    out
}

/// One round: the challenge that follows `c` at a row with the response `r` and the public
/// keys `keys`.
fn round<H: Hash512>(
    prefix: &Vec<u8>,
    r: &Scalar,
    c: &Scalar,
    keys: &Vec<Point>,
    weights: &Vec<Scalar>,
    image: &Point,
) -> (out: Scalar)
    requires
        keys.len() >= 1,
        weights.len() == keys.len(),
    ensures
        out@ == challenge_after::<H>(
            prefix@,
            key_commitment(r@, c@, aggregate(weights.deep_view(), keys.deep_view())),
            image_commitment::<H>(r@, c@, keys.deep_view()[0], image@),
        ),
{
    let key = aggregate_of(weights, keys);
    let first = commit_to_key(r, c, &key);
    let second = commit_to_image::<H>(r, c, &keys[0], image);
    next_challenge::<H>(prefix.as_slice(), &first, &second)
}

/// The chain of the signer: the challenge `c_0` and the challenge at the secret index, reached
/// from `seed` by the rounds behind the secret index and then by those before it.
fn open_chain<H: Hash512>(
    prefix: &Vec<u8>,
    responses: &Vec<Scalar>,
    ring: &Vec<Vec<Point>>,
    weights: &Vec<Scalar>,
    image: &Point,
    secret_index: usize,
    seed: Scalar,
) -> (out: (Scalar, Scalar))
    requires
        secret_index < ring.len(),
        responses.len() == ring.len(),
        weights.len() >= 1,
        is_matrix(ring.deep_view(), ring.len() as nat, weights.len() as nat),
    ensures
        out.0@ == first_challenge(
            rounds::<H>(
                prefix@,
                responses.deep_view(),
                ring.deep_view(),
                weights.deep_view(),
                image@,
            ),
            ring.len() as int,
            secret_index as int,
            seed@,
        ),
        out.1@ == secret_challenge(
            rounds::<H>(
                prefix@,
                responses.deep_view(),
                ring.deep_view(),
                weights.deep_view(),
                image@,
            ),
            ring.len() as int,
            secret_index as int,
            seed@,
        ),
{
    let n = ring.len();
    let ghost members = ring.deep_view();
    let ghost draft = rounds::<H>(
        prefix@,
        responses.deep_view(),
        members,
        weights.deep_view(),
        image@,
    );
    let mut c = seed;
    let mut i: usize = secret_index + 1;
    while i < n
        invariant
            secret_index + 1 <= i <= n,
            n == ring.len(),
            n == responses.len(),
            weights.len() >= 1,
            is_matrix(members, n as nat, weights.len() as nat),
            members == ring.deep_view(),
            draft == rounds::<H>(
                prefix@,
                responses.deep_view(),
                members,
                weights.deep_view(),
                image@,
            ),
            c@ == run(draft, secret_index + 1, i as int, seed@),
        decreases n - i,
    {
        assert(members[i as int] == ring[i as int].deep_view());
        c = round::<H>(prefix, &responses[i], &c, &ring[i], weights, image);
        i += 1;
    }
    let challenge = c;
    let mut i: usize = 0;
    while i < secret_index
        invariant
            i <= secret_index < n,
            n == ring.len(),
            n == responses.len(),
            weights.len() >= 1,
            is_matrix(members, n as nat, weights.len() as nat),
            members == ring.deep_view(),
            draft == rounds::<H>(
                prefix@,
                responses.deep_view(),
                members,
                weights.deep_view(),
                image@,
            ),
            c@ == run(draft, 0, i as int, challenge@),
        decreases secret_index - i,
    {
        assert(members[i as int] == ring[i as int].deep_view());
        c = round::<H>(prefix, &responses[i], &c, &ring[i], weights, image);
        i += 1;
    }
    (challenge, c)
}

impl CLSAG {
    /// Whether the signature has the shape of one.
    pub fn is_well_formed(&self) -> (ok: bool)
        ensures
            ok == self@.well_formed(),
    {
        let rows = self.ring.len();
        let columns = self.key_images.len();
        rows >= 2 && columns >= 1 && has_shape(&self.ring, rows, columns) && self.responses.len()
            == rows
    }

    /// Signs `message` with the private keys `ks`, the nonce `nonce` and the responses
    /// `responses`, of which the one at `secret_index` is replaced. The ring of the signature
    /// is `ring` with the row of the public keys `k_j·G` put in at `secret_index`.
    pub fn sign_with_nonces<H: Hash512>(
        ks: Vec<Scalar>,
        ring: Vec<Vec<Point>>,
        secret_index: usize,
        message: &[u8],
        nonce: Scalar,
        responses: Vec<Scalar>,
    ) -> (signature: CLSAG)
        requires
            can_sign(ks.deep_view(), ring.deep_view(), secret_index as int),
            responses.len() == ring.len() + 1,
        ensures
            signature@ == ClsagModel::signed::<H>(
                ks.deep_view(),
                ring.deep_view(),
                secret_index as int,
                message@,
                nonce@,
                responses.deep_view(),
            ),
            signature@.verifies::<H>(message@),
    {
        let ghost keys = ks.deep_view();
        let ghost decoys = ring.deep_view();
        let ghost drawn = responses.deep_view();
        let ghost secret = secret_index as int;
        let mut ring = ring;
        let mut responses = responses;
        let own_keys = public_keys_of(&ks);
        let hashed = hash_key::<H>(&own_keys[0]);
        assert(hashed@ == hashed_key::<H>(public_key(keys[0]))) by {
            assert(own_keys.deep_view()[0] == own_keys[0]@);
        }
        let key_images = CLSAG::generate_key_image::<H>(clone_scalars(&ks));
        ring.insert(secret_index, own_keys);
        let n = ring.len();
        let ghost members = ring.deep_view();
        assert(members =~= decoys.insert(secret, public_keys(keys)));

        let weights = coefficients_of::<H>(&ring, &key_images);
        let k = aggregate_private_key_of(&weights, &ks);
        let image = aggregate_of(&weights, &key_images);
        let prefix = prefix_of(&ring, message);
        let seed = next_challenge::<H>(
            prefix.as_slice(),
            &public_key_of(&nonce),
            &hashed.scaled(&nonce),
        );
        let (challenge, c) = open_chain::<H>(
            &prefix,
            &responses,
            &ring,
            &weights,
            &image,
            secret_index,
            seed,
        );
        responses[secret_index] = nonce.minus(&c.times(&k));
        let signature = CLSAG { challenge, responses, ring, key_images };
        proof {
            assert(signature@.responses =~= drawn.update(
                secret,
                closing_response(nonce@, c@, k@),
            ));
            lemma_is_signed::<H>(signature@, keys, decoys, secret, message@, nonce@, drawn);
            lemma_signature_verifies::<H>(keys, decoys, secret, message@, nonce@, drawn);
        }
        signature
    }
}

impl KeyImageGen<Vec<Scalar>, Vec<Point>> for CLSAG {
    /// There is a private key: the first one gives the base of all key images.
    open spec fn has_key_image(ks: &Vec<Scalar>) -> bool {
        ks.len() >= 1
    }

    /// The key images `k_j·H_p(k_0·G)` of the private keys `ks`.
    fn generate_key_image<H: Hash512>(ks: Vec<Scalar>) -> (images: Vec<Point>)
        ensures
            images.len() == ks.len(),
            images.deep_view() == key_images::<H>(ks.deep_view()),
    {
        let base = hash_key::<H>(&public_key_of(&ks[0]));
        let mut images: Vec<Point> = Vec::new();
        let mut j: usize = 0;
        while j < ks.len()
            invariant
                j <= ks.len(),
                ks.len() >= 1,
                images.len() == j,
                base@ == hashed_key::<H>(public_key(ks[0]@)),
                forall|t: int| 0 <= t < j ==> (#[trigger] images[t])@ == base@.scaled(ks[t]@),
            decreases ks.len() - j,
        {
            images.push(base.scaled(&ks[j]));
            j += 1;
        }
        assert(images.deep_view() =~= key_images::<H>(ks.deep_view()));
        images
    }
}

impl Sign<Vec<Scalar>, Vec<Vec<Point>>> for CLSAG {
    /// There is a private key and a decoy row, every row has a public key for each private key,
    /// and the secret index is at most the number of decoy rows.
    open spec fn signable(ks: &Vec<Scalar>, ring: &Vec<Vec<Point>>, secret_index: usize) -> bool {
        can_sign(ks.deep_view(), ring.deep_view(), secret_index as int) && ring.len() < usize::MAX
    }

    /// Signs `message` with the private keys `ks`, with nonces drawn from `R`. The signature is
    /// the one that [`ClsagModel::signed`] describes for some nonces; it verifies, and its key
    /// images are those of `ks`.
    fn sign<H: Hash512, R: ScalarSource>(
        ks: Vec<Scalar>,
        ring: Vec<Vec<Point>>,
        secret_index: usize,
        message: &[u8],
    ) -> (signature: CLSAG)
        ensures
            exists|nonce: nat, drawn: Seq<nat>|
                drawn.len() == ring.len() + 1 && signature@ == #[trigger] ClsagModel::signed::<H>(
                    ks.deep_view(),
                    ring.deep_view(),
                    secret_index as int,
                    message@,
                    nonce,
                    drawn,
                ),
            signature@.verifies::<H>(message@),
            signature@.key_images == key_images::<H>(ks.deep_view()),
    {
        let mut source = R::new();
        let nonce = source.scalar();
        let responses = draw(&mut source, ring.len() + 1);
        let ghost keys = ks.deep_view();
        let ghost drawn = responses.deep_view();
        let ghost decoys = ring.deep_view();
        let signature = CLSAG::sign_with_nonces::<H>(
            ks,
            ring,
            secret_index,
            message,
            nonce,
            responses,
        );
        assert(signature@ == ClsagModel::signed::<H>(
            keys,
            decoys,
            secret_index as int,
            message@,
            nonce@,
            drawn,
        ));
        signature
    }
}

impl Verify for CLSAG {
    /// Whether `signature` is a signature of `message`.
    fn verify<H: Hash512>(signature: CLSAG, message: &[u8]) -> (valid: bool)
        ensures
            valid == signature@.verifies::<H>(message@),
    {
        if !signature.is_well_formed() {
            return false;
        }
        let n = signature.ring.len();
        let weights = coefficients_of::<H>(&signature.ring, &signature.key_images);
        let image = aggregate_of(&weights, &signature.key_images);
        let prefix = prefix_of(&signature.ring, message);
        let ghost all = rounds::<H>(
            prefix@,
            signature@.responses,
            signature@.ring,
            weights.deep_view(),
            image@,
        );
        let mut c = signature.challenge;
        let mut i: usize = 0;
        while i < n
            invariant
                i <= n,
                n == signature.ring.len(),
                signature@.well_formed(),
                weights.len() == signature.key_images.len(),
                all == rounds::<H>(
                    prefix@,
                    signature@.responses,
                    signature@.ring,
                    weights.deep_view(),
                    image@,
                ),
                c@ == run(all, 0, i as int, signature.challenge@),
            decreases n - i,
        {
            assert(signature@.ring[i as int] == signature.ring[i as int].deep_view());
            c = round::<H>(
                &prefix,
                &signature.responses[i],
                &c,
                &signature.ring[i],
                &weights,
                &image,
            );
            i += 1;
        }
        signature.challenge.equals(&c)
    }
}

impl Link for CLSAG {
    /// The two signatures show the same first key image.
    open spec fn linked(signature_1: &CLSAG, signature_2: &CLSAG) -> bool {
        signature_1@.links(signature_2@)
    }

    /// Whether the two signatures were made with the same first private key.
    fn link(signature_1: CLSAG, signature_2: CLSAG) -> (linked: bool) {
        if signature_1.key_images.len() == 0 || signature_2.key_images.len() == 0 {
            return false;
        }
        signature_1.key_images[0].equals(&signature_2.key_images[0])
    }
}

} // verus!
