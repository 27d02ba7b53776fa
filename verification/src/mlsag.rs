//! Multilayer Linkable Spontaneous Anonymous Group (MLSAG) signatures: linkable ring
//! signatures by several private keys at once.
//!
//! The ring is a matrix: a row for each member, a column for each of the keys that a member
//! holds. A signature carries one key image for each column, one response for each cell and one
//! challenge for each row. Every hash of the chain starts with the message. Round `i` takes the
//! challenge `c` to the hash of the message and, column by column, of `r_ij·G + c·P_ij` and of
//! `r_ij·H_p(P_ij) + c·I_j`.
use vstd::prelude::*;

use crate::blsag::key_image;
use crate::bytes::append;
use crate::chain::{closes, first_challenge, lemma_chain_closes, run, secret_challenge};
use crate::commit::{
    closing_response, commit_to_image, commit_to_key, hash_key, hashed_key, image_commitment,
    key_commitment, lemma_image_commitment_closes, lemma_key_commitment_closes, public_key,
    public_key_of,
};
use crate::hash::{hash_to_scalar, scalar_of, Hash512};
use crate::ristretto::{append_encodings, encodings, GroupElement, Point};
use crate::rng::{draw, ScalarSource};
use crate::scalar::Scalar;
use crate::traits::{KeyImageGen, Link, Sign, Verify};

verus! {

/// An MLSAG signature.
#[derive(Clone, Debug)]
pub struct MLSAG {
    /// The challenge `c_0`.
    pub challenge: Scalar,
    /// The responses: a row for each member of the ring, a response for each column.
    pub responses: Vec<Vec<Scalar>>,
    /// The public keys of the ring, row by row, those of the signer among them.
    pub ring: Vec<Vec<Point>>,
    /// The key images of the signer's private keys, one for each column.
    pub key_images: Vec<Point>,
}

/// What an MLSAG signature holds: the challenge, the responses, the ring and the key images.
pub struct MlsagModel {
    pub challenge: nat,
    pub responses: Seq<Seq<nat>>,
    pub ring: Seq<Seq<GroupElement>>,
    pub key_images: Seq<GroupElement>,
}

impl View for MLSAG {
    type V = MlsagModel;

    open spec fn view(&self) -> MlsagModel {
        MlsagModel {
            challenge: self.challenge@,
            responses: self.responses.deep_view(),
            ring: self.ring.deep_view(),
            key_images: self.key_images.deep_view(),
        }
    }
}

/// The public keys of the private keys `ks`.
pub open spec fn public_keys(ks: Seq<nat>) -> Seq<GroupElement> {
    Seq::new(ks.len(), |j: int| public_key(ks[j]))
}

/// The key images of the private keys `ks`: `k_j·H_p(k_j·G)` for each of them.
pub open spec fn key_images<H: Hash512>(ks: Seq<nat>) -> Seq<GroupElement> {
    Seq::new(ks.len(), |j: int| key_image::<H>(ks[j]))
}

/// The responses that close the row of the signer: `a_j − c·k_j` for each column.
pub open spec fn closing_responses(nonces: Seq<nat>, c: nat, ks: Seq<nat>) -> Seq<nat> {
    Seq::new(ks.len(), |j: int| closing_response(nonces[j], c, ks[j]))
}

/// The commitments of a row to the challenge `c`, two for each column: that on the public key,
/// then that on the key image.
pub open spec fn row_commitments<H: Hash512>(
    responses: Seq<nat>,
    c: nat,
    keys: Seq<GroupElement>,
    images: Seq<GroupElement>,
) -> Seq<GroupElement> {
    Seq::new(
        2 * keys.len(),
        |t: int|
            if t % 2 == 0 {
                key_commitment(responses[t / 2], c, keys[t / 2])
            } else {
                image_commitment::<H>(responses[t / 2], c, keys[t / 2], images[t / 2])
            },
    )
}

/// The commitments with which the signer opens the chain, two for each column: `a_j·G`, then
/// `a_j·H_p(P_j)`, for the nonces `a_j` and the signer's public keys `P_j`.
pub open spec fn nonce_commitments<H: Hash512>(
    nonces: Seq<nat>,
    keys: Seq<GroupElement>,
) -> Seq<GroupElement> {
    Seq::new(
        2 * keys.len(),
        |t: int|
            if t % 2 == 0 {
                public_key(nonces[t / 2])
            } else {
                hashed_key::<H>(keys[t / 2]).scaled(nonces[t / 2])
            },
    )
}

/// The challenge that follows the commitments of a row.
pub open spec fn challenge_after<H: Hash512>(
    message: Seq<u8>,
    commitments: Seq<GroupElement>,
) -> nat {
    scalar_of::<H>(message + encodings(commitments))
}

/// The rounds of a ring with these responses and these key images.
pub open spec fn rounds<H: Hash512>(
    message: Seq<u8>,
    responses: Seq<Seq<nat>>,
    ring: Seq<Seq<GroupElement>>,
    images: Seq<GroupElement>,
) -> spec_fn(int, nat) -> nat {
    |i: int, c: nat|
        challenge_after::<H>(message, row_commitments::<H>(responses[i], c, ring[i], images))
}

/// Whether `rows` has `height` rows of `width` entries each.
pub open spec fn is_matrix<T>(rows: Seq<Seq<T>>, height: nat, width: nat) -> bool {
    rows.len() == height && forall|i: int| 0 <= i < rows.len() ==> (#[trigger] rows[i]).len() == width
}

impl MlsagModel {
    /// Whether the signature has the shape of one: at least two rows and one column, as many
    /// key images as columns, and a response for each public key.
    pub open spec fn well_formed(self) -> bool {
        &&& self.ring.len() >= 2
        &&& self.key_images.len() >= 1
        &&& is_matrix(self.ring, self.ring.len(), self.key_images.len())
        &&& is_matrix(self.responses, self.ring.len(), self.key_images.len())
    }

    /// Whether the signature is one of `message`: it is well formed and its chain closes.
    pub open spec fn verifies<H: Hash512>(self, message: Seq<u8>) -> bool {
        &&& self.well_formed()
        &&& closes(
            rounds::<H>(message, self.responses, self.ring, self.key_images),
            self.ring.len() as int,
            self.challenge,
        )
    }

    /// Whether two signatures show a common key image.
    pub open spec fn links(self, other: MlsagModel) -> bool {
        exists|i: int, j: int|
            0 <= i < self.key_images.len() && 0 <= j < other.key_images.len()
                && #[trigger] self.key_images[i] == #[trigger] other.key_images[j]
    }

    /// The signature of `message` by the private keys `ks`, hidden among the rows `decoys` at
    /// the index `secret`, made with the nonces `nonces` and the responses `drawn`.
    pub open spec fn signed<H: Hash512>(
        ks: Seq<nat>,
        decoys: Seq<Seq<GroupElement>>,
        secret: int,
        message: Seq<u8>,
        nonces: Seq<nat>,
        drawn: Seq<Seq<nat>>,
    ) -> MlsagModel {
        let ring = decoys.insert(secret, public_keys(ks));
        let n = ring.len() as int;
        let images = key_images::<H>(ks);
        let seed = challenge_after::<H>(message, nonce_commitments::<H>(nonces, public_keys(ks)));
        let draft = rounds::<H>(message, drawn, ring, images);
        let c_secret = secret_challenge(draft, n, secret, seed);
        MlsagModel {
            challenge: first_challenge(draft, n, secret, seed),
            responses: drawn.update(secret, closing_responses(nonces, c_secret, ks)),
            ring,
            key_images: images,
        }
    }
}

/// Whether the private keys `ks` can sign among the rows `decoys` at the index `secret`: there
/// is a key and a decoy, every row has a public key for each private key, and the index is at
/// most the number of decoys.
pub open spec fn can_sign<T>(ks: Seq<nat>, decoys: Seq<Seq<T>>, secret: int) -> bool {
    &&& ks.len() >= 1
    &&& decoys.len() >= 1
    &&& is_matrix(decoys, decoys.len(), ks.len())
    &&& 0 <= secret <= decoys.len()
}

/// Every signature verifies: whatever the private keys, the decoys, the secret index, the
/// message and the nonces, the signature made of them is a signature of that message.
pub proof fn lemma_signature_verifies<H: Hash512>(
    ks: Seq<nat>,
    decoys: Seq<Seq<GroupElement>>,
    secret: int,
    message: Seq<u8>,
    nonces: Seq<nat>,
    drawn: Seq<Seq<nat>>,
)
    requires
        can_sign(ks, decoys, secret),
        nonces.len() == ks.len(),
        is_matrix(drawn, decoys.len() + 1, ks.len()),
    ensures
        MlsagModel::signed::<H>(ks, decoys, secret, message, nonces, drawn).verifies::<H>(message),
{
    let signature = MlsagModel::signed::<H>(ks, decoys, secret, message, nonces, drawn);
    let ring = signature.ring;
    let n = ring.len() as int;
    let images = signature.key_images;
    let keys = public_keys(ks);
    let opening = nonce_commitments::<H>(nonces, keys);
    let seed = challenge_after::<H>(message, opening);
    let draft = rounds::<H>(message, drawn, ring, images);
    let signed = rounds::<H>(message, signature.responses, ring, images);
    let c_secret = secret_challenge(draft, n, secret, seed);
    let closing = row_commitments::<H>(signature.responses[secret], c_secret, keys, images);
    assert forall|t: int| 0 <= t < closing.len() implies closing[t] == opening[t] by {
        let j = t / 2;
        lemma_key_commitment_closes(nonces[j], c_secret, ks[j]);
        lemma_image_commitment_closes(nonces[j], c_secret, ks[j], hashed_key::<H>(keys[j]));
    }
    assert(closing =~= opening);
    lemma_chain_closes(draft, signed, n, secret, seed);
}

/// The secret index does not show: a signer who hides at `secret_1` and one who hides at
/// `secret_2`, the first and the last index among them, both make signatures that verify.
pub proof fn lemma_any_index_verifies<H: Hash512>(
    ks: Seq<nat>,
    decoys: Seq<Seq<GroupElement>>,
    secret_1: int,
    secret_2: int,
    message: Seq<u8>,
    nonces: Seq<nat>,
    drawn: Seq<Seq<nat>>,
)
    requires
        can_sign(ks, decoys, secret_1),
        can_sign(ks, decoys, secret_2),
        nonces.len() == ks.len(),
        is_matrix(drawn, decoys.len() + 1, ks.len()),
    ensures
        MlsagModel::signed::<H>(ks, decoys, secret_1, message, nonces, drawn).verifies::<H>(
            message,
        ),
        MlsagModel::signed::<H>(ks, decoys, secret_2, message, nonces, drawn).verifies::<H>(
            message,
        ),
{
    lemma_signature_verifies::<H>(ks, decoys, secret_1, message, nonces, drawn);
    lemma_signature_verifies::<H>(ks, decoys, secret_2, message, nonces, drawn);
}

/// Two signatures by the same private keys link, whatever their rings, secret indices, messages
/// and nonces.
pub proof fn lemma_same_keys_link<H: Hash512>(
    ks: Seq<nat>,
    decoys_1: Seq<Seq<GroupElement>>,
    secret_1: int,
    message_1: Seq<u8>,
    nonces_1: Seq<nat>,
    drawn_1: Seq<Seq<nat>>,
    decoys_2: Seq<Seq<GroupElement>>,
    secret_2: int,
    message_2: Seq<u8>,
    nonces_2: Seq<nat>,
    drawn_2: Seq<Seq<nat>>,
)
    requires
        ks.len() >= 1,
    ensures
        MlsagModel::signed::<H>(ks, decoys_1, secret_1, message_1, nonces_1, drawn_1).links(
            MlsagModel::signed::<H>(ks, decoys_2, secret_2, message_2, nonces_2, drawn_2),
        ),
{
    let first = MlsagModel::signed::<H>(ks, decoys_1, secret_1, message_1, nonces_1, drawn_1);
    let second = MlsagModel::signed::<H>(ks, decoys_2, secret_2, message_2, nonces_2, drawn_2);
    assert(first.key_images[0] == second.key_images[0]);
}

/// The key images of a signature are the key images of the private keys that made it.
pub proof fn lemma_signature_shows_key_images<H: Hash512>(
    ks: Seq<nat>,
    decoys: Seq<Seq<GroupElement>>,
    secret: int,
    message: Seq<u8>,
    nonces: Seq<nat>,
    drawn: Seq<Seq<nat>>,
)
    ensures
        MlsagModel::signed::<H>(ks, decoys, secret, message, nonces, drawn).key_images
            == key_images::<H>(ks),
{
}

/// Whether `rows` has `height` rows of `width` entries each.
pub fn has_shape<T: DeepView>(rows: &Vec<Vec<T>>, height: usize, width: usize) -> (ok: bool)
    ensures
        ok == is_matrix(rows.deep_view(), height as nat, width as nat),
{
    if rows.len() != height {
        return false;
    }
    let ghost model = rows.deep_view();
    let mut i: usize = 0;
    while i < rows.len()
        invariant
            i <= rows.len(),
            model == rows.deep_view(),
            forall|j: int| 0 <= j < i ==> (#[trigger] model[j]).len() == width,
        decreases rows.len() - i,
    {
        assert(model[i as int] == rows[i as int].deep_view());
        if rows[i].len() != width {
            return false;
        }
        i += 1;
    }
    true
}

/// The challenge that follows the commitments of a row.
fn next_challenge<H: Hash512>(message: &[u8], commitments: &Vec<Point>) -> (out: Scalar)
    ensures
        out@ == challenge_after::<H>(message@, commitments.deep_view()),
{
    let mut data: Vec<u8> = Vec::new();
    append(&mut data, message);
    append_encodings(&mut data, commitments);
    assert(data@ =~= message@ + encodings(commitments.deep_view()));
    hash_to_scalar::<H>(data.as_slice())
}

/// One round: the challenge that follows `c` at a row with the responses `responses` and the
/// public keys `keys`.
fn round<H: Hash512>(
    message: &[u8],
    responses: &Vec<Scalar>,
    c: &Scalar,
    keys: &Vec<Point>,
    images: &Vec<Point>,
) -> (out: Scalar)
    requires
        responses.len() == keys.len(),
        images.len() == keys.len(),
    ensures
        out@ == challenge_after::<H>(
            message@,
            row_commitments::<H>(responses.deep_view(), c@, keys.deep_view(), images.deep_view()),
        ),
{
    let ghost expected = row_commitments::<H>(
        responses.deep_view(),
        c@,
        keys.deep_view(),
        images.deep_view(),
    );
    let mut commitments: Vec<Point> = Vec::new();
    let mut j: usize = 0;
    while j < keys.len()
        invariant
            j <= keys.len(),
            responses.len() == keys.len(),
            images.len() == keys.len(),
            expected == row_commitments::<H>(
                responses.deep_view(),
                c@,
                keys.deep_view(),
                images.deep_view(),
            ),
            commitments.len() == 2 * j,
            forall|t: int| 0 <= t < 2 * j ==> (#[trigger] commitments[t])@ == expected[t],
        decreases keys.len() - j,
    {
        commitments.push(commit_to_key(&responses[j], c, &keys[j]));
        commitments.push(commit_to_image::<H>(&responses[j], c, &keys[j], &images[j]));
        j += 1;
    }
    assert(commitments.deep_view() =~= expected);
    next_challenge::<H>(message, &commitments)
}

/// The public keys of the private keys `ks`.
pub fn public_keys_of(ks: &Vec<Scalar>) -> (out: Vec<Point>)
    ensures
        out.len() == ks.len(),
        out.deep_view() == public_keys(ks.deep_view()),
{
    let mut out: Vec<Point> = Vec::new();
    let mut j: usize = 0;
    while j < ks.len()
        invariant
            j <= ks.len(),
            out.len() == j,
            forall|t: int| 0 <= t < j ==> (#[trigger] out[t])@ == public_key(ks[t]@),
        decreases ks.len() - j,
    {
        out.push(public_key_of(&ks[j]));
        j += 1;
    }
    assert(out.deep_view() =~= public_keys(ks.deep_view()));
    out
}

/// The challenge with which the signer opens the chain: the one that follows the commitments
/// of the nonces.
fn opening_challenge<H: Hash512>(message: &[u8], nonces: &Vec<Scalar>, keys: &Vec<Point>) -> (out:
    Scalar)
    requires
        nonces.len() == keys.len(),
    ensures
        out@ == challenge_after::<H>(
            message@,
            nonce_commitments::<H>(nonces.deep_view(), keys.deep_view()),
        ),
{
    let ghost expected = nonce_commitments::<H>(nonces.deep_view(), keys.deep_view());
    let mut commitments: Vec<Point> = Vec::new();
    let mut j: usize = 0;
    while j < keys.len()
        invariant
            j <= keys.len(),
            nonces.len() == keys.len(),
            expected == nonce_commitments::<H>(nonces.deep_view(), keys.deep_view()),
            commitments.len() == 2 * j,
            forall|t: int| 0 <= t < 2 * j ==> (#[trigger] commitments[t])@ == expected[t],
        decreases keys.len() - j,
    {
        commitments.push(public_key_of(&nonces[j]));
        commitments.push(hash_key::<H>(&keys[j]).scaled(&nonces[j]));
        j += 1;
    }
    assert(commitments.deep_view() =~= expected);
    next_challenge::<H>(message, &commitments)
}

/// The responses that close the row of the signer.
fn closing_row(nonces: &Vec<Scalar>, c: &Scalar, ks: &Vec<Scalar>) -> (out: Vec<Scalar>)
    requires
        nonces.len() == ks.len(),
    ensures
        out.len() == ks.len(),
        out.deep_view() == closing_responses(nonces.deep_view(), c@, ks.deep_view()),
{
    let mut out: Vec<Scalar> = Vec::new();
    let mut j: usize = 0;
    while j < ks.len()
        invariant
            j <= ks.len(),
            nonces.len() == ks.len(),
            out.len() == j,
            forall|t: int|
                0 <= t < j ==> (#[trigger] out[t])@ == closing_response(nonces[t]@, c@, ks[t]@),
        decreases ks.len() - j,
    {
        out.push(nonces[j].minus(&c.times(&ks[j])));
        j += 1;
    }
    assert(out.deep_view() =~= closing_responses(nonces.deep_view(), c@, ks.deep_view()));
    out
}

impl MLSAG {
    /// Whether the signature has the shape of one.
    pub fn is_well_formed(&self) -> (ok: bool)
        ensures
            ok == self@.well_formed(),
    {
        let rows = self.ring.len();
        let columns = self.key_images.len();
        rows >= 2 && columns >= 1 && has_shape(&self.ring, rows, columns) && has_shape(
            &self.responses,
            rows,
            columns,
        )
    }

    /// Signs `message` with the private keys `ks`, the nonces `nonces` and the responses
    /// `responses`, of which the row at `secret_index` is replaced. The ring of the signature
    /// is `ring` with the row of the public keys `k_j·G` put in at `secret_index`.
    pub fn sign_with_nonces<H: Hash512>(
        ks: Vec<Scalar>,
        ring: Vec<Vec<Point>>,
        secret_index: usize,
        message: &[u8],
        nonces: Vec<Scalar>,
        responses: Vec<Vec<Scalar>>,
    ) -> (signature: MLSAG)
        requires
            can_sign(ks.deep_view(), ring.deep_view(), secret_index as int),
            nonces.len() == ks.len(),
            is_matrix(responses.deep_view(), (ring.len() + 1) as nat, ks.len() as nat),
        ensures
            signature@ == MlsagModel::signed::<H>(
                ks.deep_view(),
                ring.deep_view(),
                secret_index as int,
                message@,
                nonces.deep_view(),
                responses.deep_view(),
            ),
            signature@.verifies::<H>(message@),
    {
        let ghost keys = ks.deep_view();
        let ghost decoys = ring.deep_view();
        let ghost drawn = responses.deep_view();
        let ghost secret = secret_index as int;
        let ghost width = ks.len();
        let mut ring = ring;
        let mut responses = responses;
        let own_keys = public_keys_of(&ks);
        let key_images = MLSAG::generate_key_image::<H>(clone_scalars(&ks));
        let seed = opening_challenge::<H>(message, &nonces, &own_keys);
        ring.insert(secret_index, own_keys);
        let n = ring.len();
        let ghost members = ring.deep_view();
        assert(members =~= decoys.insert(secret, public_keys(keys)));
        let ghost draft = rounds::<H>(message@, drawn, members, key_images.deep_view());

        let mut c = seed;
        let mut i: usize = secret_index + 1;
        while i < n
            invariant
                secret == secret_index,
                secret_index + 1 <= i <= n,
                n == ring.len(),
                key_images.len() == width,
                is_matrix(members, n as nat, width as nat),
                is_matrix(drawn, n as nat, width as nat),
                members == ring.deep_view(),
                drawn == responses.deep_view(),
                draft == rounds::<H>(message@, drawn, members, key_images.deep_view()),
                c@ == run(draft, secret + 1, i as int, seed@),
            decreases n - i,
        {
            assert(drawn[i as int] == responses[i as int].deep_view());
            assert(members[i as int] == ring[i as int].deep_view());
            c = round::<H>(message, &responses[i], &c, &ring[i], &key_images);
            i += 1;
        }
        let challenge = c;
        let mut i: usize = 0;
        while i < secret_index
            invariant
                i <= secret_index < n,
                n == ring.len(),
                key_images.len() == width,
                is_matrix(members, n as nat, width as nat),
                is_matrix(drawn, n as nat, width as nat),
                members == ring.deep_view(),
                drawn == responses.deep_view(),
                draft == rounds::<H>(message@, drawn, members, key_images.deep_view()),
                c@ == run(draft, 0, i as int, challenge@),
            decreases secret_index - i,
        {
            assert(drawn[i as int] == responses[i as int].deep_view());
            assert(members[i as int] == ring[i as int].deep_view());
            c = round::<H>(message, &responses[i], &c, &ring[i], &key_images);
            i += 1;
        }
        responses[secret_index] = closing_row(&nonces, &c, &ks);
        let signature = MLSAG { challenge, responses, ring, key_images };
        proof {
            let model = MlsagModel::signed::<H>(
                keys,
                decoys,
                secret,
                message@,
                nonces.deep_view(),
                drawn,
            );
            assert(signature@.responses =~= model.responses);
            lemma_signature_verifies::<H>(keys, decoys, secret, message@, nonces.deep_view(), drawn);
        }
        signature
    }
}

/// A copy of `scalars`.
pub fn clone_scalars(scalars: &Vec<Scalar>) -> (out: Vec<Scalar>)
    ensures
        out@ == scalars@,
{
    let mut out: Vec<Scalar> = Vec::new();
    let mut j: usize = 0;
    while j < scalars.len()
        invariant
            j <= scalars.len(),
            out@ == scalars@.take(j as int),
        decreases scalars.len() - j,
    {
        out.push(scalars[j]);
        assert(out@ =~= scalars@.take(j + 1));
        j += 1;
    }
    assert(scalars@.take(j as int) =~= scalars@);
    out
}

/// As many rows of `width` scalars from `source` as `height` says.
fn draw_rows<R: ScalarSource>(source: &mut R, height: usize, width: usize) -> (out: Vec<
    Vec<Scalar>,
>)
    ensures
        is_matrix(out.deep_view(), height as nat, width as nat),
{
    let mut out: Vec<Vec<Scalar>> = Vec::new();
    while out.len() < height
        invariant
            out.len() <= height,
            forall|i: int| 0 <= i < out.len() ==> (#[trigger] out[i]).len() == width,
        decreases height - out.len(),
    {
        out.push(draw(source, width));
    }
    assert forall|i: int| 0 <= i < out.deep_view().len() implies (#[trigger] out.deep_view()[i]).len()
        == width by {
        assert(out.deep_view()[i] == out[i].deep_view());
    }
    out
}

impl KeyImageGen<Vec<Scalar>, Vec<Point>> for MLSAG {
    /// Private keys always have key images.
    open spec fn has_key_image(k: &Vec<Scalar>) -> bool {
        true
    }

    /// The key images `k_j·H_p(k_j·G)` of the private keys `ks`.
    fn generate_key_image<H: Hash512>(ks: Vec<Scalar>) -> (images: Vec<Point>)
        ensures
            images.len() == ks.len(),
            images.deep_view() == key_images::<H>(ks.deep_view()),
    {
        let mut images: Vec<Point> = Vec::new();
        let mut j: usize = 0;
        while j < ks.len()
            invariant
                j <= ks.len(),
                images.len() == j,
                forall|t: int| 0 <= t < j ==> (#[trigger] images[t])@ == key_image::<H>(ks[t]@),
            decreases ks.len() - j,
        {
            let own_key = public_key_of(&ks[j]);
            images.push(hash_key::<H>(&own_key).scaled(&ks[j]));
            j += 1;
        }
        assert(images.deep_view() =~= key_images::<H>(ks.deep_view()));
        images
    }
}

impl Sign<Vec<Scalar>, Vec<Vec<Point>>> for MLSAG {
    /// There is a private key and a decoy row, every row has a public key for each private key,
    /// and the secret index is at most the number of decoy rows.
    open spec fn signable(ks: &Vec<Scalar>, ring: &Vec<Vec<Point>>, secret_index: usize) -> bool {
        can_sign(ks.deep_view(), ring.deep_view(), secret_index as int) && ring.len() < usize::MAX
    }

    /// Signs `message` with the private keys `ks`, with nonces drawn from `R`. The signature is
    /// the one that [`MlsagModel::signed`] describes for some nonces; it verifies, and its key
    /// images are those of `ks`.
    fn sign<H: Hash512, R: ScalarSource>(
        ks: Vec<Scalar>,
        ring: Vec<Vec<Point>>,
        secret_index: usize,
        message: &[u8],
    ) -> (signature: MLSAG)
        ensures
            exists|nonces: Seq<nat>, drawn: Seq<Seq<nat>>|
                nonces.len() == ks.len() && is_matrix(
                    drawn,
                    (ring.len() + 1) as nat,
                    ks.len() as nat,
                ) && signature@ == #[trigger] MlsagModel::signed::<H>(
                    ks.deep_view(),
                    ring.deep_view(),
                    secret_index as int,
                    message@,
                    nonces,
                    drawn,
                ),
            signature@.verifies::<H>(message@),
            signature@.key_images == key_images::<H>(ks.deep_view()),
    {
        let mut source = R::new();
        let nonces = draw(&mut source, ks.len());
        let responses = draw_rows(&mut source, ring.len() + 1, ks.len());
        let ghost keys = ks.deep_view();
        let ghost drawn = responses.deep_view();
        let ghost decoys = ring.deep_view();
        let ghost opening = nonces.deep_view();
        let signature = MLSAG::sign_with_nonces::<H>(
            ks,
            ring,
            secret_index,
            message,
            nonces,
            responses,
        );
        assert(signature@ == MlsagModel::signed::<H>(
            keys,
            decoys,
            secret_index as int,
            message@,
            opening,
            drawn,
        ));
        signature
    }
}

impl Verify for MLSAG {
    /// Whether `signature` is a signature of `message`.
    fn verify<H: Hash512>(signature: MLSAG, message: &[u8]) -> (valid: bool)
        ensures
            valid == signature@.verifies::<H>(message@),
    {
        if !signature.is_well_formed() {
            return false;
        }
        let n = signature.ring.len();
        let ghost all = rounds::<H>(
            message@,
            signature@.responses,
            signature@.ring,
            signature@.key_images,
        );
        let mut c = signature.challenge;
        let mut i: usize = 0;
        while i < n
            invariant
                i <= n,
                n == signature.ring.len(),
                signature@.well_formed(),
                all == rounds::<H>(
                    message@,
                    signature@.responses,
                    signature@.ring,
                    signature@.key_images,
                ),
                c@ == run(all, 0, i as int, signature.challenge@),
            decreases n - i,
        {
            assert(signature@.responses[i as int] == signature.responses[i as int].deep_view());
            assert(signature@.ring[i as int] == signature.ring[i as int].deep_view());
            c = round::<H>(
                message,
                &signature.responses[i],
                &c,
                &signature.ring[i],
                &signature.key_images,
            );
            i += 1;
        }
        signature.challenge.equals(&c)
    }
}

impl Link for MLSAG {
    /// The two signatures show a common key image.
    open spec fn linked(signature_1: &MLSAG, signature_2: &MLSAG) -> bool {
        signature_1@.links(signature_2@)
    }

    /// Whether the two signatures were made with a common private key.
    fn link(signature_1: MLSAG, signature_2: MLSAG) -> (linked: bool) {
        let ghost first = signature_1@.key_images;
        let ghost second = signature_2@.key_images;
        let mut i: usize = 0;
        while i < signature_1.key_images.len()
            invariant
                i <= signature_1.key_images.len(),
                first == signature_1@.key_images,
                second == signature_2@.key_images,
                forall|a: int, b: int|
                    0 <= a < i && 0 <= b < second.len() ==> #[trigger] first[a] != #[trigger] second[b],
            decreases signature_1.key_images.len() - i,
        {
            let mut j: usize = 0;
            while j < signature_2.key_images.len()
                invariant
                    i < signature_1.key_images.len(),
                    j <= signature_2.key_images.len(),
                    first == signature_1@.key_images,
                    second == signature_2@.key_images,
                    forall|b: int| 0 <= b < j ==> first[i as int] != #[trigger] second[b],
                decreases signature_2.key_images.len() - j,
            {
                if signature_1.key_images[i].equals(&signature_2.key_images[j]) {
                    assert(first[i as int] == second[j as int]);
                    return true;
                }
                j += 1;
            }
            i += 1;
        }
        false
    }
}

} // verus!
