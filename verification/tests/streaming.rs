use curve25519_dalek::constants::RISTRETTO_BASEPOINT_POINT;
use curve25519_dalek::ristretto::{CompressedRistretto, RistrettoPoint};
use curve25519_dalek::scalar::Scalar as DalekScalar;
use curve25519_dalek::traits::MultiscalarMul;
use digest::generic_array::typenum::U64;
use digest::Digest;
use nazgul::blsag::BLSAG;
use nazgul::clsag::CLSAG;
use nazgul::hash::{hash_to_point, hash_to_scalar, Blake2b512, Keccak512, Sha512};
use nazgul::mlsag::MLSAG;
use nazgul::ristretto::Point;
use nazgul::rng::OsRng;
use nazgul::sag::SAG;
use nazgul::scalar::Scalar;
use nazgul::traits::{Sign, Verify};

// The chains are computed once more, with hashers that are fed piece by piece and forked where
// a prefix is shared: the bytes hashed must be the same.

fn scalar(i: u64) -> Scalar {
    let mut data = b"scalar".to_vec();
    data.extend_from_slice(&i.to_le_bytes());
    hash_to_scalar::<Sha512>(&data)
}

fn point(i: u64) -> Point {
    let mut data = b"point".to_vec();
    data.extend_from_slice(&i.to_le_bytes());
    hash_to_point::<Sha512>(&data)
}

fn scalars(from: u64, count: usize) -> Vec<Scalar> {
    (0..count as u64).map(|i| scalar(from + i)).collect()
}

fn rows(from: u64, height: usize, width: usize) -> Vec<Vec<Point>> {
    (0..height)
        .map(|i| (0..width).map(|j| point(from + (i * width + j) as u64)).collect())
        .collect()
}

fn s(scalar: &Scalar) -> DalekScalar {
    DalekScalar::from_canonical_bytes(scalar.to_bytes()).unwrap()
}

fn p(point: &Point) -> RistrettoPoint {
    CompressedRistretto(point.to_bytes()).decompress().unwrap()
}

fn hashed<D: Digest<OutputSize = U64> + Default>(point: &RistrettoPoint) -> RistrettoPoint {
    RistrettoPoint::from_hash(D::default().chain_update(point.compress().as_bytes()))
}

fn sag_chain<D: Digest<OutputSize = U64> + Clone + Default>(
    signature: &SAG,
    message: &[u8],
) -> DalekScalar {
    let mut shared = D::new();
    for key in &signature.ring {
        shared.update(p(key).compress().as_bytes());
    }
    shared.update(message);
    let mut c = s(&signature.challenge);
    for j in 0..signature.ring.len() {
        let mut h = shared.clone();
        h.update(
            RistrettoPoint::multiscalar_mul(
                &[s(&signature.responses[j]), c],
                &[RISTRETTO_BASEPOINT_POINT, p(&signature.ring[j])],
            )
            .compress()
            .as_bytes(),
        );
        c = DalekScalar::from_hash(h);
    }
    c
}

fn blsag_chain<D: Digest<OutputSize = U64> + Clone + Default>(
    signature: &BLSAG,
    message: &[u8],
) -> DalekScalar {
    let mut c = s(&signature.challenge);
    for j in 0..signature.ring.len() {
        let (r, key) = (s(&signature.responses[j]), p(&signature.ring[j]));
        let mut h = D::default();
        h.update(message);
        h.update((r * RISTRETTO_BASEPOINT_POINT + c * key).compress().as_bytes());
        h.update((r * hashed::<D>(&key) + c * p(&signature.key_image)).compress().as_bytes());
        c = DalekScalar::from_hash(h);
    }
    c
}

fn mlsag_chain<D: Digest<OutputSize = U64> + Clone + Default>(
    signature: &MLSAG,
    message: &[u8],
) -> DalekScalar {
    let mut c = s(&signature.challenge);
    for i in 0..signature.ring.len() {
        let mut h = D::default();
        h.update(message);
        for j in 0..signature.ring[0].len() {
            let (r, key) = (s(&signature.responses[i][j]), p(&signature.ring[i][j]));
            h.update((r * RISTRETTO_BASEPOINT_POINT + c * key).compress().as_bytes());
            h.update(
                (r * hashed::<D>(&key) + c * p(&signature.key_images[j])).compress().as_bytes(),
            );
        }
        c = DalekScalar::from_hash(h);
    }
    c
}

fn clsag_chain<D: Digest<OutputSize = U64> + Clone + Default>(
    signature: &CLSAG,
    message: &[u8],
) -> DalekScalar {
    let columns = signature.ring[0].len();
    let weights: Vec<DalekScalar> = (0..columns)
        .map(|index| {
            let mut h = D::default();
            h.update(format!("CSLAG_{}", index).as_bytes());
            for row in &signature.ring {
                for key in row {
                    h.update(p(key).compress().as_bytes());
                }
            }
            for image in &signature.key_images {
                h.update(p(image).compress().as_bytes());
            }
            DalekScalar::from_hash(h)
        })
        .collect();
    let image: RistrettoPoint =
        (0..columns).map(|j| weights[j] * p(&signature.key_images[j])).sum();
    let mut c = s(&signature.challenge);
    for (i, row) in signature.ring.iter().enumerate() {
        let key: RistrettoPoint = (0..columns).map(|j| weights[j] * p(&row[j])).sum();
        let r = s(&signature.responses[i]);
        let mut h = D::default();
        h.update(b"CSLAG_c");
        for row in &signature.ring {
            for key in row {
                h.update(p(key).compress().as_bytes());
            }
        }
        h.update(message);
        h.update((r * RISTRETTO_BASEPOINT_POINT + c * key).compress().as_bytes());
        h.update((r * hashed::<D>(&p(&row[0])) + c * image).compress().as_bytes());
        c = DalekScalar::from_hash(h);
    }
    c
}

#[test]
fn the_chain_of_sag_hashes_the_ring_the_message_and_each_commitment() {
    let ring: Vec<Point> = (0..4).map(point).collect();
    let signature = SAG::sign::<Sha512, OsRng>(scalar(0), ring.clone(), 2, b"message");
    assert_eq!(sag_chain::<sha2::Sha512>(&signature, b"message"), s(&signature.challenge));
    assert!(sag_chain::<sha2::Sha512>(&signature, b"massage") != s(&signature.challenge));
    let signature = SAG::sign::<Keccak512, OsRng>(scalar(0), ring.clone(), 0, b"message");
    assert_eq!(sag_chain::<sha3::Keccak512>(&signature, b"message"), s(&signature.challenge));
    let signature = SAG::sign::<Blake2b512, OsRng>(scalar(0), ring, 4, b"message");
    assert_eq!(sag_chain::<blake2::Blake2b512>(&signature, b"message"), s(&signature.challenge));
}

#[test]
fn the_chain_of_blsag_hashes_the_message_and_two_commitments() {
    let ring: Vec<Point> = (0..4).map(point).collect();
    let signature = BLSAG::sign::<Sha512, OsRng>(scalar(0), ring.clone(), 2, b"message");
    assert_eq!(blsag_chain::<sha2::Sha512>(&signature, b"message"), s(&signature.challenge));
    let signature = BLSAG::sign::<Keccak512, OsRng>(scalar(0), ring, 0, b"message");
    assert_eq!(blsag_chain::<sha3::Keccak512>(&signature, b"message"), s(&signature.challenge));
    assert!(blsag_chain::<sha2::Sha512>(&signature, b"message") != s(&signature.challenge));
}

#[test]
fn the_chain_of_mlsag_hashes_the_message_and_two_commitments_for_each_column() {
    let signature = MLSAG::sign::<Sha512, OsRng>(scalars(0, 3), rows(0, 3, 3), 1, b"message");
    assert_eq!(mlsag_chain::<sha2::Sha512>(&signature, b"message"), s(&signature.challenge));
    let signature = MLSAG::sign::<Blake2b512, OsRng>(scalars(0, 2), rows(0, 1, 2), 1, b"");
    assert_eq!(mlsag_chain::<blake2::Blake2b512>(&signature, b""), s(&signature.challenge));
}

#[test]
fn the_chain_of_clsag_hashes_the_labels_the_ring_and_the_aggregates() {
    let signature = CLSAG::sign::<Sha512, OsRng>(scalars(0, 3), rows(0, 3, 3), 1, b"message");
    assert_eq!(clsag_chain::<sha2::Sha512>(&signature, b"message"), s(&signature.challenge));
    let signature = CLSAG::sign::<Keccak512, OsRng>(scalars(0, 11), rows(0, 2, 11), 0, b"m");
    assert_eq!(clsag_chain::<sha3::Keccak512>(&signature, b"m"), s(&signature.challenge));
    assert!(CLSAG::verify::<Keccak512>(signature, b"m"));
}
