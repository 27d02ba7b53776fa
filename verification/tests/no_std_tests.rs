use curve25519_dalek::ristretto::RistrettoPoint;
use curve25519_dalek::scalar::Scalar as DalekScalar;
use nazgul::blsag::BLSAG;
use nazgul::clsag::CLSAG;
use nazgul::hash::Sha512;
use nazgul::mlsag::MLSAG;
use nazgul::ristretto::Point;
use nazgul::rng::OsRng;
use nazgul::sag::SAG;
use nazgul::scalar::Scalar;
use nazgul::traits::{Link, Sign, Verify};

fn random_scalar() -> Scalar {
    let mut csprng = rand_core::OsRng;
    Scalar::from_canonical_bytes(DalekScalar::random(&mut csprng).to_bytes()).unwrap()
}

fn random_point() -> Point {
    let mut csprng = rand_core::OsRng;
    Point::from_bytes(RistrettoPoint::random(&mut csprng).compress().to_bytes()).unwrap()
}

#[test]
fn test_sag_no_std() {
    let k: Scalar = random_scalar();
    let secret_index = 1;
    let n = 2;
    let ring: Vec<Point> = (0..(n - 1)).map(|_| random_point()).collect();
    let message: Vec<u8> = b"This is the message".iter().cloned().collect();

    let signature = SAG::sign::<Sha512, OsRng>(k, ring.clone(), secret_index, &message);
    let result = SAG::verify::<Sha512>(signature, &message);
    assert!(result);
}

#[test]
fn test_blsag_no_std() {
    let k: Scalar = random_scalar();
    let secret_index = 1;
    let n = 2;
    let ring: Vec<Point> = (0..(n - 1)).map(|_| random_point()).collect();
    let message: Vec<u8> = b"This is the message".iter().cloned().collect();

    let signature = BLSAG::sign::<Sha512, OsRng>(k, ring.clone(), secret_index, &message);
    let result = BLSAG::verify::<Sha512>(signature.clone(), &message);
    assert!(result);

    // Test linking
    let another_message: Vec<u8> = b"This is another message".iter().cloned().collect();
    let signature2 = BLSAG::sign::<Sha512, OsRng>(k, ring.clone(), secret_index, &another_message);
    let link_result = BLSAG::link(signature, signature2);
    assert!(link_result);
}

#[test]
fn test_clsag_no_std() {
    let secret_index = 1;
    let nr = 2;
    let nc = 2;
    let ks: Vec<Scalar> = (0..nc).map(|_| random_scalar()).collect();
    let ring: Vec<Vec<Point>> = (0..(nr - 1))
        .map(|_| (0..nc).map(|_| random_point()).collect())
        .collect();
    let message: Vec<u8> = b"This is the message".iter().cloned().collect();

    let signature = CLSAG::sign::<Sha512, OsRng>(ks.clone(), ring.clone(), secret_index, &message);
    let result = CLSAG::verify::<Sha512>(signature.clone(), &message);
    assert!(result);

    // Test linking
    let another_message: Vec<u8> = b"This is another message".iter().cloned().collect();
    let signature2 = CLSAG::sign::<Sha512, OsRng>(ks, ring.clone(), secret_index, &another_message);
    let link_result = CLSAG::link(signature, signature2);
    assert!(link_result);
}

#[test]
fn test_mlsag_no_std() {
    let secret_index = 1;
    let nr = 2;
    let nc = 2;
    let ks: Vec<Scalar> = (0..nc).map(|_| random_scalar()).collect();
    let ring: Vec<Vec<Point>> = (0..(nr - 1))
        .map(|_| (0..nc).map(|_| random_point()).collect())
        .collect();
    let message: Vec<u8> = b"This is the message".iter().cloned().collect();

    let signature = MLSAG::sign::<Sha512, OsRng>(ks.clone(), ring.clone(), secret_index, &message);
    let result = MLSAG::verify::<Sha512>(signature.clone(), &message);
    assert!(result);

    // Test linking
    let another_message: Vec<u8> = b"This is another message".iter().cloned().collect();
    let signature2 = MLSAG::sign::<Sha512, OsRng>(ks, ring.clone(), secret_index, &another_message);
    let link_result = MLSAG::link(signature, signature2);
    assert!(link_result);
}
