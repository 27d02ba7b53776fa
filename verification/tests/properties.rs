use nazgul::blsag::BLSAG;
use nazgul::clsag::CLSAG;
use nazgul::commit::public_key_of;
use nazgul::hash::{hash_to_point, hash_to_scalar, Blake2b512, Keccak512, Sha512};
use nazgul::mlsag::MLSAG;
use nazgul::ristretto::Point;
use nazgul::rng::OsRng;
use nazgul::sag::SAG;
use nazgul::scalar::Scalar;
use nazgul::traits::{KeyImageGen, Link, Sign, Verify};

fn scalar(i: u64) -> Scalar {
    let mut data = b"scalar".to_vec();
    data.extend_from_slice(&i.to_le_bytes());
    hash_to_scalar::<Sha512>(&data)
}

fn point(i: u64) -> Point {
    let mut data = b"point".to_vec();
    data.extend_from_slice(&i.to_le_bytes());
    hash_to_point::<Sha512>(&data)
}

fn scalars(from: u64, count: usize) -> Vec<Scalar> {
    (0..count as u64).map(|i| scalar(from + i)).collect()
}

fn points(from: u64, count: usize) -> Vec<Point> {
    (0..count as u64).map(|i| point(from + i)).collect()
}

fn rows(from: u64, height: usize, width: usize) -> Vec<Vec<Point>> {
    (0..height).map(|i| points(from + (i * width) as u64, width)).collect()
}

fn sag(secret_index: usize, message: &[u8]) -> SAG {
    SAG::sign::<Sha512, OsRng>(scalar(0), points(0, 3), secret_index, message)
}

fn blsag(secret_index: usize, message: &[u8]) -> BLSAG {
    BLSAG::sign::<Sha512, OsRng>(scalar(0), points(0, 3), secret_index, message)
}

fn mlsag(secret_index: usize, message: &[u8]) -> MLSAG {
    MLSAG::sign::<Sha512, OsRng>(scalars(0, 2), rows(0, 3, 2), secret_index, message)
}

fn clsag(secret_index: usize, message: &[u8]) -> CLSAG {
    CLSAG::sign::<Sha512, OsRng>(scalars(0, 2), rows(0, 3, 2), secret_index, message)
}

#[test]
fn signatures_verify_at_every_secret_index() {
    for secret_index in 0..4 {
        assert!(SAG::verify::<Sha512>(sag(secret_index, b"message"), b"message"));
        assert!(BLSAG::verify::<Sha512>(blsag(secret_index, b"message"), b"message"));
        assert!(MLSAG::verify::<Sha512>(mlsag(secret_index, b"message"), b"message"));
        assert!(CLSAG::verify::<Sha512>(clsag(secret_index, b"message"), b"message"));
    }
}

#[test]
fn signatures_verify_with_every_hash() {
    let (k, ring) = (scalar(0), points(0, 2));
    assert!(SAG::verify::<Keccak512>(SAG::sign::<Keccak512, OsRng>(k, ring.clone(), 2, b"m"), b"m"));
    assert!(SAG::verify::<Blake2b512>(SAG::sign::<Blake2b512, OsRng>(k, ring.clone(), 0, b"m"), b"m"));
    assert!(BLSAG::verify::<Keccak512>(
        BLSAG::sign::<Keccak512, OsRng>(k, ring.clone(), 1, b"m"),
        b"m"
    ));
    assert!(MLSAG::verify::<Blake2b512>(
        MLSAG::sign::<Blake2b512, OsRng>(scalars(0, 3), rows(0, 2, 3), 1, b"m"),
        b"m"
    ));
    assert!(CLSAG::verify::<Keccak512>(
        CLSAG::sign::<Keccak512, OsRng>(scalars(0, 3), rows(0, 2, 3), 2, b"m"),
        b"m"
    ));
}

#[test]
fn the_empty_message_can_be_signed() {
    assert!(SAG::verify::<Sha512>(sag(1, b""), b""));
    assert!(BLSAG::verify::<Sha512>(blsag(1, b""), b""));
    assert!(MLSAG::verify::<Sha512>(mlsag(1, b""), b""));
    assert!(CLSAG::verify::<Sha512>(clsag(1, b""), b""));
    assert!(!SAG::verify::<Sha512>(sag(1, b""), b"\0"));
}

#[test]
fn another_message_does_not_verify() {
    assert!(!SAG::verify::<Sha512>(sag(1, b"message"), b"messagf"));
    assert!(!BLSAG::verify::<Sha512>(blsag(2, b"message"), b"message "));
    assert!(!MLSAG::verify::<Sha512>(mlsag(0, b"message"), b""));
    assert!(!CLSAG::verify::<Sha512>(clsag(3, b"message"), b"Message"));
}

#[test]
fn another_ring_does_not_verify() {
    let mut signature = sag(1, b"m");
    signature.ring[2] = point(99);
    assert!(!SAG::verify::<Sha512>(signature, b"m"));

    let mut signature = sag(1, b"m");
    signature.ring.swap(0, 3);
    assert!(!SAG::verify::<Sha512>(signature, b"m"));

    let mut signature = blsag(1, b"m");
    signature.ring[1] = point(99);
    assert!(!BLSAG::verify::<Sha512>(signature, b"m"));

    let mut signature = blsag(1, b"m");
    signature.key_image = point(99);
    assert!(!BLSAG::verify::<Sha512>(signature, b"m"));

    let mut signature = mlsag(1, b"m");
    signature.ring[3][1] = point(99);
    assert!(!MLSAG::verify::<Sha512>(signature, b"m"));

    let mut signature = mlsag(1, b"m");
    signature.key_images[1] = point(99);
    assert!(!MLSAG::verify::<Sha512>(signature, b"m"));

    let mut signature = clsag(1, b"m");
    signature.ring[0][1] = point(99);
    assert!(!CLSAG::verify::<Sha512>(signature, b"m"));

    let mut signature = clsag(1, b"m");
    signature.key_images[1] = point(99);
    assert!(!CLSAG::verify::<Sha512>(signature, b"m"));
}

#[test]
fn another_challenge_or_response_does_not_verify() {
    let mut signature = sag(1, b"m");
    signature.challenge = scalar(99);
    assert!(!SAG::verify::<Sha512>(signature, b"m"));
    for index in 0..4 {
        let mut signature = sag(1, b"m");
        signature.responses[index] = scalar(99);
        assert!(!SAG::verify::<Sha512>(signature, b"m"));

        let mut signature = blsag(1, b"m");
        signature.responses[index] = scalar(99);
        assert!(!BLSAG::verify::<Sha512>(signature, b"m"));

        let mut signature = mlsag(1, b"m");
        signature.responses[index][1] = scalar(99);
        assert!(!MLSAG::verify::<Sha512>(signature, b"m"));

        let mut signature = clsag(1, b"m");
        signature.responses[index] = scalar(99);
        assert!(!CLSAG::verify::<Sha512>(signature, b"m"));
    }
    let mut signature = blsag(1, b"m");
    signature.challenge = scalar(99);
    assert!(!BLSAG::verify::<Sha512>(signature, b"m"));
    let mut signature = mlsag(1, b"m");
    signature.challenge = scalar(99);
    assert!(!MLSAG::verify::<Sha512>(signature, b"m"));
    let mut signature = clsag(1, b"m");
    signature.challenge = scalar(99);
    assert!(!CLSAG::verify::<Sha512>(signature, b"m"));
}

#[test]
fn the_ring_of_a_signature_is_the_decoys_with_the_public_key() {
    let signature = sag(2, b"m");
    assert_eq!(signature.ring, vec![point(0), point(1), public_key_of(&scalar(0)), point(2)]);
    assert_eq!(signature.responses.len(), 4);

    let signature = clsag(0, b"m");
    let own: Vec<Point> = scalars(0, 2).iter().map(public_key_of).collect();
    assert_eq!(signature.ring[0], own);
    assert_eq!(signature.ring[1..], rows(0, 3, 2)[..]);
    assert_eq!(signature.responses.len(), 4);

    let signature = mlsag(3, b"m");
    assert_eq!(signature.ring[3], own);
    assert_eq!(signature.ring[..3], rows(0, 3, 2)[..]);
    assert!(signature.responses.iter().all(|row| row.len() == 2));
}

#[test]
fn signatures_by_the_same_key_link() {
    let first = BLSAG::sign::<Sha512, OsRng>(scalar(0), points(0, 3), 0, b"one");
    let second = BLSAG::sign::<Sha512, OsRng>(scalar(0), points(10, 5), 4, b"two");
    let stranger = BLSAG::sign::<Sha512, OsRng>(scalar(1), points(0, 3), 0, b"one");
    assert!(BLSAG::link(first.clone(), second.clone()));
    assert!(BLSAG::link(first.clone(), first.clone()));
    assert!(!BLSAG::link(first, stranger.clone()));
    assert!(!BLSAG::link(stranger, second));

    let first = MLSAG::sign::<Sha512, OsRng>(scalars(0, 2), rows(0, 3, 2), 0, b"one");
    let second = MLSAG::sign::<Sha512, OsRng>(scalars(0, 2), rows(10, 1, 2), 1, b"two");
    let stranger = MLSAG::sign::<Sha512, OsRng>(scalars(5, 2), rows(0, 3, 2), 0, b"one");
    assert!(MLSAG::link(first.clone(), second));
    assert!(!MLSAG::link(first.clone(), stranger));
    // One common key is enough, in whatever column it stands.
    let shared = MLSAG::sign::<Sha512, OsRng>(
        vec![scalar(7), scalar(8), scalar(1)],
        rows(20, 2, 3),
        2,
        b"three",
    );
    assert!(MLSAG::link(first.clone(), shared.clone()));
    assert!(MLSAG::link(shared, first));

    let first = CLSAG::sign::<Sha512, OsRng>(scalars(0, 2), rows(0, 3, 2), 0, b"one");
    let second = CLSAG::sign::<Sha512, OsRng>(scalars(0, 2), rows(10, 1, 2), 1, b"two");
    let same_first = CLSAG::sign::<Sha512, OsRng>(
        vec![scalar(0), scalar(8), scalar(9)],
        rows(20, 2, 3),
        2,
        b"three",
    );
    let same_second = CLSAG::sign::<Sha512, OsRng>(
        vec![scalar(7), scalar(1)],
        rows(0, 3, 2),
        0,
        b"one",
    );
    assert!(CLSAG::link(first.clone(), second));
    assert!(CLSAG::link(first.clone(), same_first));
    // Only the first key links.
    assert!(!CLSAG::link(first, same_second));
}

#[test]
fn signatures_without_key_images_do_not_link() {
    let signature = clsag(1, b"m");
    let mut bare = signature.clone();
    bare.key_images.clear();
    assert!(!CLSAG::link(signature.clone(), bare.clone()));
    assert!(!CLSAG::link(bare.clone(), signature));
    assert!(!CLSAG::link(bare.clone(), bare));

    let signature = mlsag(1, b"m");
    let mut bare = signature.clone();
    bare.key_images.clear();
    assert!(!MLSAG::link(signature, bare.clone()));
    assert!(!MLSAG::link(bare.clone(), bare));
}

#[test]
fn key_images_depend_on_the_key_alone() {
    let k = scalar(0);
    let image = BLSAG::generate_key_image::<Sha512>(k);
    assert_eq!(image, BLSAG::generate_key_image::<Sha512>(k));
    assert_eq!(image, blsag(1, b"one").key_image);
    assert_eq!(image, blsag(3, b"two").key_image);
    assert_eq!(image, hash_to_point::<Sha512>(&public_key_of(&k).to_bytes()).scaled(&k));
    assert!(image != BLSAG::generate_key_image::<Keccak512>(k));
    assert!(image != BLSAG::generate_key_image::<Sha512>(scalar(1)));

    let ks = scalars(0, 2);
    let images = MLSAG::generate_key_image::<Sha512>(ks.clone());
    assert_eq!(images, MLSAG::generate_key_image::<Sha512>(ks.clone()));
    assert_eq!(images, mlsag(2, b"one").key_images);
    assert_eq!(images[0], image);
    assert_eq!(images[1], BLSAG::generate_key_image::<Sha512>(scalar(1)));
    assert!(MLSAG::generate_key_image::<Sha512>(Vec::new()).is_empty());

    let images = CLSAG::generate_key_image::<Sha512>(ks.clone());
    assert_eq!(images, CLSAG::generate_key_image::<Sha512>(ks.clone()));
    assert_eq!(images, clsag(2, b"one").key_images);
    let base = hash_to_point::<Sha512>(&public_key_of(&ks[0]).to_bytes());
    assert_eq!(images, vec![base.scaled(&ks[0]), base.scaled(&ks[1])]);
}

#[test]
fn malformed_signatures_do_not_verify() {
    // No ring at all, or a ring of one.
    let empty = SAG { challenge: scalar(0), responses: Vec::new(), ring: Vec::new() };
    assert!(!SAG::verify::<Sha512>(empty, b"m"));
    let single = SAG { challenge: scalar(0), responses: scalars(1, 1), ring: points(0, 1) };
    assert!(!SAG::verify::<Sha512>(single, b"m"));
    let empty = BLSAG {
        challenge: scalar(0),
        responses: Vec::new(),
        ring: Vec::new(),
        key_image: point(0),
    };
    assert!(!BLSAG::verify::<Sha512>(empty, b"m"));
    let empty = MLSAG {
        challenge: scalar(0),
        responses: Vec::new(),
        ring: Vec::new(),
        key_images: Vec::new(),
    };
    assert!(!empty.is_well_formed());
    assert!(!MLSAG::verify::<Sha512>(empty, b"m"));
    let empty = CLSAG {
        challenge: scalar(0),
        responses: Vec::new(),
        ring: Vec::new(),
        key_images: Vec::new(),
    };
    assert!(!empty.is_well_formed());
    assert!(!CLSAG::verify::<Sha512>(empty, b"m"));

    // Too few or too many responses.
    let mut signature = sag(1, b"m");
    signature.responses.pop();
    assert!(!SAG::verify::<Sha512>(signature, b"m"));
    let mut signature = sag(1, b"m");
    signature.responses.push(scalar(9));
    assert!(!SAG::verify::<Sha512>(signature, b"m"));
    let mut signature = blsag(1, b"m");
    signature.responses.pop();
    assert!(!BLSAG::verify::<Sha512>(signature, b"m"));
    let mut signature = clsag(1, b"m");
    signature.responses.push(scalar(9));
    assert!(!signature.is_well_formed());
    assert!(!CLSAG::verify::<Sha512>(signature, b"m"));
    let mut signature = mlsag(1, b"m");
    signature.responses[2].pop();
    assert!(!signature.is_well_formed());
    assert!(!MLSAG::verify::<Sha512>(signature, b"m"));
    let mut signature = mlsag(1, b"m");
    signature.responses.pop();
    assert!(!MLSAG::verify::<Sha512>(signature, b"m"));

    // Rows of unequal width.
    let mut signature = mlsag(1, b"m");
    signature.ring[1].push(point(9));
    assert!(!MLSAG::verify::<Sha512>(signature, b"m"));
    let mut signature = clsag(1, b"m");
    signature.ring[3].pop();
    assert!(!CLSAG::verify::<Sha512>(signature, b"m"));
    let mut signature = clsag(1, b"m");
    signature.ring[0].clear();
    assert!(!CLSAG::verify::<Sha512>(signature, b"m"));

    // Too few or too many key images.
    let mut signature = mlsag(1, b"m");
    signature.key_images.pop();
    assert!(!MLSAG::verify::<Sha512>(signature, b"m"));
    let mut signature = clsag(1, b"m");
    signature.key_images.push(point(9));
    assert!(!CLSAG::verify::<Sha512>(signature, b"m"));

    assert!(mlsag(1, b"m").is_well_formed());
    assert!(clsag(1, b"m").is_well_formed());
}

#[test]
fn a_ring_of_two_is_the_smallest() {
    let signature = SAG::sign::<Sha512, OsRng>(scalar(0), points(0, 1), 0, b"m");
    assert_eq!(signature.ring.len(), 2);
    assert!(SAG::verify::<Sha512>(signature, b"m"));
    let signature = BLSAG::sign::<Sha512, OsRng>(scalar(0), points(0, 1), 1, b"m");
    assert!(BLSAG::verify::<Sha512>(signature, b"m"));
    let signature = MLSAG::sign::<Sha512, OsRng>(scalars(0, 1), rows(0, 1, 1), 0, b"m");
    assert!(MLSAG::verify::<Sha512>(signature, b"m"));
    let signature = CLSAG::sign::<Sha512, OsRng>(scalars(0, 1), rows(0, 1, 1), 1, b"m");
    assert!(CLSAG::verify::<Sha512>(signature, b"m"));
}

#[test]
fn many_columns_have_labels_of_several_digits() {
    let signature = CLSAG::sign::<Sha512, OsRng>(scalars(0, 12), rows(0, 2, 12), 1, b"m");
    assert!(CLSAG::verify::<Sha512>(signature.clone(), b"m"));
    let mut altered = signature;
    altered.ring[0][11] = point(99);
    assert!(!CLSAG::verify::<Sha512>(altered, b"m"));
}
