use curve25519_dalek::ristretto::{CompressedRistretto, RistrettoPoint};
use curve25519_dalek::scalar::Scalar as DalekScalar;
use nazgul::blsag::BLSAG;
use nazgul::clsag::CLSAG;
use nazgul::hash::Sha512;
use nazgul::mlsag::MLSAG;
use nazgul::ristretto::Point;
use nazgul::rng::OsRng;
use nazgul::sag::SAG;
use nazgul::scalar::Scalar;
use nazgul::traits::{Sign, Verify};
use serde_json::Value;

fn random_scalar() -> Scalar {
    let mut csprng = rand_core::OsRng;
    Scalar::from_canonical_bytes(DalekScalar::random(&mut csprng).to_bytes()).unwrap()
}

fn random_point() -> Point {
    let mut csprng = rand_core::OsRng;
    Point::from_bytes(RistrettoPoint::random(&mut csprng).compress().to_bytes()).unwrap()
}

// The records are written as the objects that the field names give: every scalar and every
// point goes through the encoding that `curve25519_dalek` gives it.

fn scalar_value(s: &Scalar) -> Value {
    serde_json::to_value(DalekScalar::from_canonical_bytes(s.to_bytes()).unwrap()).unwrap()
}

fn point_value(p: &Point) -> Value {
    serde_json::to_value(CompressedRistretto(p.to_bytes()).decompress().unwrap()).unwrap()
}

fn scalar_from(value: &Value) -> Scalar {
    let scalar: DalekScalar = serde_json::from_value(value.clone()).unwrap();
    Scalar::from_canonical_bytes(scalar.to_bytes()).unwrap()
}

fn point_from(value: &Value) -> Point {
    let point: RistrettoPoint = serde_json::from_value(value.clone()).unwrap();
    Point::from_bytes(point.compress().to_bytes()).unwrap()
}

fn scalars_value(row: &[Scalar]) -> Value {
    Value::Array(row.iter().map(scalar_value).collect())
}

fn points_value(row: &[Point]) -> Value {
    Value::Array(row.iter().map(point_value).collect())
}

fn scalars_from(value: &Value) -> Vec<Scalar> {
    value.as_array().unwrap().iter().map(scalar_from).collect()
}

fn points_from(value: &Value) -> Vec<Point> {
    value.as_array().unwrap().iter().map(point_from).collect()
}

#[test]
fn test_sag_serde() {
    let k: Scalar = random_scalar();
    let secret_index = 1;
    let n = 2;
    let ring: Vec<Point> = (0..(n - 1)).map(|_| random_point()).collect();
    let message: Vec<u8> = b"This is the message".iter().cloned().collect();

    let signature = SAG::sign::<Sha512, OsRng>(k, ring.clone(), secret_index, &message);

    // Serialize to JSON
    let mut record = serde_json::Map::new();
    record.insert("challenge".to_string(), scalar_value(&signature.challenge));
    record.insert("responses".to_string(), scalars_value(&signature.responses));
    record.insert("ring".to_string(), points_value(&signature.ring));
    let serialized = serde_json::to_string(&Value::Object(record)).unwrap();

    // Deserialize from JSON
    let parsed: Value = serde_json::from_str(&serialized).unwrap();
    let deserialized = SAG {
        challenge: scalar_from(&parsed["challenge"]),
        responses: scalars_from(&parsed["responses"]),
        ring: points_from(&parsed["ring"]),
    };
    assert_eq!(deserialized.challenge, signature.challenge);
    assert_eq!(deserialized.responses, signature.responses);
    assert_eq!(deserialized.ring, signature.ring);

    // Verify the deserialized signature works
    let result = SAG::verify::<Sha512>(deserialized, &message);
    assert!(result);
}

#[test]
fn test_blsag_serde() {
    let k: Scalar = random_scalar();
    let secret_index = 1;
    let n = 2;
    let ring: Vec<Point> = (0..(n - 1)).map(|_| random_point()).collect();
    let message: Vec<u8> = b"This is the message".iter().cloned().collect();

    let signature = BLSAG::sign::<Sha512, OsRng>(k, ring.clone(), secret_index, &message);

    let mut record = serde_json::Map::new();
    record.insert("challenge".to_string(), scalar_value(&signature.challenge));
    record.insert("responses".to_string(), scalars_value(&signature.responses));
    record.insert("ring".to_string(), points_value(&signature.ring));
    record.insert("key_image".to_string(), point_value(&signature.key_image));
    let serialized = serde_json::to_string(&Value::Object(record)).unwrap();
    let parsed: Value = serde_json::from_str(&serialized).unwrap();
    let deserialized = BLSAG {
        challenge: scalar_from(&parsed["challenge"]),
        responses: scalars_from(&parsed["responses"]),
        ring: points_from(&parsed["ring"]),
        key_image: point_from(&parsed["key_image"]),
    };
    assert_eq!(deserialized.key_image, signature.key_image);

    let result = BLSAG::verify::<Sha512>(deserialized, &message);
    assert!(result);
}

#[test]
fn test_clsag_serde() {
    let secret_index = 1;
    let nr = 2;
    let nc = 2;
    let ks: Vec<Scalar> = (0..nc).map(|_| random_scalar()).collect();
    let ring: Vec<Vec<Point>> = (0..(nr - 1))
        .map(|_| (0..nc).map(|_| random_point()).collect())
        .collect();
    let message: Vec<u8> = b"This is the message".iter().cloned().collect();

    let signature = CLSAG::sign::<Sha512, OsRng>(ks.clone(), ring.clone(), secret_index, &message);

    let mut record = serde_json::Map::new();
    record.insert("challenge".to_string(), scalar_value(&signature.challenge));
    record.insert("responses".to_string(), scalars_value(&signature.responses));
    record.insert(
        "ring".to_string(),
        Value::Array(signature.ring.iter().map(|row| points_value(row)).collect()),
    );
    record.insert("key_images".to_string(), points_value(&signature.key_images));
    let serialized = serde_json::to_string(&Value::Object(record)).unwrap();
    let parsed: Value = serde_json::from_str(&serialized).unwrap();
    let deserialized = CLSAG {
        challenge: scalar_from(&parsed["challenge"]),
        responses: scalars_from(&parsed["responses"]),
        ring: parsed["ring"].as_array().unwrap().iter().map(points_from).collect(),
        key_images: points_from(&parsed["key_images"]),
    };
    assert_eq!(deserialized.ring, signature.ring);

    let result = CLSAG::verify::<Sha512>(deserialized, &message);
    assert!(result);
}

#[test]
fn test_mlsag_serde() {
    let secret_index = 1;
    let nr = 2;
    let nc = 2;
    let ks: Vec<Scalar> = (0..nc).map(|_| random_scalar()).collect();
    let ring: Vec<Vec<Point>> = (0..(nr - 1))
        .map(|_| (0..nc).map(|_| random_point()).collect())
        .collect();
    let message: Vec<u8> = b"This is the message".iter().cloned().collect();

    let signature = MLSAG::sign::<Sha512, OsRng>(ks.clone(), ring.clone(), secret_index, &message);

    let mut record = serde_json::Map::new();
    record.insert("challenge".to_string(), scalar_value(&signature.challenge));
    record.insert(
        "responses".to_string(),
        Value::Array(signature.responses.iter().map(|row| scalars_value(row)).collect()),
    );
    record.insert(
        "ring".to_string(),
        Value::Array(signature.ring.iter().map(|row| points_value(row)).collect()),
    );
    record.insert("key_images".to_string(), points_value(&signature.key_images));
    let serialized = serde_json::to_string(&Value::Object(record)).unwrap();
    let parsed: Value = serde_json::from_str(&serialized).unwrap();
    let deserialized = MLSAG {
        challenge: scalar_from(&parsed["challenge"]),
        responses: parsed["responses"].as_array().unwrap().iter().map(scalars_from).collect(),
        ring: parsed["ring"].as_array().unwrap().iter().map(points_from).collect(),
        key_images: points_from(&parsed["key_images"]),
    };
    assert_eq!(deserialized.responses, signature.responses);

    let result = MLSAG::verify::<Sha512>(deserialized, &message);
    assert!(result);
}
