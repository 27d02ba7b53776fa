[package]
name = "nazgul"
version = "0.1.0"
edition = "2021"
publish = false

[dependencies]
curve25519-dalek = { version = "4", features = ["digest", "rand_core", "serde"] }
digest = "0.10"
rand_core = { version = "0.6", features = ["getrandom"] }
sha2 = "0.10"
sha3 = "0.10"
blake2 = "0.10"
serde = { version = "1", features = ["derive"] }

[dev-dependencies]
serde_json = "1"
