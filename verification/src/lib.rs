//! Ring signatures over the Ristretto group.
//!
//! Four schemes share one engine, a cyclic chain of Fiat–Shamir challenges:
//!
//!  - [`sag::SAG`]: spontaneous anonymous group signatures, not linkable;
//!  - [`blsag::BLSAG`]: Back's linkable variant, with one key image;
//!  - [`mlsag::MLSAG`]: the multilayer variant, with one key image per column;
//!  - [`clsag::CLSAG`]: the concise variant, with the columns aggregated.
//!
//! Every scheme works with any hash of 64 bytes ([`hash::Hash512`]) and any source of
//! uniform scalars ([`rng::ScalarSource`]).
pub mod blsag;
pub mod bytes;
pub mod chain;
pub mod clsag;
pub mod commit;
pub mod hash;
pub mod mlsag;
pub mod ristretto;
pub mod rng;
pub mod sag;
pub mod scalar;
pub mod traits;
