//! Sources of uniform scalars: the nonces of a signature.
use vstd::prelude::*;

use crate::scalar::{group_order, Scalar};

verus! {

/// A source of scalars drawn uniformly from the integers modulo ℓ.
pub trait ScalarSource: Sized {
    /// A source ready to draw from.
    fn new() -> Self;

    /// The next scalar.
    fn scalar(&mut self) -> Scalar;
}

/// The random number generator of the operating system.
pub struct OsRng;

impl ScalarSource for OsRng {
    fn new() -> Self {
        OsRng
    }

    /// A scalar drawn by the operating system: some residue below ℓ.
    fn scalar(&mut self) -> (out: Scalar)
        ensures
            out@ < group_order(),
    {
        Scalar::random()
    }
}

/// As many scalars from `source` as `count` says.
pub fn draw<R: ScalarSource>(source: &mut R, count: usize) -> (out: Vec<Scalar>)
    ensures
        out.len() == count,
{
    let mut out: Vec<Scalar> = Vec::new();
    while out.len() < count
        invariant
            out.len() <= count,
        decreases count - out.len(),
    {
        out.push(source.scalar());
    }
    out
}

} // verus!
