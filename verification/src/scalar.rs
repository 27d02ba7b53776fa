//! Scalars: the integers modulo the order of the Ristretto group.
//!
//! A [`Scalar`] holds the 32 bytes of a residue below the group order. Its view is the residue
//! as a natural number, so contracts speak of plain arithmetic modulo [`group_order`]. The
//! arithmetic itself is done by `curve25519_dalek`, behind the wrappers at the end of this file.
use rand_core::OsRng as SystemRng;
use vstd::arithmetic::div_mod::*;
use vstd::arithmetic::mul::*;
use vstd::prelude::*;

use crate::bytes::same_bytes;

verus! {

/// The order ℓ = 2^252 + 27742317777372353535851937790883648493 of the Ristretto group.
pub open spec fn group_order() -> nat {
    7237005577332262213973186563042994240857116359379907606001950938285454250989nat
}

/// The number that `bytes` writes in base 256, least significant byte first.
pub open spec fn le_value(bytes: Seq<u8>) -> nat
    decreases bytes.len(),
{
    if bytes.len() == 0 {
        0
    } else {
        bytes[0] as nat + 256 * le_value(bytes.drop_first())
    }
}

/// The sum of two residues.
pub open spec fn add_mod(a: nat, b: nat) -> nat {
    (a + b) % group_order()
}

/// The difference of two residues.
pub open spec fn sub_mod(a: nat, b: nat) -> nat {
    ((a - b) % (group_order() as int)) as nat
}

/// The product of two residues.
pub open spec fn mul_mod(a: nat, b: nat) -> nat {
    (a * b) % group_order()
}

/// Two byte strings of one length that write the same number are the same string.
pub proof fn lemma_le_value_injective(a: Seq<u8>, b: Seq<u8>)
    requires
        a.len() == b.len(),
        le_value(a) == le_value(b),
    ensures
        a == b,
    decreases a.len(),
{
    if a.len() > 0 {
        let x = le_value(a.drop_first());
        let y = le_value(b.drop_first());
        assert(a[0] as nat + 256 * x == b[0] as nat + 256 * y);
        assert(x == y) by {
            if x < y {
                assert(256 * y >= 256 * (x + 1));
            } else if y < x {
                assert(256 * x >= 256 * (y + 1));
            }
        }
        lemma_le_value_injective(a.drop_first(), b.drop_first());
        assert(a =~= seq![a[0]] + a.drop_first());
        assert(b =~= seq![b[0]] + b.drop_first());
    } else {
        assert(a =~= b);
    }
}

/// A string of zero bytes writes zero.
pub proof fn lemma_le_value_zero(bytes: Seq<u8>)
    requires
        forall|i: int| 0 <= i < bytes.len() ==> bytes[i] == 0,
    ensures
        le_value(bytes) == 0,
    decreases bytes.len(),
{
    if bytes.len() > 0 {
        lemma_le_value_zero(bytes.drop_first());
    }
}

/// What closes a ring: with `r = a - c·k`, the combination `r·x + c·(k·x)` is `a·x`,
/// whatever the base `x`.
pub proof fn lemma_response_closes(a: nat, c: nat, k: nat, x: nat)
    ensures
        add_mod(mul_mod(sub_mod(a, mul_mod(c, k)), x), mul_mod(c, mul_mod(k, x))) == mul_mod(a, x),
{
    let m = group_order() as int;
    let (ai, ci, ki, xi) = (a as int, c as int, k as int, x as int);
    let r = sub_mod(a, mul_mod(c, k)) as int;
    let u = (ai - ci * ki) * xi;
    let v = ci * (ki * xi);
    assert(r == (ai - ci * ki) % m) by {
        lemma_sub_mod_noop_right(ai, ci * ki, m);
    }
    assert(mul_mod(r as nat, x) as int == u % m) by {
        lemma_mul_mod_noop_left(ai - ci * ki, xi, m);
    }
    assert(mul_mod(c, mul_mod(k, x)) as int == v % m) by {
        lemma_mul_mod_noop_right(ci, ki * xi, m);
    }
    assert((ai - ci * ki) * xi + ci * (ki * xi) == ai * xi) by (nonlinear_arith);
    assert((u % m + v % m) % m == (u + v) % m) by {
        lemma_add_mod_noop(u, v, m);
    }
}

/// An integer modulo ℓ, held as the 32 bytes of its least residue.
#[derive(Clone, Copy, Debug, PartialEq, Eq)]
pub struct Scalar {
    bytes: [u8; 32],
}

impl View for Scalar {
    type V = nat;

    /// The residue.
    closed spec fn view(&self) -> nat {
        le_value(self.bytes@)
    }
}

impl DeepView for Scalar {
    type V = nat;

    open spec fn deep_view(&self) -> nat {
        self@
    }
}

impl Scalar {
    /// Every scalar is reduced.
    #[verifier::type_invariant]
    pub open spec fn reduced(self) -> bool {
        self@ < group_order()
    }

    /// The 32 bytes of the residue, least significant first.
    pub closed spec fn encoding(self) -> Seq<u8> {
        self.bytes@
    }

    /// The view is the number that the encoding writes.
    pub proof fn lemma_view_of_encoding(self)
        ensures
            self@ == le_value(self.encoding()),
            self.encoding().len() == 32,
    {
    }

    /// The scalar 0.
    pub fn zero() -> (out: Scalar)
        ensures
            out@ == 0,
    {
        let bytes = [0u8; 32];
        proof {
            lemma_le_value_zero(bytes@);
        }
        Scalar { bytes }
    }

    /// The bytes of the residue, least significant first.
    pub fn to_bytes(&self) -> (out: [u8; 32])
        ensures
            out@ == self.encoding(),
    {
        self.bytes
    }

    /// The scalar that `bytes` writes, if they write a residue below ℓ.
    pub fn from_canonical_bytes(bytes: [u8; 32]) -> (out: Option<Scalar>)
        ensures
            out.is_some() == (le_value(bytes@) < group_order()),
            out matches Some(s) ==> s.encoding() == bytes@ && s@ == le_value(bytes@),
    {
        if is_canonical(&bytes) {
            Some(Scalar { bytes })
        } else {
            None
        }
    }

    /// The number that `bytes` writes, reduced.
    pub fn from_bytes_mod_order(bytes: [u8; 32]) -> (out: Scalar)
        ensures
            out@ == le_value(bytes@) % group_order(),
    {
        let reduced = reduce(&bytes);
        Scalar { bytes: reduced }
    }

    /// The number that the 64 bytes write, reduced.
    pub fn from_bytes_mod_order_wide(bytes: &[u8; 64]) -> (out: Scalar)
        ensures
            out@ == le_value(bytes@) % group_order(),
    {
        let reduced = reduce_wide(bytes);
        Scalar { bytes: reduced }
    }

    /// A scalar drawn by the random number generator of the operating system. Which residue
    /// it is, is a matter of chance: every outcome is a residue below ℓ.
    pub fn random() -> (out: Scalar)
        ensures
            out@ < group_order(),
    {
        let bytes = random_residue();
        Scalar { bytes }
    }

    /// Whether two scalars are the same residue.
    pub fn equals(&self, other: &Scalar) -> (same: bool)
        ensures
            same == (self@ == other@),
    {
        let same = same_bytes(&self.bytes, &other.bytes);
        proof {
            if self@ == other@ {
                lemma_le_value_injective(self.bytes@, other.bytes@);
            }
        }
        same
    }

    /// The sum `self + other`.
    pub fn plus(&self, other: &Scalar) -> (out: Scalar)
        ensures
            out@ == add_mod(self@, other@),
    {
        proof {
            use_type_invariant(self);
            use_type_invariant(other);
        }
        let bytes = sum_of_residues(&self.bytes, &other.bytes);
        Scalar { bytes }
    }

    /// The difference `self - other`.
    pub fn minus(&self, other: &Scalar) -> (out: Scalar)
        ensures
            out@ == sub_mod(self@, other@),
    {
        proof {
            use_type_invariant(self);
            use_type_invariant(other);
        }
        let bytes = difference_of_residues(&self.bytes, &other.bytes);
        Scalar { bytes }
    }

    /// The product `self · other`.
    pub fn times(&self, other: &Scalar) -> (out: Scalar)
        ensures
            out@ == mul_mod(self@, other@),
    {
        proof {
            use_type_invariant(self);
            use_type_invariant(other);
        }
        let bytes = product_of_residues(&self.bytes, &other.bytes);
        Scalar { bytes }
    }
}

/// `Scalar::from_canonical_bytes` of `curve25519_dalek`: it accepts the 32 bytes exactly when
/// the number they write is below the group order.
#[verifier::external_body]
fn is_canonical(bytes: &[u8; 32]) -> (ok: bool)
    ensures
        ok == (le_value(bytes@) < group_order()),
{
    curve25519_dalek::scalar::Scalar::from_canonical_bytes(*bytes).is_some().into()
}

/// `Scalar::from_bytes_mod_order` of `curve25519_dalek`: the 32 bytes of the least residue of
/// the number that `bytes` writes.
#[verifier::external_body]
fn reduce(bytes: &[u8; 32]) -> (out: [u8; 32])
    ensures
        le_value(out@) == le_value(bytes@) % group_order(),
{
    curve25519_dalek::scalar::Scalar::from_bytes_mod_order(*bytes).to_bytes()
}

/// `Scalar::from_bytes_mod_order_wide` of `curve25519_dalek`: the 32 bytes of the least residue
/// of the number that the 64 bytes write.
#[verifier::external_body]
fn reduce_wide(bytes: &[u8; 64]) -> (out: [u8; 32])
    ensures
        le_value(out@) == le_value(bytes@) % group_order(),
{
    curve25519_dalek::scalar::Scalar::from_bytes_mod_order_wide(bytes).to_bytes()
}

/// `Scalar::random` of `curve25519_dalek` on `rand_core::OsRng`: the bytes of some reduced
/// scalar. Nothing is said of which.
#[verifier::external_body]
fn random_residue() -> (out: [u8; 32])
    ensures
        le_value(out@) < group_order(),
{
    curve25519_dalek::scalar::Scalar::random(&mut SystemRng).to_bytes()
}

/// `Scalar + Scalar` of `curve25519_dalek`, on the bytes of two reduced scalars: the bytes of
/// the least residue of their sum.
#[verifier::external_body]
fn sum_of_residues(a: &[u8; 32], b: &[u8; 32]) -> (out: [u8; 32])
    requires
        le_value(a@) < group_order(),
        le_value(b@) < group_order(),
    ensures
        le_value(out@) == add_mod(le_value(a@), le_value(b@)),
{
    let x = curve25519_dalek::scalar::Scalar::from_bytes_mod_order(*a);
    let y = curve25519_dalek::scalar::Scalar::from_bytes_mod_order(*b);
    (x + y).to_bytes()
}

/// `Scalar - Scalar` of `curve25519_dalek`, on the bytes of two reduced scalars: the bytes of
/// the least residue of their difference.
#[verifier::external_body]
fn difference_of_residues(a: &[u8; 32], b: &[u8; 32]) -> (out: [u8; 32])
    requires
        le_value(a@) < group_order(),
        le_value(b@) < group_order(),
    ensures
        le_value(out@) == sub_mod(le_value(a@), le_value(b@)),
{
    let x = curve25519_dalek::scalar::Scalar::from_bytes_mod_order(*a);
    let y = curve25519_dalek::scalar::Scalar::from_bytes_mod_order(*b);
    (x - y).to_bytes()
}

/// `Scalar * Scalar` of `curve25519_dalek`, on the bytes of two reduced scalars: the bytes of
/// the least residue of their product.
#[verifier::external_body]
fn product_of_residues(a: &[u8; 32], b: &[u8; 32]) -> (out: [u8; 32])
    requires
        le_value(a@) < group_order(),
        le_value(b@) < group_order(),
    ensures
        le_value(out@) == mul_mod(le_value(a@), le_value(b@)),
{
    let x = curve25519_dalek::scalar::Scalar::from_bytes_mod_order(*a);
    let y = curve25519_dalek::scalar::Scalar::from_bytes_mod_order(*b);
    (x * y).to_bytes()
}

} // verus!
