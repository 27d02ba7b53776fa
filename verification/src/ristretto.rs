//! The Ristretto group.
//!
//! The group is cyclic of prime order ℓ, generated by its base point G: every element is
//! `log·G` for exactly one `log` below ℓ. The model of an element, [`GroupElement`], is that
//! logarithm, so the group law is addition modulo ℓ and contracts speak of plain arithmetic.
//! A [`Point`] holds the 32 bytes that encode an element. The arithmetic on points is done by
//! `curve25519_dalek`, behind the wrappers at the end of this file, which say of each result
//! which element it encodes.
use curve25519_dalek::constants::RISTRETTO_BASEPOINT_POINT;
use curve25519_dalek::ristretto::{CompressedRistretto, RistrettoPoint};
use curve25519_dalek::traits::{Identity, MultiscalarMul};
use vstd::prelude::*;

use crate::bytes::{append, same_bytes};
use crate::scalar::{add_mod, group_order, le_value, mul_mod, Scalar};

verus! {

/// The 32 bytes that encode the element `log·G` of the Ristretto group.
pub uninterp spec fn ristretto_encoding(log: nat) -> Seq<u8>;

/// The 32 bytes that encode the element to which the one-way map of Ristretto sends the 64
/// bytes.
pub uninterp spec fn ristretto_from_uniform_bytes(bytes: Seq<u8>) -> Seq<u8>;

/// An element of the Ristretto group, known by its logarithm to the base G.
pub struct GroupElement {
    pub log: nat,
}

impl GroupElement {
    /// The base point G.
    pub open spec fn generator() -> GroupElement {
        GroupElement { log: 1 }
    }

    /// The neutral element.
    pub open spec fn identity() -> GroupElement {
        GroupElement { log: 0 }
    }

    /// The multiple `s·self`.
    pub open spec fn scaled(self, s: nat) -> GroupElement {
        GroupElement { log: mul_mod(s, self.log) }
    }

    /// The sum `self + other`.
    pub open spec fn plus(self, other: GroupElement) -> GroupElement {
        GroupElement { log: add_mod(self.log, other.log) }
    }

    /// The 32 bytes that encode the element.
    pub open spec fn encoding(self) -> Seq<u8> {
        ristretto_encoding(self.log)
    }
}

/// Whether `bytes` encode an element of the group.
pub open spec fn is_encoding(bytes: Seq<u8>) -> bool {
    exists|log: nat| log < group_order() && #[trigger] ristretto_encoding(log) == bytes
}

/// The element that `bytes` encode.
pub open spec fn decode(bytes: Seq<u8>) -> GroupElement {
    GroupElement {
        log: choose|log: nat| log < group_order() && #[trigger] ristretto_encoding(log) == bytes,
    }
}

/// An element of the Ristretto group, held as the 32 bytes of its encoding.
#[derive(Clone, Copy, Debug, PartialEq, Eq)]
pub struct Point {
    bytes: [u8; 32],
}

impl View for Point {
    type V = GroupElement;

    /// The element that the bytes encode.
    closed spec fn view(&self) -> GroupElement {
        decode(self.bytes@)
    }
}

impl DeepView for Point {
    type V = GroupElement;

    open spec fn deep_view(&self) -> GroupElement {
        self@
    }
}

impl Point {
    /// The bytes of every point encode its element, whose logarithm is below ℓ.
    #[verifier::type_invariant]
    pub open spec fn valid(self) -> bool {
        self@.log < group_order() && self@.encoding() == self.encoding()
    }

    /// The 32 bytes held.
    pub closed spec fn encoding(self) -> Seq<u8> {
        self.bytes@
    }

    /// The point that `bytes` encode, if they encode one.
    pub fn from_bytes(bytes: [u8; 32]) -> (out: Option<Point>)
        ensures
            out.is_some() == is_encoding(bytes@),
            out matches Some(p) ==> p.encoding() == bytes@ && p@ == decode(bytes@),
    {
        if decodes(&bytes) {
            Some(Point { bytes })
        } else {
            None
        }
    }

    /// The encoding of the point.
    pub fn to_bytes(&self) -> (out: [u8; 32])
        ensures
            out@ == self.encoding(),
            out@ == self@.encoding(),
    {
        proof {
            use_type_invariant(self);
        }
        self.bytes
    }

    /// Whether two points are the same element.
    pub fn equals(&self, other: &Point) -> (same: bool)
        ensures
            same == (self@ == other@),
    {
        proof {
            use_type_invariant(self);
            use_type_invariant(other);
        }
        same_bytes(&self.bytes, &other.bytes)
    }

    /// The base point G.
    pub fn generator() -> (out: Point)
        ensures
            out@ == GroupElement::generator(),
    {
        let bytes = generator_encoding();
        Point { bytes }
    }

    /// The neutral element.
    pub fn identity() -> (out: Point)
        ensures
            out@ == GroupElement::identity(),
    {
        let bytes = identity_encoding();
        Point { bytes }
    }

    /// The multiple `s·self`.
    pub fn scaled(&self, s: &Scalar) -> (out: Point)
        ensures
            out@ == self@.scaled(s@),
    {
        proof {
            use_type_invariant(self);
            use_type_invariant(s);
            s.lemma_view_of_encoding();
        }
        let bytes = multiple(&s.to_bytes(), &self.bytes);
        Point { bytes }
    }

    /// The sum `self + other`.
    pub fn plus(&self, other: &Point) -> (out: Point)
        ensures
            out@ == self@.plus(other@),
    {
        proof {
            use_type_invariant(self);
            use_type_invariant(other);
        }
        let bytes = sum(&self.bytes, &other.bytes);
        Point { bytes }
    }

    /// The combination `r·p + c·q`.
    pub fn combined(r: &Scalar, p: &Point, c: &Scalar, q: &Point) -> (out: Point)
        ensures
            out@ == p@.scaled(r@).plus(q@.scaled(c@)),
    {
        proof {
            use_type_invariant(p);
            use_type_invariant(q);
            use_type_invariant(r);
            use_type_invariant(c);
            r.lemma_view_of_encoding();
            c.lemma_view_of_encoding();
        }
        let bytes = combination(&r.to_bytes(), &p.bytes, &c.to_bytes(), &q.bytes);
        Point { bytes }
    }

    /// The element to which the one-way map of Ristretto sends the 64 bytes.
    pub fn from_uniform_bytes(bytes: &[u8; 64]) -> (out: Point)
        ensures
            out@ == decode(ristretto_from_uniform_bytes(bytes@)),
    {
        let encoded = one_way_map(bytes);
        Point { bytes: encoded }
    }
}

/// The encodings of `points`, one after another.
pub open spec fn encodings(points: Seq<GroupElement>) -> Seq<u8>
    decreases points.len(),
{
    if points.len() == 0 {
        Seq::empty()
    } else {
        encodings(points.drop_last()) + points.last().encoding()
    }
}

/// Appends the encodings of `points` to `buffer`.
pub fn append_encodings(buffer: &mut Vec<u8>, points: &Vec<Point>)
    ensures
        final(buffer)@ == old(buffer)@ + encodings(points.deep_view()),
{
    let ghost elements = points.deep_view();
    let mut i: usize = 0;
    assert(buffer@ =~= old(buffer)@ + encodings(elements.take(0)));
    while i < points.len()
        invariant
            i <= points.len(),
            elements == points.deep_view(),
            buffer@ == old(buffer)@ + encodings(elements.take(i as int)),
        decreases points.len() - i,
    {
        let encoded = points[i].to_bytes();
        append(buffer, &encoded);
        proof {
            let longer = elements.take(i + 1);
            assert(longer.drop_last() =~= elements.take(i as int));
            assert(longer.last() == points[i as int]@);
            assert(buffer@ =~= old(buffer)@ + encodings(longer));
        }
        i += 1;
    }
    assert(elements.take(i as int) =~= elements);
}

/// The encodings of the points of `rows`, row after row.
pub open spec fn row_encodings(rows: Seq<Seq<GroupElement>>) -> Seq<u8>
    decreases rows.len(),
{
    if rows.len() == 0 {
        Seq::empty()
    } else {
        row_encodings(rows.drop_last()) + encodings(rows.last())
    }
}

/// Appends the encodings of the points of `rows`, row after row, to `buffer`.
pub fn append_row_encodings(buffer: &mut Vec<u8>, rows: &Vec<Vec<Point>>)
    ensures
        final(buffer)@ == old(buffer)@ + row_encodings(rows.deep_view()),
{
    let ghost elements = rows.deep_view();
    let mut i: usize = 0;
    assert(buffer@ =~= old(buffer)@ + row_encodings(elements.take(0)));
    while i < rows.len()
        invariant
            i <= rows.len(),
            elements == rows.deep_view(),
            buffer@ == old(buffer)@ + row_encodings(elements.take(i as int)),
        decreases rows.len() - i,
    {
        append_encodings(buffer, &rows[i]);
        proof {
            let longer = elements.take(i + 1);
            assert(longer.drop_last() =~= elements.take(i as int));
            assert(longer.last() == rows[i as int].deep_view());
            assert(buffer@ =~= old(buffer)@ + row_encodings(longer));
        }
        i += 1;
    }
    assert(elements.take(i as int) =~= elements);
}

/// `CompressedRistretto::decompress` of `curve25519_dalek`: it succeeds exactly on the encodings
/// of the elements of the group, each of which is a multiple of the base point.
#[verifier::external_body]
fn decodes(bytes: &[u8; 32]) -> (ok: bool)
    ensures
        ok == is_encoding(bytes@),
{
    CompressedRistretto(*bytes).decompress().is_some()
}

/// `RISTRETTO_BASEPOINT_POINT` of `curve25519_dalek`, compressed: the encoding of 1·G, and 1 is
/// the only logarithm below ℓ with that encoding.
#[verifier::external_body]
fn generator_encoding() -> (out: [u8; 32])
    ensures
        out@ == ristretto_encoding(1),
        decode(out@) == GroupElement::generator(),
{
    RISTRETTO_BASEPOINT_POINT.compress().to_bytes()
}

/// `RistrettoPoint::identity` of `curve25519_dalek`, compressed: the encoding of 0·G, and 0 is
/// the only logarithm below ℓ with that encoding.
#[verifier::external_body]
fn identity_encoding() -> (out: [u8; 32])
    ensures
        out@ == ristretto_encoding(0),
        decode(out@) == GroupElement::identity(),
{
    RistrettoPoint::identity().compress().to_bytes()
}

/// `Scalar * RistrettoPoint` of `curve25519_dalek`, on the bytes of a reduced scalar and of a
/// point: the encoding of the multiple, whose logarithm is the product of the scalar and the
/// point's logarithm modulo ℓ.
#[verifier::external_body]
fn multiple(s: &[u8; 32], p: &[u8; 32]) -> (out: [u8; 32])
    requires
        le_value(s@) < group_order(),
        is_encoding(p@),
    ensures
        is_encoding(out@),
        decode(out@) == decode(p@).scaled(le_value(s@)),
{
    let x = curve25519_dalek::scalar::Scalar::from_bytes_mod_order(*s);
    let point = CompressedRistretto(*p).decompress().unwrap();
    (x * point).compress().to_bytes()
}

/// `RistrettoPoint + RistrettoPoint` of `curve25519_dalek`, on the bytes of two points: the
/// encoding of the sum, whose logarithm is the sum of the two logarithms modulo ℓ.
#[verifier::external_body]
fn sum(p: &[u8; 32], q: &[u8; 32]) -> (out: [u8; 32])
    requires
        is_encoding(p@),
        is_encoding(q@),
    ensures
        is_encoding(out@),
        decode(out@) == decode(p@).plus(decode(q@)),
{
    let a = CompressedRistretto(*p).decompress().unwrap();
    let b = CompressedRistretto(*q).decompress().unwrap();
    (a + b).compress().to_bytes()
}

/// `RistrettoPoint::multiscalar_mul` of `curve25519_dalek`, on two reduced scalars and two
/// points: the encoding of `r·p + c·q`.
#[verifier::external_body]
fn combination(r: &[u8; 32], p: &[u8; 32], c: &[u8; 32], q: &[u8; 32]) -> (out: [u8; 32])
    requires
        le_value(r@) < group_order(),
        le_value(c@) < group_order(),
        is_encoding(p@),
        is_encoding(q@),
    ensures
        is_encoding(out@),
        decode(out@) == decode(p@).scaled(le_value(r@)).plus(decode(q@).scaled(le_value(c@))),
{
    let x = curve25519_dalek::scalar::Scalar::from_bytes_mod_order(*r);
    let y = curve25519_dalek::scalar::Scalar::from_bytes_mod_order(*c);
    let a = CompressedRistretto(*p).decompress().unwrap();
    let b = CompressedRistretto(*q).decompress().unwrap();
    RistrettoPoint::multiscalar_mul(&[x, y], &[a, b]).compress().to_bytes()
}

/// `RistrettoPoint::from_uniform_bytes` of `curve25519_dalek`, compressed: the encoding of an
/// element that depends on the 64 bytes alone.
#[verifier::external_body]
fn one_way_map(bytes: &[u8; 64]) -> (out: [u8; 32])
    ensures
        out@ == ristretto_from_uniform_bytes(bytes@),
        is_encoding(out@),
{
    RistrettoPoint::from_uniform_bytes(bytes).compress().to_bytes()
}

} // verus!
