//! Ristretto points and scalars as canonical thirty-two byte strings.

use vstd::prelude::*;
use vstd::arithmetic::power2::pow2;

verus! {

/// The number whose base-256 digits are `bytes`, least significant first.
pub open spec fn le_value(bytes: Seq<u8>) -> nat
    decreases bytes.len(),
{
    if bytes.len() == 0 {
        0
    } else {
        bytes[0] as nat + 256 * le_value(bytes.drop_first())
    }
}

/// The order of the Ristretto group.
pub open spec fn group_order() -> nat {
    pow2(252) + 27742317777372353535851937790883648493
}

/// Whether a byte string is the canonical encoding of a Ristretto point.
pub uninterp spec fn is_point(bytes: Seq<u8>) -> bool;

/// Whether a byte string is the canonical encoding of a scalar.
pub open spec fn is_scalar(bytes: Seq<u8>) -> bool {
    bytes.len() == 32 && le_value(bytes) < group_order()
}

/// `CompressedRistretto::decompress`: whether the bytes are the canonical
/// encoding of a point is a function of the bytes alone.
#[verifier::external_body]
pub(crate) fn decodes_to_point(bytes: &[u8; 32]) -> (canonical: bool)
    ensures
        canonical == is_point(bytes@),
{
    curve25519_dalek::ristretto::CompressedRistretto(*bytes).decompress().is_some()
}

/// `Scalar::from_canonical_bytes`: the bytes are a scalar's exactly when the
/// little-endian number that they write is below the group order.
#[verifier::external_body]
pub(crate) fn decodes_to_scalar(bytes: &[u8; 32]) -> (canonical: bool)
    ensures
        canonical == is_scalar(bytes@),
{
    curve25519_dalek::scalar::Scalar::from_canonical_bytes(*bytes).is_some().into()
}

/// A Ristretto point in its canonical encoding.
#[derive(Clone, Copy, Debug, PartialEq, Eq)]
pub struct Point {
    pub bytes: [u8; 32],
}

/// A scalar in its canonical encoding.
#[derive(Clone, Copy, Debug, PartialEq, Eq)]
pub struct Scalar {
    pub bytes: [u8; 32],
}

impl View for Point {
    type V = Seq<u8>;

    open spec fn view(&self) -> Seq<u8> {
        self.bytes@
    }
}

impl View for Scalar {
    type V = Seq<u8>;

    open spec fn view(&self) -> Seq<u8> {
        self.bytes@
    }
}

impl Point {
    /// The point that the bytes encode.
    pub fn from_canonical(bytes: [u8; 32]) -> (point: Option<Point>)
        ensures
            point is Some <==> is_point(bytes@),
            point matches Some(p) ==> p@ == bytes@,
    {
        if decodes_to_point(&bytes) {
            Some(Point { bytes })
        } else {
            None
        }
    }
}

impl Scalar {
    /// The scalar that the bytes encode.
    pub fn from_canonical(bytes: [u8; 32]) -> (scalar: Option<Scalar>)
        ensures
            scalar is Some <==> is_scalar(bytes@),
            scalar matches Some(s) ==> s@ == bytes@,
    {
        if decodes_to_scalar(&bytes) {
            Some(Scalar { bytes })
        } else {
            None
        }
    }
}

/// The encodings of a list of points.
pub open spec fn point_bytes(points: Seq<Point>) -> Seq<Seq<u8>> {
    points.map_values(|p: Point| p@)
}

/// Every encoding of a list is a point's.
pub open spec fn all_points(points: Seq<Point>) -> bool {
    forall|i: int| 0 <= i < points.len() ==> is_point((#[trigger] points[i])@)
}

/// Every encoding of a list is a scalar's.
pub open spec fn all_scalars(scalars: Seq<Scalar>) -> bool {
    forall|i: int| 0 <= i < scalars.len() ==> is_scalar((#[trigger] scalars[i])@)
}

} // verus!
