//! Canonical bounded encoding for the final public threshold proofs.
//!
//! Node round messages have their own codecs. This format covers only
//! verifier-complete proofs and therefore contains no Shamir share, nonce, or
//! witness opening.

use vstd::prelude::*;
use crate::bytes::{
    array32, ascii_width, be_bytes, be_bytes_of_be_value, be_bytes_width, be_value, be_value_of_be_bytes, be_widths,
    joined, joined_layout, joined_step, put, put_be, read_be, same, text_bytes,
};
use crate::group::{all_points, decodes_to_point, decodes_to_scalar, is_point, is_scalar, point_bytes, Point, Scalar};
use crate::text::{about, decimal, decimal_text};
use vstd::string::StringExecFns;

verus! {

/// The widest range proof.
pub const MAX_BITS: usize = 64;

/// A proof that a product commitment holds the product of two committed factors.
#[derive(Clone, Copy, Debug)]
pub struct ProductProof {
    pub t_factor: Point,
    pub t_product: Point,
    pub z_b: Scalar,
    pub z_rb: Scalar,
    pub z_s: Scalar,
}

/// A proof that the prover can open a commitment.
#[derive(Clone, Copy, Debug)]
pub struct OpeningProof {
    pub t: Point,
    pub z_value: Scalar,
    pub z_blinding: Scalar,
}

/// A proof that a committed value has at most `bits` bits.
#[derive(Clone, Debug)]
pub struct ThresholdRangeProof {
    pub bit_commitments: Vec<Point>,
    pub bit_proofs: Vec<ProductProof>,
    pub linkage: OpeningProof,
    pub bits: usize,
}

/// The three proofs of a delivery against payment.
#[derive(Clone, Debug)]
pub struct DvpProofs {
    pub product: ProductProof,
    pub securities_remainder: ThresholdRangeProof,
    pub cash_remainder: ThresholdRangeProof,
}

impl ProductProof {
    /// The encoding.
    pub open spec fn wire(self) -> Seq<u8> {
        self.t_factor@ + self.t_product@ + self.z_b@ + self.z_rb@ + self.z_s@
    }

    /// Every part is a point's or a scalar's encoding.
    pub open spec fn canonical(self) -> bool {
        &&& is_point(self.t_factor@)
        &&& is_point(self.t_product@)
        &&& is_scalar(self.z_b@)
        &&& is_scalar(self.z_rb@)
        &&& is_scalar(self.z_s@)
    }
}

impl OpeningProof {
    /// The encoding.
    pub open spec fn wire(self) -> Seq<u8> {
        self.t@ + self.z_value@ + self.z_blinding@
    }

    /// Every part is a point's or a scalar's encoding.
    pub open spec fn canonical(self) -> bool {
        &&& is_point(self.t@)
        &&& is_scalar(self.z_value@)
        &&& is_scalar(self.z_blinding@)
    }
}

/// The encodings of a list of product proofs.
pub open spec fn product_wires(proofs: Seq<ProductProof>) -> Seq<Seq<u8>> {
    proofs.map_values(|p: ProductProof| p.wire())
}

impl ThresholdRangeProof {
    /// The width is in bound and fits the two lists.
    pub open spec fn bounded(self) -> bool {
        &&& 0 < self.bits <= MAX_BITS
        &&& self.bit_commitments@.len() == self.bits
        &&& self.bit_proofs@.len() == self.bits
    }

    /// Every part is a point's or a scalar's encoding.
    pub open spec fn canonical(self) -> bool {
        &&& all_points(self.bit_commitments@)
        &&& forall|i: int| 0 <= i < self.bit_proofs@.len() ==> (#[trigger] self.bit_proofs@[i]).canonical()
        &&& self.linkage.canonical()
    }

    /// The encoding.
    pub open spec fn wire(self) -> Seq<u8> {
        text_bytes("QOMMRPF1"@) + be_bytes(self.bits as nat, 2) + joined(point_bytes(self.bit_commitments@)) + joined(
            product_wires(self.bit_proofs@),
        ) + self.linkage.wire()
    }
}

impl DvpProofs {
    /// Both range proofs are in bound.
    pub open spec fn bounded(self) -> bool {
        self.securities_remainder.bounded() && self.cash_remainder.bounded()
    }

    /// Every part is a point's or a scalar's encoding.
    pub open spec fn canonical(self) -> bool {
        self.product.canonical() && self.securities_remainder.canonical() && self.cash_remainder.canonical()
    }

    /// The encoding.
    pub open spec fn wire(self) -> Seq<u8> {
        text_bytes("QOMMDPF1"@) + self.product.wire() + be_bytes(self.securities_remainder.wire().len(), 4)
            + self.securities_remainder.wire() + be_bytes(self.cash_remainder.wire().len(), 4)
            + self.cash_remainder.wire()
    }
}

/// Where the next `count` bytes end, or why they are not there.
pub open spec fn scan_bytes(raw: Seq<u8>, at: int, count: nat, what: Seq<char>) -> Result<int, Seq<char>> {
    if at + count > usize::MAX {
        Err(what + " offset overflow"@)
    } else if at + count > raw.len() {
        Err("truncated "@ + what)
    } else {
        Ok(at + count)
    }
}

/// Where a point ends, or why it is refused.
pub open spec fn scan_point(raw: Seq<u8>, at: int) -> Result<int, Seq<char>> {
    match scan_bytes(raw, at, 32, "Ristretto point"@) {
        Err(e) => Err(e),
        Ok(end) => if is_point(raw.subrange(at, end)) {
            Ok(end)
        } else {
            Err("proof contains a non-canonical Ristretto point"@)
        },
    }
}

/// Where a scalar ends, or why it is refused.
pub open spec fn scan_scalar(raw: Seq<u8>, at: int) -> Result<int, Seq<char>> {
    match scan_bytes(raw, at, 32, "Ristretto scalar"@) {
        Err(e) => Err(e),
        Ok(end) => if is_scalar(raw.subrange(at, end)) {
            Ok(end)
        } else {
            Err("proof contains a non-canonical Ristretto scalar"@)
        },
    }
}

/// Where a list of points ends, or why it is refused.
pub open spec fn scan_points(raw: Seq<u8>, at: int, count: nat) -> Result<int, Seq<char>>
    decreases count,
{
    if count == 0 {
        Ok(at)
    } else {
        match scan_points(raw, at, (count - 1) as nat) {
            Err(e) => Err(e),
            Ok(mid) => scan_point(raw, mid),
        }
    }
}

/// Where two scalars end, or why they are refused.
pub open spec fn scan_two_scalars(raw: Seq<u8>, at: int) -> Result<int, Seq<char>> {
    match scan_scalar(raw, at) {
        Err(e) => Err(e),
        Ok(mid) => scan_scalar(raw, mid),
    }
}

/// Where a product proof ends, or why it is refused.
#[verifier::opaque]
pub open spec fn scan_product(raw: Seq<u8>, at: int) -> Result<int, Seq<char>> {
    match scan_points(raw, at, 2) {
        Err(e) => Err(e),
        Ok(mid) => match scan_two_scalars(raw, mid) {
            Err(e) => Err(e),
            Ok(last) => scan_scalar(raw, last),
        },
    }
}

/// Where an opening proof ends, or why it is refused.
#[verifier::opaque]
pub open spec fn scan_opening(raw: Seq<u8>, at: int) -> Result<int, Seq<char>> {
    match scan_point(raw, at) {
        Err(e) => Err(e),
        Ok(mid) => scan_two_scalars(raw, mid),
    }
}

/// Where a list of product proofs ends, or why it is refused.
pub open spec fn scan_products(raw: Seq<u8>, at: int, count: nat) -> Result<int, Seq<char>>
    decreases count,
{
    if count == 0 {
        Ok(at)
    } else {
        match scan_products(raw, at, (count - 1) as nat) {
            Err(e) => Err(e),
            Ok(mid) => scan_product(raw, mid),
        }
    }
}

/// Whether nothing follows.
pub open spec fn scan_end(raw: Seq<u8>, at: int) -> Result<int, Seq<char>> {
    if at == raw.len() {
        Ok(at)
    } else {
        Err("proof encoding has "@ + decimal((raw.len() - at) as nat) + " trailing bytes"@)
    }
}

/// Whether a byte string is the encoding of a range proof, or why it is refused.
#[verifier::opaque]
pub open spec fn scan_range(raw: Seq<u8>) -> Result<int, Seq<char>> {
    match scan_bytes(raw, 0, 8, "range-proof magic"@) {
        Err(e) => Err(e),
        Ok(_) => if raw.subrange(0, 8) != text_bytes("QOMMRPF1"@) {
            Err("wrong threshold range proof magic"@)
        } else {
            match scan_bytes(raw, 8, 2, "range-proof width"@) {
                Err(e) => Err(e),
                Ok(_) => {
                    let bits = be_value(raw.subrange(8, 10));
                    if bits == 0 || bits > MAX_BITS {
                        Err("threshold range proof width is outside the wire bound"@)
                    } else {
                        match scan_points(raw, 10, bits) {
                            Err(e) => Err(e),
                            Ok(proofs) => match scan_products(raw, proofs, bits) {
                                Err(e) => Err(e),
                                Ok(linkage) => match scan_opening(raw, linkage) {
                                    Err(e) => Err(e),
                                    Ok(end) => scan_end(raw, end),
                                },
                            },
                        }
                    }
                },
            }
        },
    }
}

/// Where a range proof with its length in front ends, or why it is refused.
#[verifier::opaque]
pub open spec fn scan_sized_range(raw: Seq<u8>, at: int, length_name: Seq<char>, name: Seq<char>) -> Result<
    int,
    Seq<char>,
> {
    match scan_bytes(raw, at, 4, length_name) {
        Err(e) => Err(e),
        Ok(start) => {
            let length = be_value(raw.subrange(at, start));
            match scan_bytes(raw, start, length, name) {
                Err(e) => Err(e),
                Ok(end) => match scan_range(raw.subrange(start, end)) {
                    Err(e) => Err(e),
                    Ok(_) => Ok(end),
                },
            }
        },
    }
}

/// Whether a byte string is the encoding of the proofs of a delivery against
/// payment, or why it is refused.
pub open spec fn scan_dvp(raw: Seq<u8>) -> Result<int, Seq<char>> {
    match scan_bytes(raw, 0, 8, "DvP-proof magic"@) {
        Err(e) => Err(e),
        Ok(_) => if raw.subrange(0, 8) != text_bytes("QOMMDPF1"@) {
            Err("wrong threshold DvP proof magic"@)
        } else {
            match scan_product(raw, 8) {
                Err(e) => Err(e),
                Ok(securities) => match scan_sized_range(
                    raw,
                    securities,
                    "securities proof length"@,
                    "securities proof"@,
                ) {
                    Err(e) => Err(e),
                    Ok(cash) => match scan_sized_range(raw, cash, "cash proof length"@, "cash proof"@) {
                        Err(e) => Err(e),
                        Ok(end) => scan_end(raw, end),
                    },
                },
            }
        },
    }
}

/// A position in a byte string.
pub struct Reader<'a> {
    pub raw: &'a [u8],
    pub at: usize,
}

impl<'a> Reader<'a> {
    /// The position is not past the end.
    pub open spec fn inside(self) -> bool {
        self.at <= self.raw@.len()
    }

    /// What reading did: stopped where the scan stops, or failed as it fails.
    pub open spec fn did(self, after: Reader<'a>, scan: Result<int, Seq<char>>, error: Option<Seq<char>>) -> bool {
        &&& after.raw@ == self.raw@
        &&& match error {
            None => scan == Ok::<int, Seq<char>>(after.at as int) && after.inside() && self.at <= after.at,
            Some(e) => scan == Err::<int, Seq<char>>(e),
        }
    }

    /// The bytes from one position to another.
    pub open spec fn between(self, after: Reader<'a>) -> Seq<u8> {
        self.raw@.subrange(self.at as int, after.at as int)
    }

    /// Steps over `count` bytes and says where they start.
    pub fn take(&mut self, count: usize, what: &str) -> (r: Result<usize, String>)
        requires
            old(self).inside(),
        ensures
            old(self).did(
                *final(self),
                scan_bytes(old(self).raw@, old(self).at as int, count as nat, what@),
                match r {
                    Ok(_) => None,
                    Err(e) => Some(e@),
                },
            ),
            r matches Ok(start) ==> start == old(self).at && final(self).at == start + count,
    {
        let total: usize = self.raw.len();
        if count > usize::MAX - self.at {
            return Err(about(what, " offset overflow"));
        }
        if self.at + count > total {
            return Err("truncated ".to_owned().concat(what));
        }
        let start: usize = self.at;
        self.at = start + count;
        Ok(start)
    }

    /// Reads a number written in `width` big-endian bytes.
    pub fn number(&mut self, width: usize, what: &str) -> (r: Result<u64, String>)
        requires
            old(self).inside(),
            0 < width <= 8,
        ensures
            old(self).did(
                *final(self),
                scan_bytes(old(self).raw@, old(self).at as int, width as nat, what@),
                match r {
                    Ok(_) => None,
                    Err(e) => Some(e@),
                },
            ),
            r matches Ok(value) ==> final(self).at == old(self).at + width && value as nat == be_value(
                old(self).between(*final(self)),
            ) && be_bytes(value as nat, width as nat) == old(self).between(*final(self)),
    {
        match self.take(width, what) {
            Err(e) => Err(e),
            Ok(start) => {
                proof {
                    be_bytes_of_be_value(self.raw@.subrange(start as int, start + width));
                }
                Ok(read_be(self.raw, start, width))
            },
        }
    }

    /// Reads thirty-two bytes.
    pub fn bytes32(&mut self, what: &str) -> (r: Result<[u8; 32], String>)
        requires
            old(self).inside(),
        ensures
            old(self).did(
                *final(self),
                scan_bytes(old(self).raw@, old(self).at as int, 32, what@),
                match r {
                    Ok(_) => None,
                    Err(e) => Some(e@),
                },
            ),
            r matches Ok(value) ==> final(self).at == old(self).at + 32 && value@ == old(self).between(*final(self)),
    {
        match self.take(32, what) {
            Err(e) => Err(e),
            Ok(start) => Ok(array32(self.raw, start)),
        }
    }

    /// Reads a point.
    pub fn point(&mut self) -> (r: Result<Point, String>)
        requires
            old(self).inside(),
        ensures
            old(self).did(
                *final(self),
                scan_point(old(self).raw@, old(self).at as int),
                match r {
                    Ok(_) => None,
                    Err(e) => Some(e@),
                },
            ),
            r matches Ok(p) ==> p@ == old(self).between(*final(self)) && is_point(p@),
    {
        match self.bytes32("Ristretto point") {
            Err(e) => Err(e),
            Ok(bytes) => if decodes_to_point(&bytes) {
                Ok(Point { bytes })
            } else {
                Err("proof contains a non-canonical Ristretto point".to_owned())
            },
        }
    }

    /// Reads a scalar.
    pub fn scalar(&mut self) -> (r: Result<Scalar, String>)
        requires
            old(self).inside(),
        ensures
            old(self).did(
                *final(self),
                scan_scalar(old(self).raw@, old(self).at as int),
                match r {
                    Ok(_) => None,
                    Err(e) => Some(e@),
                },
            ),
            r matches Ok(s) ==> s@ == old(self).between(*final(self)) && is_scalar(s@),
    {
        match self.bytes32("Ristretto scalar") {
            Err(e) => Err(e),
            Ok(bytes) => if decodes_to_scalar(&bytes) {
                Ok(Scalar { bytes })
            } else {
                Err("proof contains a non-canonical Ristretto scalar".to_owned())
            },
        }
    }

    /// Reads a list of points.
    pub fn points(&mut self, count: usize) -> (r: Result<Vec<Point>, String>)
        requires
            old(self).inside(),
        ensures
            old(self).did(
                *final(self),
                scan_points(old(self).raw@, old(self).at as int, count as nat),
                match r {
                    Ok(_) => None,
                    Err(e) => Some(e@),
                },
            ),
            r matches Ok(points) ==> points@.len() == count && all_points(points@) && joined(point_bytes(points@))
                == old(self).between(*final(self)),
    {
        let mut points: Vec<Point> = Vec::new();
        let mut i: usize = 0;
        assert(joined(point_bytes(points@)) =~= old(self).between(*self));
        #[verifier::loop_isolation(false)]
        while i < count
            invariant
                i <= count,
                self.raw@ == old(self).raw@,
                self.inside(),
                old(self).at <= self.at,
                scan_points(old(self).raw@, old(self).at as int, i as nat) == Ok::<int, Seq<char>>(self.at as int),
                points@.len() == i,
                all_points(points@),
                joined(point_bytes(points@)) == old(self).between(*self),
            decreases count - i,
        {
            let ghost before = *self;
            match self.point() {
                Err(e) => {
                    proof {
                        points_stop(old(self).raw@, old(self).at as int, i as nat, count as nat);
                    }
                    return Err(e);
                },
                Ok(p) => {
                    let ghost prior = points@;
                    points.push(p);
                    proof {
                        assert(point_bytes(points@).drop_last() =~= point_bytes(prior));
                        assert(joined(point_bytes(points@)) =~= old(self).between(*self));
                    }
                },
            }
            i = i + 1;
        }
        Ok(points)
    }

    /// Reads a product proof.
    pub fn product(&mut self) -> (r: Result<ProductProof, String>)
        requires
            old(self).inside(),
        ensures
            old(self).did(
                *final(self),
                scan_product(old(self).raw@, old(self).at as int),
                match r {
                    Ok(_) => None,
                    Err(e) => Some(e@),
                },
            ),
            r matches Ok(p) ==> p.canonical() && p.wire() == old(self).between(*final(self)),
    {
        proof {
            reveal(scan_product);
        }
        let points = match self.points(2) {
            Err(e) => {
                return Err(e);
            },
            Ok(points) => points,
        };
        let ghost mid = *self;
        let z_b = match self.scalar() {
            Err(e) => {
                return Err(e);
            },
            Ok(s) => s,
        };
        let z_rb = match self.scalar() {
            Err(e) => {
                return Err(e);
            },
            Ok(s) => s,
        };
        let z_s = match self.scalar() {
            Err(e) => {
                return Err(e);
            },
            Ok(s) => s,
        };
        let proof_read = ProductProof { t_factor: points[0], t_product: points[1], z_b, z_rb, z_s };
        proof {
            let pair = point_bytes(points@);
            assert(pair.drop_last().drop_last() =~= Seq::<Seq<u8>>::empty());
            reveal_with_fuel(joined, 3);
            assert(joined(pair) =~= points@[0]@ + points@[1]@);
            assert(proof_read.wire() =~= old(self).between(*self));
        }
        Ok(proof_read)
    }

    /// Reads an opening proof.
    pub fn opening(&mut self) -> (r: Result<OpeningProof, String>)
        requires
            old(self).inside(),
        ensures
            old(self).did(
                *final(self),
                scan_opening(old(self).raw@, old(self).at as int),
                match r {
                    Ok(_) => None,
                    Err(e) => Some(e@),
                },
            ),
            r matches Ok(p) ==> p.canonical() && p.wire() == old(self).between(*final(self)),
    {
        proof {
            reveal(scan_opening);
        }
        let t = match self.point() {
            Err(e) => {
                return Err(e);
            },
            Ok(p) => p,
        };
        let z_value = match self.scalar() {
            Err(e) => {
                return Err(e);
            },
            Ok(s) => s,
        };
        let z_blinding = match self.scalar() {
            Err(e) => {
                return Err(e);
            },
            Ok(s) => s,
        };
        let proof_read = OpeningProof { t, z_value, z_blinding };
        assert(proof_read.wire() =~= old(self).between(*self));
        Ok(proof_read)
    }

    /// Reads a list of product proofs.
    pub fn products(&mut self, count: usize) -> (r: Result<Vec<ProductProof>, String>)
        requires
            old(self).inside(),
        ensures
            old(self).did(
                *final(self),
                scan_products(old(self).raw@, old(self).at as int, count as nat),
                match r {
                    Ok(_) => None,
                    Err(e) => Some(e@),
                },
            ),
            r matches Ok(proofs) ==> proofs@.len() == count && (forall|i: int|
                0 <= i < count ==> (#[trigger] proofs@[i]).canonical()) && joined(product_wires(proofs@))
                == old(self).between(*final(self)),
    {
        let mut proofs: Vec<ProductProof> = Vec::new();
        let mut i: usize = 0;
        assert(joined(product_wires(proofs@)) =~= old(self).between(*self));
        #[verifier::loop_isolation(false)]
        while i < count
            invariant
                i <= count,
                self.raw@ == old(self).raw@,
                self.inside(),
                old(self).at <= self.at,
                scan_products(old(self).raw@, old(self).at as int, i as nat) == Ok::<int, Seq<char>>(self.at as int),
                proofs@.len() == i,
                forall|j: int| 0 <= j < i ==> (#[trigger] proofs@[j]).canonical(),
                joined(product_wires(proofs@)) == old(self).between(*self),
            decreases count - i,
        {
            match self.product() {
                Err(e) => {
                    proof {
                        products_stop(old(self).raw@, old(self).at as int, i as nat, count as nat);
                    }
                    return Err(e);
                },
                Ok(p) => {
                    let ghost prior = proofs@;
                    proofs.push(p);
                    proof {
                        assert(product_wires(proofs@).drop_last() =~= product_wires(prior));
                        assert(joined(product_wires(proofs@)) =~= old(self).between(*self));
                    }
                },
            }
            i = i + 1;
        }
        Ok(proofs)
    }

    /// Checks that nothing follows.
    pub fn finish(self) -> (r: Result<(), String>)
        requires
            self.inside(),
        ensures
            match r {
                Ok(_) => scan_end(self.raw@, self.at as int) == Ok::<int, Seq<char>>(self.at as int),
                Err(e) => scan_end(self.raw@, self.at as int) == Err::<int, Seq<char>>(e@),
            },
    {
        if self.at == self.raw.len() {
            Ok(())
        } else {
            Err(
                "proof encoding has ".to_owned().concat(decimal_text((self.raw.len() - self.at) as u64).as_str()).concat(
                    " trailing bytes",
                ),
            )
        }
    }
}

/// A list that fails at one place fails as a whole.
proof fn points_stop(raw: Seq<u8>, at: int, done: nat, count: nat)
    requires
        done < count,
        scan_points(raw, at, done + 1) is Err,
    ensures
        scan_points(raw, at, count) == scan_points(raw, at, done + 1),
    decreases count,
{
    if count > done + 1 {
        points_stop(raw, at, done, (count - 1) as nat);
    }
}

/// A list that fails at one place fails as a whole.
proof fn products_stop(raw: Seq<u8>, at: int, done: nat, count: nat)
    requires
        done < count,
        scan_products(raw, at, done + 1) is Err,
    ensures
        scan_products(raw, at, count) == scan_products(raw, at, done + 1),
    decreases count,
{
    if count > done + 1 {
        products_stop(raw, at, done, (count - 1) as nat);
    }
}

/// Appends a product proof.
pub fn put_product(out: &mut Vec<u8>, proof: &ProductProof)
    ensures
        final(out)@ == old(out)@ + proof.wire(),
{
    put(out, proof.t_factor.bytes.as_slice());
    put(out, proof.t_product.bytes.as_slice());
    put(out, proof.z_b.bytes.as_slice());
    put(out, proof.z_rb.bytes.as_slice());
    put(out, proof.z_s.bytes.as_slice());
    assert(out@ =~= old(out)@ + proof.wire());
}

/// Appends an opening proof.
pub fn put_opening(out: &mut Vec<u8>, proof: &OpeningProof)
    ensures
        final(out)@ == old(out)@ + proof.wire(),
{
    put(out, proof.t.bytes.as_slice());
    put(out, proof.z_value.bytes.as_slice());
    put(out, proof.z_blinding.bytes.as_slice());
    assert(out@ =~= old(out)@ + proof.wire());
}

/// Appends a list of points.
pub fn put_points(out: &mut Vec<u8>, points: &Vec<Point>)
    ensures
        final(out)@ == old(out)@ + joined(point_bytes(points@)),
{
    let ghost parts = point_bytes(points@);
    let mut i: usize = 0;
    assert(out@ =~= old(out)@ + joined(parts.take(0)));
    while i < points.len()
        invariant
            i <= points@.len(),
            parts == point_bytes(points@),
            out@ == old(out)@ + joined(parts.take(i as int)),
        decreases points@.len() - i,
    {
        put(out, points[i].bytes.as_slice());
        proof {
            joined_step(parts, i as int);
            assert(out@ =~= old(out)@ + joined(parts.take(i as int + 1)));
        }
        i = i + 1;
    }
    assert(parts.take(i as int) =~= parts);
}

fn put_products(out: &mut Vec<u8>, proofs: &Vec<ProductProof>)
    ensures
        final(out)@ == old(out)@ + joined(product_wires(proofs@)),
{
    let ghost parts = product_wires(proofs@);
    let mut i: usize = 0;
    assert(out@ =~= old(out)@ + joined(parts.take(0)));
    while i < proofs.len()
        invariant
            i <= proofs@.len(),
            parts == product_wires(proofs@),
            out@ == old(out)@ + joined(parts.take(i as int)),
        decreases proofs@.len() - i,
    {
        put_product(out, &proofs[i]);
        proof {
            joined_step(parts, i as int);
            assert(out@ =~= old(out)@ + joined(parts.take(i as int + 1)));
        }
        i = i + 1;
    }
    assert(parts.take(i as int) =~= parts);
}

/// Encodes a range proof.
pub fn encode_threshold_range(proof: &ThresholdRangeProof) -> (r: Result<Vec<u8>, String>)
    ensures
        r is Ok <==> proof.bounded(),
        r matches Ok(out) ==> out@ == proof.wire(),
        r matches Err(e) ==> e@ == "threshold range proof shape is outside the wire bound"@,
{
    if proof.bits == 0 || proof.bits > MAX_BITS || proof.bit_commitments.len() != proof.bits || proof.bit_proofs.len()
        != proof.bits {
        return Err("threshold range proof shape is outside the wire bound".to_owned());
    }
    let mut out: Vec<u8> = Vec::new();
    put(&mut out, "QOMMRPF1".as_bytes());
    put_be(&mut out, proof.bits as u64, 2);
    put_points(&mut out, &proof.bit_commitments);
    put_products(&mut out, &proof.bit_proofs);
    put_opening(&mut out, &proof.linkage);
    assert(out@ =~= proof.wire());
    Ok(out)
}

proof fn magic_width()
    ensures
        text_bytes("QOMMRPF1"@).len() == 8,
        text_bytes("QOMMDPF1"@).len() == 8,
        text_bytes("QOMMQPF1"@).len() == 8,
{
    reveal_strlit("QOMMRPF1");
    ascii_width("QOMMRPF1"@);
    reveal_strlit("QOMMDPF1");
    ascii_width("QOMMDPF1"@);
    reveal_strlit("QOMMQPF1");
    ascii_width("QOMMQPF1"@);
}

/// Reads a range proof that fills a byte string.
pub fn decode_threshold_range(raw: &[u8]) -> (r: Result<ThresholdRangeProof, String>)
    ensures
        match r {
            Ok(proof) => {
                &&& scan_range(raw@) == Ok::<int, Seq<char>>(raw@.len() as int)
                &&& proof.bounded()
                &&& proof.canonical()
                &&& proof.wire() == raw@
            },
            Err(e) => scan_range(raw@) == Err::<int, Seq<char>>(e@),
        },
{
    proof {
        reveal(scan_range);
    }
    proof {
        magic_width();
        be_widths();
    }
    let mut reader = Reader { raw, at: 0 };
    match reader.take(8, "range-proof magic") {
        Err(e) => {
            return Err(e);
        },
        Ok(_) => {},
    }
    if !same(&raw[0..8], "QOMMRPF1".as_bytes()) {
        return Err("wrong threshold range proof magic".to_owned());
    }
    let bits: u64 = match reader.number(2, "range-proof width") {
        Err(e) => {
            return Err(e);
        },
        Ok(bits) => bits,
    };
    if bits == 0 || bits > MAX_BITS as u64 {
        return Err("threshold range proof width is outside the wire bound".to_owned());
    }
    let ghost start = reader;
    let bit_commitments = match reader.points(bits as usize) {
        Err(e) => {
            return Err(e);
        },
        Ok(points) => points,
    };
    let ghost proofs_at = reader;
    let bit_proofs = match reader.products(bits as usize) {
        Err(e) => {
            return Err(e);
        },
        Ok(proofs) => proofs,
    };
    let ghost linkage_at = reader;
    let linkage = match reader.opening() {
        Err(e) => {
            return Err(e);
        },
        Ok(opening) => opening,
    };
    let ghost end = reader;
    match reader.finish() {
        Err(e) => {
            return Err(e);
        },
        Ok(_) => {},
    }
    let proof_read = ThresholdRangeProof { bit_commitments, bit_proofs, linkage, bits: bits as usize };
    proof {
        assert(proof_read.wire() =~= raw@.subrange(0, 8) + raw@.subrange(8, 10) + start.between(proofs_at)
            + proofs_at.between(linkage_at) + linkage_at.between(end));
        assert(proof_read.wire() =~= raw@);
    }
    Ok(proof_read)
}

/// Encodes the proofs of a delivery against payment.
pub fn encode_dvp_proofs(proofs: &DvpProofs) -> (r: Result<Vec<u8>, String>)
    ensures
        r is Ok <==> proofs.bounded(),
        r matches Ok(out) ==> out@ == proofs.wire(),
        r matches Err(e) ==> e@ == "threshold range proof shape is outside the wire bound"@,
{
    let securities = match encode_threshold_range(&proofs.securities_remainder) {
        Err(e) => {
            return Err(e);
        },
        Ok(bytes) => bytes,
    };
    let cash = match encode_threshold_range(&proofs.cash_remainder) {
        Err(e) => {
            return Err(e);
        },
        Ok(bytes) => bytes,
    };
    let mut out: Vec<u8> = Vec::new();
    put(&mut out, "QOMMDPF1".as_bytes());
    put_product(&mut out, &proofs.product);
    put_be(&mut out, securities.len() as u64, 4);
    put(&mut out, securities.as_slice());
    put_be(&mut out, cash.len() as u64, 4);
    put(&mut out, cash.as_slice());
    assert(out@ =~= proofs.wire());
    Ok(out)
}

impl<'a> Reader<'a> {
    /// Reads a range proof with its length in front.
    pub fn sized_range(&mut self, length_name: &str, name: &str) -> (r: Result<ThresholdRangeProof, String>)
        requires
            old(self).inside(),
        ensures
            old(self).did(
                *final(self),
                scan_sized_range(old(self).raw@, old(self).at as int, length_name@, name@),
                match r {
                    Ok(_) => None,
                    Err(e) => Some(e@),
                },
            ),
            r matches Ok(proof) ==> proof.bounded() && proof.canonical() && be_bytes(proof.wire().len(), 4)
                + proof.wire() == old(self).between(*final(self)),
    {
        proof {
            reveal(scan_sized_range);
        }
        let length: u64 = match self.number(4, length_name) {
            Err(e) => {
                return Err(e);
            },
            Ok(length) => length,
        };
        let ghost start = *self;
        proof {
            be_widths();
            be_bytes_of_be_value(old(self).between(start));
        }
        let from: usize = match self.take(length as usize, name) {
            Err(e) => {
                return Err(e);
            },
            Ok(from) => from,
        };
        match decode_threshold_range(&self.raw[from..self.at]) {
            Err(e) => Err(e),
            Ok(proof_read) => {
                proof {
                    assert(proof_read.wire() == start.between(*self));
                    assert(be_bytes(proof_read.wire().len(), 4) + proof_read.wire() =~= old(self).between(*self));
                }
                Ok(proof_read)
            },
        }
    }
}

/// Reads the proofs of a delivery against payment that fill a byte string.
pub fn decode_dvp_proofs(raw: &[u8]) -> (r: Result<DvpProofs, String>)
    ensures
        match r {
            Ok(proofs) => {
                &&& scan_dvp(raw@) == Ok::<int, Seq<char>>(raw@.len() as int)
                &&& proofs.bounded()
                &&& proofs.canonical()
                &&& proofs.wire() == raw@
            },
            Err(e) => scan_dvp(raw@) == Err::<int, Seq<char>>(e@),
        },
{
    proof {
        magic_width();
    }
    let mut reader = Reader { raw, at: 0 };
    match reader.take(8, "DvP-proof magic") {
        Err(e) => {
            return Err(e);
        },
        Ok(_) => {},
    }
    if !same(&raw[0..8], "QOMMDPF1".as_bytes()) {
        return Err("wrong threshold DvP proof magic".to_owned());
    }
    let ghost first = reader;
    let product = match reader.product() {
        Err(e) => {
            return Err(e);
        },
        Ok(product) => product,
    };
    let ghost second = reader;
    let securities_remainder = match reader.sized_range("securities proof length", "securities proof") {
        Err(e) => {
            return Err(e);
        },
        Ok(range) => range,
    };
    let ghost third = reader;
    let cash_remainder = match reader.sized_range("cash proof length", "cash proof") {
        Err(e) => {
            return Err(e);
        },
        Ok(range) => range,
    };
    let ghost end = reader;
    match reader.finish() {
        Err(e) => {
            return Err(e);
        },
        Ok(_) => {},
    }
    let proofs = DvpProofs { product, securities_remainder, cash_remainder };
    proof {
        assert(proofs.wire() =~= raw@.subrange(0, 8) + first.between(second) + second.between(third) + third.between(
            end,
        ));
        assert(proofs.wire() =~= raw@);
    }
    Ok(proofs)
}

/// Whether a byte string holds another at a position.
pub open spec fn holds(raw: Seq<u8>, at: int, part: Seq<u8>) -> bool {
    &&& 0 <= at
    &&& at + part.len() <= raw.len() <= usize::MAX
    &&& raw.subrange(at, at + part.len()) == part
}

/// What holds two parts holds each where it stands.
pub proof fn holds_both(raw: Seq<u8>, at: int, a: Seq<u8>, b: Seq<u8>)
    requires
        holds(raw, at, a + b),
    ensures
        holds(raw, at, a),
        holds(raw, at + a.len(), b),
{
    let whole = raw.subrange(at, at + a.len() + b.len());
    assert(raw.subrange(at, at + a.len()) =~= whole.subrange(0, a.len() as int));
    assert((a + b).subrange(0, a.len() as int) =~= a);
    assert(raw.subrange(at + a.len(), at + a.len() + b.len()) =~= whole.subrange(a.len() as int, whole.len() as int));
    assert((a + b).subrange(a.len() as int, (a + b).len() as int) =~= b);
}

/// Points that stand in a byte string are read there.
pub proof fn points_accepted(raw: Seq<u8>, at: int, points: Seq<Point>)
    requires
        holds(raw, at, joined(point_bytes(points))),
        all_points(points),
    ensures
        scan_points(raw, at, points.len()) == Ok::<int, Seq<char>>(at + joined(point_bytes(points)).len()),
        joined(point_bytes(points)).len() == 32 * points.len(),
    decreases points.len(),
{
    let parts = point_bytes(points);
    if points.len() > 0 {
        assert(parts.drop_last() =~= point_bytes(points.drop_last()));
        holds_both(raw, at, joined(parts.drop_last()), parts.last());
        assert forall|i: int| 0 <= i < points.len() - 1 implies is_point((#[trigger] points.drop_last()[i])@) by {
            assert(points.drop_last()[i] == points[i]);
        }
        points_accepted(raw, at, points.drop_last());
        assert(is_point(points[points.len() - 1]@));
    }
}

/// A product proof that stands in a byte string is read there.
pub proof fn product_accepted(raw: Seq<u8>, at: int, value: ProductProof)
    requires
        holds(raw, at, value.wire()),
        value.canonical(),
    ensures
        scan_product(raw, at) == Ok::<int, Seq<char>>(at + 160),
        value.wire().len() == 160,
{
    reveal(scan_product);
    let pair = seq![value.t_factor, value.t_product];
    let a = value.t_factor@ + value.t_product@;
    holds_both(raw, at, a + value.z_b@ + value.z_rb@, value.z_s@);
    holds_both(raw, at, a + value.z_b@, value.z_rb@);
    holds_both(raw, at, a, value.z_b@);
    let parts = point_bytes(pair);
    assert(parts.drop_last().drop_last() =~= Seq::<Seq<u8>>::empty());
    reveal_with_fuel(joined, 3);
    assert(joined(parts) =~= a);
    points_accepted(raw, at, pair);
}

/// An opening proof that stands in a byte string is read there.
pub proof fn opening_accepted(raw: Seq<u8>, at: int, value: OpeningProof)
    requires
        holds(raw, at, value.wire()),
        value.canonical(),
    ensures
        scan_opening(raw, at) == Ok::<int, Seq<char>>(at + 96),
        value.wire().len() == 96,
{
    reveal(scan_opening);
    holds_both(raw, at, value.t@ + value.z_value@, value.z_blinding@);
    holds_both(raw, at, value.t@, value.z_value@);
}

/// Product proofs that stand in a byte string are read there.
pub proof fn products_accepted(raw: Seq<u8>, at: int, values: Seq<ProductProof>)
    requires
        holds(raw, at, joined(product_wires(values))),
        forall|i: int| 0 <= i < values.len() ==> (#[trigger] values[i]).canonical(),
    ensures
        scan_products(raw, at, values.len()) == Ok::<int, Seq<char>>(at + joined(product_wires(values)).len()),
        joined(product_wires(values)).len() == 160 * values.len(),
    decreases values.len(),
{
    let parts = product_wires(values);
    if values.len() > 0 {
        assert(parts.drop_last() =~= product_wires(values.drop_last()));
        holds_both(raw, at, joined(parts.drop_last()), parts.last());
        products_accepted(raw, at, values.drop_last());
        product_accepted(raw, at + joined(parts.drop_last()).len(), values.last());
    }
}

/// The encoding of a range proof is accepted.
pub proof fn range_wire_accepted(value: ThresholdRangeProof)
    requires
        value.bounded(),
        value.canonical(),
    ensures
        value.wire().len() == 106 + 192 * value.bits,
        scan_range(value.wire()) == Ok::<int, Seq<char>>(value.wire().len() as int),
{
    reveal(scan_range);
    let raw = value.wire();
    magic_width();
    be_widths();
    be_bytes_width(value.bits as nat, 2);
    be_value_of_be_bytes(value.bits as nat, 2);
    range_wire_width(value);
    assert(raw.subrange(0, raw.len() as int) =~= raw);
    let magic = text_bytes("QOMMRPF1"@);
    let width = be_bytes(value.bits as nat, 2);
    let points = joined(point_bytes(value.bit_commitments@));
    let proofs = joined(product_wires(value.bit_proofs@));
    holds_both(raw, 0, magic + width + points + proofs, value.linkage.wire());
    holds_both(raw, 0, magic + width + points, proofs);
    holds_both(raw, 0, magic + width, points);
    holds_both(raw, 0, magic, width);
    points_accepted(raw, 10, value.bit_commitments@);
    products_accepted(raw, 10 + points.len() as int, value.bit_proofs@);
    opening_accepted(raw, 10 + points.len() as int + proofs.len() as int, value.linkage);
}

/// The encoding of a range proof has a width that its bits fix.
pub proof fn range_wire_width(value: ThresholdRangeProof)
    requires
        value.bounded(),
    ensures
        value.wire().len() == 106 + 192 * value.bits,
{
    magic_width();
    be_bytes_width(value.bits as nat, 2);
    joined_layout(point_bytes(value.bit_commitments@), 32);
    joined_layout(product_wires(value.bit_proofs@), 160);
}

/// A range proof with its length in front that stands in a byte string is read there.
pub proof fn sized_range_accepted(
    raw: Seq<u8>,
    at: int,
    value: ThresholdRangeProof,
    length_name: Seq<char>,
    name: Seq<char>,
)
    requires
        value.bounded(),
        value.canonical(),
        holds(raw, at, be_bytes(value.wire().len(), 4) + value.wire()),
    ensures
        scan_sized_range(raw, at, length_name, name) == Ok::<int, Seq<char>>(at + 4 + value.wire().len()),
{
    reveal(scan_sized_range);
    range_wire_accepted(value);
    be_widths();
    be_bytes_width(value.wire().len(), 4);
    be_value_of_be_bytes(value.wire().len(), 4);
    holds_both(raw, at, be_bytes(value.wire().len(), 4), value.wire());
}

/// The encoding of the proofs of a delivery against payment is accepted, and
/// refused as soon as a byte follows.
pub proof fn dvp_wire_accepted(value: DvpProofs)
    requires
        value.bounded(),
        value.canonical(),
    ensures
        scan_dvp(value.wire()) == Ok::<int, Seq<char>>(value.wire().len() as int),
        forall|byte: u8| (#[trigger] scan_dvp(value.wire().push(byte))) is Err,
{
    dvp_wire_prefix(value, value.wire());
    assert(value.wire().subrange(0, value.wire().len() as int) =~= value.wire());
    assert forall|byte: u8| (#[trigger] scan_dvp(value.wire().push(byte))) is Err by {
        let longer = value.wire().push(byte);
        assert(longer.subrange(0, value.wire().len() as int) =~= value.wire());
        dvp_wire_prefix(value, longer);
    }
}

proof fn dvp_wire_prefix(value: DvpProofs, raw: Seq<u8>)
    requires
        value.bounded(),
        value.canonical(),
        value.wire().len() <= raw.len(),
        raw.len() <= value.wire().len() + 1,
        raw.subrange(0, value.wire().len() as int) == value.wire(),
    ensures
        scan_dvp(raw) == scan_end(raw, value.wire().len() as int),
{
    magic_width();
    range_wire_width(value.securities_remainder);
    range_wire_width(value.cash_remainder);
    be_bytes_width(value.securities_remainder.wire().len(), 4);
    be_bytes_width(value.cash_remainder.wire().len(), 4);
    let magic = text_bytes("QOMMDPF1"@);
    let product = value.product.wire();
    let securities = be_bytes(value.securities_remainder.wire().len(), 4) + value.securities_remainder.wire();
    let cash = be_bytes(value.cash_remainder.wire().len(), 4) + value.cash_remainder.wire();
    assert(value.wire() =~= magic + product + securities + cash);
    holds_both(raw, 0, magic + product + securities, cash);
    holds_both(raw, 0, magic + product, securities);
    holds_both(raw, 0, magic, product);
    product_accepted(raw, 8, value.product);
    sized_range_accepted(
        raw,
        168,
        value.securities_remainder,
        "securities proof length"@,
        "securities proof"@,
    );
    sized_range_accepted(raw, 168 + securities.len() as int, value.cash_remainder, "cash proof length"@, "cash proof"@);
}

} // verus!
