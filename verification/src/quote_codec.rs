//! Canonical bounded encoding of verifier-complete quote evidence.

use vstd::prelude::*;
use crate::bytes::{
    array32, be_bytes, be_bytes_of_be_value, be_bytes_width, be_value, be_value_of_be_bytes, be_widths, joined,
    joined_step, put, put_be, read_be, same, text_bytes, ascii_width,
};
use crate::group::{all_points, is_point, point_bytes, Point};
use crate::proof_codec::{
    encode_threshold_range, holds, holds_both, opening_accepted, points_accepted, product_wires, products_accepted,
    put_opening, put_points, put_product, range_wire_width, scan_bytes, scan_end, scan_opening, scan_point,
    scan_points, scan_products, scan_sized_range, sized_range_accepted, OpeningProof, ProductProof, Reader,
    ThresholdRangeProof,
};

verus! {

/// The largest registry that a settlement can carry.
pub const MAX_QUOTE_MAKERS: usize = 24;

/// The largest encoding that a settlement can carry.
pub const MAX_QUOTE_BYTES: usize = 786432;

/// A maker's registered pricing policy, committed.
#[derive(Clone, Copy, Debug)]
pub struct RegisteredPolicy {
    pub maker_asset: u32,
    pub ask_level: Point,
    pub spread: Point,
    pub slope: Point,
    pub invcoef: Point,
    pub inv: Point,
    pub maxqty: Point,
    pub expiry: Point,
    pub active: Point,
    pub use_ref: Point,
}

/// The public statement of a quote.
#[derive(Debug)]
pub struct QuotePublic {
    pub qty_commitment: Point,
    pub now: i64,
    pub sentinel: i64,
    pub n_slots: i64,
    pub direction: u8,
    pub asset: u32,
    pub reference_price: i64,
    pub registry: Vec<RegisteredPolicy>,
    pub registry_digest: [u8; 32],
    pub market_digest: [u8; 32],
    pub slot: u64,
}

/// A proof that a commitment holds a bit.
#[derive(Clone, Copy, Debug)]
pub enum BitValidityProof {
    /// The bit equals its square; several nodes can prove it together.
    Square(ProductProof),
    /// A disjunction, which one prover makes alone.
    Disjunction,
}

/// A proof that a maker can take the request.
#[derive(Debug)]
pub enum EligibilityProof {
    Threshold { fits: ThresholdRangeProof, fresh: ThresholdRangeProof },
    /// An aggregate proof, which one prover makes alone.
    Bulletproof,
}

/// A proof that no maker offers better than the winner.
#[derive(Debug)]
pub enum MinimalityProof {
    Threshold(Vec<ThresholdRangeProof>),
    /// An aggregate proof, which one prover makes alone.
    Bulletproof,
}

/// A proved comparison.
#[derive(Clone, Copy, Debug)]
pub struct Gate {
    pub commitment: Point,
    pub bit_proof: BitValidityProof,
    pub product: ProductProof,
    pub product_commitment: Point,
    pub witness_commitment: Point,
}

/// The commitments of one maker's part of a quote proof.
#[derive(Clone, Copy, Debug)]
pub struct MakerCommitments {
    pub slope: Point,
    pub invcoef: Point,
    pub inv: Point,
    pub depth: Point,
    pub skew: Point,
    pub fits: Point,
    pub fresh: Point,
    pub active: Point,
    pub ok: Point,
    pub fresh_strict: Point,
    pub both: Point,
    pub cost: Point,
    pub gated: Point,
    pub shifted_cost: Point,
}

/// One maker's part of a quote proof.
#[derive(Debug)]
pub struct MakerProof {
    pub depth: ProductProof,
    pub skew: ProductProof,
    pub gate_cost: ProductProof,
    pub eligibility: EligibilityProof,
    pub active_bit: BitValidityProof,
    pub reference_bit: BitValidityProof,
    pub fits_gate: Gate,
    pub fresh_gate: Gate,
    pub conjunction: (ProductProof, ProductProof),
    pub commitments: MakerCommitments,
}

/// A complete quote proof.
#[derive(Debug)]
pub struct QuoteProof {
    pub winner_index: usize,
    pub winner_value: u64,
    pub maker_proofs: Vec<MakerProof>,
    pub winner_opening: OpeningProof,
    pub minimality: MinimalityProof,
    pub key_commitments: Vec<Point>,
}

/// Verifier-complete quote evidence produced by the threshold proof cluster.
///
/// The fixed context is the request-bound transcript context used by every
/// proof party. Only threshold range proofs and square bit proofs are accepted:
/// accepting the single-prover variants would silently weaken the claim that no
/// one node held the pricing witnesses.
#[derive(Debug)]
pub struct QuoteVerificationBundle {
    pub context: [u8; 32],
    pub eligibility_bits: usize,
    pub span_bits: usize,
    pub public: QuotePublic,
    pub proof: QuoteProof,
}

/// A signed number as the unsigned number of the same sixty-four bits.
pub open spec fn signed_bits(value: int) -> nat {
    if value >= 0 {
        value as nat
    } else {
        (value + 0x1_0000_0000_0000_0000) as nat
    }
}

fn to_bits(value: i64) -> (bits: u64)
    ensures
        bits as nat == signed_bits(value as int),
{
    if value >= 0 {
        value as u64
    } else {
        (value + 0x7fff_ffff_ffff_ffff + 1) as u64 + 0x8000_0000_0000_0000
    }
}

fn from_bits(bits: u64) -> (value: i64)
    ensures
        bits as nat == signed_bits(value as int),
{
    if bits < 0x8000_0000_0000_0000 {
        bits as i64
    } else {
        (bits - 0x8000_0000_0000_0000) as i64 - 0x7fff_ffff_ffff_ffff - 1
    }
}

impl RegisteredPolicy {
    /// The nine commitments in wire order.
    pub open spec fn points(self) -> Seq<Point> {
        seq![
            self.ask_level,
            self.spread,
            self.slope,
            self.invcoef,
            self.inv,
            self.maxqty,
            self.expiry,
            self.active,
            self.use_ref,
        ]
    }

    /// The encoding.
    pub open spec fn wire(self) -> Seq<u8> {
        be_bytes(self.maker_asset as nat, 4) + joined(point_bytes(self.points()))
    }

    /// Every commitment is a point's encoding.
    pub open spec fn canonical(self) -> bool {
        all_points(self.points())
    }
}

/// The encodings of a list of policies.
pub open spec fn policy_wires(values: Seq<RegisteredPolicy>) -> Seq<Seq<u8>> {
    values.map_values(|p: RegisteredPolicy| p.wire())
}

impl QuotePublic {
    /// The encoding of what stands before the registry.
    pub open spec fn head(self) -> Seq<u8> {
        self.qty_commitment@ + be_bytes(signed_bits(self.now as int), 8) + be_bytes(
            signed_bits(self.sentinel as int),
            8,
        ) + be_bytes(signed_bits(self.n_slots as int), 8) + be_bytes(self.direction as nat, 1) + be_bytes(
            self.asset as nat,
            4,
        ) + be_bytes(signed_bits(self.reference_price as int), 8) + self.registry_digest@ + self.market_digest@
            + be_bytes(self.slot as nat, 8)
    }

    /// The encoding.
    pub open spec fn wire(self) -> Seq<u8> {
        self.head() + be_bytes(self.registry@.len(), 2) + joined(policy_wires(self.registry@))
    }

    /// Every commitment is a point's encoding.
    pub open spec fn canonical(self) -> bool {
        &&& is_point(self.qty_commitment@)
        &&& forall|i: int| 0 <= i < self.registry@.len() ==> (#[trigger] self.registry@[i]).canonical()
    }
}

impl BitValidityProof {
    /// The encoding.
    pub open spec fn wire(self) -> Seq<u8> {
        match self {
            BitValidityProof::Square(proof) => proof.wire(),
            BitValidityProof::Disjunction => Seq::empty(),
        }
    }

    /// Several nodes can have made the proof.
    pub open spec fn shared(self) -> bool {
        self is Square
    }

    /// Every part is a point's or a scalar's encoding.
    pub open spec fn canonical(self) -> bool {
        self matches BitValidityProof::Square(proof) ==> proof.canonical()
    }
}

impl Gate {
    /// The encoding.
    pub open spec fn wire(self) -> Seq<u8> {
        joined(point_bytes(seq![self.commitment])) + (self.bit_proof.wire() + self.product.wire()) + joined(
            point_bytes(seq![self.product_commitment, self.witness_commitment]),
        )
    }

    /// Every part is a point's or a scalar's encoding.
    pub open spec fn canonical(self) -> bool {
        &&& is_point(self.commitment@)
        &&& self.bit_proof.canonical()
        &&& self.product.canonical()
        &&& is_point(self.product_commitment@)
        &&& is_point(self.witness_commitment@)
    }
}

impl MakerCommitments {
    /// The fourteen commitments in wire order.
    pub open spec fn points(self) -> Seq<Point> {
        seq![
            self.slope,
            self.invcoef,
            self.inv,
            self.depth,
            self.skew,
            self.fits,
            self.fresh,
            self.active,
            self.ok,
            self.fresh_strict,
            self.both,
            self.cost,
            self.gated,
            self.shifted_cost,
        ]
    }
}

/// The encoding of a range proof with its length in front.
pub open spec fn sized_range_wire(proof: ThresholdRangeProof) -> Seq<u8> {
    be_bytes(proof.wire().len(), 4) + proof.wire()
}

impl MakerProof {
    /// The encoding of the eligibility proof.
    pub open spec fn eligibility_wire(self) -> Seq<u8> {
        match self.eligibility {
            EligibilityProof::Threshold { fits, fresh } => sized_range_wire(fits) + sized_range_wire(fresh),
            EligibilityProof::Bulletproof => Seq::empty(),
        }
    }

    /// The encoding.
    #[verifier::opaque]
    pub open spec fn wire(self) -> Seq<u8> {
        (self.depth.wire() + self.skew.wire() + self.gate_cost.wire()) + self.eligibility_wire() + (
        self.active_bit.wire() + self.reference_bit.wire()) + self.fits_gate.wire() + self.fresh_gate.wire() + (
        self.conjunction.0.wire() + self.conjunction.1.wire()) + joined(point_bytes(self.commitments.points()))
    }

    /// Every part is a point's or a scalar's encoding.
    #[verifier::opaque]
    pub open spec fn canonical(self) -> bool {
        &&& self.depth.canonical()
        &&& self.skew.canonical()
        &&& self.gate_cost.canonical()
        &&& (self.eligibility matches EligibilityProof::Threshold { fits, fresh } ==> fits.canonical()
            && fresh.canonical())
        &&& self.active_bit.canonical()
        &&& self.reference_bit.canonical()
        &&& self.fits_gate.canonical()
        &&& self.fresh_gate.canonical()
        &&& self.conjunction.0.canonical()
        &&& self.conjunction.1.canonical()
        &&& all_points(self.commitments.points())
    }

    /// Why the part cannot stand in settlement evidence.
    #[verifier::opaque]
    pub open spec fn refusal(self) -> Option<Seq<char>> {
        match self.eligibility {
            EligibilityProof::Bulletproof => Some(
                "single-prover eligibility proof is forbidden in settlement evidence"@,
            ),
            EligibilityProof::Threshold { fits, fresh } => if !fits.bounded() || !fresh.bounded() {
                Some("threshold range proof shape is outside the wire bound"@)
            } else if !self.active_bit.shared() || !self.reference_bit.shared() || !self.fits_gate.bit_proof.shared()
                || !self.fresh_gate.bit_proof.shared() {
                Some("single-prover bit proof is forbidden in settlement evidence"@)
            } else {
                None
            },
        }
    }
}

/// The encodings of a list of maker proofs.
pub open spec fn maker_wires(values: Seq<MakerProof>) -> Seq<Seq<u8>> {
    values.map_values(|m: MakerProof| m.wire())
}

/// The encodings of a list of range proofs, each with its length in front.
pub open spec fn range_wires(values: Seq<ThresholdRangeProof>) -> Seq<Seq<u8>> {
    values.map_values(|p: ThresholdRangeProof| sized_range_wire(p))
}

/// Why the first part that cannot stand in settlement evidence cannot.
pub open spec fn first_maker_refusal(values: Seq<MakerProof>) -> Option<Seq<char>>
    decreases values.len(),
{
    if values.len() == 0 {
        None
    } else if first_maker_refusal(values.drop_last()) is Some {
        first_maker_refusal(values.drop_last())
    } else {
        values.last().refusal()
    }
}

impl QuoteProof {
    /// The range proofs that no maker offers better.
    pub open spec fn minimality_proofs(self) -> Seq<ThresholdRangeProof> {
        match self.minimality {
            MinimalityProof::Threshold(proofs) => proofs@,
            MinimalityProof::Bulletproof => Seq::empty(),
        }
    }

    /// The encoding.
    pub open spec fn wire(self) -> Seq<u8> {
        be_bytes(self.winner_index as nat, 2) + be_bytes(self.winner_value as nat, 8) + be_bytes(
            self.maker_proofs@.len(),
            2,
        ) + joined(maker_wires(self.maker_proofs@)) + self.winner_opening.wire() + be_bytes(
            self.minimality_proofs().len(),
            2,
        ) + joined(range_wires(self.minimality_proofs())) + be_bytes(self.key_commitments@.len(), 2) + joined(
            point_bytes(self.key_commitments@),
        )
    }

    /// Every part is a point's or a scalar's encoding.
    pub open spec fn canonical(self) -> bool {
        &&& forall|i: int| 0 <= i < self.maker_proofs@.len() ==> (#[trigger] self.maker_proofs@[i]).canonical()
        &&& self.winner_opening.canonical()
        &&& forall|i: int|
            0 <= i < self.minimality_proofs().len() ==> (#[trigger] self.minimality_proofs()[i]).canonical()
        &&& all_points(self.key_commitments@)
    }
}

impl QuoteVerificationBundle {
    /// The encoding.
    pub open spec fn wire(self) -> Seq<u8> {
        text_bytes("QOMMQPF1"@) + be_bytes(self.eligibility_bits as nat, 2) + be_bytes(self.span_bits as nat, 2)
            + self.context@ + self.public.wire() + self.proof.wire()
    }

    /// Every part is a point's or a scalar's encoding.
    pub open spec fn canonical(self) -> bool {
        self.public.canonical() && self.proof.canonical()
    }

    /// The registry has a size that a settlement can carry.
    pub open spec fn registry_ok(self) -> bool {
        0 < self.public.registry@.len() <= MAX_QUOTE_MAKERS
    }

    /// Why the evidence has no encoding, or the encoding.
    pub open spec fn encoded(self) -> Result<Seq<u8>, Seq<char>> {
        let makers = self.public.registry@.len();
        if self.proof.maker_proofs@.len() != makers || self.proof.key_commitments@.len() != makers || makers
            > MAX_QUOTE_MAKERS {
            Err("quote proof vectors do not match the bounded registry"@)
        } else if self.proof.minimality is Bulletproof {
            Err("single-prover minimality proof is forbidden in settlement evidence"@)
        } else if self.proof.minimality_proofs().len() != makers {
            Err("quote proof has the wrong minimality population"@)
        } else if self.eligibility_bits > u16::MAX {
            Err("quote eligibility width exceeds the wire bound"@)
        } else if self.span_bits > u16::MAX {
            Err("quote span width exceeds the wire bound"@)
        } else if self.proof.winner_index > u16::MAX {
            Err("quote winner index exceeds the wire bound"@)
        } else if first_maker_refusal(self.proof.maker_proofs@) is Some {
            Err(first_maker_refusal(self.proof.maker_proofs@)->0)
        } else if exists|i: int| 0 <= i < makers && !(#[trigger] self.proof.minimality_proofs()[i]).bounded() {
            Err("threshold range proof shape is outside the wire bound"@)
        } else if self.wire().len() > MAX_QUOTE_BYTES {
            Err("encoded quote proof exceeds the settlement transaction bound"@)
        } else {
            Ok(self.wire())
        }
    }
}

/// Whether `check` may give `outcome` for evidence.
pub open spec fn checks<C: Fn(&QuoteVerificationBundle) -> Result<[u8; 32], String>>(
    check: C,
    bundle: QuoteVerificationBundle,
    outcome: Result<Seq<u8>, Seq<char>>,
) -> bool {
    exists|o: Result<[u8; 32], String>| #[trigger]
        call_ensures(check, (&bundle,), o) && match o {
            Ok(digest) => outcome == Ok::<Seq<u8>, Seq<char>>(digest@),
            Err(e) => outcome == Err::<Seq<u8>, Seq<char>>(e@),
        }
}

/// Whether `check` can be asked of all evidence.
pub open spec fn can_check<C: Fn(&QuoteVerificationBundle) -> Result<[u8; 32], String>>(check: C) -> bool {
    forall|b: &QuoteVerificationBundle| call_requires(check, (b,))
}

impl QuoteVerificationBundle {
    /// Verifies the evidence with the circuit's own verifier, `check`, which
    /// gives the canonical digest of the statement and the proof.
    pub fn verify<C: Fn(&QuoteVerificationBundle) -> Result<[u8; 32], String>>(&self, check: &C) -> (r: Result<
        [u8; 32],
        String,
    >)
        requires
            can_check(*check),
        ensures
            if !self.registry_ok() {
                r matches Err(e) && e@ == "quote registry size is outside the settlement bound"@
            } else {
                match r {
                    Ok(digest) => checks(*check, *self, Ok(digest@)),
                    Err(e) => checks(*check, *self, Err(e@)),
                }
            },
    {
        if self.public.registry.len() == 0 || self.public.registry.len() > MAX_QUOTE_MAKERS {
            return Err("quote registry size is outside the settlement bound".to_owned());
        }
        check(self)
    }
}

fn put_bit(out: &mut Vec<u8>, bit: &BitValidityProof) -> (r: Result<(), String>)
    ensures
        r is Ok <==> bit.shared(),
        r is Ok ==> final(out)@ == old(out)@ + bit.wire(),
        r matches Err(e) ==> e@ == "single-prover bit proof is forbidden in settlement evidence"@,
{
    match bit {
        BitValidityProof::Square(proof) => {
            put_product(out, proof);
            Ok(())
        },
        BitValidityProof::Disjunction => Err("single-prover bit proof is forbidden in settlement evidence".to_owned()),
    }
}

fn put_gate(out: &mut Vec<u8>, gate: &Gate) -> (r: Result<(), String>)
    ensures
        r is Ok <==> gate.bit_proof.shared(),
        r is Ok ==> final(out)@ == old(out)@ + gate.wire(),
        r matches Err(e) ==> e@ == "single-prover bit proof is forbidden in settlement evidence"@,
{
    put(out, gate.commitment.bytes.as_slice());
    match put_bit(out, &gate.bit_proof) {
        Err(e) => {
            return Err(e);
        },
        Ok(_) => {},
    }
    put_product(out, &gate.product);
    put(out, gate.product_commitment.bytes.as_slice());
    put(out, gate.witness_commitment.bytes.as_slice());
    proof {
        one_point(gate.commitment);
        two_points(gate.product_commitment, gate.witness_commitment);
        assert(out@ =~= old(out)@ + gate.wire());
    }
    Ok(())
}

proof fn one_point(a: Point)
    ensures
        joined(point_bytes(seq![a])) == a@,
{
    let parts = point_bytes(seq![a]);
    assert(parts.drop_last() =~= Seq::<Seq<u8>>::empty());
    reveal_with_fuel(joined, 2);
    assert(joined(parts) =~= a@);
}

proof fn two_points(a: Point, b: Point)
    ensures
        joined(point_bytes(seq![a, b])) == a@ + b@,
{
    let parts = point_bytes(seq![a, b]);
    assert(parts.drop_last() =~= point_bytes(seq![a]));
    one_point(a);
    assert(joined(parts) =~= a@ + b@);
}

fn put_sized_range(out: &mut Vec<u8>, proof: &ThresholdRangeProof) -> (r: Result<(), String>)
    ensures
        r is Ok <==> proof.bounded(),
        r is Ok ==> final(out)@ == old(out)@ + sized_range_wire(*proof),
        r matches Err(e) ==> e@ == "threshold range proof shape is outside the wire bound"@,
{
    match encode_threshold_range(proof) {
        Err(e) => Err(e),
        Ok(bytes) => {
            put_be(out, bytes.len() as u64, 4);
            put(out, bytes.as_slice());
            assert(out@ =~= old(out)@ + sized_range_wire(*proof));
            Ok(())
        },
    }
}

fn policy_points(policy: &RegisteredPolicy) -> (points: Vec<Point>)
    ensures
        points@ == policy.points(),
{
    let points = vec![
        policy.ask_level,
        policy.spread,
        policy.slope,
        policy.invcoef,
        policy.inv,
        policy.maxqty,
        policy.expiry,
        policy.active,
        policy.use_ref,
    ];
    assert(points@ =~= policy.points());
    points
}

fn commitment_points(commitments: &MakerCommitments) -> (points: Vec<Point>)
    ensures
        points@ == commitments.points(),
{
    let points = vec![
        commitments.slope,
        commitments.invcoef,
        commitments.inv,
        commitments.depth,
        commitments.skew,
        commitments.fits,
        commitments.fresh,
        commitments.active,
        commitments.ok,
        commitments.fresh_strict,
        commitments.both,
        commitments.cost,
        commitments.gated,
        commitments.shifted_cost,
    ];
    assert(points@ =~= commitments.points());
    points
}

fn put_maker(out: &mut Vec<u8>, maker: &MakerProof) -> (r: Result<(), String>)
    ensures
        match r {
            Ok(_) => maker.refusal() is None && final(out)@ == old(out)@ + maker.wire(),
            Err(e) => maker.refusal() == Some(e@),
        },
{
    proof {
        reveal(MakerProof::wire);
        reveal(MakerProof::refusal);
    }
    let ghost start = out@;
    put_product(out, &maker.depth);
    put_product(out, &maker.skew);
    put_product(out, &maker.gate_cost);
    match &maker.eligibility {
        EligibilityProof::Threshold { fits, fresh } => {
            match put_sized_range(out, fits) {
                Err(e) => {
                    return Err(e);
                },
                Ok(_) => {},
            }
            match put_sized_range(out, fresh) {
                Err(e) => {
                    return Err(e);
                },
                Ok(_) => {},
            }
        },
        EligibilityProof::Bulletproof => {
            return Err("single-prover eligibility proof is forbidden in settlement evidence".to_owned());
        },
    }
    let ghost products = maker.depth.wire() + maker.skew.wire() + maker.gate_cost.wire();
    assert(out@ =~= start + (products + maker.eligibility_wire()));
    match put_bit(out, &maker.active_bit) {
        Err(e) => {
            return Err(e);
        },
        Ok(_) => {},
    }
    match put_bit(out, &maker.reference_bit) {
        Err(e) => {
            return Err(e);
        },
        Ok(_) => {},
    }
    match put_gate(out, &maker.fits_gate) {
        Err(e) => {
            return Err(e);
        },
        Ok(_) => {},
    }
    match put_gate(out, &maker.fresh_gate) {
        Err(e) => {
            return Err(e);
        },
        Ok(_) => {},
    }
    put_product(out, &maker.conjunction.0);
    put_product(out, &maker.conjunction.1);
    let points = commitment_points(&maker.commitments);
    put_points(out, &points);
    assert(out@ =~= start + maker.wire());
    Ok(())
}

fn put_public(out: &mut Vec<u8>, public: &QuotePublic)
    ensures
        final(out)@ == old(out)@ + public.wire(),
{
    put(out, public.qty_commitment.bytes.as_slice());
    put_be(out, to_bits(public.now), 8);
    put_be(out, to_bits(public.sentinel), 8);
    put_be(out, to_bits(public.n_slots), 8);
    put_be(out, public.direction as u64, 1);
    put_be(out, public.asset as u64, 4);
    put_be(out, to_bits(public.reference_price), 8);
    put(out, public.registry_digest.as_slice());
    put(out, public.market_digest.as_slice());
    put_be(out, public.slot, 8);
    assert(out@ =~= old(out)@ + public.head());
    put_be(out, public.registry.len() as u64, 2);
    let ghost parts = policy_wires(public.registry@);
    let ghost start = out@;
    let mut i: usize = 0;
    assert(out@ =~= start + joined(parts.take(0)));
    while i < public.registry.len()
        invariant
            i <= public.registry@.len(),
            parts == policy_wires(public.registry@),
            out@ == start + joined(parts.take(i as int)),
        decreases public.registry@.len() - i,
    {
        put_be(out, public.registry[i].maker_asset as u64, 4);
        let points = policy_points(&public.registry[i]);
        put_points(out, &points);
        proof {
            joined_step(parts, i as int);
            assert(out@ =~= start + joined(parts.take(i as int + 1)));
        }
        i = i + 1;
    }
    assert(parts.take(i as int) =~= parts);
    assert(out@ =~= old(out)@ + public.wire());
}

fn put_makers(out: &mut Vec<u8>, makers: &Vec<MakerProof>) -> (r: Result<(), String>)
    ensures
        match r {
            Ok(_) => first_maker_refusal(makers@) is None && final(out)@ == old(out)@ + joined(maker_wires(makers@)),
            Err(e) => first_maker_refusal(makers@) == Some(e@),
        },
{
    let ghost parts = maker_wires(makers@);
    let ghost start = out@;
    let mut i: usize = 0;
    assert(out@ =~= start + joined(parts.take(0)));
    while i < makers.len()
        invariant
            i <= makers@.len(),
            parts == maker_wires(makers@),
            out@ == start + joined(parts.take(i as int)),
            first_maker_refusal(makers@.take(i as int)) is None,
        decreases makers@.len() - i,
    {
        proof {
            maker_refusal_at(makers@, i as int);
        }
        match put_maker(out, &makers[i]) {
            Err(e) => {
                return Err(e);
            },
            Ok(_) => {},
        }
        proof {
            joined_step(parts, i as int);
            assert(out@ =~= start + joined(parts.take(i as int + 1)));
        }
        i = i + 1;
    }
    assert(parts.take(i as int) =~= parts);
    assert(makers@.take(i as int) =~= makers@);
    Ok(())
}

/// What holds of a list up to a place decides the first refusal.
proof fn maker_refusal_at(values: Seq<MakerProof>, at: int)
    requires
        0 <= at < values.len(),
        first_maker_refusal(values.take(at)) is None,
    ensures
        values[at].refusal() is Some ==> first_maker_refusal(values) == values[at].refusal(),
        first_maker_refusal(values.take(at + 1)) == values[at].refusal(),
    decreases values.len(),
{
    assert(values.take(at + 1).drop_last() =~= values.take(at));
    if at < values.len() - 1 {
        assert(values.drop_last().take(at) =~= values.take(at));
        maker_refusal_at(values.drop_last(), at);
    } else {
        assert(values.take(at) =~= values.drop_last());
    }
}

fn put_ranges(out: &mut Vec<u8>, ranges: &Vec<ThresholdRangeProof>) -> (r: Result<(), String>)
    ensures
        match r {
            Ok(_) => (forall|i: int| 0 <= i < ranges@.len() ==> (#[trigger] ranges@[i]).bounded()) && final(out)@
                == old(out)@ + joined(range_wires(ranges@)),
            Err(e) => (exists|i: int| 0 <= i < ranges@.len() && !(#[trigger] ranges@[i]).bounded()) && e@
                == "threshold range proof shape is outside the wire bound"@,
        },
{
    let ghost parts = range_wires(ranges@);
    let ghost start = out@;
    let mut i: usize = 0;
    assert(out@ =~= start + joined(parts.take(0)));
    while i < ranges.len()
        invariant
            i <= ranges@.len(),
            parts == range_wires(ranges@),
            out@ == start + joined(parts.take(i as int)),
            forall|j: int| 0 <= j < i ==> (#[trigger] ranges@[j]).bounded(),
        decreases ranges@.len() - i,
    {
        match put_sized_range(out, &ranges[i]) {
            Err(e) => {
                assert(!ranges@[i as int].bounded());
                return Err(e);
            },
            Ok(_) => {},
        }
        proof {
            joined_step(parts, i as int);
            assert(out@ =~= start + joined(parts.take(i as int + 1)));
        }
        i = i + 1;
    }
    assert(parts.take(i as int) =~= parts);
    Ok(())
}

/// Encode the exact public quote statement and all proof elements that a
/// validator needs. The result contains no price-policy opening, inventory,
/// amount, price, or Shamir share.
pub fn encode_quote_verification<C: Fn(&QuoteVerificationBundle) -> Result<[u8; 32], String>>(
    value: &QuoteVerificationBundle,
    check: &C,
) -> (r: Result<Vec<u8>, String>)
    requires
        can_check(*check),
    ensures
        if !value.registry_ok() {
            r matches Err(e) && e@ == "quote registry size is outside the settlement bound"@
        } else {
            ||| (r matches Err(e) && checks(*check, *value, Err(e@)))
            ||| (exists|digest: Seq<u8>| checks(*check, *value, Ok(digest))) && match r {
                Ok(out) => value.encoded() == Ok::<Seq<u8>, Seq<char>>(out@),
                Err(e) => value.encoded() == Err::<Seq<u8>, Seq<char>>(e@),
            }
        },
{
    match value.verify(check) {
        Err(e) => {
            return Err(e);
        },
        Ok(digest) => {
            assert(checks(*check, *value, Ok(digest@)));
        },
    }
    let makers: usize = value.public.registry.len();
    if value.proof.maker_proofs.len() != makers || value.proof.key_commitments.len() != makers || makers
        > MAX_QUOTE_MAKERS {
        return Err("quote proof vectors do not match the bounded registry".to_owned());
    }
    let minimality = match &value.proof.minimality {
        MinimalityProof::Threshold(proofs) => proofs,
        MinimalityProof::Bulletproof => {
            return Err("single-prover minimality proof is forbidden in settlement evidence".to_owned());
        },
    };
    if minimality.len() != makers {
        return Err("quote proof has the wrong minimality population".to_owned());
    }
    if value.eligibility_bits > 0xffff {
        return Err("quote eligibility width exceeds the wire bound".to_owned());
    }
    if value.span_bits > 0xffff {
        return Err("quote span width exceeds the wire bound".to_owned());
    }
    if value.proof.winner_index > 0xffff {
        return Err("quote winner index exceeds the wire bound".to_owned());
    }
    let mut out: Vec<u8> = Vec::new();
    put(&mut out, "QOMMQPF1".as_bytes());
    put_be(&mut out, value.eligibility_bits as u64, 2);
    put_be(&mut out, value.span_bits as u64, 2);
    put(&mut out, value.context.as_slice());
    put_public(&mut out, &value.public);
    let ghost head = out@;
    put_be(&mut out, value.proof.winner_index as u64, 2);
    put_be(&mut out, value.proof.winner_value, 8);
    put_be(&mut out, makers as u64, 2);
    match put_makers(&mut out, &value.proof.maker_proofs) {
        Err(e) => {
            return Err(e);
        },
        Ok(_) => {},
    }
    put_opening(&mut out, &value.proof.winner_opening);
    put_be(&mut out, minimality.len() as u64, 2);
    match put_ranges(&mut out, minimality) {
        Err(e) => {
            return Err(e);
        },
        Ok(_) => {},
    }
    put_be(&mut out, value.proof.key_commitments.len() as u64, 2);
    put_points(&mut out, &value.proof.key_commitments);
    proof {
        assert(out@ =~= head + value.proof.wire());
        assert(out@ =~= value.wire());
    }
    if out.len() > MAX_QUOTE_BYTES {
        return Err("encoded quote proof exceeds the settlement transaction bound".to_owned());
    }
    Ok(out)
}

/// Where a policy ends, or why it is refused.
#[verifier::opaque]
pub open spec fn scan_policy(raw: Seq<u8>, at: int) -> Result<int, Seq<char>> {
    match scan_bytes(raw, at, 4, "maker asset"@) {
        Err(e) => Err(e),
        Ok(points) => scan_points(raw, points, 9),
    }
}

/// Where a list of policies ends, or why it is refused.
pub open spec fn scan_policies(raw: Seq<u8>, at: int, count: nat) -> Result<int, Seq<char>>
    decreases count,
{
    if count == 0 {
        Ok(at)
    } else {
        match scan_policies(raw, at, (count - 1) as nat) {
            Err(e) => Err(e),
            Ok(mid) => scan_policy(raw, mid),
        }
    }
}

/// Where a gate ends, or why it is refused.
#[verifier::opaque]
pub open spec fn scan_gate(raw: Seq<u8>, at: int) -> Result<int, Seq<char>> {
    match scan_points(raw, at, 1) {
        Err(e) => Err(e),
        Ok(products) => match scan_products(raw, products, 2) {
            Err(e) => Err(e),
            Ok(points) => scan_points(raw, points, 2),
        },
    }
}

/// Where a range proof of a quote ends, or why it is refused.
pub open spec fn scan_quote_range(raw: Seq<u8>, at: int) -> Result<int, Seq<char>> {
    scan_sized_range(raw, at, "threshold range proof length"@, "threshold range proof"@)
}

/// Where a maker's part ends, or why it is refused.
#[verifier::opaque]
pub open spec fn scan_maker(raw: Seq<u8>, at: int) -> Result<int, Seq<char>> {
    match scan_products(raw, at, 3) {
        Err(e) => Err(e),
        Ok(fits) => match scan_quote_range(raw, fits) {
            Err(e) => Err(e),
            Ok(fresh) => match scan_quote_range(raw, fresh) {
                Err(e) => Err(e),
                Ok(bits) => match scan_products(raw, bits, 2) {
                    Err(e) => Err(e),
                    Ok(fits_gate) => match scan_gate(raw, fits_gate) {
                        Err(e) => Err(e),
                        Ok(fresh_gate) => match scan_gate(raw, fresh_gate) {
                            Err(e) => Err(e),
                            Ok(conjunction) => match scan_products(raw, conjunction, 2) {
                                Err(e) => Err(e),
                                Ok(commitments) => scan_points(raw, commitments, 14),
                            },
                        },
                    },
                },
            },
        },
    }
}

/// Where a list of makers' parts ends, or why it is refused.
pub open spec fn scan_makers(raw: Seq<u8>, at: int, count: nat) -> Result<int, Seq<char>>
    decreases count,
{
    if count == 0 {
        Ok(at)
    } else {
        match scan_makers(raw, at, (count - 1) as nat) {
            Err(e) => Err(e),
            Ok(mid) => scan_maker(raw, mid),
        }
    }
}

/// Where a list of range proofs ends, or why it is refused.
pub open spec fn scan_ranges(raw: Seq<u8>, at: int, count: nat) -> Result<int, Seq<char>>
    decreases count,
{
    if count == 0 {
        Ok(at)
    } else {
        match scan_ranges(raw, at, (count - 1) as nat) {
            Err(e) => Err(e),
            Ok(mid) => scan_quote_range(raw, mid),
        }
    }
}

/// Where the fixed fields of a public statement end, or why they are refused.
#[verifier::opaque]
pub open spec fn scan_public_head(raw: Seq<u8>, at: int) -> Result<int, Seq<char>> {
    match scan_point(raw, at) {
        Err(e) => Err(e),
        Ok(p) => if p + 8 > raw.len() {
            Err("truncated quote time"@)
        } else if p + 16 > raw.len() {
            Err("truncated quote sentinel"@)
        } else if p + 24 > raw.len() {
            Err("truncated quote slot population"@)
        } else if p + 25 > raw.len() {
            Err("truncated quote direction"@)
        } else if p + 29 > raw.len() {
            Err("truncated quote asset"@)
        } else if p + 37 > raw.len() {
            Err("truncated quote reference price"@)
        } else if p + 69 > raw.len() {
            Err("truncated quote registry digest"@)
        } else if p + 101 > raw.len() {
            Err("truncated quote market digest"@)
        } else if p + 109 > raw.len() {
            Err("truncated quote slot"@)
        } else {
            Ok(p + 109)
        },
    }
}

/// Where a public statement ends and how many makers it has, or why it is refused.
#[verifier::opaque]
pub open spec fn scan_public(raw: Seq<u8>, at: int) -> Result<(int, nat), Seq<char>> {
    match scan_public_head(raw, at) {
        Err(e) => Err(e),
        Ok(count) => match scan_bytes(raw, count, 2, "quote maker count"@) {
            Err(e) => Err(e),
            Ok(registry) => {
                let makers = be_value(raw.subrange(count, registry));
                if makers == 0 || makers > MAX_QUOTE_MAKERS {
                    Err("quote registry size is outside the settlement bound"@)
                } else {
                    match scan_policies(raw, registry, makers) {
                        Err(e) => Err(e),
                        Ok(end) => Ok((end, makers)),
                    }
                }
            },
        },
    }
}

/// Where a count that must be `expected` ends, or why it is refused.
pub open spec fn scan_count(raw: Seq<u8>, at: int, what: Seq<char>, expected: nat, otherwise: Seq<char>) -> Result<
    int,
    Seq<char>,
> {
    match scan_bytes(raw, at, 2, what) {
        Err(e) => Err(e),
        Ok(end) => if be_value(raw.subrange(at, end)) != expected {
            Err(otherwise)
        } else {
            Ok(end)
        },
    }
}

/// Where the proof of a quote of some makers ends, or why it is refused.
#[verifier::opaque]
pub open spec fn scan_proof(raw: Seq<u8>, at: int, makers: nat) -> Result<int, Seq<char>> {
    match scan_bytes(raw, at, 2, "quote winner index"@) {
        Err(e) => Err(e),
        Ok(value) => match scan_bytes(raw, value, 8, "quote winner value"@) {
            Err(e) => Err(e),
            Ok(count) => match scan_count(
                raw,
                count,
                "quote maker-proof count"@,
                makers,
                "quote maker-proof population differs from its registry"@,
            ) {
                Err(e) => Err(e),
                Ok(parts) => match scan_makers(raw, parts, makers) {
                    Err(e) => Err(e),
                    Ok(opening) => match scan_opening(raw, opening) {
                        Err(e) => Err(e),
                        Ok(minimality) => scan_proof_tail(raw, minimality, makers),
                    },
                },
            },
        },
    }
}

/// Where the last two lists of the proof of a quote end, or why they are refused.
#[verifier::opaque]
pub open spec fn scan_proof_tail(raw: Seq<u8>, at: int, makers: nat) -> Result<int, Seq<char>> {
    match scan_count(
        raw,
        at,
        "quote minimality-proof count"@,
        makers,
        "quote minimality population differs from its registry"@,
    ) {
        Err(e) => Err(e),
        Ok(ranges) => match scan_ranges(raw, ranges, makers) {
            Err(e) => Err(e),
            Ok(count) => match scan_count(
                raw,
                count,
                "quote key-commitment count"@,
                makers,
                "quote key population differs from its registry"@,
            ) {
                Err(e) => Err(e),
                Ok(points) => scan_points(raw, points, makers),
            },
        },
    }
}

/// Whether a byte string is the encoding of quote evidence, or why it is refused.
#[verifier::opaque]
pub open spec fn scan_quote(raw: Seq<u8>) -> Result<int, Seq<char>> {
    if raw.len() == 0 || raw.len() > MAX_QUOTE_BYTES {
        Err("encoded quote proof is outside the settlement transaction bound"@)
    } else if raw.len() < 8 {
        Err("truncated quote-proof magic"@)
    } else if raw.subrange(0, 8) != text_bytes("QOMMQPF1"@) {
        Err("wrong threshold quote proof magic"@)
    } else if raw.len() < 10 {
        Err("truncated quote eligibility width"@)
    } else if raw.len() < 12 {
        Err("truncated quote span width"@)
    } else if raw.len() < 44 {
        Err("truncated quote transcript context"@)
    } else {
        match scan_public(raw, 44) {
            Err(e) => Err(e),
            Ok((end, makers)) => match scan_proof(raw, end, makers) {
                Err(e) => Err(e),
                Ok(last) => scan_end(raw, last),
            },
        }
    }
}

proof fn policies_stop(raw: Seq<u8>, at: int, done: nat, count: nat)
    requires
        done < count,
        scan_policies(raw, at, done + 1) is Err,
    ensures
        scan_policies(raw, at, count) == scan_policies(raw, at, done + 1),
    decreases count,
{
    if count > done + 1 {
        policies_stop(raw, at, done, (count - 1) as nat);
    }
}

proof fn makers_stop(raw: Seq<u8>, at: int, done: nat, count: nat)
    requires
        done < count,
        scan_makers(raw, at, done + 1) is Err,
    ensures
        scan_makers(raw, at, count) == scan_makers(raw, at, done + 1),
    decreases count,
{
    if count > done + 1 {
        makers_stop(raw, at, done, (count - 1) as nat);
    }
}

proof fn ranges_stop(raw: Seq<u8>, at: int, done: nat, count: nat)
    requires
        done < count,
        scan_ranges(raw, at, done + 1) is Err,
    ensures
        scan_ranges(raw, at, count) == scan_ranges(raw, at, done + 1),
    decreases count,
{
    if count > done + 1 {
        ranges_stop(raw, at, done, (count - 1) as nat);
    }
}

/// Two neighbouring stretches make one.
proof fn between_joins(a: Reader<'_>, b: Reader<'_>, c: Reader<'_>)
    requires
        a.raw@ == b.raw@,
        b.raw@ == c.raw@,
        a.at <= b.at <= c.at <= a.raw@.len(),
    ensures
        a.between(c) == a.between(b) + b.between(c),
{
    assert(a.between(c) =~= a.between(b) + b.between(c));
}

fn read_policy(reader: &mut Reader<'_>) -> (r: Result<RegisteredPolicy, String>)
    requires
        old(reader).inside(),
    ensures
        old(reader).did(
            *final(reader),
            scan_policy(old(reader).raw@, old(reader).at as int),
            match r {
                Ok(_) => None,
                Err(e) => Some(e@),
            },
        ),
        r matches Ok(p) ==> p.canonical() && p.wire() == old(reader).between(*final(reader)),
{
    proof {
        reveal(scan_policy);
        be_widths();
    }
    let asset: u64 = match reader.number(4, "maker asset") {
        Err(e) => {
            return Err(e);
        },
        Ok(asset) => asset,
    };
    proof {
        be_bytes_of_be_value(old(reader).between(*reader));
    }
    let ghost mid = *reader;
    let points = match reader.points(9) {
        Err(e) => {
            return Err(e);
        },
        Ok(points) => points,
    };
    let policy = RegisteredPolicy {
        maker_asset: asset as u32,
        ask_level: points[0],
        spread: points[1],
        slope: points[2],
        invcoef: points[3],
        inv: points[4],
        maxqty: points[5],
        expiry: points[6],
        active: points[7],
        use_ref: points[8],
    };
    proof {
        assert(policy.points() =~= points@);
        between_joins(*old(reader), mid, *reader);
    }
    Ok(policy)
}

fn read_policies(reader: &mut Reader<'_>, count: usize) -> (r: Result<Vec<RegisteredPolicy>, String>)
    requires
        old(reader).inside(),
    ensures
        old(reader).did(
            *final(reader),
            scan_policies(old(reader).raw@, old(reader).at as int, count as nat),
            match r {
                Ok(_) => None,
                Err(e) => Some(e@),
            },
        ),
        r matches Ok(values) ==> values@.len() == count && (forall|i: int|
            0 <= i < count ==> (#[trigger] values@[i]).canonical()) && joined(policy_wires(values@)) == old(
            reader,
        ).between(*final(reader)),
{
    let mut values: Vec<RegisteredPolicy> = Vec::new();
    let mut i: usize = 0;
    assert(joined(policy_wires(values@)) =~= old(reader).between(*reader));
    #[verifier::loop_isolation(false)]
    while i < count
        invariant
            i <= count,
            reader.raw@ == old(reader).raw@,
            reader.inside(),
            old(reader).at <= reader.at,
            scan_policies(old(reader).raw@, old(reader).at as int, i as nat) == Ok::<int, Seq<char>>(reader.at as int),
            values@.len() == i,
            forall|j: int| 0 <= j < i ==> (#[trigger] values@[j]).canonical(),
            joined(policy_wires(values@)) == old(reader).between(*reader),
        decreases count - i,
    {
        let ghost mid = *reader;
        match read_policy(reader) {
            Err(e) => {
                proof {
                    policies_stop(old(reader).raw@, old(reader).at as int, i as nat, count as nat);
                }
                return Err(e);
            },
            Ok(value) => {
                let ghost prior = values@;
                values.push(value);
                proof {
                    assert(policy_wires(values@).drop_last() =~= policy_wires(prior));
                    between_joins(*old(reader), mid, *reader);
                }
            },
        }
        i = i + 1;
    }
    Ok(values)
}

fn read_gate(reader: &mut Reader<'_>) -> (r: Result<Gate, String>)
    requires
        old(reader).inside(),
    ensures
        old(reader).did(
            *final(reader),
            scan_gate(old(reader).raw@, old(reader).at as int),
            match r {
                Ok(_) => None,
                Err(e) => Some(e@),
            },
        ),
        r matches Ok(g) ==> g.canonical() && g.bit_proof.shared() && g.wire() == old(reader).between(*final(reader)),
{
    proof {
        reveal(scan_gate);
    }
    let first = match reader.points(1) {
        Err(e) => {
            return Err(e);
        },
        Ok(points) => points,
    };
    let ghost a = *reader;
    let products = match reader.products(2) {
        Err(e) => {
            return Err(e);
        },
        Ok(products) => products,
    };
    let ghost b = *reader;
    let last = match reader.points(2) {
        Err(e) => {
            return Err(e);
        },
        Ok(points) => points,
    };
    let gate = Gate {
        commitment: first[0],
        bit_proof: BitValidityProof::Square(products[0]),
        product: products[1],
        product_commitment: last[0],
        witness_commitment: last[1],
    };
    proof {
        assert(first@ =~= seq![gate.commitment]);
        assert(last@ =~= seq![gate.product_commitment, gate.witness_commitment]);
        two_products(products@[0], products@[1]);
        assert(products@ =~= seq![products@[0], products@[1]]);
        between_joins(*old(reader), a, b);
        between_joins(*old(reader), b, *reader);
    }
    Ok(gate)
}

proof fn two_products(a: ProductProof, b: ProductProof)
    ensures
        joined(product_wires(seq![a, b])) == a.wire() + b.wire(),
{
    let parts = product_wires(seq![a, b]);
    assert(parts.drop_last() =~= product_wires(seq![a]));
    assert(product_wires(seq![a]).drop_last() =~= Seq::<Seq<u8>>::empty());
    reveal_with_fuel(joined, 3);
    assert(joined(parts) =~= a.wire() + b.wire());
}

proof fn three_products(a: ProductProof, b: ProductProof, c: ProductProof)
    ensures
        joined(product_wires(seq![a, b, c])) == a.wire() + b.wire() + c.wire(),
{
    let parts = product_wires(seq![a, b, c]);
    assert(parts.drop_last() =~= product_wires(seq![a, b]));
    two_products(a, b);
    assert(joined(parts) =~= a.wire() + b.wire() + c.wire());
}

fn read_maker(reader: &mut Reader<'_>) -> (r: Result<MakerProof, String>)
    requires
        old(reader).inside(),
    ensures
        old(reader).did(
            *final(reader),
            scan_maker(old(reader).raw@, old(reader).at as int),
            match r {
                Ok(_) => None,
                Err(e) => Some(e@),
            },
        ),
        r matches Ok(m) ==> m.canonical() && m.refusal() is None && m.wire() == old(reader).between(*final(reader)),
{
    proof {
        reveal(scan_maker);
        reveal(MakerProof::wire);
        reveal(MakerProof::canonical);
        reveal(MakerProof::refusal);
    }
    let first = match reader.products(3) {
        Err(e) => {
            return Err(e);
        },
        Ok(products) => products,
    };
    let ghost a = *reader;
    let fits = match reader.sized_range("threshold range proof length", "threshold range proof") {
        Err(e) => {
            return Err(e);
        },
        Ok(range) => range,
    };
    let ghost b = *reader;
    let fresh = match reader.sized_range("threshold range proof length", "threshold range proof") {
        Err(e) => {
            return Err(e);
        },
        Ok(range) => range,
    };
    let ghost c = *reader;
    let bits = match reader.products(2) {
        Err(e) => {
            return Err(e);
        },
        Ok(products) => products,
    };
    let ghost d = *reader;
    let fits_gate = match read_gate(reader) {
        Err(e) => {
            return Err(e);
        },
        Ok(gate) => gate,
    };
    let ghost e1 = *reader;
    let fresh_gate = match read_gate(reader) {
        Err(e) => {
            return Err(e);
        },
        Ok(gate) => gate,
    };
    let ghost f = *reader;
    let conjunction = match reader.products(2) {
        Err(e) => {
            return Err(e);
        },
        Ok(products) => products,
    };
    let ghost g = *reader;
    let points = match reader.points(14) {
        Err(e) => {
            return Err(e);
        },
        Ok(points) => points,
    };
    let maker = MakerProof {
        depth: first[0],
        skew: first[1],
        gate_cost: first[2],
        eligibility: EligibilityProof::Threshold { fits, fresh },
        active_bit: BitValidityProof::Square(bits[0]),
        reference_bit: BitValidityProof::Square(bits[1]),
        fits_gate,
        fresh_gate,
        conjunction: (conjunction[0], conjunction[1]),
        commitments: MakerCommitments {
            slope: points[0],
            invcoef: points[1],
            inv: points[2],
            depth: points[3],
            skew: points[4],
            fits: points[5],
            fresh: points[6],
            active: points[7],
            ok: points[8],
            fresh_strict: points[9],
            both: points[10],
            cost: points[11],
            gated: points[12],
            shifted_cost: points[13],
        },
    };
    proof {
        assert(maker.commitments.points() =~= points@);
        three_products(first@[0], first@[1], first@[2]);
        assert(first@ =~= seq![first@[0], first@[1], first@[2]]);
        two_products(bits@[0], bits@[1]);
        assert(bits@ =~= seq![bits@[0], bits@[1]]);
        two_products(conjunction@[0], conjunction@[1]);
        assert(conjunction@ =~= seq![conjunction@[0], conjunction@[1]]);
        between_joins(a, b, c);
        assert(maker.eligibility_wire() == a.between(c));
        let start = *old(reader);
        between_joins(start, a, c);
        between_joins(start, c, d);
        between_joins(start, d, e1);
        between_joins(start, e1, f);
        between_joins(start, f, g);
        between_joins(start, g, *reader);
        assert(maker.wire() == start.between(*reader));
    }
    Ok(maker)
}

fn read_makers(reader: &mut Reader<'_>, count: usize) -> (r: Result<Vec<MakerProof>, String>)
    requires
        old(reader).inside(),
    ensures
        old(reader).did(
            *final(reader),
            scan_makers(old(reader).raw@, old(reader).at as int, count as nat),
            match r {
                Ok(_) => None,
                Err(e) => Some(e@),
            },
        ),
        r matches Ok(values) ==> values@.len() == count && (forall|i: int|
            0 <= i < count ==> (#[trigger] values@[i]).canonical() && values@[i].refusal() is None) && joined(
            maker_wires(values@),
        ) == old(reader).between(*final(reader)),
{
    let mut values: Vec<MakerProof> = Vec::new();
    let mut i: usize = 0;
    assert(joined(maker_wires(values@)) =~= old(reader).between(*reader));
    #[verifier::loop_isolation(false)]
    while i < count
        invariant
            i <= count,
            reader.raw@ == old(reader).raw@,
            reader.inside(),
            old(reader).at <= reader.at,
            scan_makers(old(reader).raw@, old(reader).at as int, i as nat) == Ok::<int, Seq<char>>(reader.at as int),
            values@.len() == i,
            forall|j: int| 0 <= j < i ==> (#[trigger] values@[j]).canonical() && values@[j].refusal() is None,
            joined(maker_wires(values@)) == old(reader).between(*reader),
        decreases count - i,
    {
        let ghost mid = *reader;
        match read_maker(reader) {
            Err(e) => {
                proof {
                    makers_stop(old(reader).raw@, old(reader).at as int, i as nat, count as nat);
                }
                return Err(e);
            },
            Ok(value) => {
                let ghost prior = values@;
                values.push(value);
                proof {
                    assert(maker_wires(values@).drop_last() =~= maker_wires(prior));
                    between_joins(*old(reader), mid, *reader);
                }
            },
        }
        i = i + 1;
    }
    Ok(values)
}

fn read_ranges(reader: &mut Reader<'_>, count: usize) -> (r: Result<Vec<ThresholdRangeProof>, String>)
    requires
        old(reader).inside(),
    ensures
        old(reader).did(
            *final(reader),
            scan_ranges(old(reader).raw@, old(reader).at as int, count as nat),
            match r {
                Ok(_) => None,
                Err(e) => Some(e@),
            },
        ),
        r matches Ok(values) ==> values@.len() == count && (forall|i: int|
            0 <= i < count ==> (#[trigger] values@[i]).canonical() && values@[i].bounded()) && joined(
            range_wires(values@),
        ) == old(reader).between(*final(reader)),
{
    let mut values: Vec<ThresholdRangeProof> = Vec::new();
    let mut i: usize = 0;
    assert(joined(range_wires(values@)) =~= old(reader).between(*reader));
    #[verifier::loop_isolation(false)]
    while i < count
        invariant
            i <= count,
            reader.raw@ == old(reader).raw@,
            reader.inside(),
            old(reader).at <= reader.at,
            scan_ranges(old(reader).raw@, old(reader).at as int, i as nat) == Ok::<int, Seq<char>>(reader.at as int),
            values@.len() == i,
            forall|j: int| 0 <= j < i ==> (#[trigger] values@[j]).canonical() && values@[j].bounded(),
            joined(range_wires(values@)) == old(reader).between(*reader),
        decreases count - i,
    {
        let ghost mid = *reader;
        match reader.sized_range("threshold range proof length", "threshold range proof") {
            Err(e) => {
                proof {
                    ranges_stop(old(reader).raw@, old(reader).at as int, i as nat, count as nat);
                }
                return Err(e);
            },
            Ok(value) => {
                let ghost prior = values@;
                values.push(value);
                proof {
                    assert(range_wires(values@).drop_last() =~= range_wires(prior));
                    between_joins(*old(reader), mid, *reader);
                }
            },
        }
        i = i + 1;
    }
    Ok(values)
}

fn read_count(reader: &mut Reader<'_>, what: &str, expected: usize, otherwise: &str) -> (r: Result<(), String>)
    requires
        old(reader).inside(),
    ensures
        old(reader).did(
            *final(reader),
            scan_count(old(reader).raw@, old(reader).at as int, what@, expected as nat, otherwise@),
            match r {
                Ok(_) => None,
                Err(e) => Some(e@),
            },
        ),
        r is Ok ==> be_bytes(expected as nat, 2) == old(reader).between(*final(reader)),
{
    match reader.number(2, what) {
        Err(e) => Err(e),
        Ok(count) => if count != expected as u64 {
            Err(otherwise.to_owned())
        } else {
            Ok(())
        },
    }
}

/// The fixed fields of a public statement.
struct PublicHead {
    qty_commitment: Point,
    now: i64,
    sentinel: i64,
    n_slots: i64,
    direction: u8,
    asset: u32,
    reference_price: i64,
    registry_digest: [u8; 32],
    market_digest: [u8; 32],
    slot: u64,
}

impl PublicHead {
    spec fn wire(self) -> Seq<u8> {
        self.qty_commitment@ + be_bytes(signed_bits(self.now as int), 8) + be_bytes(
            signed_bits(self.sentinel as int),
            8,
        ) + be_bytes(signed_bits(self.n_slots as int), 8) + be_bytes(self.direction as nat, 1) + be_bytes(
            self.asset as nat,
            4,
        ) + be_bytes(signed_bits(self.reference_price as int), 8) + self.registry_digest@ + self.market_digest@
            + be_bytes(self.slot as nat, 8)
    }
}

fn read_public_head(reader: &mut Reader<'_>) -> (r: Result<PublicHead, String>)
    requires
        old(reader).inside(),
    ensures
        old(reader).did(
            *final(reader),
            scan_public_head(old(reader).raw@, old(reader).at as int),
            match r {
                Ok(_) => None,
                Err(e) => Some(e@),
            },
        ),
        r matches Ok(h) ==> is_point(h.qty_commitment@) && h.wire() == old(reader).between(*final(reader)),
{
    let total: usize = reader.raw.len();
    proof {
        reveal(scan_public_head);
        be_widths();
    }
    let ghost start = *reader;
    let qty_commitment = match reader.point() {
        Err(e) => {
            return Err(e);
        },
        Ok(point) => point,
    };
    let ghost a = *reader;
    let left: usize = total - reader.at;
    if left < 8 {
        return Err("truncated quote time".to_owned());
    } else if left < 16 {
        return Err("truncated quote sentinel".to_owned());
    } else if left < 24 {
        return Err("truncated quote slot population".to_owned());
    } else if left < 25 {
        return Err("truncated quote direction".to_owned());
    } else if left < 29 {
        return Err("truncated quote asset".to_owned());
    } else if left < 37 {
        return Err("truncated quote reference price".to_owned());
    } else if left < 69 {
        return Err("truncated quote registry digest".to_owned());
    } else if left < 101 {
        return Err("truncated quote market digest".to_owned());
    } else if left < 109 {
        return Err("truncated quote slot".to_owned());
    }
    let at: usize = reader.at;
    let raw = reader.raw;
    proof {
        be_bytes_of_be_value(raw@.subrange(at as int, at + 8));
        be_bytes_of_be_value(raw@.subrange(at + 8, at + 16));
        be_bytes_of_be_value(raw@.subrange(at + 16, at + 24));
        be_bytes_of_be_value(raw@.subrange(at + 24, at + 25));
        be_bytes_of_be_value(raw@.subrange(at + 25, at + 29));
        be_bytes_of_be_value(raw@.subrange(at + 29, at + 37));
        be_bytes_of_be_value(raw@.subrange(at + 101, at + 109));
    }
    let head = PublicHead {
        qty_commitment,
        now: from_bits(read_be(raw, at, 8)),
        sentinel: from_bits(read_be(raw, at + 8, 8)),
        n_slots: from_bits(read_be(raw, at + 16, 8)),
        direction: read_be(raw, at + 24, 1) as u8,
        asset: read_be(raw, at + 25, 4) as u32,
        reference_price: from_bits(read_be(raw, at + 29, 8)),
        registry_digest: array32(raw, at + 37),
        market_digest: array32(raw, at + 69),
        slot: read_be(raw, at + 101, 8),
    };
    reader.at = at + 109;
    assert(head.wire() =~= start.between(*reader));
    Ok(head)
}

fn read_public(reader: &mut Reader<'_>) -> (r: Result<QuotePublic, String>)
    requires
        old(reader).inside(),
    ensures
        final(reader).raw@ == old(reader).raw@,
        match r {
            Ok(public) => {
                &&& scan_public(old(reader).raw@, old(reader).at as int) == Ok::<(int, nat), Seq<char>>(
                    (final(reader).at as int, public.registry@.len()),
                )
                &&& final(reader).inside()
                &&& old(reader).at <= final(reader).at
                &&& public.canonical()
                &&& 0 < public.registry@.len() <= MAX_QUOTE_MAKERS
                &&& public.wire() == old(reader).between(*final(reader))
            },
            Err(e) => scan_public(old(reader).raw@, old(reader).at as int) == Err::<(int, nat), Seq<char>>(e@),
        },
{
    proof {
        reveal(scan_public);
    }
    let ghost start = *reader;
    let head = match read_public_head(reader) {
        Err(e) => {
            return Err(e);
        },
        Ok(head) => head,
    };
    let ghost a = *reader;
    let makers: u64 = match reader.number(2, "quote maker count") {
        Err(e) => {
            return Err(e);
        },
        Ok(makers) => makers,
    };
    let ghost b = *reader;
    if makers == 0 || makers > MAX_QUOTE_MAKERS as u64 {
        return Err("quote registry size is outside the settlement bound".to_owned());
    }
    let registry = match read_policies(reader, makers as usize) {
        Err(e) => {
            return Err(e);
        },
        Ok(registry) => registry,
    };
    let public = QuotePublic {
        qty_commitment: head.qty_commitment,
        now: head.now,
        sentinel: head.sentinel,
        n_slots: head.n_slots,
        direction: head.direction,
        asset: head.asset,
        reference_price: head.reference_price,
        registry,
        registry_digest: head.registry_digest,
        market_digest: head.market_digest,
        slot: head.slot,
    };
    proof {
        assert(public.head() == head.wire());
        between_joins(start, a, b);
        between_joins(start, b, *reader);
    }
    Ok(public)
}

fn read_proof(reader: &mut Reader<'_>, makers: usize) -> (r: Result<QuoteProof, String>)
    requires
        old(reader).inside(),
    ensures
        old(reader).did(
            *final(reader),
            scan_proof(old(reader).raw@, old(reader).at as int, makers as nat),
            match r {
                Ok(_) => None,
                Err(e) => Some(e@),
            },
        ),
        r matches Ok(p) ==> {
            &&& p.canonical()
            &&& p.minimality is Threshold
            &&& p.winner_index <= u16::MAX
            &&& p.maker_proofs@.len() == makers
            &&& p.minimality_proofs().len() == makers
            &&& p.key_commitments@.len() == makers
            &&& forall|i: int| 0 <= i < makers ==> (#[trigger] p.maker_proofs@[i]).refusal() is None
            &&& forall|i: int| 0 <= i < makers ==> (#[trigger] p.minimality_proofs()[i]).bounded()
            &&& p.wire() == old(reader).between(*final(reader))
        },
{
    proof {
        reveal(scan_proof);
        reveal(scan_proof_tail);
        be_widths();
    }
    let ghost start = *reader;
    let winner_index: u64 = match reader.number(2, "quote winner index") {
        Err(e) => {
            return Err(e);
        },
        Ok(index) => index,
    };
    let ghost a = *reader;
    proof {
        be_bytes_of_be_value(start.between(a));
    }
    let winner_value: u64 = match reader.number(8, "quote winner value") {
        Err(e) => {
            return Err(e);
        },
        Ok(value) => value,
    };
    let ghost b = *reader;
    match read_count(
        reader,
        "quote maker-proof count",
        makers,
        "quote maker-proof population differs from its registry",
    ) {
        Err(e) => {
            return Err(e);
        },
        Ok(_) => {},
    }
    let ghost c = *reader;
    let maker_proofs = match read_makers(reader, makers) {
        Err(e) => {
            return Err(e);
        },
        Ok(values) => values,
    };
    let ghost d = *reader;
    let winner_opening = match reader.opening() {
        Err(e) => {
            return Err(e);
        },
        Ok(opening) => opening,
    };
    let ghost e1 = *reader;
    match read_count(
        reader,
        "quote minimality-proof count",
        makers,
        "quote minimality population differs from its registry",
    ) {
        Err(e) => {
            return Err(e);
        },
        Ok(_) => {},
    }
    let ghost f = *reader;
    let minimality = match read_ranges(reader, makers) {
        Err(e) => {
            return Err(e);
        },
        Ok(values) => values,
    };
    let ghost g = *reader;
    match read_count(
        reader,
        "quote key-commitment count",
        makers,
        "quote key population differs from its registry",
    ) {
        Err(e) => {
            return Err(e);
        },
        Ok(_) => {},
    }
    let ghost h = *reader;
    let key_commitments = match reader.points(makers) {
        Err(e) => {
            return Err(e);
        },
        Ok(points) => points,
    };
    let proof_read = QuoteProof {
        winner_index: winner_index as usize,
        winner_value,
        maker_proofs,
        winner_opening,
        minimality: MinimalityProof::Threshold(minimality),
        key_commitments,
    };
    proof {
        between_joins(start, a, b);
        between_joins(start, b, c);
        between_joins(start, c, d);
        between_joins(start, d, e1);
        between_joins(start, e1, f);
        between_joins(start, f, g);
        between_joins(start, g, h);
        between_joins(start, h, *reader);
        assert(proof_read.wire() == start.between(*reader));
    }
    Ok(proof_read)
}

/// A list of parts that can all stand has no first refusal.
proof fn no_maker_refusal(values: Seq<MakerProof>)
    requires
        forall|i: int| 0 <= i < values.len() ==> (#[trigger] values[i]).refusal() is None,
    ensures
        first_maker_refusal(values) is None,
    decreases values.len(),
{
    if values.len() > 0 {
        assert forall|i: int| 0 <= i < values.len() - 1 implies (#[trigger] values.drop_last()[i]).refusal() is None by {
            assert(values[i].refusal() is None);
        }
        no_maker_refusal(values.drop_last());
    }
}

/// Decode and immediately verify threshold quote evidence. Returning an object
/// is therefore also evidence that its canonical digest was recomputed from
/// the complete statement, rather than trusted from the submitter.
pub fn decode_quote_verification<C: Fn(&QuoteVerificationBundle) -> Result<[u8; 32], String>>(
    raw: &[u8],
    check: &C,
) -> (r: Result<QuoteVerificationBundle, String>)
    requires
        can_check(*check),
    ensures
        match r {
            Ok(bundle) => {
                &&& scan_quote(raw@) == Ok::<int, Seq<char>>(raw@.len() as int)
                &&& bundle.canonical()
                &&& bundle.registry_ok()
                &&& bundle.wire() == raw@
                &&& bundle.encoded() == Ok::<Seq<u8>, Seq<char>>(raw@)
                &&& exists|digest: Seq<u8>| checks(*check, bundle, Ok(digest))
            },
            Err(e) => {
                ||| scan_quote(raw@) == Err::<int, Seq<char>>(e@)
                ||| scan_quote(raw@) == Ok::<int, Seq<char>>(raw@.len() as int)
                    && exists|bundle: QuoteVerificationBundle|
                    bundle.wire() == raw@ && bundle.canonical() && #[trigger] checks(*check, bundle, Err(e@))
            },
        },
{
    proof {
        reveal(scan_quote);
        reveal_strlit("QOMMQPF1");
        ascii_width("QOMMQPF1"@);
        be_widths();
    }
    let total: usize = raw.len();
    if total == 0 || total > MAX_QUOTE_BYTES {
        return Err("encoded quote proof is outside the settlement transaction bound".to_owned());
    }
    if total < 8 {
        return Err("truncated quote-proof magic".to_owned());
    }
    if !same(&raw[0..8], "QOMMQPF1".as_bytes()) {
        return Err("wrong threshold quote proof magic".to_owned());
    }
    if total < 10 {
        return Err("truncated quote eligibility width".to_owned());
    }
    if total < 12 {
        return Err("truncated quote span width".to_owned());
    }
    if total < 44 {
        return Err("truncated quote transcript context".to_owned());
    }
    proof {
        be_bytes_of_be_value(raw@.subrange(8, 10));
        be_bytes_of_be_value(raw@.subrange(10, 12));
    }
    let eligibility_bits = read_be(raw, 8, 2) as usize;
    let span_bits = read_be(raw, 10, 2) as usize;
    let context = array32(raw, 12);
    let mut reader = Reader { raw, at: 44 };
    let ghost a = reader;
    let public = match read_public(&mut reader) {
        Err(e) => {
            return Err(e);
        },
        Ok(public) => public,
    };
    let ghost b = reader;
    let proof_read = match read_proof(&mut reader, public.registry.len()) {
        Err(e) => {
            return Err(e);
        },
        Ok(value) => value,
    };
    let ghost c = reader;
    match reader.finish() {
        Err(e) => {
            return Err(e);
        },
        Ok(_) => {},
    }
    let bundle = QuoteVerificationBundle { context, eligibility_bits, span_bits, public, proof: proof_read };
    proof {
        assert(bundle.wire() =~= raw@.subrange(0, 8) + raw@.subrange(8, 10) + raw@.subrange(10, 12) + raw@.subrange(
            12,
            44,
        ) + a.between(b) + b.between(c));
        assert(bundle.wire() =~= raw@);
        no_maker_refusal(bundle.proof.maker_proofs@);
    }
    match bundle.verify(check) {
        Err(e) => {
            assert(checks(*check, bundle, Err(e@)));
            Err(e)
        },
        Ok(digest) => {
            assert(checks(*check, bundle, Ok(digest@)));
            Ok(bundle)
        },
    }
}

proof fn policies_accepted(raw: Seq<u8>, at: int, values: Seq<RegisteredPolicy>)
    requires
        holds(raw, at, joined(policy_wires(values))),
        forall|i: int| 0 <= i < values.len() ==> (#[trigger] values[i]).canonical(),
    ensures
        scan_policies(raw, at, values.len()) == Ok::<int, Seq<char>>(at + joined(policy_wires(values)).len()),
    decreases values.len(),
{
    let parts = policy_wires(values);
    if values.len() > 0 {
        assert(parts.drop_last() =~= policy_wires(values.drop_last()));
        holds_both(raw, at, joined(parts.drop_last()), parts.last());
        policies_accepted(raw, at, values.drop_last());
        let mid = at + joined(parts.drop_last()).len();
        let value = values.last();
        be_bytes_width(value.maker_asset as nat, 4);
        holds_both(raw, mid, be_bytes(value.maker_asset as nat, 4), joined(point_bytes(value.points())));
        points_accepted(raw, mid + 4, value.points());
        reveal(scan_policy);
    }
}

proof fn gate_accepted(raw: Seq<u8>, at: int, value: Gate)
    requires
        holds(raw, at, value.wire()),
        value.canonical(),
        value.bit_proof.shared(),
    ensures
        scan_gate(raw, at) == Ok::<int, Seq<char>>(at + value.wire().len()),
{
    let first = seq![value.commitment];
    let last = seq![value.product_commitment, value.witness_commitment];
    let middle = seq![value.bit_proof->Square_0, value.product];
    two_products(value.bit_proof->Square_0, value.product);
    let a = joined(point_bytes(first));
    let b = joined(product_wires(middle));
    let c = joined(point_bytes(last));
    assert(value.wire() == a + b + c);
    holds_both(raw, at, a + b, c);
    holds_both(raw, at, a, b);
    points_accepted(raw, at, first);
    products_accepted(raw, at + a.len(), middle);
    points_accepted(raw, at + a.len() + b.len(), last);
    reveal(scan_gate);
}

proof fn maker_accepted(raw: Seq<u8>, at: int, value: MakerProof)
    requires
        holds(raw, at, value.wire()),
        value.canonical(),
        value.refusal() is None,
    ensures
        scan_maker(raw, at) == Ok::<int, Seq<char>>(at + value.wire().len()),
{
    reveal(MakerProof::wire);
    reveal(MakerProof::canonical);
    reveal(MakerProof::refusal);
    reveal(scan_maker);
    let fits = value.eligibility->fits;
    let fresh = value.eligibility->fresh;
    let first = seq![value.depth, value.skew, value.gate_cost];
    let bits = seq![value.active_bit->Square_0, value.reference_bit->Square_0];
    let conjunction = seq![value.conjunction.0, value.conjunction.1];
    three_products(value.depth, value.skew, value.gate_cost);
    two_products(value.active_bit->Square_0, value.reference_bit->Square_0);
    two_products(value.conjunction.0, value.conjunction.1);
    range_wire_width(fits);
    range_wire_width(fresh);
    be_bytes_width(fits.wire().len(), 4);
    be_bytes_width(fresh.wire().len(), 4);
    let a = joined(product_wires(first));
    let b = sized_range_wire(fits);
    let c = sized_range_wire(fresh);
    let d = joined(product_wires(bits));
    let e = value.fits_gate.wire();
    let f = value.fresh_gate.wire();
    let g = joined(product_wires(conjunction));
    let h = joined(point_bytes(value.commitments.points()));
    assert(value.wire() == a + (b + c) + d + e + f + g + h);
    holds_both(raw, at, a + (b + c) + d + e + f + g, h);
    holds_both(raw, at, a + (b + c) + d + e + f, g);
    holds_both(raw, at, a + (b + c) + d + e, f);
    holds_both(raw, at, a + (b + c) + d, e);
    holds_both(raw, at, a + (b + c), d);
    holds_both(raw, at, a, b + c);
    holds_both(raw, at + a.len(), b, c);
    products_accepted(raw, at, first);
    let p1 = at + a.len();
    sized_range_accepted(raw, p1, fits, "threshold range proof length"@, "threshold range proof"@);
    let p2 = p1 + b.len();
    sized_range_accepted(raw, p2, fresh, "threshold range proof length"@, "threshold range proof"@);
    let p3 = p2 + c.len();
    products_accepted(raw, p3, bits);
    let p4 = p3 + d.len();
    gate_accepted(raw, p4, value.fits_gate);
    let p5 = p4 + e.len();
    gate_accepted(raw, p5, value.fresh_gate);
    let p6 = p5 + f.len();
    products_accepted(raw, p6, conjunction);
    points_accepted(raw, p6 + g.len(), value.commitments.points());
}

proof fn makers_accepted(raw: Seq<u8>, at: int, values: Seq<MakerProof>)
    requires
        holds(raw, at, joined(maker_wires(values))),
        forall|i: int| 0 <= i < values.len() ==> (#[trigger] values[i]).canonical(),
        first_maker_refusal(values) is None,
    ensures
        scan_makers(raw, at, values.len()) == Ok::<int, Seq<char>>(at + joined(maker_wires(values)).len()),
    decreases values.len(),
{
    let parts = maker_wires(values);
    if values.len() > 0 {
        assert(parts.drop_last() =~= maker_wires(values.drop_last()));
        holds_both(raw, at, joined(parts.drop_last()), parts.last());
        makers_accepted(raw, at, values.drop_last());
        maker_accepted(raw, at + joined(parts.drop_last()).len(), values.last());
    }
}

proof fn ranges_accepted(raw: Seq<u8>, at: int, values: Seq<ThresholdRangeProof>)
    requires
        holds(raw, at, joined(range_wires(values))),
        forall|i: int| 0 <= i < values.len() ==> (#[trigger] values[i]).canonical(),
        forall|i: int| 0 <= i < values.len() ==> (#[trigger] values[i]).bounded(),
    ensures
        scan_ranges(raw, at, values.len()) == Ok::<int, Seq<char>>(at + joined(range_wires(values)).len()),
    decreases values.len(),
{
    let parts = range_wires(values);
    if values.len() > 0 {
        assert(parts.drop_last() =~= range_wires(values.drop_last()));
        holds_both(raw, at, joined(parts.drop_last()), parts.last());
        ranges_accepted(raw, at, values.drop_last());
        let value = values.last();
        range_wire_width(value);
        be_bytes_width(value.wire().len(), 4);
        sized_range_accepted(
            raw,
            at + joined(parts.drop_last()).len(),
            value,
            "threshold range proof length"@,
            "threshold range proof"@,
        );
    }
}

proof fn public_accepted(raw: Seq<u8>, at: int, value: QuotePublic)
    requires
        holds(raw, at, value.wire()),
        value.canonical(),
        0 < value.registry@.len() <= MAX_QUOTE_MAKERS,
    ensures
        scan_public(raw, at) == Ok::<(int, nat), Seq<char>>((at + value.wire().len(), value.registry@.len())),
{
    reveal(scan_public);
    reveal(scan_public_head);
    be_widths();
    let n = value.registry@.len();
    be_bytes_width(n, 2);
    be_value_of_be_bytes(n, 2);
    be_bytes_width(signed_bits(value.now as int), 8);
    be_bytes_width(signed_bits(value.sentinel as int), 8);
    be_bytes_width(signed_bits(value.n_slots as int), 8);
    be_bytes_width(value.direction as nat, 1);
    be_bytes_width(value.asset as nat, 4);
    be_bytes_width(signed_bits(value.reference_price as int), 8);
    be_bytes_width(value.slot as nat, 8);
    let tail = joined(policy_wires(value.registry@));
    holds_both(raw, at, value.head() + be_bytes(n, 2), tail);
    holds_both(raw, at, value.head(), be_bytes(n, 2));
    assert(value.head().len() == 141);
    assert(raw.subrange(at, at + 32) =~= value.head().subrange(0, 32)) by {
        assert(raw.subrange(at, at + 141) == value.head());
        assert(raw.subrange(at, at + 141).subrange(0, 32) =~= raw.subrange(at, at + 32));
    }
    assert(value.head().subrange(0, 32) =~= value.qty_commitment@);
    policies_accepted(raw, at + 143, value.registry@);
}

proof fn proof_accepted(raw: Seq<u8>, at: int, value: QuoteProof, makers: nat)
    requires
        holds(raw, at, value.wire()),
        value.canonical(),
        makers <= MAX_QUOTE_MAKERS,
        value.maker_proofs@.len() == makers,
        value.minimality_proofs().len() == makers,
        value.key_commitments@.len() == makers,
        first_maker_refusal(value.maker_proofs@) is None,
        forall|i: int| 0 <= i < makers ==> (#[trigger] value.minimality_proofs()[i]).bounded(),
    ensures
        scan_proof(raw, at, makers) == Ok::<int, Seq<char>>(at + value.wire().len()),
{
    reveal(scan_proof);
    reveal(scan_proof_tail);
    be_widths();
    be_bytes_width(value.winner_index as nat, 2);
    be_bytes_width(value.winner_value as nat, 8);
    be_bytes_width(makers, 2);
    be_value_of_be_bytes(makers, 2);
    let a = be_bytes(value.winner_index as nat, 2);
    let b = be_bytes(value.winner_value as nat, 8);
    let c = be_bytes(makers, 2);
    let d = joined(maker_wires(value.maker_proofs@));
    let e = value.winner_opening.wire();
    let g = joined(range_wires(value.minimality_proofs()));
    let h = joined(point_bytes(value.key_commitments@));
    assert(value.wire() == a + b + c + d + e + c + g + c + h);
    holds_both(raw, at, a + b + c + d + e + c + g + c, h);
    holds_both(raw, at, a + b + c + d + e + c + g, c);
    holds_both(raw, at, a + b + c + d + e + c, g);
    holds_both(raw, at, a + b + c + d + e, c);
    holds_both(raw, at, a + b + c + d, e);
    holds_both(raw, at, a + b + c, d);
    holds_both(raw, at, a + b, c);
    holds_both(raw, at, a, b);
    let p1 = at + 12;
    makers_accepted(raw, p1, value.maker_proofs@);
    let p2 = p1 + d.len();
    opening_accepted(raw, p2, value.winner_opening);
    let p3 = p2 + 96 + 2;
    ranges_accepted(raw, p3, value.minimality_proofs());
    let p4 = p3 + g.len() + 2;
    points_accepted(raw, p4, value.key_commitments@);
}

/// The encoding of quote evidence is accepted.
pub proof fn quote_wire_accepted(value: QuoteVerificationBundle)
    requires
        value.registry_ok(),
        value.canonical(),
        value.encoded() is Ok,
    ensures
        scan_quote(value.wire()) == Ok::<int, Seq<char>>(value.wire().len() as int),
{
    reveal(scan_quote);
    reveal_strlit("QOMMQPF1");
    ascii_width("QOMMQPF1"@);
    be_widths();
    be_bytes_width(value.eligibility_bits as nat, 2);
    be_bytes_width(value.span_bits as nat, 2);
    let raw = value.wire();
    assert(raw.subrange(0, raw.len() as int) =~= raw);
    let head = text_bytes("QOMMQPF1"@) + be_bytes(value.eligibility_bits as nat, 2) + be_bytes(
        value.span_bits as nat,
        2,
    ) + value.context@;
    holds_both(raw, 0, head + value.public.wire(), value.proof.wire());
    holds_both(raw, 0, head, value.public.wire());
    assert(raw.subrange(0, 8) =~= text_bytes("QOMMQPF1"@));
    public_accepted(raw, 44, value.public);
    proof_accepted(raw, 44 + value.public.wire().len() as int, value.proof, value.public.registry@.len());
}

} // verus!
