//! What the encodings of public proofs keep: two proofs with one encoding are the
//! same, so a proof that is read is the one that was written.

use vstd::prelude::*;
use crate::bytes::{be_bytes, be_bytes_width, be_value_of_be_bytes, be_widths, joined, joined_layout, text_bytes};
use crate::group::{point_bytes, Point, Scalar};
use crate::proof_codec::{product_wires, range_wire_width, DvpProofs, OpeningProof, ProductProof, ThresholdRangeProof};
use crate::quote_codec::{
    first_maker_refusal, maker_wires, policy_wires, range_wires, signed_bits, sized_range_wire, BitValidityProof,
    EligibilityProof, Gate, MakerProof, QuoteProof, QuotePublic, QuoteVerificationBundle, RegisteredPolicy,
};

verus! {

/// Two byte strings that begin with parts of one length begin with the same part.
proof fn parts_agree(a: Seq<u8>, x: Seq<u8>, b: Seq<u8>, y: Seq<u8>)
    requires
        a.len() == b.len(),
        a + x == b + y,
    ensures
        a == b,
        x == y,
{
    let s = a + x;
    let t = b + y;
    assert forall|i: int| 0 <= i < a.len() implies a[i] == b[i] by {
        assert(s[i] == a[i]);
        assert(t[i] == b[i]);
    }
    assert(a =~= b);
    assert(s.len() == a.len() + x.len());
    assert(t.len() == b.len() + y.len());
    assert forall|i: int| 0 <= i < x.len() implies x[i] == y[i] by {
        assert(s[a.len() + i] == x[i]);
        assert(t[a.len() + i] == y[i]);
    }
    assert(x =~= y);
}

/// Joining byte strings does not depend on the grouping.
proof fn associate(a: Seq<u8>, b: Seq<u8>, c: Seq<u8>)
    ensures
        a + b + c == a + (b + c),
{
    assert(a + b + c =~= a + (b + c));
}

/// Four parts, grouped from the right.
proof fn group_four(p1: Seq<u8>, p2: Seq<u8>, p3: Seq<u8>, x: Seq<u8>)
    ensures
        p1 + p2 + p3 + x == p1 + (p2 + (p3 + x)),
{
    associate(p1 + p2, p3, x);
    associate(p1, p2, p3 + x);
}

/// Six parts, grouped from the right.
proof fn group_six(p1: Seq<u8>, p2: Seq<u8>, p3: Seq<u8>, p4: Seq<u8>, p5: Seq<u8>, x: Seq<u8>)
    ensures
        p1 + p2 + p3 + p4 + p5 + x == p1 + (p2 + (p3 + (p4 + (p5 + x)))),
{
    associate(p1 + p2 + p3 + p4, p5, x);
    associate(p1 + p2 + p3, p4, p5 + x);
    associate(p1 + p2, p3, p4 + (p5 + x));
    associate(p1, p2, p3 + (p4 + (p5 + x)));
}

/// Nine parts, grouped from the right.
proof fn group_nine(
    p1: Seq<u8>,
    p2: Seq<u8>,
    p3: Seq<u8>,
    p4: Seq<u8>,
    p5: Seq<u8>,
    p6: Seq<u8>,
    p7: Seq<u8>,
    p8: Seq<u8>,
    x: Seq<u8>,
)
    ensures
        p1 + p2 + p3 + p4 + p5 + p6 + p7 + p8 + x == p1 + (p2 + (p3 + (p4 + (p5 + (p6 + (p7 + (p8 + x))))))),
{
    associate(p1 + p2 + p3 + p4 + p5 + p6 + p7, p8, x);
    associate(p1 + p2 + p3 + p4 + p5 + p6, p7, p8 + x);
    associate(p1 + p2 + p3 + p4 + p5, p6, p7 + (p8 + x));
    associate(p1 + p2 + p3 + p4, p5, p6 + (p7 + (p8 + x)));
    associate(p1 + p2 + p3, p4, p5 + (p6 + (p7 + (p8 + x))));
    associate(p1 + p2, p3, p4 + (p5 + (p6 + (p7 + (p8 + x)))));
    associate(p1, p2, p3 + (p4 + (p5 + (p6 + (p7 + (p8 + x))))));
}

/// Eleven parts, grouped from the right.
proof fn group_eleven(
    p1: Seq<u8>,
    p2: Seq<u8>,
    p3: Seq<u8>,
    p4: Seq<u8>,
    p5: Seq<u8>,
    p6: Seq<u8>,
    p7: Seq<u8>,
    p8: Seq<u8>,
    p9: Seq<u8>,
    p10: Seq<u8>,
    x: Seq<u8>,
)
    ensures
        p1 + p2 + p3 + p4 + p5 + p6 + p7 + p8 + p9 + p10 + x
            == p1 + (p2 + (p3 + (p4 + (p5 + (p6 + (p7 + (p8 + (p9 + (p10 + x))))))))),
{
    associate(p1 + p2 + p3 + p4 + p5 + p6 + p7 + p8 + p9, p10, x);
    associate(p1 + p2 + p3 + p4 + p5 + p6 + p7 + p8, p9, p10 + x);
    associate(p1 + p2 + p3 + p4 + p5 + p6 + p7, p8, p9 + (p10 + x));
    associate(p1 + p2 + p3 + p4 + p5 + p6, p7, p8 + (p9 + (p10 + x)));
    associate(p1 + p2 + p3 + p4 + p5, p6, p7 + (p8 + (p9 + (p10 + x))));
    associate(p1 + p2 + p3 + p4, p5, p6 + (p7 + (p8 + (p9 + (p10 + x)))));
    associate(p1 + p2 + p3, p4, p5 + (p6 + (p7 + (p8 + (p9 + (p10 + x))))));
    associate(p1 + p2, p3, p4 + (p5 + (p6 + (p7 + (p8 + (p9 + (p10 + x)))))));
    associate(p1, p2, p3 + (p4 + (p5 + (p6 + (p7 + (p8 + (p9 + (p10 + x))))))));
}

/// Two byte strings that begin with numbers of one width begin with the same number.
proof fn numbers_agree(a: nat, x: Seq<u8>, b: nat, y: Seq<u8>, width: nat)
    requires
        a < vstd::arithmetic::power::pow(256, width),
        b < vstd::arithmetic::power::pow(256, width),
        be_bytes(a, width) + x == be_bytes(b, width) + y,
    ensures
        a == b,
        x == y,
{
    be_bytes_width(a, width);
    be_bytes_width(b, width);
    parts_agree(be_bytes(a, width), x, be_bytes(b, width), y);
    be_value_of_be_bytes(a, width);
    be_value_of_be_bytes(b, width);
}

proof fn points_equal(a: Point, b: Point)
    requires
        a@ == b@,
    ensures
        a == b,
{
    assert(a.bytes =~= b.bytes);
}

proof fn scalars_equal(a: Scalar, b: Scalar)
    requires
        a@ == b@,
    ensures
        a == b,
{
    assert(a.bytes =~= b.bytes);
}

proof fn products_agree(a: ProductProof, x: Seq<u8>, b: ProductProof, y: Seq<u8>)
    requires
        a.wire() + x == b.wire() + y,
    ensures
        a == b,
        x == y,
{
    parts_agree(a.wire(), x, b.wire(), y);
    let a1 = a.t_factor@;
    let a2 = a.t_product@;
    let a3 = a.z_b@;
    let a4 = a.z_rb@;
    let a5 = a.z_s@;
    let b1 = b.t_factor@;
    let b2 = b.t_product@;
    let b3 = b.z_b@;
    let b4 = b.z_rb@;
    let b5 = b.z_s@;
    parts_agree(a1 + a2 + a3 + a4, a5, b1 + b2 + b3 + b4, b5);
    parts_agree(a1 + a2 + a3, a4, b1 + b2 + b3, b4);
    parts_agree(a1 + a2, a3, b1 + b2, b3);
    parts_agree(a1, a2, b1, b2);
    points_equal(a.t_factor, b.t_factor);
    points_equal(a.t_product, b.t_product);
    scalars_equal(a.z_b, b.z_b);
    scalars_equal(a.z_rb, b.z_rb);
    scalars_equal(a.z_s, b.z_s);
}

proof fn openings_agree(a: OpeningProof, x: Seq<u8>, b: OpeningProof, y: Seq<u8>)
    requires
        a.wire() + x == b.wire() + y,
    ensures
        a == b,
        x == y,
{
    parts_agree(a.wire(), x, b.wire(), y);
    parts_agree(a.t@ + a.z_value@, a.z_blinding@, b.t@ + b.z_value@, b.z_blinding@);
    parts_agree(a.t@, a.z_value@, b.t@, b.z_value@);
    points_equal(a.t, b.t);
    scalars_equal(a.z_value, b.z_value);
    scalars_equal(a.z_blinding, b.z_blinding);
}

proof fn point_lists_agree(a: Seq<Point>, x: Seq<u8>, b: Seq<Point>, y: Seq<u8>)
    requires
        a.len() == b.len(),
        joined(point_bytes(a)) + x == joined(point_bytes(b)) + y,
    ensures
        a == b,
        x == y,
{
    joined_layout(point_bytes(a), 32);
    joined_layout(point_bytes(b), 32);
    parts_agree(joined(point_bytes(a)), x, joined(point_bytes(b)), y);
    assert forall|i: int| 0 <= i < a.len() implies a[i] == b[i] by {
        assert(point_bytes(a)[i] == point_bytes(b)[i]);
        points_equal(a[i], b[i]);
    }
    assert(a =~= b);
}

proof fn product_lists_agree(a: Seq<ProductProof>, x: Seq<u8>, b: Seq<ProductProof>, y: Seq<u8>)
    requires
        a.len() == b.len(),
        joined(product_wires(a)) + x == joined(product_wires(b)) + y,
    ensures
        a == b,
        x == y,
{
    joined_layout(product_wires(a), 160);
    joined_layout(product_wires(b), 160);
    parts_agree(joined(product_wires(a)), x, joined(product_wires(b)), y);
    assert forall|i: int| 0 <= i < a.len() implies a[i] == b[i] by {
        assert(product_wires(a)[i] == product_wires(b)[i]);
        assert(a[i].wire() + Seq::<u8>::empty() =~= b[i].wire() + Seq::<u8>::empty());
        products_agree(a[i], Seq::empty(), b[i], Seq::empty());
    }
    assert(a =~= b);
}

/// Whether two range proofs are the same.
pub open spec fn same_range(a: ThresholdRangeProof, b: ThresholdRangeProof) -> bool {
    &&& a.bits == b.bits
    &&& a.bit_commitments@ == b.bit_commitments@
    &&& a.bit_proofs@ == b.bit_proofs@
    &&& a.linkage == b.linkage
}

proof fn ranges_agree(a: ThresholdRangeProof, x: Seq<u8>, b: ThresholdRangeProof, y: Seq<u8>)
    requires
        a.bounded(),
        b.bounded(),
        a.wire() + x == b.wire() + y,
    ensures
        same_range(a, b),
        a.wire() == b.wire(),
        x == y,
{
    be_widths();
    let magic = text_bytes("QOMMRPF1"@);
    let a1 = joined(point_bytes(a.bit_commitments@));
    let a2 = joined(product_wires(a.bit_proofs@));
    let b1 = joined(point_bytes(b.bit_commitments@));
    let b2 = joined(product_wires(b.bit_proofs@));
    let wide_a = be_bytes(a.bits as nat, 2);
    let wide_b = be_bytes(b.bits as nat, 2);
    group_six(magic, wide_a, a1, a2, a.linkage.wire(), x);
    group_six(magic, wide_b, b1, b2, b.linkage.wire(), y);
    parts_agree(
        magic,
        wide_a + (a1 + (a2 + (a.linkage.wire() + x))),
        magic,
        wide_b + (b1 + (b2 + (b.linkage.wire() + y))),
    );
    numbers_agree(
        a.bits as nat,
        a1 + (a2 + (a.linkage.wire() + x)),
        b.bits as nat,
        b1 + (b2 + (b.linkage.wire() + y)),
        2,
    );
    point_lists_agree(
        a.bit_commitments@,
        a2 + (a.linkage.wire() + x),
        b.bit_commitments@,
        b2 + (b.linkage.wire() + y),
    );
    product_lists_agree(a.bit_proofs@, a.linkage.wire() + x, b.bit_proofs@, b.linkage.wire() + y);
    openings_agree(a.linkage, x, b.linkage, y);
}

/// Two range proofs with one encoding are the same.
pub proof fn range_encoding_is_unique(a: ThresholdRangeProof, b: ThresholdRangeProof)
    requires
        a.bounded(),
        b.bounded(),
        a.wire() == b.wire(),
    ensures
        same_range(a, b),
{
    ranges_agree(a, Seq::empty(), b, Seq::empty());
}

proof fn sized_ranges_agree(a: ThresholdRangeProof, x: Seq<u8>, b: ThresholdRangeProof, y: Seq<u8>)
    requires
        a.bounded(),
        b.bounded(),
        sized_range_wire(a) + x == sized_range_wire(b) + y,
    ensures
        same_range(a, b),
        x == y,
{
    be_widths();
    range_wire_width(a);
    range_wire_width(b);
    associate(be_bytes(a.wire().len(), 4), a.wire(), x);
    associate(be_bytes(b.wire().len(), 4), b.wire(), y);
    numbers_agree(a.wire().len(), a.wire() + x, b.wire().len(), b.wire() + y, 4);
    ranges_agree(a, x, b, y);
}

/// Whether two deliveries are proved by the same.
pub open spec fn same_dvp(a: DvpProofs, b: DvpProofs) -> bool {
    &&& a.product == b.product
    &&& same_range(a.securities_remainder, b.securities_remainder)
    &&& same_range(a.cash_remainder, b.cash_remainder)
}

proof fn dvp_grouped(a: DvpProofs)
    ensures
        a.wire() == text_bytes("QOMMDPF1"@) + (a.product.wire() + (sized_range_wire(a.securities_remainder)
            + sized_range_wire(a.cash_remainder))),
{
    let head = text_bytes("QOMMDPF1"@);
    let first = a.securities_remainder.wire();
    let second = a.cash_remainder.wire();
    group_six(head, a.product.wire(), be_bytes(first.len(), 4), first, be_bytes(second.len(), 4), second);
    associate(be_bytes(first.len(), 4), first, be_bytes(second.len(), 4) + second);
}

/// Two proofs of a delivery with one encoding are the same: what is decoded is
/// what was encoded.
pub proof fn dvp_encoding_is_unique(a: DvpProofs, b: DvpProofs)
    requires
        a.bounded(),
        b.bounded(),
        a.wire() == b.wire(),
    ensures
        same_dvp(a, b),
{
    let magic = text_bytes("QOMMDPF1"@);
    let a1 = sized_range_wire(a.securities_remainder);
    let a2 = sized_range_wire(a.cash_remainder);
    let b1 = sized_range_wire(b.securities_remainder);
    let b2 = sized_range_wire(b.cash_remainder);
    dvp_grouped(a);
    dvp_grouped(b);
    parts_agree(magic, a.product.wire() + (a1 + a2), magic, b.product.wire() + (b1 + b2));
    products_agree(a.product, a1 + a2, b.product, b1 + b2);
    sized_ranges_agree(a.securities_remainder, a2, b.securities_remainder, b2);
    assert(a2 + Seq::<u8>::empty() =~= b2 + Seq::<u8>::empty());
    sized_ranges_agree(a.cash_remainder, Seq::empty(), b.cash_remainder, Seq::empty());
}

proof fn bit_proofs_agree(a: BitValidityProof, x: Seq<u8>, b: BitValidityProof, y: Seq<u8>)
    requires
        a.shared(),
        b.shared(),
        a.wire() + x == b.wire() + y,
    ensures
        a == b,
        x == y,
{
    products_agree(a->Square_0, x, b->Square_0, y);
}

proof fn gates_agree(a: Gate, x: Seq<u8>, b: Gate, y: Seq<u8>)
    requires
        a.bit_proof.shared(),
        b.bit_proof.shared(),
        a.wire() + x == b.wire() + y,
    ensures
        a == b,
        x == y,
{
    let a1 = seq![a.commitment];
    let b1 = seq![b.commitment];
    let a2 = seq![a.product_commitment, a.witness_commitment];
    let b2 = seq![b.product_commitment, b.witness_commitment];
    let ta = joined(point_bytes(a2)) + x;
    let tb = joined(point_bytes(b2)) + y;
    group_four(joined(point_bytes(a1)), a.bit_proof.wire() + a.product.wire(), joined(point_bytes(a2)), x);
    group_four(joined(point_bytes(b1)), b.bit_proof.wire() + b.product.wire(), joined(point_bytes(b2)), y);
    associate(a.bit_proof.wire(), a.product.wire(), ta);
    associate(b.bit_proof.wire(), b.product.wire(), tb);
    point_lists_agree(
        a1,
        a.bit_proof.wire() + (a.product.wire() + ta),
        b1,
        b.bit_proof.wire() + (b.product.wire() + tb),
    );
    bit_proofs_agree(a.bit_proof, a.product.wire() + ta, b.bit_proof, b.product.wire() + tb);
    products_agree(a.product, ta, b.product, tb);
    point_lists_agree(a2, x, b2, y);
    assert(a1[0] == b1[0] && a2[0] == b2[0] && a2[1] == b2[1]);
}

/// Whether two eligibility proofs are the same.
pub open spec fn same_eligibility(a: EligibilityProof, b: EligibilityProof) -> bool {
    match (a, b) {
        (
            EligibilityProof::Threshold { fits: f, fresh: g },
            EligibilityProof::Threshold { fits: h, fresh: k },
        ) => same_range(f, h) && same_range(g, k),
        (EligibilityProof::Bulletproof, EligibilityProof::Bulletproof) => true,
        _ => false,
    }
}

/// Whether two proofs of a maker are the same.
pub open spec fn same_maker(a: MakerProof, b: MakerProof) -> bool {
    &&& a.depth == b.depth
    &&& a.skew == b.skew
    &&& a.gate_cost == b.gate_cost
    &&& same_eligibility(a.eligibility, b.eligibility)
    &&& a.active_bit == b.active_bit
    &&& a.reference_bit == b.reference_bit
    &&& a.fits_gate == b.fits_gate
    &&& a.fresh_gate == b.fresh_gate
    &&& a.conjunction == b.conjunction
    &&& a.commitments == b.commitments
}

/// What follows the eligibility proof of a maker.
spec fn maker_rest(a: MakerProof, x: Seq<u8>) -> Seq<u8> {
    a.active_bit.wire() + (a.reference_bit.wire() + (a.fits_gate.wire() + (a.fresh_gate.wire() + (a.conjunction.0.wire()
        + (a.conjunction.1.wire() + (joined(point_bytes(a.commitments.points())) + x))))))
}

proof fn maker_rests_agree(a: MakerProof, x: Seq<u8>, b: MakerProof, y: Seq<u8>)
    requires
        a.refusal() is None,
        b.refusal() is None,
        maker_rest(a, x) == maker_rest(b, y),
    ensures
        a.active_bit == b.active_bit,
        a.reference_bit == b.reference_bit,
        a.fits_gate == b.fits_gate,
        a.fresh_gate == b.fresh_gate,
        a.conjunction == b.conjunction,
        a.commitments == b.commitments,
        x == y,
{
    reveal(MakerProof::refusal);
    let a5 = joined(point_bytes(a.commitments.points())) + x;
    let b5 = joined(point_bytes(b.commitments.points())) + y;
    let a4 = a.conjunction.1.wire() + a5;
    let b4 = b.conjunction.1.wire() + b5;
    let a3 = a.conjunction.0.wire() + a4;
    let b3 = b.conjunction.0.wire() + b4;
    let a2 = a.fresh_gate.wire() + a3;
    let b2 = b.fresh_gate.wire() + b3;
    let a1 = a.fits_gate.wire() + a2;
    let b1 = b.fits_gate.wire() + b2;
    bit_proofs_agree(a.active_bit, a.reference_bit.wire() + a1, b.active_bit, b.reference_bit.wire() + b1);
    bit_proofs_agree(a.reference_bit, a1, b.reference_bit, b1);
    gates_agree(a.fits_gate, a2, b.fits_gate, b2);
    gates_agree(a.fresh_gate, a3, b.fresh_gate, b3);
    products_agree(a.conjunction.0, a4, b.conjunction.0, b4);
    products_agree(a.conjunction.1, a5, b.conjunction.1, b5);
    let p = a.commitments.points();
    let q = b.commitments.points();
    point_lists_agree(p, x, q, y);
    assert(p[0] == q[0] && p[1] == q[1] && p[2] == q[2] && p[3] == q[3] && p[4] == q[4] && p[5] == q[5]
        && p[6] == q[6]);
    assert(p[7] == q[7] && p[8] == q[8] && p[9] == q[9] && p[10] == q[10] && p[11] == q[11] && p[12] == q[12] && p[13]
        == q[13]);
}

proof fn maker_grouped(a: MakerProof, x: Seq<u8>)
    requires
        a.eligibility is Threshold,
    ensures
        a.wire() + x
            == a.depth.wire() + (a.skew.wire() + (a.gate_cost.wire() + (sized_range_wire(a.eligibility->fits) + (
        sized_range_wire(a.eligibility->fresh) + maker_rest(a, x))))),
{
    reveal(MakerProof::wire);
    let p1 = a.depth.wire() + a.skew.wire() + a.gate_cost.wire();
    let f = sized_range_wire(a.eligibility->fits);
    let g = sized_range_wire(a.eligibility->fresh);
    let p3 = a.active_bit.wire() + a.reference_bit.wire();
    let p4 = a.fits_gate.wire();
    let p5 = a.fresh_gate.wire();
    let p6 = a.conjunction.0.wire() + a.conjunction.1.wire();
    let p7 = joined(point_bytes(a.commitments.points()));
    let t6 = p6 + (p7 + x);
    let t3 = p3 + (p4 + (p5 + t6));
    let t2 = (f + g) + t3;
    associate(p1 + (f + g) + p3 + p4 + p5 + p6, p7, x);
    group_six(p1, f + g, p3, p4, p5, t6);
    associate(p1 + (f + g) + p3 + p4 + p5, p6, p7 + x);
    group_four(a.depth.wire(), a.skew.wire(), a.gate_cost.wire(), t2);
    associate(f, g, t3);
    associate(a.active_bit.wire(), a.reference_bit.wire(), p4 + (p5 + t6));
    associate(a.conjunction.0.wire(), a.conjunction.1.wire(), p7 + x);
}

proof fn makers_agree(a: MakerProof, x: Seq<u8>, b: MakerProof, y: Seq<u8>)
    requires
        a.refusal() is None,
        b.refusal() is None,
        a.wire() + x == b.wire() + y,
    ensures
        same_maker(a, b),
        x == y,
{
    reveal(MakerProof::refusal);
    reveal(MakerProof::wire);
    let ra = maker_rest(a, x);
    let rb = maker_rest(b, y);
    let fa = a.eligibility->fits;
    let ga = a.eligibility->fresh;
    let fb = b.eligibility->fits;
    let gb = b.eligibility->fresh;
    let ea = sized_range_wire(fa) + (sized_range_wire(ga) + ra);
    let eb = sized_range_wire(fb) + (sized_range_wire(gb) + rb);
    maker_grouped(a, x);
    maker_grouped(b, y);
    products_agree(a.depth, a.skew.wire() + (a.gate_cost.wire() + ea), b.depth,
        b.skew.wire() + (b.gate_cost.wire() + eb));
    products_agree(a.skew, a.gate_cost.wire() + ea, b.skew, b.gate_cost.wire() + eb);
    products_agree(a.gate_cost, ea, b.gate_cost, eb);
    sized_ranges_agree(fa, sized_range_wire(ga) + ra, fb, sized_range_wire(gb) + rb);
    sized_ranges_agree(ga, ra, gb, rb);
    maker_rests_agree(a, x, b, y);
}

/// Joined parts begin with the first of them.
proof fn joined_front(parts: Seq<Seq<u8>>)
    requires
        parts.len() > 0,
    ensures
        joined(parts) == parts[0] + joined(parts.skip(1)),
    decreases parts.len(),
{
    if parts.len() == 1 {
        assert(parts.drop_last() =~= Seq::empty());
        assert(parts.skip(1) =~= Seq::empty());
        assert(joined(parts) =~= parts[0] + joined(parts.skip(1)));
    } else {
        joined_front(parts.drop_last());
        assert(parts.drop_last().skip(1) =~= parts.skip(1).drop_last());
        assert(parts.skip(1).last() == parts.last());
        assert(joined(parts) =~= parts[0] + joined(parts.skip(1)));
    }
}

/// Whether two lists of maker proofs are the same.
pub open spec fn same_makers(a: Seq<MakerProof>, b: Seq<MakerProof>) -> bool {
    &&& a.len() == b.len()
    &&& forall|i: int| 0 <= i < a.len() ==> same_maker(#[trigger] a[i], b[i])
}

/// Whether two lists of range proofs are the same.
pub open spec fn same_ranges(a: Seq<ThresholdRangeProof>, b: Seq<ThresholdRangeProof>) -> bool {
    &&& a.len() == b.len()
    &&& forall|i: int| 0 <= i < a.len() ==> same_range(#[trigger] a[i], b[i])
}

proof fn maker_lists_agree(a: Seq<MakerProof>, x: Seq<u8>, b: Seq<MakerProof>, y: Seq<u8>)
    requires
        a.len() == b.len(),
        forall|i: int| 0 <= i < a.len() ==> (#[trigger] a[i]).refusal() is None,
        forall|i: int| 0 <= i < b.len() ==> (#[trigger] b[i]).refusal() is None,
        joined(maker_wires(a)) + x == joined(maker_wires(b)) + y,
    ensures
        same_makers(a, b),
        x == y,
    decreases a.len(),
{
    if a.len() == 0 {
        assert(joined(maker_wires(a)) + x =~= x);
        assert(joined(maker_wires(b)) + y =~= y);
    } else {
        joined_front(maker_wires(a));
        joined_front(maker_wires(b));
        assert(maker_wires(a).skip(1) =~= maker_wires(a.skip(1)));
        assert(maker_wires(b).skip(1) =~= maker_wires(b.skip(1)));
        let ta = joined(maker_wires(a.skip(1))) + x;
        let tb = joined(maker_wires(b.skip(1))) + y;
        associate(a[0].wire(), joined(maker_wires(a.skip(1))), x);
        associate(b[0].wire(), joined(maker_wires(b.skip(1))), y);
        makers_agree(a[0], ta, b[0], tb);
        maker_lists_agree(a.skip(1), x, b.skip(1), y);
        assert forall|i: int| 0 <= i < a.len() implies same_maker(#[trigger] a[i], b[i]) by {
            if i > 0 {
                assert(same_maker(a.skip(1)[i - 1], b.skip(1)[i - 1]));
            }
        }
    }
}

proof fn range_lists_agree(a: Seq<ThresholdRangeProof>, x: Seq<u8>, b: Seq<ThresholdRangeProof>, y: Seq<u8>)
    requires
        a.len() == b.len(),
        forall|i: int| 0 <= i < a.len() ==> (#[trigger] a[i]).bounded(),
        forall|i: int| 0 <= i < b.len() ==> (#[trigger] b[i]).bounded(),
        joined(range_wires(a)) + x == joined(range_wires(b)) + y,
    ensures
        same_ranges(a, b),
        x == y,
    decreases a.len(),
{
    if a.len() == 0 {
        assert(joined(range_wires(a)) + x =~= x);
        assert(joined(range_wires(b)) + y =~= y);
    } else {
        joined_front(range_wires(a));
        joined_front(range_wires(b));
        assert(range_wires(a).skip(1) =~= range_wires(a.skip(1)));
        assert(range_wires(b).skip(1) =~= range_wires(b.skip(1)));
        let ta = joined(range_wires(a.skip(1))) + x;
        let tb = joined(range_wires(b.skip(1))) + y;
        associate(sized_range_wire(a[0]), joined(range_wires(a.skip(1))), x);
        associate(sized_range_wire(b[0]), joined(range_wires(b.skip(1))), y);
        sized_ranges_agree(a[0], ta, b[0], tb);
        range_lists_agree(a.skip(1), x, b.skip(1), y);
        assert forall|i: int| 0 <= i < a.len() implies same_range(#[trigger] a[i], b[i]) by {
            if i > 0 {
                assert(same_range(a.skip(1)[i - 1], b.skip(1)[i - 1]));
            }
        }
    }
}

proof fn policies_agree(a: Seq<RegisteredPolicy>, x: Seq<u8>, b: Seq<RegisteredPolicy>, y: Seq<u8>)
    requires
        a.len() == b.len(),
        joined(policy_wires(a)) + x == joined(policy_wires(b)) + y,
    ensures
        a == b,
        x == y,
    decreases a.len(),
{
    if a.len() == 0 {
        assert(joined(policy_wires(a)) + x =~= x);
        assert(joined(policy_wires(b)) + y =~= y);
        assert(a =~= b);
    } else {
        be_widths();
        joined_front(policy_wires(a));
        joined_front(policy_wires(b));
        assert(policy_wires(a).skip(1) =~= policy_wires(a.skip(1)));
        assert(policy_wires(b).skip(1) =~= policy_wires(b.skip(1)));
        let ta = joined(policy_wires(a.skip(1))) + x;
        let tb = joined(policy_wires(b.skip(1))) + y;
        let p = a[0].points();
        let q = b[0].points();
        assert(joined(policy_wires(a)) + x =~= be_bytes(a[0].maker_asset as nat, 4) + (joined(point_bytes(p)) + ta));
        assert(joined(policy_wires(b)) + y =~= be_bytes(b[0].maker_asset as nat, 4) + (joined(point_bytes(q)) + tb));
        numbers_agree(
            a[0].maker_asset as nat,
            joined(point_bytes(p)) + ta,
            b[0].maker_asset as nat,
            joined(point_bytes(q)) + tb,
            4,
        );
        point_lists_agree(p, ta, q, tb);
        assert(p[0] == q[0] && p[1] == q[1] && p[2] == q[2] && p[3] == q[3] && p[4] == q[4] && p[5] == q[5] && p[6]
            == q[6] && p[7] == q[7] && p[8] == q[8]);
        assert(a[0] == b[0]);
        policies_agree(a.skip(1), x, b.skip(1), y);
        assert forall|i: int| 0 <= i < a.len() implies a[i] == b[i] by {
            if i > 0 {
                assert(a.skip(1)[i - 1] == b.skip(1)[i - 1]);
            }
        }
        assert(a =~= b);
    }
}

/// Whether two public inputs of a quote are the same.
pub open spec fn same_public(a: QuotePublic, b: QuotePublic) -> bool {
    &&& a.qty_commitment == b.qty_commitment
    &&& a.now == b.now
    &&& a.sentinel == b.sentinel
    &&& a.n_slots == b.n_slots
    &&& a.direction == b.direction
    &&& a.asset == b.asset
    &&& a.reference_price == b.reference_price
    &&& a.registry@ == b.registry@
    &&& a.registry_digest@ == b.registry_digest@
    &&& a.market_digest@ == b.market_digest@
    &&& a.slot == b.slot
}

proof fn public_grouped(a: QuotePublic, x: Seq<u8>)
    ensures
        a.wire() + x == a.qty_commitment@ + (be_bytes(signed_bits(a.now as int), 8) + (be_bytes(
            signed_bits(a.sentinel as int),
            8,
        ) + (be_bytes(signed_bits(a.n_slots as int), 8) + (be_bytes(a.direction as nat, 1) + (be_bytes(a.asset as nat,
            4)
            + (be_bytes(signed_bits(a.reference_price as int), 8) + (a.registry_digest@ + (a.market_digest@ + (be_bytes(
            a.slot as nat,
            8,
        ) + (be_bytes(a.registry@.len(), 2) + (joined(policy_wires(a.registry@)) + x))))))))))),
{
    let count = be_bytes(a.registry@.len(), 2);
    let list = joined(policy_wires(a.registry@));
    group_four(a.head(), count, list, x);
    group_eleven(
        a.qty_commitment@,
        be_bytes(signed_bits(a.now as int), 8),
        be_bytes(signed_bits(a.sentinel as int), 8),
        be_bytes(signed_bits(a.n_slots as int), 8),
        be_bytes(a.direction as nat, 1),
        be_bytes(a.asset as nat, 4),
        be_bytes(signed_bits(a.reference_price as int), 8),
        a.registry_digest@,
        a.market_digest@,
        be_bytes(a.slot as nat, 8),
        count + (list + x),
    );
}

proof fn publics_agree(a: QuotePublic, x: Seq<u8>, b: QuotePublic, y: Seq<u8>)
    requires
        a.registry@.len() <= 0xffff,
        b.registry@.len() <= 0xffff,
        a.wire() + x == b.wire() + y,
    ensures
        same_public(a, b),
        x == y,
{
    be_widths();
    let a9 = be_bytes(a.registry@.len(), 2) + (joined(policy_wires(a.registry@)) + x);
    let b9 = be_bytes(b.registry@.len(), 2) + (joined(policy_wires(b.registry@)) + y);
    let a8 = be_bytes(a.slot as nat, 8) + a9;
    let b8 = be_bytes(b.slot as nat, 8) + b9;
    let a7 = a.registry_digest@ + (a.market_digest@ + a8);
    let b7 = b.registry_digest@ + (b.market_digest@ + b8);
    let a6 = be_bytes(signed_bits(a.reference_price as int), 8) + a7;
    let b6 = be_bytes(signed_bits(b.reference_price as int), 8) + b7;
    let a5 = be_bytes(a.asset as nat, 4) + a6;
    let b5 = be_bytes(b.asset as nat, 4) + b6;
    let a4 = be_bytes(a.direction as nat, 1) + a5;
    let b4 = be_bytes(b.direction as nat, 1) + b5;
    let a3 = be_bytes(signed_bits(a.n_slots as int), 8) + a4;
    let b3 = be_bytes(signed_bits(b.n_slots as int), 8) + b4;
    let a2 = be_bytes(signed_bits(a.sentinel as int), 8) + a3;
    let b2 = be_bytes(signed_bits(b.sentinel as int), 8) + b3;
    let a1 = be_bytes(signed_bits(a.now as int), 8) + a2;
    let b1 = be_bytes(signed_bits(b.now as int), 8) + b2;
    public_grouped(a, x);
    public_grouped(b, y);
    parts_agree(a.qty_commitment@, a1, b.qty_commitment@, b1);
    points_equal(a.qty_commitment, b.qty_commitment);
    numbers_agree(signed_bits(a.now as int), a2, signed_bits(b.now as int), b2, 8);
    numbers_agree(signed_bits(a.sentinel as int), a3, signed_bits(b.sentinel as int), b3, 8);
    numbers_agree(signed_bits(a.n_slots as int), a4, signed_bits(b.n_slots as int), b4, 8);
    numbers_agree(a.direction as nat, a5, b.direction as nat, b5, 1);
    numbers_agree(a.asset as nat, a6, b.asset as nat, b6, 4);
    numbers_agree(signed_bits(a.reference_price as int), a7, signed_bits(b.reference_price as int), b7, 8);
    parts_agree(a.registry_digest@, a.market_digest@ + a8, b.registry_digest@, b.market_digest@ + b8);
    parts_agree(a.market_digest@, a8, b.market_digest@, b8);
    numbers_agree(a.slot as nat, a9, b.slot as nat, b9, 8);
    numbers_agree(
        a.registry@.len(),
        joined(policy_wires(a.registry@)) + x,
        b.registry@.len(),
        joined(policy_wires(b.registry@)) + y,
        2,
    );
    policies_agree(a.registry@, x, b.registry@, y);
}

/// Whether two proofs of a quote are the same.
pub open spec fn same_quote_proof(a: QuoteProof, b: QuoteProof) -> bool {
    &&& a.winner_index == b.winner_index
    &&& a.winner_value == b.winner_value
    &&& same_makers(a.maker_proofs@, b.maker_proofs@)
    &&& a.winner_opening == b.winner_opening
    &&& same_ranges(a.minimality_proofs(), b.minimality_proofs())
    &&& a.key_commitments@ == b.key_commitments@
}

/// No maker is refused where none is the first that is.
proof fn no_maker_refused(values: Seq<MakerProof>)
    requires
        first_maker_refusal(values) is None,
    ensures
        forall|i: int| 0 <= i < values.len() ==> (#[trigger] values[i]).refusal() is None,
    decreases values.len(),
{
    if values.len() > 0 {
        no_maker_refused(values.drop_last());
        assert forall|i: int| 0 <= i < values.len() implies (#[trigger] values[i]).refusal() is None by {
            if i < values.len() - 1 {
                assert(values[i] == values.drop_last()[i]);
            }
        }
    }
}

proof fn quote_proof_grouped(p: QuoteProof)
    ensures
        p.wire() == be_bytes(p.winner_index as nat, 2) + (be_bytes(p.winner_value as nat, 8) + (be_bytes(
            p.maker_proofs@.len(),
            2,
        ) + (joined(maker_wires(p.maker_proofs@)) + (p.winner_opening.wire() + (be_bytes(p.minimality_proofs().len(), 2)
            + (joined(range_wires(p.minimality_proofs())) + (be_bytes(p.key_commitments@.len(), 2) + joined(
            point_bytes(p.key_commitments@),
        )))))))),
{
    group_nine(
        be_bytes(p.winner_index as nat, 2),
        be_bytes(p.winner_value as nat, 8),
        be_bytes(p.maker_proofs@.len(), 2),
        joined(maker_wires(p.maker_proofs@)),
        p.winner_opening.wire(),
        be_bytes(p.minimality_proofs().len(), 2),
        joined(range_wires(p.minimality_proofs())),
        be_bytes(p.key_commitments@.len(), 2),
        joined(point_bytes(p.key_commitments@)),
    );
}

proof fn quote_proofs_agree(a: QuoteVerificationBundle, b: QuoteVerificationBundle)
    requires
        a.encoded() is Ok,
        b.encoded() is Ok,
        a.proof.wire() == b.proof.wire(),
    ensures
        same_quote_proof(a.proof, b.proof),
{
    be_widths();
    no_maker_refused(a.proof.maker_proofs@);
    no_maker_refused(b.proof.maker_proofs@);
    let p = a.proof;
    let q = b.proof;
    let a6 = joined(point_bytes(p.key_commitments@));
    let b6 = joined(point_bytes(q.key_commitments@));
    let a5 = be_bytes(p.key_commitments@.len(), 2) + a6;
    let b5 = be_bytes(q.key_commitments@.len(), 2) + b6;
    let a4 = joined(range_wires(p.minimality_proofs())) + a5;
    let b4 = joined(range_wires(q.minimality_proofs())) + b5;
    let a3 = p.winner_opening.wire() + (be_bytes(p.minimality_proofs().len(), 2) + a4);
    let b3 = q.winner_opening.wire() + (be_bytes(q.minimality_proofs().len(), 2) + b4);
    let a2 = joined(maker_wires(p.maker_proofs@)) + a3;
    let b2 = joined(maker_wires(q.maker_proofs@)) + b3;
    let a1 = be_bytes(p.winner_value as nat, 8) + (be_bytes(p.maker_proofs@.len(), 2) + a2);
    let b1 = be_bytes(q.winner_value as nat, 8) + (be_bytes(q.maker_proofs@.len(), 2) + b2);
    quote_proof_grouped(p);
    quote_proof_grouped(q);
    numbers_agree(p.winner_index as nat, a1, q.winner_index as nat, b1, 2);
    numbers_agree(
        p.winner_value as nat,
        be_bytes(p.maker_proofs@.len(), 2) + a2,
        q.winner_value as nat,
        be_bytes(q.maker_proofs@.len(), 2) + b2,
        8,
    );
    numbers_agree(p.maker_proofs@.len(), a2, q.maker_proofs@.len(), b2, 2);
    maker_lists_agree(p.maker_proofs@, a3, q.maker_proofs@, b3);
    openings_agree(
        p.winner_opening,
        be_bytes(p.minimality_proofs().len(), 2) + a4,
        q.winner_opening,
        be_bytes(q.minimality_proofs().len(), 2) + b4,
    );
    numbers_agree(p.minimality_proofs().len(), a4, q.minimality_proofs().len(), b4, 2);
    range_lists_agree(p.minimality_proofs(), a5, q.minimality_proofs(), b5);
    numbers_agree(p.key_commitments@.len(), a6, q.key_commitments@.len(), b6, 2);
    assert(a6 + Seq::<u8>::empty() =~= b6 + Seq::<u8>::empty());
    point_lists_agree(p.key_commitments@, Seq::empty(), q.key_commitments@, Seq::empty());
}

/// Two pieces of quote evidence with one encoding are the same: what is decoded is
/// what was encoded.
pub proof fn quote_encoding_is_unique(a: QuoteVerificationBundle, b: QuoteVerificationBundle)
    requires
        a.encoded() is Ok,
        b.encoded() is Ok,
        a.wire() == b.wire(),
    ensures
        a.context@ == b.context@,
        a.eligibility_bits == b.eligibility_bits,
        a.span_bits == b.span_bits,
        same_public(a.public, b.public),
        same_quote_proof(a.proof, b.proof),
{
    be_widths();
    let magic = text_bytes("QOMMQPF1"@);
    let a3 = a.public.wire() + a.proof.wire();
    let b3 = b.public.wire() + b.proof.wire();
    let a2 = be_bytes(a.span_bits as nat, 2) + (a.context@ + a3);
    let b2 = be_bytes(b.span_bits as nat, 2) + (b.context@ + b3);
    let a1 = be_bytes(a.eligibility_bits as nat, 2) + a2;
    let b1 = be_bytes(b.eligibility_bits as nat, 2) + b2;
    group_six(
        magic,
        be_bytes(a.eligibility_bits as nat, 2),
        be_bytes(a.span_bits as nat, 2),
        a.context@,
        a.public.wire(),
        a.proof.wire(),
    );
    group_six(
        magic,
        be_bytes(b.eligibility_bits as nat, 2),
        be_bytes(b.span_bits as nat, 2),
        b.context@,
        b.public.wire(),
        b.proof.wire(),
    );
    parts_agree(magic, a1, magic, b1);
    numbers_agree(a.eligibility_bits as nat, a2, b.eligibility_bits as nat, b2, 2);
    numbers_agree(a.span_bits as nat, a.context@ + a3, b.span_bits as nat, b.context@ + b3, 2);
    parts_agree(a.context@, a3, b.context@, b3);
    publics_agree(a.public, a.proof.wire(), b.public, b.proof.wire());
    quote_proofs_agree(a, b);
}

} // verus!
