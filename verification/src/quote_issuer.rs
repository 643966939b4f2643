//! The local shares of one node's complete quote, read out of its handoff.
//!
//! Nothing here takes the shares of more than one node. Public evaluations are
//! all that the proof processes exchange: scalar shares stay where they were read.

use vstd::prelude::*;
use vstd::arithmetic::power2::pow2;
use crate::bytes::same32;
use crate::decimal::{add_scalars, negate, scalar_value};
use crate::fields::{either, first, first_at, unless};
use crate::group::{group_order, is_scalar, le_value, Scalar};
use crate::text::{about, same_text};
use crate::wire::FieldElement;

verus! {

/// Shares under their names.
#[derive(Debug)]
pub struct NamedShares {
    pub entries: Vec<(String, FieldElement)>,
}

impl NamedShares {
    /// The share of a name: the first under it.
    pub open spec fn share(self, name: Seq<char>) -> Option<FieldElement> {
        share_among(self.entries@, name)
    }

    /// Whether every share is reduced.
    pub open spec fn reduced(self) -> bool {
        forall|i: int| 0 <= i < self.entries@.len() ==> (#[trigger] self.entries@[i]).1.reduced()
    }
}

/// The first share of a name.
pub open spec fn share_among(entries: Seq<(String, FieldElement)>, name: Seq<char>) -> Option<FieldElement>
    decreases entries.len(),
{
    if entries.len() == 0 {
        None
    } else if entries[0].0@ == name {
        Some(entries[0].1)
    } else {
        share_among(entries.skip(1), name)
    }
}

/// What is said of a share that is not there.
pub open spec fn omission(shares: NamedShares, name: Seq<char>) -> Option<Seq<char>> {
    unless(shares.share(name) is Some, "quote handoff omitted "@ + name)
}

/// The share of a name.
pub fn named(shares: &NamedShares, name: &str) -> (r: Result<Scalar, String>)
    requires
        shares.reduced(),
    ensures
        match r {
            Ok(scalar) => {
                &&& omission(*shares, name@) is None
                &&& scalar == shares.share(name@)->0.scalar
                &&& is_scalar(scalar@)
            },
            Err(e) => omission(*shares, name@) == Some(e@),
        },
{
    let mut i: usize = 0;
    assert(shares.entries@.skip(0) =~= shares.entries@);
    while i < shares.entries.len()
        invariant
            i <= shares.entries@.len(),
            shares.reduced(),
            shares.share(name@) == share_among(shares.entries@.skip(i as int), name@),
        decreases shares.entries@.len() - i,
    {
        let ghost rest = shares.entries@.skip(i as int);
        assert(rest[0] == shares.entries@[i as int]);
        assert(rest.skip(1) =~= shares.entries@.skip(i + 1));
        if same_text(shares.entries[i].0.as_str(), name) {
            return Ok(shares.entries[i].1.scalar);
        }
        i = i + 1;
    }
    Err(about("quote handoff omitted ", name))
}

/// One node's share of a committed value: of the value and of its blinding.
#[derive(Clone, Copy, Debug)]
pub struct LocalWire {
    pub value: Scalar,
    pub blinding: Scalar,
}

impl LocalWire {
    /// Whether the wire is made of two shares.
    pub open spec fn of(
        self,
        values: NamedShares,
        name: Seq<char>,
        blindings: NamedShares,
        blinding: Seq<char>,
    ) -> bool {
        self.value == values.share(name)->0.scalar && self.blinding == blindings.share(blinding)->0.scalar
    }

    /// Whether the wire is made of two scalars.
    pub open spec fn reduced(self) -> bool {
        is_scalar(self.value@) && is_scalar(self.blinding@)
    }
}

/// Why a wire cannot be read.
pub open spec fn wire_refusal(
    values: NamedShares,
    name: Seq<char>,
    blindings: NamedShares,
    blinding: Seq<char>,
) -> Option<
    Seq<char>,
> {
    either(omission(values, name), omission(blindings, blinding))
}

fn read_wire(values: &NamedShares, name: &str, blindings: &NamedShares, blinding: &str) -> (r: Result<LocalWire,
    String>)
    requires
        values.reduced(),
        blindings.reduced(),
    ensures
        match r {
            Ok(wire) => {
                &&& wire_refusal(*values, name@, *blindings, blinding@) is None
                &&& wire.of(*values, name@, *blindings, blinding@)
                &&& wire.reduced()
            },
            Err(e) => wire_refusal(*values, name@, *blindings, blinding@) == Some(e@),
        },
{
    match named(values, name) {
        Err(e) => Err(e),
        Ok(value) => match named(blindings, blinding) {
            Err(e) => Err(e),
            Ok(blinding) => Ok(LocalWire { value, blinding }),
        },
    }
}

/// The shares of one maker in a handoff. The witnesses of its ranges are not
/// among them.
#[derive(Debug)]
pub struct MakerHandoff {
    pub core: NamedShares,
    pub policy_blinding: NamedShares,
    pub derived_blinding: NamedShares,
    pub cross: NamedShares,
    pub use_ref_share: FieldElement,
    pub key_blinding_share: FieldElement,
}

impl MakerHandoff {
    /// Whether every share is reduced.
    pub open spec fn reduced(self) -> bool {
        &&& self.core.reduced()
        &&& self.policy_blinding.reduced()
        &&& self.derived_blinding.reduced()
        &&& self.cross.reduced()
        &&& self.use_ref_share.reduced()
        &&& self.key_blinding_share.reduced()
    }
}

/// The wires of a policy.
#[derive(Clone, Copy, Debug)]
pub struct PolicyWires {
    pub ask_level: LocalWire,
    pub spread: LocalWire,
    pub slope: LocalWire,
    pub invcoef: LocalWire,
    pub inv: LocalWire,
    pub maxqty: LocalWire,
    pub expiry: LocalWire,
    pub active: LocalWire,
    pub use_ref: LocalWire,
}

/// Why the wires of a policy cannot be read.
pub open spec fn policy_refusal(handoff: MakerHandoff) -> Option<Seq<char>> {
    either(
        wire_refusal(handoff.core, "ask_level"@, handoff.policy_blinding, "ask_level"@),
        either(
            wire_refusal(handoff.core, "spread"@, handoff.policy_blinding, "spread"@),
            either(
                wire_refusal(handoff.core, "slope"@, handoff.policy_blinding, "slope"@),
                either(
                    wire_refusal(handoff.core, "invcoef"@, handoff.policy_blinding, "invcoef"@),
                    either(
                        wire_refusal(handoff.core, "inv"@, handoff.policy_blinding, "inv"@),
                        either(
                            wire_refusal(handoff.core, "maxqty"@, handoff.policy_blinding, "maxqty"@),
                            either(
                                wire_refusal(handoff.core, "expiry"@, handoff.policy_blinding, "expiry"@),
                                either(
                                    wire_refusal(handoff.core, "active"@, handoff.policy_blinding, "active"@),
                                    omission(handoff.policy_blinding, "use_ref"@),
                                ),
                            ),
                        ),
                    ),
                ),
            ),
        ),
    )
}

impl PolicyWires {
    /// Whether the wires are those of a handoff.
    pub open spec fn of(self, handoff: MakerHandoff) -> bool {
        &&& self.ask_level.of(handoff.core, "ask_level"@, handoff.policy_blinding, "ask_level"@)
        &&& self.spread.of(handoff.core, "spread"@, handoff.policy_blinding, "spread"@)
        &&& self.slope.of(handoff.core, "slope"@, handoff.policy_blinding, "slope"@)
        &&& self.invcoef.of(handoff.core, "invcoef"@, handoff.policy_blinding, "invcoef"@)
        &&& self.inv.of(handoff.core, "inv"@, handoff.policy_blinding, "inv"@)
        &&& self.maxqty.of(handoff.core, "maxqty"@, handoff.policy_blinding, "maxqty"@)
        &&& self.expiry.of(handoff.core, "expiry"@, handoff.policy_blinding, "expiry"@)
        &&& self.active.of(handoff.core, "active"@, handoff.policy_blinding, "active"@)
        &&& self.use_ref.value == handoff.use_ref_share.scalar
        &&& self.use_ref.blinding == handoff.policy_blinding.share("use_ref"@)->0.scalar
    }
}

fn read_policy(handoff: &MakerHandoff) -> (r: Result<PolicyWires, String>)
    requires
        handoff.reduced(),
    ensures
        match r {
            Ok(wires) => {
                &&& policy_refusal(*handoff) is None
                &&& wires.of(*handoff)
                &&& wires.maxqty.reduced()
                &&& wires.expiry.reduced()
            },
            Err(e) => policy_refusal(*handoff) == Some(e@),
        },
{
    let ask_level = match read_wire(&handoff.core, "ask_level", &handoff.policy_blinding, "ask_level") {
        Err(e) => {
            return Err(e);
        },
        Ok(v) => v,
    };
    let spread = match read_wire(&handoff.core, "spread", &handoff.policy_blinding, "spread") {
        Err(e) => {
            return Err(e);
        },
        Ok(v) => v,
    };
    let slope = match read_wire(&handoff.core, "slope", &handoff.policy_blinding, "slope") {
        Err(e) => {
            return Err(e);
        },
        Ok(v) => v,
    };
    let invcoef = match read_wire(&handoff.core, "invcoef", &handoff.policy_blinding, "invcoef") {
        Err(e) => {
            return Err(e);
        },
        Ok(v) => v,
    };
    let inv = match read_wire(&handoff.core, "inv", &handoff.policy_blinding, "inv") {
        Err(e) => {
            return Err(e);
        },
        Ok(v) => v,
    };
    let maxqty = match read_wire(&handoff.core, "maxqty", &handoff.policy_blinding, "maxqty") {
        Err(e) => {
            return Err(e);
        },
        Ok(v) => v,
    };
    let expiry = match read_wire(&handoff.core, "expiry", &handoff.policy_blinding, "expiry") {
        Err(e) => {
            return Err(e);
        },
        Ok(v) => v,
    };
    let active = match read_wire(&handoff.core, "active", &handoff.policy_blinding, "active") {
        Err(e) => {
            return Err(e);
        },
        Ok(v) => v,
    };
    let use_ref_blinding = match named(&handoff.policy_blinding, "use_ref") {
        Err(e) => {
            return Err(e);
        },
        Ok(v) => v,
    };
    let use_ref = LocalWire { value: handoff.use_ref_share.scalar, blinding: use_ref_blinding };
    Ok(PolicyWires { ask_level, spread, slope, invcoef, inv, maxqty, expiry, active, use_ref })
}

/// The wires of a gate: its margin, the bit that it holds and the product with it.
#[derive(Clone, Copy, Debug)]
pub struct GateWires {
    pub value: LocalWire,
    pub holds: LocalWire,
    pub holds_cross: Scalar,
    pub product: LocalWire,
    pub product_cross: Scalar,
}

/// Why the wires of a gate cannot be read.
pub open spec fn gate_refusal(
    handoff: MakerHandoff,
    margin: Seq<char>,
    holds: Seq<char>,
    bit: Seq<char>,
    product: Seq<char>,
) -> Option<Seq<char>> {
    either(
        omission(handoff.core, margin),
        either(
            wire_refusal(handoff.core, holds, handoff.derived_blinding, bit),
            either(
                omission(handoff.cross, bit),
                either(
                    wire_refusal(handoff.core, product, handoff.derived_blinding, product),
                    omission(handoff.cross, product),
                ),
            ),
        ),
    )
}

impl GateWires {
    /// Whether the wires are those of a handoff, with a blinding of the margin.
    pub open spec fn of(
        self,
        handoff: MakerHandoff,
        margin: Seq<char>,
        holds: Seq<char>,
        bit: Seq<char>,
        product: Seq<char>,
        blinding: nat,
    ) -> bool {
        &&& self.value.value == handoff.core.share(margin)->0.scalar
        &&& scalar_value(self.value.blinding@) == blinding
        &&& self.holds.of(handoff.core, holds, handoff.derived_blinding, bit)
        &&& self.holds_cross == handoff.cross.share(bit)->0.scalar
        &&& self.product.of(handoff.core, product, handoff.derived_blinding, product)
        &&& self.product_cross == handoff.cross.share(product)->0.scalar
    }
}

fn read_gate(
    handoff: &MakerHandoff,
    margin: &str,
    holds: &str,
    bit: &str,
    product: &str,
    blinding: Scalar,
) -> (r: Result<
    GateWires,
    String,
>)
    requires
        handoff.reduced(),
    ensures
        match r {
            Ok(wires) => {
                &&& gate_refusal(*handoff, margin@, holds@, bit@, product@) is None
                &&& wires.of(*handoff, margin@, holds@, bit@, product@, scalar_value(blinding@))
            },
            Err(e) => gate_refusal(*handoff, margin@, holds@, bit@, product@) == Some(e@),
        },
{
    let value = match named(&handoff.core, margin) {
        Err(e) => {
            return Err(e);
        },
        Ok(v) => v,
    };
    let holds = match read_wire(&handoff.core, holds, &handoff.derived_blinding, bit) {
        Err(e) => {
            return Err(e);
        },
        Ok(v) => v,
    };
    let holds_cross = match named(&handoff.cross, bit) {
        Err(e) => {
            return Err(e);
        },
        Ok(v) => v,
    };
    let product_wire = match read_wire(&handoff.core, product, &handoff.derived_blinding, product) {
        Err(e) => {
            return Err(e);
        },
        Ok(v) => v,
    };
    let product_cross = match named(&handoff.cross, product) {
        Err(e) => {
            return Err(e);
        },
        Ok(v) => v,
    };
    Ok(
        GateWires {
            value: LocalWire { value, blinding },
            holds,
            holds_cross,
            product: product_wire,
            product_cross,
        },
    )
}

/// The wires of a maker.
#[derive(Clone, Copy, Debug)]
pub struct MakerWires {
    pub fields: PolicyWires,
    pub fits: GateWires,
    pub fresh: GateWires,
    pub depth: LocalWire,
    pub depth_cross: Scalar,
    pub skew: LocalWire,
    pub skew_cross: Scalar,
    pub active_cross: Scalar,
    pub reference_cross: Scalar,
    pub both: LocalWire,
    pub both_cross: Scalar,
    pub ok: LocalWire,
    pub ok_cross: Scalar,
    pub gated: LocalWire,
    pub gated_cross: Scalar,
    pub cost: LocalWire,
    pub packed: LocalWire,
}

/// Why the wires behind the gates of a maker cannot be read.
pub open spec fn derived_refusal(handoff: MakerHandoff) -> Option<Seq<char>> {
    either(
        wire_refusal(handoff.core, "depth"@, handoff.derived_blinding, "depth"@),
        either(
            omission(handoff.cross, "depth"@),
            either(
                wire_refusal(handoff.core, "skew"@, handoff.derived_blinding, "skew"@),
                either(
                    omission(handoff.cross, "skew"@),
                    either(
                        omission(handoff.cross, "active"@),
                        either(
                            omission(handoff.cross, "reference"@),
                            either(
                                wire_refusal(handoff.core, "both"@, handoff.derived_blinding, "both"@),
                                either(
                                    omission(handoff.cross, "both"@),
                                    either(
                                        wire_refusal(handoff.core, "ok"@, handoff.derived_blinding, "ok"@),
                                        either(
                                            omission(handoff.cross, "ok"@),
                                            either(
                                                wire_refusal(handoff.core, "gated"@, handoff.derived_blinding,
                                                    "gated"@),
                                                either(
                                                    omission(handoff.cross, "gated"@),
                                                    either(
                                                        wire_refusal(handoff.core, "cost"@, handoff.derived_blinding,
                                                            "cost"@),
                                                        omission(handoff.core, "key"@),
                                                    ),
                                                ),
                                            ),
                                        ),
                                    ),
                                ),
                            ),
                        ),
                    ),
                ),
            ),
        ),
    )
}

/// Why the wires of a maker cannot be read: the first share that is not there.
pub open spec fn maker_refusal(handoff: MakerHandoff) -> Option<Seq<char>> {
    either(
        policy_refusal(handoff),
        either(
            gate_refusal(handoff, "fits_margin"@, "fits"@, "fits_bit"@, "fits_product"@),
            either(
                gate_refusal(handoff, "fresh_margin"@, "fresh_bit"@, "fresh_bit"@, "fresh_product"@),
                derived_refusal(handoff),
            ),
        ),
    )
}

/// The difference of two residues.
pub open spec fn residue_difference(a: nat, b: nat) -> nat {
    ((a as int - b as int) % (group_order() as int)) as nat
}

impl MakerWires {
    /// Whether the wires are those of a handoff. The margin of the quantity is the
    /// greatest quantity less the quantity, and so is its blinding; the margin of
    /// the time has the blinding of the expiry.
    pub open spec fn of(self, handoff: MakerHandoff, qty_blinding: nat) -> bool {
        &&& self.fields.of(handoff)
        &&& self.fits.of(
            handoff,
            "fits_margin"@,
            "fits"@,
            "fits_bit"@,
            "fits_product"@,
            residue_difference(scalar_value(handoff.policy_blinding.share("maxqty"@)->0.scalar@), qty_blinding),
        )
        &&& self.fresh.of(
            handoff,
            "fresh_margin"@,
            "fresh_bit"@,
            "fresh_bit"@,
            "fresh_product"@,
            scalar_value(handoff.policy_blinding.share("expiry"@)->0.scalar@),
        )
        &&& self.depth.of(handoff.core, "depth"@, handoff.derived_blinding, "depth"@)
        &&& self.depth_cross == handoff.cross.share("depth"@)->0.scalar
        &&& self.skew.of(handoff.core, "skew"@, handoff.derived_blinding, "skew"@)
        &&& self.skew_cross == handoff.cross.share("skew"@)->0.scalar
        &&& self.active_cross == handoff.cross.share("active"@)->0.scalar
        &&& self.reference_cross == handoff.cross.share("reference"@)->0.scalar
        &&& self.both.of(handoff.core, "both"@, handoff.derived_blinding, "both"@)
        &&& self.both_cross == handoff.cross.share("both"@)->0.scalar
        &&& self.ok.of(handoff.core, "ok"@, handoff.derived_blinding, "ok"@)
        &&& self.ok_cross == handoff.cross.share("ok"@)->0.scalar
        &&& self.gated.of(handoff.core, "gated"@, handoff.derived_blinding, "gated"@)
        &&& self.gated_cross == handoff.cross.share("gated"@)->0.scalar
        &&& self.cost.of(handoff.core, "cost"@, handoff.derived_blinding, "cost"@)
        &&& self.packed.value == handoff.core.share("key"@)->0.scalar
        &&& self.packed.blinding == handoff.key_blinding_share.scalar
    }
}

fn subtract(a: &Scalar, b: &Scalar) -> (difference: Scalar)
    requires
        is_scalar(a@),
        is_scalar(b@),
    ensures
        is_scalar(difference@),
        scalar_value(difference@) == residue_difference(scalar_value(a@), scalar_value(b@)),
{
    let minus = negate(b);
    let difference = add_scalars(a, &minus);
    proof {
        let l = group_order() as int;
        let x = scalar_value(a@) as int;
        let y = scalar_value(b@) as int;
        vstd::arithmetic::div_mod::lemma_add_mod_noop_right(x, l - y, l);
        vstd::arithmetic::div_mod::lemma_mod_add_multiples_vanish(x - y, l);
        assert(x + (l - y) == (x - y) + l);
    }
    difference
}

/// Reads the wires of a maker.
pub fn maker(handoff: &MakerHandoff, qty_blinding: &Scalar) -> (r: Result<MakerWires, String>)
    requires
        handoff.reduced(),
        is_scalar(qty_blinding@),
    ensures
        match r {
            Ok(wires) => maker_refusal(*handoff) is None && wires.of(*handoff, scalar_value(qty_blinding@)),
            Err(e) => maker_refusal(*handoff) == Some(e@),
        },
{
    let fields = match read_policy(handoff) {
        Err(e) => {
            return Err(e);
        },
        Ok(v) => v,
    };
    let margin_blinding = subtract(&fields.maxqty.blinding, qty_blinding);
    let fits = match read_gate(handoff, "fits_margin", "fits", "fits_bit", "fits_product", margin_blinding) {
        Err(e) => {
            return Err(e);
        },
        Ok(v) => v,
    };
    let fresh = match read_gate(handoff, "fresh_margin", "fresh_bit", "fresh_bit", "fresh_product",
        fields.expiry.blinding) {
        Err(e) => {
            return Err(e);
        },
        Ok(v) => v,
    };
    let depth = match read_wire(&handoff.core, "depth", &handoff.derived_blinding, "depth") {
        Err(e) => {
            return Err(e);
        },
        Ok(v) => v,
    };
    let depth_cross = match named(&handoff.cross, "depth") {
        Err(e) => {
            return Err(e);
        },
        Ok(v) => v,
    };
    let skew = match read_wire(&handoff.core, "skew", &handoff.derived_blinding, "skew") {
        Err(e) => {
            return Err(e);
        },
        Ok(v) => v,
    };
    let skew_cross = match named(&handoff.cross, "skew") {
        Err(e) => {
            return Err(e);
        },
        Ok(v) => v,
    };
    let active_cross = match named(&handoff.cross, "active") {
        Err(e) => {
            return Err(e);
        },
        Ok(v) => v,
    };
    let reference_cross = match named(&handoff.cross, "reference") {
        Err(e) => {
            return Err(e);
        },
        Ok(v) => v,
    };
    let both = match read_wire(&handoff.core, "both", &handoff.derived_blinding, "both") {
        Err(e) => {
            return Err(e);
        },
        Ok(v) => v,
    };
    let both_cross = match named(&handoff.cross, "both") {
        Err(e) => {
            return Err(e);
        },
        Ok(v) => v,
    };
    let ok = match read_wire(&handoff.core, "ok", &handoff.derived_blinding, "ok") {
        Err(e) => {
            return Err(e);
        },
        Ok(v) => v,
    };
    let ok_cross = match named(&handoff.cross, "ok") {
        Err(e) => {
            return Err(e);
        },
        Ok(v) => v,
    };
    let gated = match read_wire(&handoff.core, "gated", &handoff.derived_blinding, "gated") {
        Err(e) => {
            return Err(e);
        },
        Ok(v) => v,
    };
    let gated_cross = match named(&handoff.cross, "gated") {
        Err(e) => {
            return Err(e);
        },
        Ok(v) => v,
    };
    let cost = match read_wire(&handoff.core, "cost", &handoff.derived_blinding, "cost") {
        Err(e) => {
            return Err(e);
        },
        Ok(v) => v,
    };
    let key = match named(&handoff.core, "key") {
        Err(e) => {
            return Err(e);
        },
        Ok(v) => v,
    };
    let packed = LocalWire { value: key, blinding: handoff.key_blinding_share.scalar };
    Ok(MakerWires { fields, fits, fresh, depth, depth_cross, skew, skew_cross, active_cross, reference_cross, both,
        both_cross, ok, ok_cross, gated, gated_cross, cost, packed })
}

/// What one node of the computation hands to its proof process.
#[derive(Debug)]
pub struct QuoteHandoff {
    /// The modulus of the shares, least significant byte first.
    pub prime: [u8; 32],
    pub party: u16,
    pub qty_share: FieldElement,
    pub qty_blinding_share: FieldElement,
    pub makers: Vec<MakerHandoff>,
}

impl QuoteHandoff {
    /// Whether every share is reduced.
    pub open spec fn reduced(self) -> bool {
        &&& self.qty_share.reduced()
        &&& self.qty_blinding_share.reduced()
        &&& forall|i: int| 0 <= i < self.makers@.len() ==> (#[trigger] self.makers@[i]).reduced()
    }

    /// Why a handoff is refused.
    pub open spec fn refusal(self) -> Option<Seq<char>> {
        either(
            unless(
                le_value(self.prime@) == group_order(),
                "MPC and quote commitments use different scalar fields"@,
            ),
            either(
                unless(self.party < u16::MAX, "MPC party identifier overflow"@),
                first(self.makers@, |m: MakerHandoff| maker_refusal(m)),
            ),
        )
    }
}

/// The local proof node of a complete quote.
#[derive(Debug)]
pub struct MpcQuoteNode {
    party: u16,
    qty: LocalWire,
    makers: Vec<MakerWires>,
}

impl MpcQuoteNode {
    /// The party of the node, counted from one.
    pub closed spec fn party_number(self) -> nat {
        self.party as nat
    }

    /// The quantity.
    pub closed spec fn qty_wire(self) -> LocalWire {
        self.qty
    }

    /// The makers.
    pub closed spec fn maker_wires(self) -> Seq<MakerWires> {
        self.makers@
    }

    /// Whether the node is that of a handoff.
    pub open spec fn of(self, handoff: QuoteHandoff) -> bool {
        &&& self.party_number() == handoff.party + 1
        &&& self.qty_wire().value == handoff.qty_share.scalar
        &&& self.qty_wire().blinding == handoff.qty_blinding_share.scalar
        &&& self.maker_wires().len() == handoff.makers@.len()
        &&& forall|i: int|
            0 <= i < self.maker_wires().len() ==> (#[trigger] self.maker_wires()[i]).of(
                handoff.makers@[i],
                scalar_value(handoff.qty_blinding_share.scalar@),
            )
    }

    /// Reads a node out of a handoff. The parties of a computation are counted from
    /// zero, the evaluation points of the proof from one.
    pub fn from_handoff(handoff: &QuoteHandoff) -> (r: Result<MpcQuoteNode, String>)
        requires
            handoff.reduced(),
        ensures
            match r {
                Ok(node) => handoff.refusal() is None && node.of(*handoff),
                Err(e) => handoff.refusal() == Some(e@),
            },
    {
        if !is_group_order(&handoff.prime) {
            return Err("MPC and quote commitments use different scalar fields".to_owned());
        }
        if handoff.party == u16::MAX {
            return Err("MPC party identifier overflow".to_owned());
        }
        let party: u16 = handoff.party + 1;
        let qty = LocalWire { value: handoff.qty_share.scalar, blinding: handoff.qty_blinding_share.scalar };
        let ghost check = |m: MakerHandoff| maker_refusal(m);
        let mut makers: Vec<MakerWires> = Vec::new();
        let mut i: usize = 0;
        #[verifier::loop_isolation(false)]
        while i < handoff.makers.len()
            invariant
                i <= handoff.makers@.len(),
                makers@.len() == i,
                first(handoff.makers@.take(i as int), check) is None,
                forall|j: int|
                    0 <= j < i ==> (#[trigger] makers@[j]).of(
                        handoff.makers@[j],
                        scalar_value(handoff.qty_blinding_share.scalar@),
                    ),
            decreases handoff.makers@.len() - i,
        {
            proof {
                first_at(handoff.makers@, check, i as int);
                assert(handoff.makers@[i as int].reduced());
            }
            match maker(&handoff.makers[i], &qty.blinding) {
                Err(e) => {
                    return Err(e);
                },
                Ok(wires) => {
                    makers.push(wires);
                },
            }
            i = i + 1;
        }
        assert(handoff.makers@.take(i as int) =~= handoff.makers@);
        Ok(MpcQuoteNode { party, qty, makers })
    }

    /// The party of the node, counted from one.
    pub fn party(&self) -> (party: u16)
        ensures
            party == self.party_number(),
    {
        self.party
    }

    /// The quantity.
    pub fn qty(&self) -> (qty: LocalWire)
        ensures
            qty == self.qty_wire(),
    {
        self.qty
    }

    /// The makers.
    pub fn makers(&self) -> (makers: &Vec<MakerWires>)
        ensures
            makers@ == self.maker_wires(),
    {
        &self.makers
    }
}

/// Whether thirty-two bytes write the order of the group, least significant first.
fn is_group_order(bytes: &[u8; 32]) -> (r: bool)
    ensures
        r == (le_value(bytes@) == group_order()),
{
    let order: [u8; 32] = [0xed, 0xd3, 0xf5, 0x5c, 0x1a, 0x63, 0x12, 0x58, 0xd6, 0x9c, 0xf7, 0xa2, 0xde, 0xf9, 0xde,
        0x14,
        0x00, 0x00, 0x00, 0x00, 0x00, 0x00, 0x00, 0x00, 0x00, 0x00, 0x00, 0x00, 0x00, 0x00, 0x00, 0x10];
    proof {
        order_bytes(order@);
        assert(order@.len() == 32 && bytes@.len() == 32);
        le_value_injective(bytes@, order@);
    }
    same32(bytes, &order)
}

proof fn le_value_injective(a: Seq<u8>, b: Seq<u8>)
    requires
        a.len() == b.len(),
    ensures
        le_value(a) == le_value(b) <==> a == b,
    decreases a.len(),
{
    if a.len() == 0 {
        assert(a =~= b);
    } else {
        le_value_injective(a.drop_first(), b.drop_first());
        if le_value(a) == le_value(b) {
            assert(a[0] == b[0] && le_value(a.drop_first()) == le_value(b.drop_first()));
            assert(a =~= seq![a[0]] + a.drop_first());
            assert(b =~= seq![b[0]] + b.drop_first());
        }
    }
}

proof fn order_bytes(bytes: Seq<u8>)
    requires
        bytes.len() == 32,
        bytes[0] == 237,
        bytes[1] == 211,
        bytes[2] == 245,
        bytes[3] == 92,
        bytes[4] == 26,
        bytes[5] == 99,
        bytes[6] == 18,
        bytes[7] == 88,
        bytes[8] == 214,
        bytes[9] == 156,
        bytes[10] == 247,
        bytes[11] == 162,
        bytes[12] == 222,
        bytes[13] == 249,
        bytes[14] == 222,
        bytes[15] == 20,
        bytes[16] == 0,
        bytes[17] == 0,
        bytes[18] == 0,
        bytes[19] == 0,
        bytes[20] == 0,
        bytes[21] == 0,
        bytes[22] == 0,
        bytes[23] == 0,
        bytes[24] == 0,
        bytes[25] == 0,
        bytes[26] == 0,
        bytes[27] == 0,
        bytes[28] == 0,
        bytes[29] == 0,
        bytes[30] == 0,
        bytes[31] == 16,
    ensures
        le_value(bytes) == group_order(),
{
    assert(bytes.skip(32) =~= Seq::empty());
    assert(le_value(bytes.skip(32)) == 0);
    le_value_step(bytes, 31);
    le_value_step(bytes, 30);
    le_value_step(bytes, 29);
    le_value_step(bytes, 28);
    le_value_step(bytes, 27);
    le_value_step(bytes, 26);
    le_value_step(bytes, 25);
    le_value_step(bytes, 24);
    le_value_step(bytes, 23);
    le_value_step(bytes, 22);
    le_value_step(bytes, 21);
    le_value_step(bytes, 20);
    le_value_step(bytes, 19);
    le_value_step(bytes, 18);
    le_value_step(bytes, 17);
    le_value_step(bytes, 16);
    let high = le_value(bytes.skip(16));
    assert(high == 0x1000_0000_0000_0000_0000_0000_0000_0000);
    le_value_step(bytes, 15);
    le_value_step(bytes, 14);
    le_value_step(bytes, 13);
    le_value_step(bytes, 12);
    le_value_step(bytes, 11);
    le_value_step(bytes, 10);
    le_value_step(bytes, 9);
    le_value_step(bytes, 8);
    let middle = le_value(bytes.skip(8));
    assert(middle == 0x14def9dea2f79cd6 + 0x1_0000_0000_0000_0000 * high);
    le_value_step(bytes, 7);
    le_value_step(bytes, 6);
    le_value_step(bytes, 5);
    le_value_step(bytes, 4);
    le_value_step(bytes, 3);
    le_value_step(bytes, 2);
    le_value_step(bytes, 1);
    le_value_step(bytes, 0);
    assert(bytes.skip(0) =~= bytes);
    assert(le_value(bytes) == 0x5812631a5cf5d3ed + 0x1_0000_0000_0000_0000 * middle);
    vstd::arithmetic::power2::lemma2_to64();
    vstd::arithmetic::power2::lemma2_to64_rest();
    vstd::arithmetic::power2::lemma_pow2_adds(64, 64);
    vstd::arithmetic::power2::lemma_pow2_adds(64, 60);
    vstd::arithmetic::power2::lemma_pow2_adds(128, 124);
    let word = pow2(64);
    assert(word == 0x1_0000_0000_0000_0000);
    assert(pow2(60) == 0x1000_0000_0000_0000);
    assert(pow2(124) == high);
    assert(pow2(252) == word * (word * high)) by (nonlinear_arith)
        requires
            pow2(252) == pow2(128) * pow2(124),
            pow2(128) == word * word,
            pow2(124) == high,
    ;
}

proof fn le_value_step(bytes: Seq<u8>, i: int)
    requires
        0 <= i < bytes.len(),
    ensures
        le_value(bytes.skip(i)) == bytes[i] + 256 * le_value(bytes.skip(i + 1)),
{
    assert(bytes.skip(i).drop_first() =~= bytes.skip(i + 1));
}

} // verus!
