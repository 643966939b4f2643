//! What holds of the node that a quote's proof is made with, and of its public request.

use vstd::prelude::*;
use crate::bytes::zero32;
use crate::complete_quote::{
    commits, commits_policy, flags_ok, openings_bounded, policies_json, policy_json, request_of, signed_residue,
    CompleteQuotePublicInput, CompleteQuoteRequest,
};
use crate::decimal::scalar_value;
use crate::fields::first;
use crate::group::{group_order, le_value, Point, Scalar};
use crate::quote_codec::RegisteredPolicy;
use crate::quote_issuer::{
    maker_refusal, residue_difference, share_among, MakerHandoff, MakerWires, MpcQuoteNode, QuoteHandoff,
};
use crate::sharing::order_positive;
use crate::wire::FieldElement;

verus! {

/// A share is found by its name: the first of the list that bears it, or none.
pub proof fn share_is_found_by_its_name(entries: Seq<(String, FieldElement)>, name: Seq<char>, at: int)
    requires
        0 <= at < entries.len(),
        entries[at].0@ == name,
        forall|i: int| 0 <= i < at ==> (#[trigger] entries[i]).0@ != name,
    ensures
        share_among(entries, name) == Some(entries[at].1),
    decreases at,
{
    if at > 0 {
        let rest = entries.skip(1);
        assert(rest[at - 1] == entries[at]);
        assert forall|i: int| 0 <= i < at - 1 implies (#[trigger] rest[i]).0@ != name by {
            assert(rest[i] == entries[i + 1]);
        }
        share_is_found_by_its_name(rest, name, at - 1);
    }
}

/// Every wire of a Maker's policy is the share of that field, blinded by the share of that
/// field's blinding.
pub proof fn policy_wires_are_of_their_fields(handoff: MakerHandoff, wires: MakerWires, qty_blinding: nat)
    requires
        wires.of(handoff, qty_blinding),
    ensures
        ({
            let core = handoff.core;
            let blinding = handoff.policy_blinding;
            let f = wires.fields;
            &&& f.ask_level.value == core.share("ask_level"@)->0.scalar
            &&& f.ask_level.blinding == blinding.share("ask_level"@)->0.scalar
            &&& f.spread.value == core.share("spread"@)->0.scalar
            &&& f.spread.blinding == blinding.share("spread"@)->0.scalar
            &&& f.slope.value == core.share("slope"@)->0.scalar
            &&& f.slope.blinding == blinding.share("slope"@)->0.scalar
            &&& f.invcoef.value == core.share("invcoef"@)->0.scalar
            &&& f.invcoef.blinding == blinding.share("invcoef"@)->0.scalar
            &&& f.inv.value == core.share("inv"@)->0.scalar
            &&& f.inv.blinding == blinding.share("inv"@)->0.scalar
            &&& f.maxqty.value == core.share("maxqty"@)->0.scalar
            &&& f.maxqty.blinding == blinding.share("maxqty"@)->0.scalar
            &&& f.expiry.value == core.share("expiry"@)->0.scalar
            &&& f.expiry.blinding == blinding.share("expiry"@)->0.scalar
            &&& f.active.value == core.share("active"@)->0.scalar
            &&& f.active.blinding == blinding.share("active"@)->0.scalar
            &&& f.use_ref.value == handoff.use_ref_share.scalar
            &&& f.use_ref.blinding == blinding.share("use_ref"@)->0.scalar
        }),
{
}

/// The margin by which a Maker's quantity fits is blinded by what its blinding exceeds that
/// of the request, the margin of its freshness by that of its expiry; the bits and products
/// are those of their names.
pub proof fn gate_wires_are_of_their_margins(handoff: MakerHandoff, wires: MakerWires, qty_blinding: nat)
    requires
        wires.of(handoff, qty_blinding),
    ensures
        ({
            let core = handoff.core;
            let derived = handoff.derived_blinding;
            let cross = handoff.cross;
            let l = group_order() as int;
            &&& wires.fits.value.value == core.share("fits_margin"@)->0.scalar
            &&& scalar_value(wires.fits.value.blinding@) as int == (scalar_value(
                handoff.policy_blinding.share("maxqty"@)->0.scalar@,
            ) as int - qty_blinding as int) % l
            &&& wires.fits.holds.value == core.share("fits"@)->0.scalar
            &&& wires.fits.holds.blinding == derived.share("fits_bit"@)->0.scalar
            &&& wires.fits.holds_cross == cross.share("fits_bit"@)->0.scalar
            &&& wires.fits.product.value == core.share("fits_product"@)->0.scalar
            &&& wires.fits.product.blinding == derived.share("fits_product"@)->0.scalar
            &&& wires.fits.product_cross == cross.share("fits_product"@)->0.scalar
            &&& wires.fresh.value.value == core.share("fresh_margin"@)->0.scalar
            &&& scalar_value(wires.fresh.value.blinding@) == scalar_value(
                handoff.policy_blinding.share("expiry"@)->0.scalar@,
            )
            &&& wires.fresh.holds.value == core.share("fresh_bit"@)->0.scalar
            &&& wires.fresh.holds.blinding == derived.share("fresh_bit"@)->0.scalar
            &&& wires.fresh.holds_cross == cross.share("fresh_bit"@)->0.scalar
            &&& wires.fresh.product.value == core.share("fresh_product"@)->0.scalar
            &&& wires.fresh.product.blinding == derived.share("fresh_product"@)->0.scalar
            &&& wires.fresh.product_cross == cross.share("fresh_product"@)->0.scalar
        }),
{
    order_positive();
    let l = group_order() as int;
    let x = scalar_value(handoff.policy_blinding.share("maxqty"@)->0.scalar@) as int - qty_blinding as int;
    vstd::arithmetic::div_mod::lemma_mod_bound(x, l);
}

/// The derived wires of a Maker are the shares of their own names, and the packed key is
/// blinded by the key's own blinding.
pub proof fn derived_wires_are_of_their_names(handoff: MakerHandoff, wires: MakerWires, qty_blinding: nat)
    requires
        wires.of(handoff, qty_blinding),
    ensures
        ({
            let core = handoff.core;
            let derived = handoff.derived_blinding;
            let cross = handoff.cross;
            &&& wires.depth.value == core.share("depth"@)->0.scalar
            &&& wires.depth.blinding == derived.share("depth"@)->0.scalar
            &&& wires.depth_cross == cross.share("depth"@)->0.scalar
            &&& wires.skew.value == core.share("skew"@)->0.scalar
            &&& wires.skew.blinding == derived.share("skew"@)->0.scalar
            &&& wires.skew_cross == cross.share("skew"@)->0.scalar
            &&& wires.active_cross == cross.share("active"@)->0.scalar
            &&& wires.reference_cross == cross.share("reference"@)->0.scalar
            &&& wires.both.value == core.share("both"@)->0.scalar
            &&& wires.both.blinding == derived.share("both"@)->0.scalar
            &&& wires.both_cross == cross.share("both"@)->0.scalar
            &&& wires.ok.value == core.share("ok"@)->0.scalar
            &&& wires.ok.blinding == derived.share("ok"@)->0.scalar
            &&& wires.ok_cross == cross.share("ok"@)->0.scalar
            &&& wires.gated.value == core.share("gated"@)->0.scalar
            &&& wires.gated.blinding == derived.share("gated"@)->0.scalar
            &&& wires.gated_cross == cross.share("gated"@)->0.scalar
            &&& wires.cost.value == core.share("cost"@)->0.scalar
            &&& wires.cost.blinding == derived.share("cost"@)->0.scalar
            &&& wires.packed.value == core.share("key"@)->0.scalar
            &&& wires.packed.blinding == handoff.key_blinding_share.scalar
        }),
{
}

/// The node of a handoff is counted from one, has the handoff's quantity and a Maker for each
/// of its Makers, in order.
pub proof fn quote_node_is_of_its_handoff(node: MpcQuoteNode, handoff: QuoteHandoff, at: int)
    requires
        node.of(handoff),
    ensures
        node.party_number() == handoff.party + 1,
        node.qty_wire().value == handoff.qty_share.scalar,
        node.qty_wire().blinding == handoff.qty_blinding_share.scalar,
        node.maker_wires().len() == handoff.makers@.len(),
        0 <= at < handoff.makers@.len() ==> node.maker_wires()[at].of(
            handoff.makers@[at],
            scalar_value(handoff.qty_blinding_share.scalar@),
        ),
{
}

/// A handoff is taken only over the field of the commitments, from a party that can be
/// counted, with every share of every Maker.
pub proof fn handoff_is_taken_whole(handoff: QuoteHandoff, at: int)
    requires
        handoff.refusal() is None,
        0 <= at < handoff.makers@.len(),
    ensures
        le_value(handoff.prime@) == group_order(),
        handoff.party < u16::MAX,
        maker_refusal(handoff.makers@[at]) is None,
        ({
            let m = handoff.makers@[at];
            &&& m.core.share("ask_level"@) is Some && m.policy_blinding.share("ask_level"@) is Some
            &&& m.core.share("maxqty"@) is Some && m.policy_blinding.share("maxqty"@) is Some
            &&& m.core.share("expiry"@) is Some && m.policy_blinding.share("expiry"@) is Some
            &&& m.policy_blinding.share("use_ref"@) is Some
            &&& m.core.share("fits_margin"@) is Some && m.core.share("fits"@) is Some
            &&& m.core.share("fresh_margin"@) is Some && m.core.share("fresh_bit"@) is Some
            &&& m.core.share("cost"@) is Some && m.derived_blinding.share("cost"@) is Some
            &&& m.core.share("key"@) is Some
            &&& m.cross.share("gated"@) is Some
        }),
{
    none_refused(handoff.makers@, at);
}

proof fn none_refused(values: Seq<MakerHandoff>, at: int)
    requires
        first(values, |m: MakerHandoff| maker_refusal(m)) is None,
        0 <= at < values.len(),
    ensures
        maker_refusal(values[at]) is None,
    decreases values.len(),
{
    if at < values.len() - 1 {
        none_refused(values.drop_last(), at);
    }
}

/// A difference is counted modulo the group order: adding what was taken away gives the first
/// number back.
pub proof fn difference_adds_back(a: nat, b: nat)
    requires
        a < group_order(),
        b < group_order(),
    ensures
        residue_difference(a, b) < group_order(),
        (residue_difference(a, b) + b) % group_order() == a,
{
    order_positive();
    let l = group_order() as int;
    let d = a as int - b as int;
    vstd::arithmetic::div_mod::lemma_mod_bound(d, l);
    vstd::arithmetic::div_mod::lemma_add_mod_noop(d % l, b as int, l);
    vstd::arithmetic::div_mod::lemma_add_mod_noop(d, b as int, l);
    vstd::arithmetic::div_mod::lemma_mod_twice(d, l);
    vstd::arithmetic::div_mod::lemma_small_mod(a, group_order());
}

/// A signed number stands for its residue: the residue of a number and of its negative add up
/// to nothing.
pub proof fn signed_residue_is_modular(value: int)
    requires
        -0x1_0000_0000_0000_0000 < value < 0x1_0000_0000_0000_0000,
    ensures
        value >= 0 ==> signed_residue(value) == value,
        value < 0 ==> signed_residue(value) == group_order() + value,
        signed_residue(value) < group_order(),
        (signed_residue(value) + signed_residue(-value)) % group_order() == 0,
{
    order_positive();
    let l = group_order() as int;
    if value == 0 {
        vstd::arithmetic::div_mod::lemma_small_mod(0, group_order());
    } else {
        vstd::arithmetic::div_mod::lemma_mod_self_0(l);
    }
}

/// The public request of a quote commits to the quantity and to every field of every policy,
/// each under its own name and blinding, and says the rest as it is.
pub proof fn public_request_commits_to_its_input<
    C: Fn(&Scalar, &Scalar) -> Point,
    D: Fn(&Vec<RegisteredPolicy>) -> [u8; 32],
>(input: CompleteQuotePublicInput, commit: C, digest: D, request: CompleteQuoteRequest, at: int)
    requires
        request_of(input, commit, digest, request),
        0 <= at < input.policies@.len(),
    ensures
        request.job_id == input.job_id,
        request.request_context == input.request_context,
        request.winner_index == input.winner_index,
        request.winner_value == input.winner_value,
        request.eligibility_bits == input.eligibility_bits,
        request.span_bits == input.span_bits,
        commits(
            commit,
            signed_residue(input.quantity as int),
            input.quantity_blinding as nat,
            request.public.qty_commitment,
        ),
        request.public.now == input.now,
        request.public.sentinel == input.sentinel,
        request.public.direction == input.direction,
        request.public.asset == input.asset,
        request.public.reference_price == input.reference_price,
        request.public.market_digest == input.market_digest,
        request.public.slot == input.slot,
        request.public.n_slots == input.policies@.len(),
        request.public.registry@.len() == input.policies@.len(),
        ({
            let opening = input.policies@[at];
            let policy = request.public.registry@[at];
            let v = opening.values@;
            let b = opening.blindings@;
            &&& policy.maker_asset == opening.maker_asset
            &&& commits(commit, signed_residue(v[0] as int), b[0] as nat, policy.ask_level)
            &&& commits(commit, signed_residue(v[1] as int), b[1] as nat, policy.spread)
            &&& commits(commit, signed_residue(v[2] as int), b[2] as nat, policy.slope)
            &&& commits(commit, signed_residue(v[3] as int), b[3] as nat, policy.invcoef)
            &&& commits(commit, signed_residue(v[4] as int), b[4] as nat, policy.inv)
            &&& commits(commit, signed_residue(v[5] as int), b[5] as nat, policy.maxqty)
            &&& commits(commit, signed_residue(v[6] as int), b[6] as nat, policy.expiry)
            &&& commits(commit, signed_residue(v[7] as int), b[7] as nat, policy.active)
            &&& commits(commit, signed_residue(v[8] as int), b[8] as nat, policy.use_ref)
        }),
{
    assert(commits_policy(commit, input.policies@[at], request.public.registry@[at]));
}

/// Openings are taken exactly for one to four thousand and ninety-six policies whose flags are
/// zero or one, a direction that is one of two, and a winner among them.
pub proof fn openings_are_taken_exactly(input: CompleteQuotePublicInput)
    ensures
        openings_bounded(input) <==> {
            &&& 1 <= input.policies@.len() <= 4096
            &&& input.direction == 0 || input.direction == 1
            &&& input.winner_index < input.policies@.len()
            &&& forall|i: int|
                0 <= i < input.policies@.len() ==> ((#[trigger] input.policies@[i]).values@[7] == 0
                    || input.policies@[i].values@[7] == 1) && (input.policies@[i].values@[8] == 0
                    || input.policies@[i].values@[8] == 1)
        },
{
    if openings_bounded(input) {
        assert forall|i: int| 0 <= i < input.policies@.len() implies ((#[trigger] input.policies@[i]).values@[7] == 0
            || input.policies@[i].values@[7] == 1) && (input.policies@[i].values@[8] == 0
            || input.policies@[i].values@[8] == 1) by {
            assert(flags_ok(input.policies@[i]));
        }
    }
}

/// A complete quote is asked for exactly with a job and a context, a registry of as many
/// policies as slots, a winner among them, and widths that can be.
pub proof fn complete_quote_is_asked_for_exactly(request: CompleteQuoteRequest)
    ensures
        request.bounded() <==> {
            &&& request.job_id@ != zero32()
            &&& request.request_context@ != zero32()
            &&& 1 <= request.public.registry@.len() <= 4096
            &&& request.public.n_slots == request.public.registry@.len()
            &&& request.winner_index < request.public.registry@.len()
            &&& 3 <= request.eligibility_bits <= 64
            &&& 1 <= request.span_bits <= 64
        },
{
}

/// A registry is sent policy by policy, in order.
pub proof fn registry_is_sent_in_order(registry: Seq<RegisteredPolicy>, at: int)
    requires
        0 <= at < registry.len(),
    ensures
        policies_json(registry) is Array,
        policies_json(registry)->Array_0.len() == registry.len(),
        policies_json(registry)->Array_0[at] == policy_json(registry[at]),
{
}

} // verus!
