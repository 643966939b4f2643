//! The fixed-width input of one request to the resident circuit.
//!
//! The transport wire holds no public metadata of a request. Here is where the
//! secret values that are shared are proved to be the openings that the Taker
//! signed. Maker reserve shares are not accepted here: they stay with the nodes.

use vstd::prelude::*;
use crate::bytes::{is_zero32, same32, zero32};
use crate::decimal::scalar_value;
use crate::fields::{either, unless};
use crate::group::{is_scalar, Scalar};
use crate::proof_mandate::{refused, told, Direction};
use crate::wire::FieldElement;

verus! {

/// How many values a request has.
pub const RESIDENT_RFQ_FIELDS: usize = 14;

/// Where a request stands in the venue's private catalog.
#[derive(Clone, Copy, Debug)]
pub struct ResidentRfqCatalogBinding {
    pub asset_index: u64,
    pub asset_count: u64,
    pub traded_asset_id: [u8; 32],
    pub cash_asset_id: [u8; 32],
    /// The secret venue-local pseudonym of the legal entity. It never stands on
    /// the public wire and is not zero, so that it is not taken for cover.
    pub entity_slot: u64,
}

/// The openings of a request.
#[derive(Clone, Copy, Debug)]
pub struct ResidentRfqOpenings {
    pub quantity: u64,
    pub quantity_blinding: Scalar,
    pub executable_limit: u64,
    pub limit_blinding: Scalar,
    /// The one reserve that the direction needs: cash for a buy, the traded
    /// security for a sell. The other rail is shared as zero.
    pub reserve_amount: u64,
    pub reserve_blinding: Scalar,
    /// One-time masks that only the Taker keeps.
    pub response_mask: Scalar,
    pub fill_mask: Scalar,
}

impl ResidentRfqOpenings {
    /// Whether the scalars are reduced.
    pub open spec fn reduced(self) -> bool {
        &&& is_scalar(self.quantity_blinding@)
        &&& is_scalar(self.limit_blinding@)
        &&& is_scalar(self.reserve_blinding@)
        &&& is_scalar(self.response_mask@)
        &&& is_scalar(self.fill_mask@)
    }
}

/// What the openings commit to.
#[derive(Clone, Copy, Debug)]
pub struct RfqCommitments {
    pub quantity: [u8; 32],
    pub limit: [u8; 32],
    pub reserve: [u8; 32],
    pub fill_mask: [u8; 32],
}

/// The signed mandate of a request, as far as it is read here.
#[derive(Debug)]
pub struct RfqMandate {
    /// Whether the signature holds at the time of the request.
    pub authentic: Result<(), String>,
    pub admission_slot: u64,
    pub allow_partial: bool,
    pub asset_id: [u8; 32],
    pub reserve_asset_id: [u8; 32],
    pub direction: Direction,
    pub quantity_commitment: [u8; 32],
    pub limit_price_commitment: [u8; 32],
    pub maximum_amount_commitment: [u8; 32],
    pub fill_mask_commitment: [u8; 32],
}

/// The values of a request.
#[derive(Debug)]
pub struct ResidentRfqInput {
    pub values: Vec<FieldElement>,
}

/// The asset that a mandate has to reserve.
pub open spec fn reserve_asset(mandate: RfqMandate, catalog: ResidentRfqCatalogBinding) -> Seq<u8> {
    match mandate.direction {
        Direction::TakerBuys => catalog.cash_asset_id@,
        Direction::TakerSells => catalog.traded_asset_id@,
    }
}

/// Whether the openings are those that a mandate commits to.
pub open spec fn openings_match(mandate: RfqMandate, commitments: RfqCommitments) -> bool {
    &&& commitments.quantity@ == mandate.quantity_commitment@
    &&& commitments.limit@ == mandate.limit_price_commitment@
    &&& commitments.reserve@ == mandate.maximum_amount_commitment@
    &&& commitments.fill_mask@ == mandate.fill_mask_commitment@
}

/// Whether no blinding and no mask is zero.
pub open spec fn openings_blind(openings: ResidentRfqOpenings) -> bool {
    &&& openings.quantity_blinding@ != zero32()
    &&& openings.limit_blinding@ != zero32()
    &&& openings.reserve_blinding@ != zero32()
    &&& openings.response_mask@ != zero32()
    &&& openings.fill_mask@ != zero32()
}

/// Why a request is refused.
pub open spec fn rfq_refusal(
    mandate: RfqMandate,
    catalog: ResidentRfqCatalogBinding,
    openings: ResidentRfqOpenings,
    commitments: RfqCommitments,
    slot: u32,
) -> Option<Seq<char>> {
    either(
        refused(mandate.authentic),
        either(
            unless(mandate.admission_slot == slot, "Taker mandate belongs to another admission slot"@),
            either(
                unless(!mandate.allow_partial, "resident RFQ circuit does not yet accept partial-fill mandates"@),
                either(
                    unless(
                        catalog.asset_index < catalog.asset_count,
                        "RFQ asset index is outside the approved private catalog"@,
                    ),
                    either(
                        unless(catalog.entity_slot != 0, "RFQ legal-entity pseudonym must be non-zero"@),
                        either(
                            unless(
                                mandate.asset_id@ == catalog.traded_asset_id@,
                                "Taker mandate names another traded asset"@,
                            ),
                            either(
                                unless(
                                    mandate.reserve_asset_id@ == reserve_asset(mandate, catalog),
                                    "Taker mandate reserves the wrong settlement rail"@,
                                ),
                                either(
                                    unless(
                                        openings.quantity != 0 && openings.reserve_amount != 0,
                                        "Taker quantity and reserve must be positive"@,
                                    ),
                                    either(
                                        unless(
                                            mandate.direction == Direction::TakerBuys || openings.reserve_amount
                                                >= openings.quantity,
                                            "Taker securities reserve is smaller than the signed quantity"@,
                                        ),
                                        either(
                                            unless(
                                                openings_blind(openings),
                                                "RFQ openings and one-time response masks must be non-zero"@,
                                            ),
                                            unless(
                                                openings_match(mandate, commitments),
                                                "RFQ openings do not match the signed Taker mandate"@,
                                            ),
                                        ),
                                    ),
                                ),
                            ),
                        ),
                    ),
                ),
            ),
        ),
    )
}

/// The values of a request: where it stands in the catalog, what and which way is
/// traded, who asks, that it is no cover, its masks, limit and blindings, and the
/// reserve on the rail that the direction needs.
pub open spec fn rfq_values(
    direction: Direction,
    catalog: ResidentRfqCatalogBinding,
    openings: ResidentRfqOpenings,
) -> Seq<nat> {
    let buys = direction == Direction::TakerBuys;
    let amount = openings.reserve_amount as nat;
    let blinding = scalar_value(openings.reserve_blinding@);
    seq![
        catalog.asset_index as nat,
        openings.quantity as nat,
        if buys { 0 } else { 1 },
        catalog.entity_slot as nat,
        1,
        scalar_value(openings.response_mask@),
        openings.executable_limit as nat,
        scalar_value(openings.limit_blinding@),
        scalar_value(openings.fill_mask@),
        scalar_value(openings.quantity_blinding@),
        if buys { 0 } else { amount },
        if buys { 0 } else { blinding },
        if buys { amount } else { 0 },
        if buys { blinding } else { 0 },
    ]
}

/// The values of a request that asks for nothing: only its masks are set.
pub open spec fn cover_values(response_mask: Seq<u8>, fill_mask: Seq<u8>) -> Seq<nat> {
    Seq::new(
        RESIDENT_RFQ_FIELDS as nat,
        |i: int|
            if i == 5 {
                scalar_value(response_mask)
            } else if i == 8 {
                scalar_value(fill_mask)
            } else {
                0
            },
    )
}

/// The numbers of values.
pub open spec fn numbers(values: Seq<FieldElement>) -> Seq<nat> {
    values.map_values(|v: FieldElement| v@)
}

fn scalar_field(value: Scalar) -> (element: FieldElement)
    requires
        is_scalar(value@),
    ensures
        element.reduced(),
        element@ == scalar_value(value@),
{
    FieldElement { scalar: value }
}

/// What comes of a signed request: its values, or why it is refused.
pub open spec fn request_made(
    mandate: RfqMandate,
    catalog: ResidentRfqCatalogBinding,
    openings: ResidentRfqOpenings,
    commitments: RfqCommitments,
    slot: u32,
    r: Result<ResidentRfqInput, String>,
) -> bool {
    match r {
        Ok(input) => {
            &&& rfq_refusal(mandate, catalog, openings, commitments, slot) is None
            &&& input.wf()
            &&& numbers(input.values@) == rfq_values(mandate.direction, catalog, openings)
        },
        Err(e) => rfq_refusal(mandate, catalog, openings, commitments, slot) == Some(e@),
    }
}

impl ResidentRfqInput {
    /// Whether there are fourteen values, all reduced.
    pub open spec fn wf(self) -> bool {
        &&& self.values@.len() == RESIDENT_RFQ_FIELDS
        &&& forall|i: int| 0 <= i < self.values@.len() ==> (#[trigger] self.values@[i]).reduced()
    }

    /// The values of a request whose openings are those that its Taker signed.
    /// `commitments` is what the openings commit to.
    pub fn from_signed_mandate(
        mandate: &RfqMandate,
        catalog: &ResidentRfqCatalogBinding,
        openings: &ResidentRfqOpenings,
        commitments: &RfqCommitments,
        slot: u32,
    ) -> (r: Result<ResidentRfqInput, String>)
        requires
            openings.reduced(),
        ensures
            request_made(*mandate, *catalog, *openings, *commitments, slot, r),
    {
        if let Err(e) = &mandate.authentic {
            return Err(told(e));
        }
        if mandate.admission_slot != slot as u64 {
            return Err("Taker mandate belongs to another admission slot".to_owned());
        }
        if mandate.allow_partial {
            return Err("resident RFQ circuit does not yet accept partial-fill mandates".to_owned());
        }
        if catalog.asset_count == 0 || catalog.asset_index >= catalog.asset_count {
            return Err("RFQ asset index is outside the approved private catalog".to_owned());
        }
        if catalog.entity_slot == 0 {
            return Err("RFQ legal-entity pseudonym must be non-zero".to_owned());
        }
        if !same32(&mandate.asset_id, &catalog.traded_asset_id) {
            return Err("Taker mandate names another traded asset".to_owned());
        }
        let right_reserve = match mandate.direction {
            Direction::TakerBuys => same32(&mandate.reserve_asset_id, &catalog.cash_asset_id),
            Direction::TakerSells => same32(&mandate.reserve_asset_id, &catalog.traded_asset_id),
        };
        if !right_reserve {
            return Err("Taker mandate reserves the wrong settlement rail".to_owned());
        }
        if openings.quantity == 0 || openings.reserve_amount == 0 {
            return Err("Taker quantity and reserve must be positive".to_owned());
        }
        let buys = match mandate.direction {
            Direction::TakerBuys => true,
            Direction::TakerSells => false,
        };
        if !buys && openings.reserve_amount < openings.quantity {
            return Err("Taker securities reserve is smaller than the signed quantity".to_owned());
        }
        if is_zero32(&openings.quantity_blinding.bytes) || is_zero32(&openings.limit_blinding.bytes) || is_zero32(
            &openings.reserve_blinding.bytes,
        ) || is_zero32(&openings.response_mask.bytes) || is_zero32(&openings.fill_mask.bytes) {
            return Err("RFQ openings and one-time response masks must be non-zero".to_owned());
        }
        if !same32(&commitments.quantity, &mandate.quantity_commitment) || !same32(
            &commitments.limit,
            &mandate.limit_price_commitment,
        ) || !same32(&commitments.reserve, &mandate.maximum_amount_commitment) || !same32(
            &commitments.fill_mask,
            &mandate.fill_mask_commitment,
        ) {
            return Err("RFQ openings do not match the signed Taker mandate".to_owned());
        }
        let zero = FieldElement::from_u64(0);
        let amount = FieldElement::from_u64(openings.reserve_amount);
        let blinding = scalar_field(openings.reserve_blinding);
        let direction = FieldElement::from_u64(
            if buys {
                0
            } else {
                1
            },
        );
        let (securities_amount, securities_blinding, cash_amount, cash_blinding) = if buys {
            (zero, zero, amount, blinding)
        } else {
            (amount, blinding, zero, zero)
        };
        let values: Vec<FieldElement> = vec![
            FieldElement::from_u64(catalog.asset_index),
            FieldElement::from_u64(openings.quantity),
            direction,
            FieldElement::from_u64(catalog.entity_slot),
            FieldElement::from_u64(1),
            scalar_field(openings.response_mask),
            FieldElement::from_u64(openings.executable_limit),
            scalar_field(openings.limit_blinding),
            scalar_field(openings.fill_mask),
            scalar_field(openings.quantity_blinding),
            securities_amount,
            securities_blinding,
            cash_amount,
            cash_blinding,
        ];
        assert(numbers(values@) =~= rfq_values(mandate.direction, *catalog, *openings));
        Ok(ResidentRfqInput { values })
    }

    /// A request that asks for nothing, under masks that were drawn at random: its
    /// opened response is no unmasked quote either.
    pub fn cover(response_mask: Scalar, fill_mask: Scalar) -> (input: ResidentRfqInput)
        requires
            is_scalar(response_mask@),
            is_scalar(fill_mask@),
        ensures
            input.wf(),
            numbers(input.values@) == cover_values(response_mask@, fill_mask@),
    {
        let zero = FieldElement::from_u64(0);
        let values: Vec<FieldElement> = vec![
            zero,
            zero,
            zero,
            zero,
            zero,
            scalar_field(response_mask),
            zero,
            zero,
            scalar_field(fill_mask),
            zero,
            zero,
            zero,
            zero,
            zero,
        ];
        assert(numbers(values@) =~= cover_values(response_mask@, fill_mask@));
        ResidentRfqInput { values }
    }

    /// The values.
    pub fn values(&self) -> (values: &Vec<FieldElement>)
        ensures
            *values == self.values,
    {
        &self.values
    }

    /// Shares the values over nodes with `share`.
    pub fn share<P, F: FnOnce(&Vec<FieldElement>, usize) -> Result<Vec<P>, String>>(
        &self,
        n_nodes: usize,
        share: F,
    ) -> (r: Result<Vec<P>, String>)
        requires
            call_requires(share, (&self.values, n_nodes)),
        ensures
            call_ensures(share, (&self.values, n_nodes), r),
    {
        share(&self.values, n_nodes)
    }
}

/// A request that asks for nothing has its real-or-cover value at zero, a signed
/// request has it at one.
pub proof fn cover_is_told_apart_by_its_secret_bit(
    direction: Direction,
    catalog: ResidentRfqCatalogBinding,
    openings: ResidentRfqOpenings,
    response_mask: Seq<u8>,
    fill_mask: Seq<u8>,
)
    ensures
        rfq_values(direction, catalog, openings)[4] == 1,
        cover_values(response_mask, fill_mask)[4] == 0,
        rfq_values(direction, catalog, openings).len() == cover_values(response_mask, fill_mask).len(),
{
}

/// Every value of an accepted request stands in its place: the asset, the quantity, zero
/// for a buy and one for a sell, the entity, the mark of a real request, the response
/// mask, the limit with its blinding, the fill mask, the quantity's blinding, the
/// securities reserve with its blinding and the cash reserve with its own.
pub proof fn request_values_stand_in_their_places(
    mandate: RfqMandate,
    catalog: ResidentRfqCatalogBinding,
    openings: ResidentRfqOpenings,
    commitments: RfqCommitments,
    slot: u32,
    input: ResidentRfqInput,
)
    requires
        request_made(mandate, catalog, openings, commitments, slot, Ok(input)),
    ensures
        input.values@.len() == 14,
        input.values@[0]@ == catalog.asset_index,
        input.values@[1]@ == openings.quantity,
        input.values@[2]@ == 0 <==> mandate.direction is TakerBuys,
        input.values@[2]@ == 1 <==> mandate.direction is TakerSells,
        input.values@[3]@ == catalog.entity_slot,
        input.values@[4]@ == 1,
        input.values@[5]@ == scalar_value(openings.response_mask@),
        input.values@[6]@ == openings.executable_limit,
        input.values@[7]@ == scalar_value(openings.limit_blinding@),
        input.values@[8]@ == scalar_value(openings.fill_mask@),
        input.values@[9]@ == scalar_value(openings.quantity_blinding@),
        mandate.direction is TakerSells ==> {
            &&& input.values@[10]@ == openings.reserve_amount
            &&& input.values@[11]@ == scalar_value(openings.reserve_blinding@)
            &&& input.values@[12]@ == 0
            &&& input.values@[13]@ == 0
        },
        mandate.direction is TakerBuys ==> {
            &&& input.values@[10]@ == 0
            &&& input.values@[11]@ == 0
            &&& input.values@[12]@ == openings.reserve_amount
            &&& input.values@[13]@ == scalar_value(openings.reserve_blinding@)
        },
{
    let shown = numbers(input.values@);
    assert(shown.len() == input.values@.len());
    assert(forall|i: int| 0 <= i < 14 ==> #[trigger] shown[i] == input.values@[i]@);
    assert(shown[0] == input.values@[0]@ && shown[1] == input.values@[1]@ && shown[2] == input.values@[2]@);
    assert(shown[3] == input.values@[3]@ && shown[4] == input.values@[4]@ && shown[5] == input.values@[5]@);
    assert(shown[6] == input.values@[6]@ && shown[7] == input.values@[7]@ && shown[8] == input.values@[8]@);
    assert(shown[9] == input.values@[9]@ && shown[10] == input.values@[10]@ && shown[11] == input.values@[11]@);
    assert(shown[12] == input.values@[12]@ && shown[13] == input.values@[13]@);
}

/// Two accepted requests of different direction never have the same direction value, and
/// reserve on different rails.
pub proof fn buy_and_sell_are_told_apart(
    buy: RfqMandate,
    sell: RfqMandate,
    catalog: ResidentRfqCatalogBinding,
    openings: ResidentRfqOpenings,
    commitments: RfqCommitments,
    slot: u32,
    bought: ResidentRfqInput,
    sold: ResidentRfqInput,
)
    requires
        buy.direction is TakerBuys,
        sell.direction is TakerSells,
        request_made(buy, catalog, openings, commitments, slot, Ok(bought)),
        request_made(sell, catalog, openings, commitments, slot, Ok(sold)),
    ensures
        bought.values@[2]@ != sold.values@[2]@,
        bought.values@[10]@ == sold.values@[12]@,
        bought.values@[12]@ == sold.values@[10]@,
        bought.values@[12]@ > 0,
{
    request_values_stand_in_their_places(buy, catalog, openings, commitments, slot, bought);
    request_values_stand_in_their_places(sell, catalog, openings, commitments, slot, sold);
}

/// A request is accepted exactly if its mandate is authentic, of the slot and without
/// partial fills, it stands in the catalog under a known entity, trades and reserves the
/// assets that its direction needs, in positive amounts that cover a sale, and its
/// blinded openings are those that the mandate commits to.
pub proof fn request_is_accepted_exactly(
    mandate: RfqMandate,
    catalog: ResidentRfqCatalogBinding,
    openings: ResidentRfqOpenings,
    commitments: RfqCommitments,
    slot: u32,
    r: Result<ResidentRfqInput, String>,
)
    requires
        request_made(mandate, catalog, openings, commitments, slot, r),
    ensures
        r is Ok <==> {
            &&& mandate.authentic is Ok
            &&& mandate.admission_slot == slot
            &&& !mandate.allow_partial
            &&& catalog.asset_index < catalog.asset_count
            &&& catalog.entity_slot != 0
            &&& mandate.asset_id@ == catalog.traded_asset_id@
            &&& mandate.direction is TakerBuys ==> mandate.reserve_asset_id@ == catalog.cash_asset_id@
            &&& mandate.direction is TakerSells ==> mandate.reserve_asset_id@ == catalog.traded_asset_id@
            &&& openings.quantity > 0
            &&& openings.reserve_amount > 0
            &&& mandate.direction is TakerSells ==> openings.reserve_amount >= openings.quantity
            &&& openings.quantity_blinding@ != zero32()
            &&& openings.limit_blinding@ != zero32()
            &&& openings.reserve_blinding@ != zero32()
            &&& openings.response_mask@ != zero32()
            &&& openings.fill_mask@ != zero32()
            &&& commitments.quantity@ == mandate.quantity_commitment@
            &&& commitments.limit@ == mandate.limit_price_commitment@
            &&& commitments.reserve@ == mandate.maximum_amount_commitment@
            &&& commitments.fill_mask@ == mandate.fill_mask_commitment@
        },
{
}

/// A request that asks for nothing has its two masks in the places where a real request
/// has them, and zero everywhere else.
pub proof fn cover_carries_its_masks_alone(response_mask: Seq<u8>, fill_mask: Seq<u8>, at: int)
    requires
        0 <= at < 14,
    ensures
        cover_values(response_mask, fill_mask).len() == 14,
        cover_values(response_mask, fill_mask)[5] == scalar_value(response_mask),
        cover_values(response_mask, fill_mask)[8] == scalar_value(fill_mask),
        at != 5 && at != 8 ==> cover_values(response_mask, fill_mask)[at] == 0,
{
}

/// Only the rail that the direction needs carries a reserve.
pub proof fn one_rail_is_reserved(
    direction: Direction,
    catalog: ResidentRfqCatalogBinding,
    openings: ResidentRfqOpenings,
)
    ensures
        direction == Direction::TakerBuys ==> rfq_values(direction, catalog, openings)[10] == 0 && rfq_values(
            direction,
            catalog,
            openings,
        )[12] == openings.reserve_amount,
        direction == Direction::TakerSells ==> rfq_values(direction, catalog, openings)[12] == 0 && rfq_values(
            direction,
            catalog,
            openings,
        )[10] == openings.reserve_amount,
{
}

} // verus!
