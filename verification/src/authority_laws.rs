//! The authority that is given before a trade: what is written is read back member by
//! member, and a document is accepted exactly under the conditions that are stated here.

use vstd::prelude::*;
use crate::application_crypto::{Signature, VerifyingKey};
use crate::authority_admission::{
    complete_sequences, PretradeSettlementVerifier, WireAdmissionAttestation, WireSettlementVerifier,
};
use crate::authority_bundle::{
    authority_begun, maker_refusal, maker_repeated, maker_told, makers_hold, makers_read, taker_refusal,
    taker_repeated, taker_told, takers_hold, takers_read, AuthorityJudges, MakerPretradeAuthority,
    PretradeAuthorityBundle, TakerPretradeAuthority, WireAuthorityBundle, WireMakerAuthority, WireTakerAuthority,
};
use crate::authority_parts::{
    KybPresentation, SignedCohortRegistry, SignedMakerMandate, SignedTakerMandate, WireMakerMandate, WirePresentation,
    WireRegistry, WireTakerMandate,
};
use crate::bytes::zero32;
use crate::group::is_scalar;
use crate::order::{Admission, AdmissionLane};
use crate::pretrade_wire::signature_refusal;
use crate::text::{hex_bytes, hex_round_trip, hex_text, is_hex};

verus! {

/// Whether a text is thirty-two bytes in hexadecimal.
pub open spec fn is_hex32(text: Seq<char>) -> bool {
    is_hex(text) && hex_bytes(text).len() == 32
}

/// A registry of a cohort is read back as it was written, point by point.
pub proof fn registry_is_read_back(wire: WireRegistry, written: SignedCohortRegistry, read: SignedCohortRegistry)
    requires
        wire.writes(written),
        wire.says(read),
    ensures
        wire.cohort@ == written.cohort@ && read.cohort@ == written.cohort@,
        wire.registry_epoch == written.registry_epoch && read.registry_epoch == written.registry_epoch,
        wire.expires_at == written.expires_at && read.expires_at == written.expires_at,
        wire.points@.len() == written.points@.len() && read.points@.len() == written.points@.len(),
        forall|i: int|
            #![trigger read.points@[i]]
            0 <= i < read.points@.len() ==> wire.points@[i]@ == hex_text(written.points@[i]@) && read.points@[i]@
                == written.points@[i]@,
        wire.issuer@ == hex_text(written.issuer@) && read.issuer@ == written.issuer@,
        wire.registry_id@ == hex_text(written.registry_id@) && read.registry_id@ == written.registry_id@,
        wire.signature@ == hex_text(written.signature@) && read.signature@ == written.signature@,
{
    assert forall|i: int| #![trigger read.points@[i]] 0 <= i < read.points@.len() implies wire.points@[i]@ == hex_text(
        written.points@[i]@,
    ) && read.points@[i]@ == written.points@[i]@ by {
        hex_round_trip(written.points@[i]@);
    }
    hex_round_trip(written.issuer@);
    hex_round_trip(written.registry_id@);
    hex_round_trip(written.signature@);
}

/// A presentation is read back as it was written, scalar by scalar.
pub proof fn presentation_is_read_back(wire: WirePresentation, written: KybPresentation, read: KybPresentation)
    requires
        wire.writes(written),
        wire.says(read),
    ensures
        wire.cohort@ == written.cohort@ && read.cohort@ == written.cohort@,
        wire.registry_id@ == hex_text(written.registry_id@) && read.registry_id@ == written.registry_id@,
        wire.scope@ == hex_text(written.scope@) && read.scope@ == written.scope@,
        wire.context_hash@ == hex_text(written.context_hash@) && read.context_hash@ == written.context_hash@,
        wire.nullifier@ == hex_text(written.nullifier@) && read.nullifier@ == written.nullifier@,
        wire.challenges@.len() == written.challenges@.len() && read.challenges@.len() == written.challenges@.len(),
        forall|i: int|
            #![trigger read.challenges@[i]]
            0 <= i < read.challenges@.len() ==> wire.challenges@[i]@ == hex_text(written.challenges@[i]@)
                && read.challenges@[i]@
                == written.challenges@[i]@,
        wire.responses@.len() == written.responses@.len() && read.responses@.len() == written.responses@.len(),
        forall|i: int|
            #![trigger read.responses@[i]]
            0 <= i < read.responses@.len() ==> wire.responses@[i]@ == hex_text(written.responses@[i]@)
                && read.responses@[i]@
                == written.responses@[i]@,
{
    hex_round_trip(written.registry_id@);
    hex_round_trip(written.scope@);
    hex_round_trip(written.context_hash@);
    hex_round_trip(written.nullifier@);
    assert forall|i: int| #![trigger read.challenges@[i]] 0 <= i < read.challenges@.len() implies wire.challenges@[i]@
        == hex_text(written.challenges@[i]@) && read.challenges@[i]@ == written.challenges@[i]@ by {
        hex_round_trip(written.challenges@[i]@);
    }
    assert forall|i: int| #![trigger read.responses@[i]] 0 <= i < read.responses@.len() implies wire.responses@[i]@
        == hex_text(written.responses@[i]@) && read.responses@[i]@ == written.responses@[i]@ by {
        hex_round_trip(written.responses@[i]@);
    }
}

/// A maker's mandate is read back as it was written.
pub proof fn maker_mandate_is_read_back(wire: WireMakerMandate, written: SignedMakerMandate, read: SignedMakerMandate)
    requires
        wire.writes(written),
        wire.says(read),
    ensures
        wire.venue_id@ == hex_text(written.venue_id@) && read.venue_id@ == written.venue_id@,
        wire.defmi_id@ == hex_text(written.defmi_id@) && read.defmi_id@ == written.defmi_id@,
        wire.policy_digest@ == hex_text(written.policy_digest@) && read.policy_digest@ == written.policy_digest@,
        wire.policy_version == written.policy_version && read.policy_version == written.policy_version,
        wire.asset_id@ == hex_text(written.asset_id@) && read.asset_id@ == written.asset_id@,
        written.direction is TakerBuys ==> wire.direction == 1,
        written.direction is TakerSells ==> wire.direction == 2,
        read.direction == written.direction,
        wire.reserve_id@ == hex_text(written.reserve_id@) && read.reserve_id@ == written.reserve_id@,
        wire.maximum_amount_commitment@ == hex_text(written.maximum_amount_commitment@)
            && read.maximum_amount_commitment@ == written.maximum_amount_commitment@,
        wire.maker_handle@ == hex_text(written.maker_handle@) && read.maker_handle@ == written.maker_handle@,
        wire.entity_commitment@ == hex_text(written.entity_commitment@)
            && read.entity_commitment@ == written.entity_commitment@,
        wire.kyb_presentation_digest@ == hex_text(written.kyb_presentation_digest@)
            && read.kyb_presentation_digest@ == written.kyb_presentation_digest@,
        wire.valid_from == written.valid_from && read.valid_from == written.valid_from,
        wire.valid_until == written.valid_until && read.valid_until == written.valid_until,
        wire.auto_execute == written.auto_execute && read.auto_execute == written.auto_execute,
        wire.maker_public@ == hex_text(written.maker_public@) && read.maker_public@ == written.maker_public@,
        wire.signature@ == hex_text(written.signature@) && read.signature@ == written.signature@,
{
    hex_round_trip(written.venue_id@);
    hex_round_trip(written.defmi_id@);
    hex_round_trip(written.policy_digest@);
    hex_round_trip(written.asset_id@);
    hex_round_trip(written.reserve_id@);
    hex_round_trip(written.maximum_amount_commitment@);
    hex_round_trip(written.maker_handle@);
    hex_round_trip(written.entity_commitment@);
    hex_round_trip(written.kyb_presentation_digest@);
    hex_round_trip(written.maker_public@);
    hex_round_trip(written.signature@);
}

/// A taker's mandate is read back as it was written.
pub proof fn taker_mandate_is_read_back(wire: WireTakerMandate, written: SignedTakerMandate, read: SignedTakerMandate)
    requires
        wire.writes(written),
        wire.says(read),
    ensures
        wire.venue_id@ == hex_text(written.venue_id@) && read.venue_id@ == written.venue_id@,
        wire.defmi_id@ == hex_text(written.defmi_id@) && read.defmi_id@ == written.defmi_id@,
        wire.rfq_nullifier@ == hex_text(written.rfq_nullifier@) && read.rfq_nullifier@ == written.rfq_nullifier@,
        wire.asset_id@ == hex_text(written.asset_id@) && read.asset_id@ == written.asset_id@,
        wire.reserve_asset_id@ == hex_text(written.reserve_asset_id@)
            && read.reserve_asset_id@ == written.reserve_asset_id@,
        written.direction is TakerBuys ==> wire.direction == 1,
        written.direction is TakerSells ==> wire.direction == 2,
        read.direction == written.direction,
        wire.quantity_commitment@ == hex_text(written.quantity_commitment@)
            && read.quantity_commitment@ == written.quantity_commitment@,
        wire.limit_price_commitment@ == hex_text(written.limit_price_commitment@)
            && read.limit_price_commitment@ == written.limit_price_commitment@,
        wire.maximum_fee_commitment@ == hex_text(written.maximum_fee_commitment@)
            && read.maximum_fee_commitment@ == written.maximum_fee_commitment@,
        wire.maximum_amount_commitment@ == hex_text(written.maximum_amount_commitment@)
            && read.maximum_amount_commitment@ == written.maximum_amount_commitment@,
        wire.reserve_id@ == hex_text(written.reserve_id@) && read.reserve_id@ == written.reserve_id@,
        wire.taker_handle@ == hex_text(written.taker_handle@) && read.taker_handle@ == written.taker_handle@,
        wire.entity_commitment@ == hex_text(written.entity_commitment@)
            && read.entity_commitment@ == written.entity_commitment@,
        wire.kyb_presentation_digest@ == hex_text(written.kyb_presentation_digest@)
            && read.kyb_presentation_digest@ == written.kyb_presentation_digest@,
        wire.admission_ticket_id@ == hex_text(written.admission_ticket_id@)
            && read.admission_ticket_id@ == written.admission_ticket_id@,
        wire.admission_slot == written.admission_slot && read.admission_slot == written.admission_slot,
        wire.fill_mask_commitment@ == hex_text(written.fill_mask_commitment@)
            && read.fill_mask_commitment@ == written.fill_mask_commitment@,
        wire.deadline == written.deadline && read.deadline == written.deadline,
        wire.allow_partial == written.allow_partial && read.allow_partial == written.allow_partial,
        wire.auto_settle == written.auto_settle && read.auto_settle == written.auto_settle,
        wire.taker_public@ == hex_text(written.taker_public@) && read.taker_public@ == written.taker_public@,
        wire.signature@ == hex_text(written.signature@) && read.signature@ == written.signature@,
{
    hex_round_trip(written.venue_id@);
    hex_round_trip(written.defmi_id@);
    hex_round_trip(written.rfq_nullifier@);
    hex_round_trip(written.asset_id@);
    hex_round_trip(written.reserve_asset_id@);
    hex_round_trip(written.quantity_commitment@);
    hex_round_trip(written.limit_price_commitment@);
    hex_round_trip(written.maximum_fee_commitment@);
    hex_round_trip(written.maximum_amount_commitment@);
    hex_round_trip(written.reserve_id@);
    hex_round_trip(written.taker_handle@);
    hex_round_trip(written.entity_commitment@);
    hex_round_trip(written.kyb_presentation_digest@);
    hex_round_trip(written.admission_ticket_id@);
    hex_round_trip(written.fill_mask_commitment@);
    hex_round_trip(written.taker_public@);
    hex_round_trip(written.signature@);
}

/// A maker's mandate is read exactly where its digests and keys are of thirty-two bytes, its
/// direction is one of two, and its signature is an envelope.
pub proof fn maker_mandate_is_accepted_exactly<J: Fn(&Vec<u8>) -> Result<(), String>>(
    wire: WireMakerMandate,
    width: nat,
    accepts: J,
)
    ensures
        wire.refusal(width, accepts) is None <==> {
            &&& is_hex32(wire.venue_id@)
            &&& is_hex32(wire.defmi_id@)
            &&& is_hex32(wire.policy_digest@)
            &&& is_hex32(wire.asset_id@)
            &&& is_hex32(wire.reserve_id@)
            &&& is_hex32(wire.maximum_amount_commitment@)
            &&& is_hex32(wire.maker_handle@)
            &&& is_hex32(wire.entity_commitment@)
            &&& is_hex32(wire.kyb_presentation_digest@)
            &&& is_hex32(wire.maker_public@)
            &&& wire.direction == 1 || wire.direction == 2
            &&& signature_refusal(wire.signature@, "Maker signature"@, width, accepts) is None
        },
{
}

/// A taker's mandate is read exactly where its digests and keys are of thirty-two bytes, its
/// direction is one of two, and its signature is an envelope.
pub proof fn taker_mandate_is_accepted_exactly<J: Fn(&Vec<u8>) -> Result<(), String>>(
    wire: WireTakerMandate,
    width: nat,
    accepts: J,
)
    ensures
        wire.refusal(width, accepts) is None <==> {
            &&& is_hex32(wire.venue_id@)
            &&& is_hex32(wire.defmi_id@)
            &&& is_hex32(wire.rfq_nullifier@)
            &&& is_hex32(wire.asset_id@)
            &&& is_hex32(wire.reserve_asset_id@)
            &&& is_hex32(wire.quantity_commitment@)
            &&& is_hex32(wire.limit_price_commitment@)
            &&& is_hex32(wire.maximum_fee_commitment@)
            &&& is_hex32(wire.maximum_amount_commitment@)
            &&& is_hex32(wire.reserve_id@)
            &&& is_hex32(wire.taker_handle@)
            &&& is_hex32(wire.entity_commitment@)
            &&& is_hex32(wire.kyb_presentation_digest@)
            &&& is_hex32(wire.admission_ticket_id@)
            &&& is_hex32(wire.fill_mask_commitment@)
            &&& is_hex32(wire.taker_public@)
            &&& wire.direction == 1 || wire.direction == 2
            &&& signature_refusal(wire.signature@, "Taker signature"@, width, accepts) is None
        },
{
}

/// What a maker authorizes is read back as it was written.
pub proof fn maker_authority_is_read_back(
    wire: WireMakerAuthority,
    written: MakerPretradeAuthority,
    read: MakerPretradeAuthority,
)
    requires
        wire.writes(written),
        wire.says(read),
    ensures
        wire.maker_index == written.maker_index && read.maker_index == written.maker_index,
        wire.mandate.writes(written.mandate) && wire.mandate.says(read.mandate),
        read.mandate.signature@ == written.mandate.signature@,
        wire.identity_context@ == hex_text(written.identity_context@) && read.identity_context@
            == written.identity_context@,
        wire.presentation.writes(written.presentation) && wire.presentation.says(read.presentation),
        read.presentation.nullifier@ == written.presentation.nullifier@,
        wire.acceptance_opening.amount == written.acceptance_opening.amount,
        read.acceptance_opening.amount == written.acceptance_opening.amount,
        wire.acceptance_opening.blinding@ == hex_text(written.acceptance_opening.blinding@),
        read.acceptance_opening.blinding@ == written.acceptance_opening.blinding@,
{
    hex_round_trip(written.identity_context@);
    hex_round_trip(written.acceptance_opening.blinding@);
    maker_mandate_is_read_back(wire.mandate, written.mandate, read.mandate);
    presentation_is_read_back(wire.presentation, written.presentation, read.presentation);
}

/// What a taker authorizes is read back as it was written.
pub proof fn taker_authority_is_read_back(
    wire: WireTakerAuthority,
    written: TakerPretradeAuthority,
    read: TakerPretradeAuthority,
)
    requires
        wire.writes(written),
        wire.says(read),
    ensures
        wire.client_index == written.client_index && read.client_index == written.client_index,
        wire.mandate.writes(written.mandate) && wire.mandate.says(read.mandate),
        read.mandate.signature@ == written.mandate.signature@,
        wire.identity_context@ == hex_text(written.identity_context@) && read.identity_context@
            == written.identity_context@,
        wire.presentation.writes(written.presentation) && wire.presentation.says(read.presentation),
        read.presentation.nullifier@ == written.presentation.nullifier@,
        wire.acceptance_opening.amount == written.acceptance_opening.amount,
        read.acceptance_opening.amount == written.acceptance_opening.amount,
        wire.acceptance_opening.blinding@ == hex_text(written.acceptance_opening.blinding@),
        read.acceptance_opening.blinding@ == written.acceptance_opening.blinding@,
{
    hex_round_trip(written.identity_context@);
    hex_round_trip(written.acceptance_opening.blinding@);
    taker_mandate_is_read_back(wire.mandate, written.mandate, read.mandate);
    presentation_is_read_back(wire.presentation, written.presentation, read.presentation);
}

/// The verifier of settlements is read back as it was written.
pub proof fn settlement_verifier_is_read_back(
    wire: WireSettlementVerifier,
    written: PretradeSettlementVerifier,
    read: PretradeSettlementVerifier,
)
    requires
        wire.writes(written),
        wire.says(read),
    ensures
        wire.epoch == written.epoch && read.epoch == written.epoch,
        wire.quote_registry_digest@ == hex_text(written.quote_registry_digest@),
        read.quote_registry_digest@ == written.quote_registry_digest@,
        wire.quote_eligibility_bits == written.quote_eligibility_bits && read.quote_eligibility_bits
            == written.quote_eligibility_bits,
        wire.quote_span_bits == written.quote_span_bits && read.quote_span_bits == written.quote_span_bits,
        wire.amount_bits == written.amount_bits && read.amount_bits == written.amount_bits,
        wire.price_bits == written.price_bits && read.price_bits == written.price_bits,
        wire.max_horizon == written.max_horizon && read.max_horizon == written.max_horizon,
        wire.valid_from == written.valid_from && read.valid_from == written.valid_from,
        wire.valid_until == written.valid_until && read.valid_until == written.valid_until,
        wire.frost_public@ == hex_text(written.frost_public@),
        wire.pq_committee@ == written.pq_committee@ && read.pq_committee@ == written.pq_committee@,
{
    hex_round_trip(written.quote_registry_digest@);
}

/// A verifier of settlements is within its bounds exactly where its epoch and horizon are
/// not zero, its registry is named, its widths fit, and its time is a span.
pub proof fn settlement_verifier_is_bounded_exactly(value: PretradeSettlementVerifier)
    ensures
        value.refusal() is None <==> {
            &&& value.epoch > 0
            &&& value.quote_registry_digest@ != zero32()
            &&& 1 <= value.quote_eligibility_bits <= 62
            &&& 1 <= value.quote_span_bits <= 64
            &&& 1 <= value.amount_bits <= 64
            &&& 1 <= value.price_bits <= 64
            &&& value.max_horizon > 0
            &&& 0 < value.valid_from <= value.valid_until
            &&& 0 < value.frost_public@.len() <= 0x1_0000
        },
{
}

/// An attestation of an admission stands in hexadecimal, and is read exactly where its
/// digests are of thirty-two bytes, its signature is an envelope, and it is complete.
pub proof fn admission_attestation_is_read_back<J: Fn(&Vec<u8>) -> Result<(), String>>(
    wire: WireAdmissionAttestation,
    written: Admission,
    width: nat,
    accepts: J,
)
    ensures
        wire.writes(written) ==> wire.admission() == written,
        wire.writes(written) ==> wire.node == written.node && wire.slot == written.slot && wire.sequence
            == written.sequence && wire.principal_digest@ == hex_text(written.principal_digest) && wire.ticket_id@
            == hex_text(written.ticket_id) && wire.claim_digest@ == hex_text(written.claim_digest)
            && wire.batch_digest@ == hex_text(written.batch_digest) && wire.order_digest@ == hex_text(
            written.order_digest,
        ) && wire.signature@ == hex_text(written.signature),
        wire.refusal(width, accepts) is None <==> {
            &&& is_hex32(wire.principal_digest@)
            &&& is_hex32(wire.ticket_id@)
            &&& is_hex32(wire.claim_digest@)
            &&& is_hex32(wire.batch_digest@)
            &&& is_hex32(wire.order_digest@)
            &&& signature_refusal(wire.signature@, "admission signature"@, width, accepts) is None
            &&& wire.admission().complete()
        },
{
    hex_round_trip(written.principal_digest);
    hex_round_trip(written.ticket_id);
    hex_round_trip(written.claim_digest);
    hex_round_trip(written.batch_digest);
    hex_round_trip(written.order_digest);
    hex_round_trip(written.signature);
}

/// The lanes of an admission are complete exactly where their sequences are the numbers
/// from one to their count, each once.
pub proof fn lanes_are_numbered_from_one(lanes: Seq<AdmissionLane>, number: nat)
    requires
        complete_sequences(lanes),
        1 <= number <= lanes.len(),
    ensures
        exists|i: int| 0 <= i < lanes.len() && (#[trigger] lanes[i]).sequence == number,
{
    let found = lanes.map_values(|l: AdmissionLane| l.sequence as int);
    if forall|i: int| 0 <= i < lanes.len() ==> (#[trigger] lanes[i]).sequence != number {
        let all = vstd::set_lib::set_int_range(1, lanes.len() as int + 1);
        let but = all.remove(number as int);
        vstd::set_lib::lemma_int_range(1, lanes.len() as int + 1);
        assert(found.no_duplicates()) by {
            assert forall|i: int, j: int| 0 <= i < found.len() && 0 <= j < found.len() && i != j implies found[i]
                != found[j] by {
                if i < j {
                    assert(lanes[i].sequence != lanes[j].sequence);
                } else {
                    assert(lanes[j].sequence != lanes[i].sequence);
                }
            }
        }
        found.unique_seq_to_set();
        assert(found.to_set().subset_of(but)) by {
            assert forall|n: int| found.to_set().contains(n) implies #[trigger] but.contains(n) by {
                let i = choose|i: int| 0 <= i < found.len() && found[i] == n;
                assert(1 <= lanes[i].sequence <= lanes.len());
                assert(lanes[i].sequence != number);
            }
        }
        vstd::set_lib::lemma_len_subset(found.to_set(), but);
    }
}

/// A maker is named once for each direction and a taker once: an authority that repeats
/// one is not read.
pub proof fn no_party_is_repeated<J: Fn(&Vec<u8>) -> Result<(), String>>(
    makers: Seq<WireMakerAuthority>,
    takers: Seq<WireTakerAuthority>,
    told: Seq<Option<Seq<char>>>,
    first: int,
    at: int,
    width: nat,
    accepts: J,
)
    requires
        0 <= first < at,
    ensures
        maker_refusal(makers, told, at, width, accepts) is None ==> {
            &&& makers[first].maker_index != makers[at].maker_index || makers[first].mandate.direction
                != makers[at].mandate.direction
            &&& makers[at].mandate.refusal(width, accepts) is None
            &&& told[at] is None
            &&& is_hex(makers[at].identity_context@)
            &&& makers[at].presentation.refusal() is None
            &&& is_hex32(makers[at].acceptance_opening.blinding@)
            &&& is_scalar(hex_bytes(makers[at].acceptance_opening.blinding@))
        },
        taker_refusal(takers, told, at, width, accepts) is None ==> {
            &&& takers[first].client_index != takers[at].client_index
            &&& takers[at].mandate.refusal(width, accepts) is None
            &&& told[at] is None
            &&& is_hex(takers[at].identity_context@)
            &&& takers[at].presentation.refusal() is None
            &&& is_hex32(takers[at].acceptance_opening.blinding@)
            &&& is_scalar(hex_bytes(takers[at].acceptance_opening.blinding@))
        },
{
    assert(maker_repeated(makers, at) || makers[first].maker_index != makers[at].maker_index
        || makers[first].mandate.direction != makers[at].mandate.direction);
    assert(taker_repeated(takers, at) || takers[first].client_index != takers[at].client_index);
}

/// An authority is whole exactly where it is dated, names its cohort, its provider and its
/// evidence, has a maker and a taker and at most four thousand and ninety-six of both, and
/// its venue, its DeFMI and its two assets are not zero.
pub proof fn authority_is_whole_exactly(value: PretradeAuthorityBundle)
    ensures
        value.refusal() is None <==> {
            &&& value.created_at > 0
            &&& value.identity_scope@.len() > 0
            &&& value.required_cohort@.len() > 0
            &&& value.identity_provider@.len() > 0
            &&& value.identity_evidence_digest@ != zero32()
            &&& value.makers@.len() > 0 && value.takers@.len() > 0
            &&& value.makers@.len() + value.takers@.len() <= 4096
            &&& value.venue_id@ != zero32()
            &&& value.defmi_id@ != zero32()
            &&& value.traded_asset_id@ != zero32()
            &&& value.cash_asset_id@ != zero32()
        },
{
}

/// An authority is read back as it was written, under its own version and marked as
/// private and as holding openings for acceptance alone.
pub proof fn authority_is_read_back(
    wire: WireAuthorityBundle,
    written: PretradeAuthorityBundle,
    read: PretradeAuthorityBundle,
)
    requires
        wire.writes(written),
        wire.says(read),
    ensures
        wire.version == 6,
        wire.private_pretrade_authority && wire.acceptance_only_openings,
        wire.created_at == written.created_at && read.created_at == written.created_at,
        wire.venue_id@ == hex_text(written.venue_id@) && read.venue_id@ == written.venue_id@,
        wire.defmi_id@ == hex_text(written.defmi_id@) && read.defmi_id@ == written.defmi_id@,
        wire.traded_asset_id@ == hex_text(written.traded_asset_id@) && read.traded_asset_id@
            == written.traded_asset_id@,
        wire.cash_asset_id@ == hex_text(written.cash_asset_id@) && read.cash_asset_id@ == written.cash_asset_id@,
        wire.identity_scope@ == hex_text(written.identity_scope@) && read.identity_scope@ == written.identity_scope@,
        wire.required_cohort@ == written.required_cohort@ && read.required_cohort@ == written.required_cohort@,
        wire.identity_provider@ == written.identity_provider@ && read.identity_provider@
            == written.identity_provider@,
        wire.identity_evidence_digest@ == hex_text(written.identity_evidence_digest@),
        read.identity_evidence_digest@ == written.identity_evidence_digest@,
        wire.registry.writes(written.registry) && wire.registry.says(read.registry),
        read.registry.signature@ == written.registry.signature@,
        wire.admission is Some <==> written.admission is Some,
        read.admission is Some <==> written.admission is Some,
        written.admission is Some ==> (wire.admission->0).writes(written.admission->0) && (wire.admission->0).says(
            read.admission->0,
        ),
        wire.settlement_verifier.writes(written.settlement_verifier),
        read.settlement_verifier.epoch == written.settlement_verifier.epoch,
        read.settlement_verifier.frost_public@ == written.settlement_verifier.frost_public@,
        read.makers@.len() == written.makers@.len(),
        forall|i: int|
            #![trigger read.makers@[i]]
            0 <= i < read.makers@.len() ==> wire.makers@[i].writes(written.makers@[i]) && wire.makers@[i].says(
                read.makers@[i],
            ),
        read.takers@.len() == written.takers@.len(),
        forall|i: int|
            #![trigger read.takers@[i]]
            0 <= i < read.takers@.len() ==> wire.takers@[i].writes(written.takers@[i]) && wire.takers@[i].says(
                read.takers@[i],
            ),
{
    hex_round_trip(written.venue_id@);
    hex_round_trip(written.defmi_id@);
    hex_round_trip(written.traded_asset_id@);
    hex_round_trip(written.cash_asset_id@);
    hex_round_trip(written.identity_scope@);
    hex_round_trip(written.identity_evidence_digest@);
    hex_round_trip(written.settlement_verifier.frost_public@);
    registry_is_read_back(wire.registry, written.registry, read.registry);
    assert forall|i: int| #![trigger read.makers@[i]] 0 <= i < read.makers@.len() implies wire.makers@[i].writes(
        written.makers@[i],
    ) && wire.makers@[i].says(read.makers@[i]) by {
        let entry = wire.makers@[i];
    }
    assert forall|i: int| #![trigger read.takers@[i]] 0 <= i < read.takers@.len() implies wire.takers@[i].writes(
        written.takers@[i],
    ) && wire.takers@[i].says(read.takers@[i]) by {
        let entry = wire.takers@[i];
    }
}

/// An authority is read only under its own version and marks, with every maker and taker
/// approved by its judge, and with its identifiers of thirty-two bytes.
pub proof fn authority_is_read_only_when_approved<
    J: Fn(&Vec<u8>) -> Result<(), String>,
    M: Fn(&SignedMakerMandate) -> Result<(), String>,
    T: Fn(&SignedTakerMandate) -> Result<(), String>,
    I: Fn(&Vec<u8>) -> bool,
    K: Fn(&Vec<u8>) -> bool,
    V: Fn(&VerifyingKey, &Vec<u8>, &Signature) -> bool,
    P: Fn(&Vec<u8>) -> Option<Vec<u8>>,
    C: Fn(&Vec<u8>, &Vec<u8>) -> Result<(), String>,
>(wire: WireAuthorityBundle, width: nat, by: AuthorityJudges<J, M, T, I, K, V, P, C>)
    requires
        authority_begun(wire, width, by),
    ensures
        wire.version == 6,
        wire.private_pretrade_authority && wire.acceptance_only_openings,
        wire.makers@.len() > 0 && wire.takers@.len() > 0,
        wire.makers@.len() + wire.takers@.len() <= 4096,
        is_hex32(wire.venue_id@) && is_hex32(wire.defmi_id@),
        is_hex32(wire.traded_asset_id@) && is_hex32(wire.cash_asset_id@),
        is_hex(wire.identity_scope@) && is_hex32(wire.identity_evidence_digest@),
        wire.registry.refusal(by.issuers) is None,
        makers_read(wire.makers@, width, by.accepts, by.maker),
        takers_read(wire.takers@, width, by.accepts, by.taker),
{
}

/// Every maker that is read was approved by the judge of mandates, as its document says
/// it.
pub proof fn every_maker_is_approved<
    J: Fn(&Vec<u8>) -> Result<(), String>,
    M: Fn(&SignedMakerMandate) -> Result<(), String>,
>(wires: Seq<WireMakerAuthority>, width: nat, accepts: J, judge: M, at: int)
    requires
        makers_read(wires, width, accepts, judge),
        0 <= at < wires.len(),
    ensures
        exists|mandate: SignedMakerMandate, outcome: Result<(), String>|
            wires[at].mandate.says(mandate) && outcome is Ok && #[trigger] call_ensures(judge, (&mandate,), outcome),
{
    let told = choose|told: Seq<Option<Seq<char>>>| #[trigger]
        makers_hold(wires, told, wires.len() as int, width, accepts, judge);
    assert(maker_told(judge, wires[at].mandate, told[at]));
    assert(maker_refusal(wires, told, at, width, accepts) is None);
}

/// Every taker that is read was approved by the judge of mandates, as its document says
/// it.
pub proof fn every_taker_is_approved<
    J: Fn(&Vec<u8>) -> Result<(), String>,
    T: Fn(&SignedTakerMandate) -> Result<(), String>,
>(wires: Seq<WireTakerAuthority>, width: nat, accepts: J, judge: T, at: int)
    requires
        takers_read(wires, width, accepts, judge),
        0 <= at < wires.len(),
    ensures
        exists|mandate: SignedTakerMandate, outcome: Result<(), String>|
            wires[at].mandate.says(mandate) && outcome is Ok && #[trigger] call_ensures(judge, (&mandate,), outcome),
{
    let told = choose|told: Seq<Option<Seq<char>>>| #[trigger]
        takers_hold(wires, told, wires.len() as int, width, accepts, judge);
    assert(taker_told(judge, wires[at].mandate, told[at]));
    assert(taker_refusal(wires, told, at, width, accepts) is None);
}

} // verus!
