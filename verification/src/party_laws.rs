//! What a node signs, and what it keeps of what it signed: each request is accepted
//! exactly under the conditions that are stated here.

use vstd::prelude::*;
use crate::bytes::{text_bytes, zero32};
use crate::digest::sha256;
use crate::fields::hex_in;
use crate::group::{is_point, Point};
use crate::json::{array_in, text_in, unsigned_in, Json};
use crate::oracle::yes;
use crate::paths::{climbs, is_absolute};
use crate::pretrade::{selected, PretradeAcknowledgement, ReservationParty};
use crate::proof_authorize::{
    deadline_refusal, quote_binding_refusal, reserve_payment_refusal, signing_refusal, PoolAllocationFacts,
    TypedReserveFacts,
};
use crate::proof_codec::scan_range;
use crate::proof_evidence::pool_proofs_refusal;
use crate::proof_frost::{commitments_refusal, names_party, party_in, party_repeated};
use crate::proof_lifecycle::JobNodes;
use crate::proof_mandate::{ExecutionContext, Payment, ReserveMandate};
use crate::proof_params::{canonical_point_refusal, hex32_refusal, job_id_refusal, one_wire_refusal, wire_in};
use crate::proof_settle::{
    direction_of, health_message, paid_job, payment_binding_refusal, reserves_refusal,
    ApplicationControlAuthorization, ApplicationStatementAuthorization, PublicationFacts, TypedFacts, ZkpiRequest,
};
use crate::proof_state::{signing_job_of, written, CompletedProof, ProofJob, ProofParty};
use crate::text::{base64_bytes, hex_bytes, is_hex};

verus! {

/// Whether a member is thirty-two bytes in hexadecimal.
pub open spec fn names32(value: Option<Json>) -> bool {
    text_in(value) is Some && is_hex(text_in(value)->0) && hex_bytes(text_in(value)->0).len() == 32
}

/// Whether a member is a wire of at least a byte and at most a mebibyte, in base64.
pub open spec fn names_wire(value: Option<Json>) -> bool {
    &&& text_in(value) is Some
    &&& base64_bytes(text_in(value)->0) is Some
    &&& 0 < (base64_bytes(text_in(value)->0)->0).len() <= 0x10_0000
}

/// Whether a member is a canonical point in hexadecimal.
pub open spec fn names_point(value: Option<Json>) -> bool {
    names32(value) && is_point(hex_bytes(text_in(value)->0))
}

/// Members are read exactly as they are written: digests as thirty-two bytes, points as
/// canonical ones, wires within their bound.
pub proof fn members_are_read_exactly(params: Json, name: Seq<char>, complaint: Seq<char>)
    ensures
        job_id_refusal(params) is None <==> names32(params.field("job_id"@)),
        hex32_refusal(params.field(name), complaint) is None <==> names32(params.field(name)),
        canonical_point_refusal(params.field(name), complaint) is None <==> names_point(params.field(name)),
        one_wire_refusal(params, name) is None <==> names_wire(params.field(name)),
        hex_in(params.field(name)) == hex_bytes(text_in(params.field(name))->0),
        wire_in(params.field(name)) == base64_bytes(text_in(params.field(name))->0)->0,
{
}

/// A request names a signing job with a message of sixty-four bytes, or none.
pub proof fn signing_request_is_read_exactly(params: Json, complaint: Seq<char>)
    ensures
        signing_refusal(params, complaint) is None <==> {
            &&& names32(params.field("signing_job_id"@))
            &&& names_wire(params.field("message"@))
            &&& wire_in(params.field("message"@)).len() == 64
        },
{
}

/// A deadline is accepted exactly from now on until the end of its horizon.
pub proof fn deadline_is_within_its_horizon(now: Option<u64>, deadline: nat, horizon: u64, complaint: Seq<char>)
    requires
        deadline <= u64::MAX,
    ensures
        deadline_refusal(now, deadline, horizon, complaint) is None <==> now is Some && now->0 <= deadline && deadline
            <= now->0 + horizon,
{
}

/// A payment is bound to a quote by a non-zero key or by the digest of its proof.
pub proof fn quote_binding_is_read_exactly(params: Json)
    ensures
        quote_binding_refusal(params) is None <==> {
            ||| text_in(params.field("quote_kind"@)) == Some("legacy"@) && unsigned_in(
                params.field("quote_key"@),
            ) is Some && unsigned_in(params.field("quote_key"@))->0 > 0
            ||| text_in(params.field("quote_kind"@)) == Some("proof"@) && names32(params.field("quote_digest"@))
        },
{
    reveal_strlit("legacy");
    reveal_strlit("proof");
    assert("legacy"@.len() != "proof"@.len());
}

/// A mandate allows exactly the payment that it was signed for: of its whole amount, from
/// its own handle, and not after it ends, while its signature holds.
pub proof fn mandate_allows_its_own_payment(mandate: ReserveMandate, amount: Seq<u8>, payer: Seq<u8>, deadline: u64)
    ensures
        mandate.payment_refusal(amount, payer, deadline) is None <==> match mandate {
            ReserveMandate::Maker(m) => m.authentic is Ok && m.maximum_amount_commitment@ == amount && m.maker_handle@
                == payer && deadline <= m.valid_until,
            ReserveMandate::Taker(m) => m.authentic is Ok && m.maximum_amount_commitment@ == amount && m.taker_handle@
                == payer && deadline <= m.deadline,
        },
{
}

/// A mandate allows exactly the context that repeats it: its party's scope, direction,
/// venue, handle, reservation and digest, a Maker's policy and no request, a Taker's request.
pub proof fn mandate_allows_its_own_context(mandate: ReserveMandate, payment: Payment, context: ExecutionContext)
    ensures
        mandate.context_refusal(payment, context) is None <==> {
            &&& mandate.payment_refusal(payment.amount_commitment@, payment.payer_handle@, payment.deadline) is None
            &&& match mandate {
                ReserveMandate::Maker(m) => {
                    &&& context.scope is Maker
                    &&& context.direction == m.direction
                    &&& context.venue_id@ == m.venue_id@
                    &&& context.defmi_id@ == m.defmi_id@
                    &&& context.maker_handle@ == m.maker_handle@
                    &&& context.maker_reservation_id@ == m.reserve_id@
                    &&& context.maker_policy_digest@ == m.policy_digest@
                    &&& m.digest is Ok
                    &&& context.maker_mandate_digest@ == (m.digest->Ok_0)@
                    &&& context.rfq_nullifier@ == zero32()
                },
                ReserveMandate::Taker(m) => {
                    &&& context.scope is Taker
                    &&& context.direction == m.direction
                    &&& context.venue_id@ == m.venue_id@
                    &&& context.defmi_id@ == m.defmi_id@
                    &&& context.taker_handle@ == m.taker_handle@
                    &&& context.taker_reservation_id@ == m.reserve_id@
                    &&& m.digest is Ok
                    &&& context.taker_mandate_digest@ == (m.digest->Ok_0)@
                    &&& context.rfq_nullifier@ == m.rfq_nullifier@
                },
            }
        },
{
}

/// A reserve payment is accepted exactly if it is whole, pays another than its owner, falls
/// due within a day, and is the one that its mandate allows.
pub proof fn reserve_payment_is_accepted_exactly(
    params: Json,
    mandate: Result<ReserveMandate, String>,
    now: Option<u64>,
)
    ensures
        reserve_payment_refusal(params, mandate, now) is None <==> {
            let deadline = unsigned_in(params.field("deadline"@));
            &&& names32(params.field("signing_job_id"@))
            &&& names_wire(params.field("message"@))
            &&& wire_in(params.field("message"@)).len() == 64
            &&& mandate is Ok
            &&& names_point(params.field("amount_commitment"@))
            &&& names_point(params.field("price_commitment"@))
            &&& names_point(params.field("asset_commitment"@))
            &&& names_point(params.field("payer_handle"@))
            &&& names_point(params.field("payee_handle"@))
            &&& hex_in(params.field("payer_handle"@)) != hex_in(params.field("payee_handle"@))
            &&& deadline is Some
            &&& names32(params.field("nonce"@))
            &&& quote_binding_refusal(params) is None
            &&& now is Some && now->0 <= deadline->0 && deadline->0 <= now->0 + 86400
            &&& (mandate->Ok_0).payment_refusal(
                hex_in(params.field("amount_commitment"@)),
                hex_in(params.field("payer_handle"@)),
                deadline->0 as u64,
            ) is None
        },
{
}

/// The context of a reserve is signed exactly if its mandate allows it with a payment that
/// the committee signed, as a reservation, under the message that was asked for.
pub proof fn reserve_context_is_accepted_exactly<N, B, S>(
    party: ProofParty<N, B, S>,
    params: Json,
    facts: TypedReserveFacts,
)
    ensures
        party.reserve_typed_refusal(params, facts) is None <==> {
            &&& names32(params.field("signing_job_id"@))
            &&& names_wire(params.field("message"@))
            &&& wire_in(params.field("message"@)).len() == 64
            &&& facts.mandate is Ok
            &&& names_wire(params.field("payment"@))
            &&& facts.payment is Some
            &&& party.frost_key is Some
            &&& facts.payment_signed
            &&& names_wire(params.field("context"@))
            &&& facts.context is Some
            &&& (facts.context->0).operation is Reserve
            &&& facts.now is Some
            &&& (facts.mandate->Ok_0).context_refusal(facts.payment->0, facts.context->0) is None
            &&& facts.expected is Ok
            &&& (facts.expected->Ok_0)@ == wire_in(params.field("message"@))
        },
{
}

/// A pool's allocation is signed exactly if it is the canonical one of its job, its Maker's
/// mandate allows it, the group key and the committee stand behind its payment, and the
/// job's quote, delivery and remainder are what it splits.
pub proof fn allocation_is_accepted_exactly<N, B, S>(
    party: ProofParty<N, B, S>,
    params: Json,
    facts: PoolAllocationFacts,
)
    ensures
        party.pool_allocation_refusal(params, facts) is None <==> {
            let id = hex_in(params.field("job_id"@));
            let job = party.jobs.at(id);
            let binding = facts.binding->Ok_0;
            let maker = facts.mandate->Ok_0->Maker_0;
            let payment = facts.payment->0;
            &&& names32(params.field("job_id"@))
            &&& names32(params.field("signing_job_id"@))
            &&& names_wire(params.field("message"@))
            &&& wire_in(params.field("message"@)).len() == 64
            &&& params.field("allocation_binding"@) is Some
            &&& facts.binding is Ok
            &&& binding.proof_job_id@ == id
            &&& binding.signing_message is Ok
            &&& (binding.signing_message->Ok_0)@ == wire_in(params.field("message"@))
            &&& facts.mandate is Ok
            &&& facts.mandate->Ok_0 is Maker
            &&& names_wire(params.field("payment"@))
            &&& facts.payment is Some
            &&& pool_proofs_refusal(params) is None
            &&& facts.now is Some
            &&& maker.authentic is Ok
            &&& maker.digest is Ok
            &&& binding.entity_commitment@ == maker.entity_commitment@
            &&& binding.asset_id@ == maker.asset_id@
            &&& binding.direction == if maker.direction is TakerBuys { 1u8 } else { 2u8 }
            &&& binding.policy_digest@ == maker.policy_digest@
            &&& binding.mandate_digest@ == (maker.digest->Ok_0)@
            &&& binding.policy_version == maker.policy_version
            &&& facts.pool_id is Ok
            &&& binding.pool_id@ == (facts.pool_id->Ok_0)@
            &&& facts.delegation_digest is Ok
            &&& binding.delegation_digest@ == (facts.delegation_digest->Ok_0)@
            &&& binding.expected_pool_sequence == 0 ==> binding.previous_amount_commitment@
                == maker.maximum_amount_commitment@
            &&& party.frost_key is Some
            &&& facts.payment_signed
            &&& facts.approval is Valid
            &&& party.jobs.has(id)
            &&& job.quote_verified && job.dvp_response_issued && job.pool_remainder_response_issued
            &&& job.winning_policy_digest is Some && job.selected_maker_handle is Some
            &&& job.authorized_payment_digest is Some && job.maker_is_payer is Some
            &&& job.quantity_commitment is Some && job.cash_commitment is Some
            &&& job.securities_remainder is Some && job.cash_remainder is Some
            &&& job.securities_reserve is Some && job.cash_reserve is Some
            &&& job.pool_remainder_commitment is Some
            &&& is_point(maker.maker_handle@)
            &&& maker.policy_digest@ == (job.winning_policy_digest->0)@
            &&& maker.maker_handle@ == (job.selected_maker_handle->0)@
            &&& binding.direction == if job.maker_is_payer->0 { 2u8 } else { 1u8 }
            &&& payment.digest@ == (job.authorized_payment_digest->0)@
            &&& payment.quote_proof_digest is Some
            &&& (payment.quote_proof_digest->0)@ == job.expected_quote_digest@
            &&& binding.quote_proof_digest@ == job.expected_quote_digest@
            &&& payment.amount_commitment@ == (job.quantity_commitment->0)@
            &&& job.maker_is_payer->0 ==> payment.payer_handle@ == (job.selected_maker_handle->0)@
            &&& !job.maker_is_payer->0 ==> payment.payee_handle@ == (job.selected_maker_handle->0)@
            &&& facts.dvp_valid
            &&& binding.dvp_proof_digest@ == facts.dvp_package_digest@
            &&& is_point(binding.remainder_commitment@)
            &&& binding.escrow_commitment@ == if job.maker_is_payer->0 {
                (job.cash_reserve->0)@
            } else {
                (job.securities_reserve->0)@
            }
            &&& binding.remainder_commitment@ == (job.pool_remainder_commitment->0)@
            &&& binding.remainder_range_proof_digest@ == facts.range_digest@
            &&& facts.range_valid
        },
{
}

/// A payment is authorized exactly if it is whole, its job's quote is proved and is the one
/// that it names, it falls due within an hour, and the winning Maker is at one end of it.
pub proof fn payment_is_accepted_exactly<N, B, S>(party: ProofParty<N, B, S>, params: Json, now: Option<u64>)
    ensures
        party.zkpi_refusal(params, now) is None <==> {
            let id = hex_in(params.field("job_id"@));
            let job = party.jobs.at(id);
            let deadline = unsigned_in(params.field("deadline"@));
            let maker = (job.selected_maker_handle->0)@;
            let pays = hex_in(params.field("payer_handle"@)) == maker;
            let paid = hex_in(params.field("payee_handle"@)) == maker;
            &&& names32(params.field("job_id"@))
            &&& names32(params.field("signing_job_id"@))
            &&& names_wire(params.field("message"@))
            &&& wire_in(params.field("message"@)).len() == 64
            &&& names_wire(params.field("amount_range"@))
            &&& scan_range(wire_in(params.field("amount_range"@))) is Ok
            &&& names_wire(params.field("price_range"@))
            &&& scan_range(wire_in(params.field("price_range"@))) is Ok
            &&& names_point(params.field("asset_commitment"@))
            &&& names_point(params.field("payer_handle"@))
            &&& names_point(params.field("payee_handle"@))
            &&& deadline is Some
            &&& names32(params.field("nonce"@))
            &&& names32(params.field("quote_digest"@))
            &&& party.jobs.has(id)
            &&& job.zkpi_statements is Some
            &&& job.selected_maker_handle is Some
            &&& job.quote_verified
            &&& hex_in(params.field("quote_digest"@)) == job.expected_quote_digest@
            &&& now is Some && now->0 <= deadline->0 && deadline->0 <= now->0 + 3600
            &&& pays || paid
            &&& !(pays && paid)
        },
{
}

/// A payment that is read says which side the winning Maker is on: it pays exactly if its
/// handle is the payer's, and the Taker is at the other end.
pub proof fn payment_sides_are_the_makers_and_the_takers<N, B, S>(
    party: ProofParty<N, B, S>,
    params: Json,
    now: Option<u64>,
    request: ZkpiRequest,
)
    requires
        party.zkpi_refusal(params, now) is None,
        party.zkpi_said(params, request),
    ensures
        ({
            let job = party.jobs.at(hex_in(params.field("job_id"@)));
            let maker = (job.selected_maker_handle->0)@;
            &&& request.maker_is_payer <==> request.payer_handle@ == maker
            &&& request.maker_is_payer ==> request.taker_handle == request.payee_handle
            &&& !request.maker_is_payer ==> request.taker_handle == request.payer_handle && request.payee_handle@
                == maker
            &&& request.taker_handle@ != maker
            &&& request.payer_handle@ == hex_in(params.field("payer_handle"@))
            &&& request.payee_handle@ == hex_in(params.field("payee_handle"@))
            &&& request.quote_digest@ == job.expected_quote_digest@
            &&& request.amount_commitment == (job.zkpi_statements->0).0
            &&& request.price_commitment == (job.zkpi_statements->0).1
            &&& request.amount_range.wire() == wire_in(params.field("amount_range"@))
            &&& request.price_range.wire() == wire_in(params.field("price_range"@))
            &&& request.asset_commitment@ == hex_in(params.field("asset_commitment"@))
            &&& request.nonce@ == hex_in(params.field("nonce"@))
            &&& unsigned_in(params.field("deadline"@)) == Some(request.deadline as nat)
            &&& request.signing.message@ == wire_in(params.field("message"@))
            &&& request.signing.signing_job@ == hex_in(params.field("signing_job_id"@))
        }),
{
}

/// A job that a payment is bound to keeps its digest, its Taker and its side.
pub proof fn paid_job_keeps_the_payment<N, B, S>(
    job: ProofJob<N, B, S>,
    digest: [u8; 64],
    taker: Point,
    maker_is_payer: bool,
)
    requires
        payment_binding_refusal(job, digest, taker, maker_is_payer) is None,
    ensures
        ({
            let paid = paid_job(job, digest, taker, maker_is_payer);
            &&& paid.authorized_payment_digest is Some && (paid.authorized_payment_digest->0)@ == digest@
            &&& paid.authorized_taker_handle is Some && (paid.authorized_taker_handle->0)@ == taker@
            &&& paid.maker_is_payer == Some(maker_is_payer)
            &&& paid.zkpi == job.zkpi && paid.dvp == job.dvp && paid.limit == job.limit && paid.quote == job.quote
            &&& paid.pool_remainder == job.pool_remainder
            &&& paid.opening_shares == job.opening_shares
            &&& paid.selected_maker_handle == job.selected_maker_handle
            &&& paid.expected_quote_digest == job.expected_quote_digest
        }),
{
}

/// A payment is authorized only under the digest that was computed of its fields, and its
/// job is then bound to it.
pub proof fn authorized_payment_is_the_computed_one<
    N,
    B,
    S,
    W: Fn(&ProofParty<N, B, S>, u64) -> Result<(), String>,
>(
    party: ProofParty<N, B, S>,
    request: ZkpiRequest,
    partial: Result<[u8; 64], String>,
    write: W,
    later: ProofParty<N, B, S>,
)
    requires
        party.zkpi_authorized(request, partial, write, later, Ok(())),
    ensures
        partial is Ok,
        (partial->Ok_0)@ == request.signing.message@,
        party.jobs.has(request.proof_job@),
        request.signing.signing_job@ == signing_job_of(request.signing.message@),
        later.jobs.has(request.proof_job@),
        ({
            let job = later.jobs.at(request.proof_job@);
            &&& (job.authorized_payment_digest->0)@ == (partial->Ok_0)@
            &&& (job.authorized_taker_handle->0)@ == request.taker_handle@
            &&& job.maker_is_payer == Some(request.maker_is_payer)
        }),
        later.frost_authorized.has(request.signing.signing_job@),
        later.frost_authorized.at(request.signing.signing_job@)@ == sha256(request.signing.message@),
        later.state_generation == party.state_generation + 1,
{
    let job = party.jobs.at(request.proof_job@);
    paid_job_keeps_the_payment(job, partial->Ok_0, request.taker_handle, request.maker_is_payer);
}

/// A Taker buys exactly if the Maker does not pay.
pub proof fn direction_follows_the_paying_side(maker_is_payer: bool)
    ensures
        direction_of(maker_is_payer) is TakerSells <==> maker_is_payer,
        direction_of(maker_is_payer) is TakerBuys <==> !maker_is_payer,
{
}

/// A settlement passes the checks before its acknowledgement exactly if its context settles
/// jointly the payment, quote, Maker, Taker and side that the completed proof was made for,
/// and the node has a key to hold the acknowledgement against.
pub proof fn settlement_is_that_of_its_proof<N, B, S, K: Fn(&Vec<u8>) -> bool>(
    party: ProofParty<N, B, S>,
    params: Json,
    facts: TypedFacts,
    known: K,
)
    ensures
        party.typed_refusal(params, facts, known) is None <==> {
            let id = hex_in(params.field("job_id"@));
            let completed = party.completed_evidence.at(id);
            let context = facts.context->0;
            let trusted = party.config.trusted_defmi_receipt_public;
            &&& names32(params.field("job_id"@))
            &&& names32(params.field("signing_job_id"@))
            &&& names_wire(params.field("message"@))
            &&& wire_in(params.field("message"@)).len() == 64
            &&& names_wire(params.field("payment"@))
            &&& facts.payment is Some
            &&& names_wire(params.field("context"@))
            &&& facts.context is Some
            &&& context.operation is Consume || context.operation is Settle
            &&& context.scope is Joint
            &&& party.completed_evidence.has(id)
            &&& (facts.payment->0).digest@ == completed.payment_digest@
            &&& context.quote_proof_digest@ == completed.quote_digest@
            &&& completed.maker_handle is Some && completed.taker_handle is Some
            &&& completed.maker_is_payer is Some && completed.winning_policy_digest is Some
            &&& context.maker_handle@ == (completed.maker_handle->0)@
            &&& context.taker_handle@ == (completed.taker_handle->0)@
            &&& context.direction is TakerSells <==> completed.maker_is_payer->0
            &&& trusted is Some
            &&& yes(known, (trusted->0)@)
            &&& names_wire(params.field("pretrade_ack"@))
        },
{
}

/// A settlement is based on its acknowledgement exactly if that is of the same settlement
/// system and state, and holds for the Maker and the Taker the reservations that the context
/// names: of the amount that the job reserved for each side, the Maker's under the winning
/// policy.
pub proof fn settlement_is_based_on_the_reservations(
    completed: CompletedProof,
    context: ExecutionContext,
    ack: PretradeAcknowledgement,
)
    ensures
        reserves_refusal(completed, context, ack) is None <==> {
            let maker = selected(
                ack.bindings@,
                ReservationParty::Maker,
                (completed.maker_handle->0)@,
                context.direction,
            );
            let taker = selected(
                ack.bindings@,
                ReservationParty::Taker,
                (completed.taker_handle->0)@,
                context.direction,
            );
            let pays = completed.maker_is_payer->0;
            &&& ack.defmi_id@ == context.defmi_id@
            &&& ack.after_state_root@ == context.before_state_root@
            &&& maker is Some
            &&& taker is Some
            &&& completed.securities_reserve is Some
            &&& completed.cash_reserve is Some
            &&& (maker->0).reserve_id@ == context.maker_reservation_id@
            &&& (maker->0).mandate_digest@ == context.maker_mandate_digest@
            &&& (maker->0).policy_digest@ == context.maker_policy_digest@
            &&& (maker->0).policy_digest@ == (completed.winning_policy_digest->0)@
            &&& (maker->0).reserve_receipt_digest@ == context.maker_reserve_receipt_digest@
            &&& pays ==> (maker->0).amount_commitment@ == (completed.cash_reserve->0)@
            &&& !pays ==> (maker->0).amount_commitment@ == (completed.securities_reserve->0)@
            &&& (taker->0).reserve_id@ == context.taker_reservation_id@
            &&& (taker->0).mandate_digest@ == context.taker_mandate_digest@
            &&& (taker->0).reserve_receipt_digest@ == context.taker_reserve_receipt_digest@
            &&& pays ==> (taker->0).amount_commitment@ == (completed.securities_reserve->0)@
            &&& !pays ==> (taker->0).amount_commitment@ == (completed.cash_reserve->0)@
        },
{
}

/// A settlement with its acknowledgement is signed exactly if it is based on the
/// reservations, the payment holds under the group key and the committee, the message is
/// that of the payment and its context, and the proof is bound to no other settlement.
pub proof fn acknowledged_settlement_is_accepted_exactly<N, B, S>(
    party: ProofParty<N, B, S>,
    params: Json,
    facts: TypedFacts,
    ack: PretradeAcknowledgement,
)
    ensures
        party.acknowledged_refusal(params, facts, ack) is None <==> {
            let completed = party.completed_evidence.at(hex_in(params.field("job_id"@)));
            let message = wire_in(params.field("message"@));
            &&& reserves_refusal(completed, facts.context->0, ack) is None
            &&& party.frost_key is Some
            &&& facts.now is Some
            &&& party.pq_committee is Some
            &&& facts.committee_accepted is Ok
            &&& facts.payment_verified is Ok
            &&& facts.expected is Ok
            &&& (facts.expected->Ok_0)@ == message
            &&& completed.typed_message_digest matches Some(prior) ==> prior@ == sha256(message)
        },
{
}

/// A settlement that is signed is kept with its proof, and its signing job is authorized
/// for its message alone.
pub proof fn signed_settlement_is_kept<N, B, S, W: Fn(&ProofParty<N, B, S>, u64) -> Result<(), String>>(
    party: ProofParty<N, B, S>,
    params: Json,
    write: W,
    after: ProofParty<N, B, S>,
)
    requires
        party.settled(params, write, after, Ok(())),
    ensures
        ({
            let id = hex_in(params.field("job_id"@));
            let message = wire_in(params.field("message"@));
            let signing = hex_in(params.field("signing_job_id"@));
            let kept = after.completed_evidence.at(id);
            let was = party.completed_evidence.at(id);
            &&& after.completed_evidence.has(id)
            &&& kept.typed_message_digest is Some
            &&& (kept.typed_message_digest->0)@ == sha256(message)
            &&& kept.payment_digest == was.payment_digest
            &&& kept.quote_digest == was.quote_digest
            &&& kept.maker_handle == was.maker_handle && kept.taker_handle == was.taker_handle
            &&& kept.application_action_digest == was.application_action_digest
            &&& signing == signing_job_of(message)
            &&& after.frost_authorized.has(signing)
            &&& after.frost_authorized.at(signing)@ == sha256(message)
            &&& after.state_generation == party.state_generation + 1
        }),
{
}

/// An authorization that succeeds is for the signing job of its message, which nobody used,
/// is kept durably, and changes no other; a failed one that names a wrong or used job
/// changes nothing.
pub proof fn authorization_is_for_one_message<N, B, S, W: Fn(&ProofParty<N, B, S>, u64) -> Result<(), String>>(
    party: ProofParty<N, B, S>,
    job: Seq<u8>,
    message: Seq<u8>,
    write: W,
    after: ProofParty<N, B, S>,
    outcome: Result<(), Seq<char>>,
    other: Seq<u8>,
)
    requires
        party.authorizes(job, message, write, after, outcome),
    ensures
        outcome is Ok ==> {
            &&& job == signing_job_of(message)
            &&& !party.frost_reserved.has(job) && !party.frost_consumed.has(job) && !party.frost_nonces.has(job)
            &&& after.frost_authorized.has(job)
            &&& after.frost_authorized.at(job)@ == sha256(message)
            &&& other != job ==> after.frost_authorized.has(other) == party.frost_authorized.has(other)
            &&& after.state_generation == party.state_generation + 1
            &&& after.jobs == party.jobs && after.completed == party.completed && after.frost_key == party.frost_key
            &&& after.frost_consumed == party.frost_consumed && after.frost_nonces == party.frost_nonces
        },
        job != signing_job_of(message) || party.frost_reserved.has(job) || party.frost_consumed.has(job)
            || party.frost_nonces.has(job) ==> outcome is Err && after == party,
{
}

/// A state that is written goes up by one generation and stays healthy; a failed write
/// leaves the generation and makes the node unhealthy; nothing else changes.
pub proof fn write_advances_one_generation<N, B, S, W: Fn(&ProofParty<N, B, S>, u64) -> Result<(), String>>(
    write: W,
    before: ProofParty<N, B, S>,
    after: ProofParty<N, B, S>,
    outcome: Result<(), Seq<char>>,
)
    requires
        written(write, before, after, outcome),
    ensures
        outcome is Ok ==> before.state_generation < u64::MAX && after.state_generation == before.state_generation + 1
            && after.state_healthy == before.state_healthy && call_ensures(
            write,
            (&before, (before.state_generation + 1) as u64),
            Ok::<(), String>(()),
        ),
        outcome is Err ==> after.state_generation == before.state_generation,
        outcome is Err && before.state_generation < u64::MAX ==> !after.state_healthy,
        after.jobs == before.jobs && after.reserved == before.reserved && after.completed == before.completed,
        after.frost_consumed == before.frost_consumed && after.frost_reserved == before.frost_reserved,
        after.frost_authorized == before.frost_authorized && after.frost_nonces == before.frost_nonces,
        after.frost_key == before.frost_key && after.config == before.config,
        after.publication_consumed == before.publication_consumed,
{
}

/// A node commits to nonces exactly for an unused signing job that it authorized for this
/// very message, with a key.
pub proof fn commitment_is_given_exactly<N, B, S>(party: ProofParty<N, B, S>, params: Json)
    ensures
        party.commit_refusal(params) is None <==> {
            let id = hex_in(params.field("job_id"@));
            let message = wire_in(params.field("message"@));
            &&& names32(params.field("job_id"@))
            &&& !party.frost_reserved.has(id) && !party.frost_consumed.has(id) && !party.frost_nonces.has(id)
            &&& names_wire(params.field("message"@))
            &&& party.frost_authorized.has(id)
            &&& party.frost_authorized.at(id)@ == sha256(message)
            &&& id == signing_job_of(message)
            &&& party.frost_key is Some
        },
{
}

/// Committing moves a signing job from authorized to reserved, with the nonces and the
/// digest of its message; signing moves it from reserved to used up, without nonces.
pub proof fn signing_job_moves_on<N, B, S>(
    before: ProofParty<N, B, S>,
    id: Seq<u8>,
    nonces: S,
    committed: ProofParty<N, B, S>,
    burned: ProofParty<N, B, S>,
    other: Seq<u8>,
)
    requires
        before.committed(id, nonces, committed),
        committed.burned(id, burned),
        other != id,
    ensures
        committed.frost_nonces.has(id) && committed.frost_nonces.at(id).nonces == nonces,
        committed.frost_nonces.at(id).message_digest == before.frost_authorized.at(id),
        !committed.frost_authorized.has(id) && committed.frost_reserved.has(id),
        committed.frost_consumed == before.frost_consumed,
        !burned.frost_nonces.has(id) && !burned.frost_reserved.has(id) && burned.frost_consumed.has(id),
        !burned.frost_authorized.has(id),
        burned.frost_consumed.has(other) == before.frost_consumed.has(other),
        burned.frost_nonces.has(other) == before.frost_nonces.has(other),
        burned.frost_reserved.has(other) == before.frost_reserved.has(other),
        burned.frost_authorized.has(other) == before.frost_authorized.has(other),
{
}

/// A node signs exactly with a quorum of distinct, decodable commitments that has its own,
/// for a job whose nonces it holds.
pub proof fn share_is_given_exactly<N, B, S, D: Fn(&Vec<u8>) -> bool>(
    party: ProofParty<N, B, S>,
    params: Json,
    decodes: D,
)
    ensures
        party.sign_refusal(params, decodes) is None <==> {
            let entries = array_in(params.field("commitments"@));
            &&& names32(params.field("job_id"@))
            &&& names_wire(params.field("message"@))
            &&& entries is Some
            &&& party.config.threshold < (entries->0).len() <= 64
            &&& commitments_refusal(entries->0, decodes, (entries->0).len()) is None
            &&& exists|j: int|
                0 <= j < (entries->0).len() && unsigned_in((#[trigger] (entries->0)[j]).field("party"@)) == Some(
                    (party.config.node + 1) as nat,
                ) && party.config.node + 1 <= u16::MAX
            &&& party.frost_nonces.has(hex_in(params.field("job_id"@)))
        },
{
    let own = (party.config.node + 1) as nat;
    if let Some(entries) = array_in(params.field("commitments"@)) {
        if names_party(entries, own) {
            let j = choose|j: int|
                0 <= j < entries.len() && party_in((#[trigger] entries[j]).field("party"@)) == Some(
                    own,
                );
            assert(unsigned_in(entries[j].field("party"@)) == Some(own));
        }
        if exists|j: int|
            0 <= j < entries.len() && unsigned_in((#[trigger] entries[j]).field("party"@)) == Some(own)
                && party.config.node + 1 <= u16::MAX {
            let j = choose|j: int|
                0 <= j < entries.len() && unsigned_in((#[trigger] entries[j]).field("party"@)) == Some(own)
                    && party.config.node + 1 <= u16::MAX;
            assert(party_in(entries[j].field("party"@)) == Some(own));
        }
    }
}

/// The commitments of a signing package are of distinct parties from one on, in base64 that
/// decodes.
pub proof fn commitments_are_of_distinct_parties<D: Fn(&Vec<u8>) -> bool>(
    entries: Seq<Json>,
    decodes: D,
    count: nat,
    i: int,
    j: int,
)
    requires
        count <= entries.len(),
        commitments_refusal(entries, decodes, count) is None,
        0 <= i < j < count,
    ensures
        unsigned_in(entries[j].field("party"@)) is Some,
        0 < unsigned_in(entries[j].field("party"@))->0 <= u16::MAX,
        unsigned_in(entries[i].field("party"@)) != unsigned_in(entries[j].field("party"@)),
        text_in(entries[j].field("commitments"@)) is Some,
        base64_bytes(text_in(entries[j].field("commitments"@))->0) is Some,
        yes(decodes, base64_bytes(text_in(entries[j].field("commitments"@))->0)->0),
    decreases count,
{
    if j < count - 1 {
        commitments_are_of_distinct_parties(entries, decodes, (count - 1) as nat, i, j);
    } else {
        assert(!party_repeated(entries, j));
        assert(party_in(entries[i].field("party"@)) != party_in(
            entries[j].field("party"@),
        ));
    }
}

/// A proof job is loaded exactly under an unused identifier, with the digest of a quote, from
/// a path below the node's root, while the node has room.
pub proof fn job_is_loaded_exactly<N, B, S>(party: ProofParty<N, B, S>, params: Json)
    ensures
        party.load_refusal(params) is None <==> {
            let id = hex_in(params.field("job_id"@));
            let path = text_in(params.field("persistence"@));
            &&& names32(params.field("job_id"@))
            &&& names32(params.field("quote_digest"@))
            &&& hex_in(params.field("quote_digest"@)) != zero32()
            &&& !party.completed.has(id) && !party.reserved.has(id) && !party.jobs.has(id)
            &&& party.jobs.count() < 64
            &&& path is Some
            &&& text_bytes(path->0).len() > 0
            &&& !is_absolute(text_bytes(path->0))
            &&& !climbs(text_bytes(path->0))
        },
{
}

/// A handoff is taken exactly if every part of it is of the node's own party, with a quote
/// exactly where the node proves complete quotes.
pub proof fn handoff_is_of_the_own_party<N>(nodes: JobNodes<N>, party: int, quoted: bool)
    ensures
        nodes.of_party(party, quoted) <==> {
            &&& nodes.zkpi.party == party && nodes.limit.party == party && nodes.pool_remainder.party == party
            &&& nodes.dvp.party == party
            &&& quoted ==> nodes.quote is Some && (nodes.quote->0).party == party
            &&& !quoted ==> nodes.quote is None
        },
{
}

/// A job is completed exactly when every first round was answered, its payment is
/// authorized, and its delivery and remainder were answered, while evidence has room.
pub proof fn job_is_completed_exactly<N, B, S>(party: ProofParty<N, B, S>, params: Json)
    ensures
        party.complete_refusal(params) is None <==> {
            let id = hex_in(params.field("job_id"@));
            let job = party.jobs.at(id);
            &&& names32(params.field("job_id"@))
            &&& party.completed_evidence.count() < 4096 || party.completed_evidence.has(id)
            &&& party.jobs.has(id)
            &&& job.zkpi.secret is None && job.limit.secret is None && job.pool_remainder.secret is None
            &&& job.dvp.secret is None && job.quote.secret is None
            &&& job.authorized_payment_digest is Some
            &&& job.dvp_response_issued
            &&& job.pool_remainder_response_issued
        },
{
}

/// What is kept of a completed job is what the job was bound to, and nothing is bound to it
/// yet.
pub proof fn completed_evidence_is_the_jobs<N, B, S>(job: ProofJob<N, B, S>, proof: CompletedProof)
    requires
        ProofParty::<N, B, S>::evidence_of(job, proof),
    ensures
        job.authorized_payment_digest == Some(proof.payment_digest),
        proof.quote_digest == job.expected_quote_digest,
        proof.winning_policy_digest == job.winning_policy_digest,
        job.selected_maker_handle matches Some(p) ==> proof.maker_handle == Some(p.bytes),
        job.authorized_taker_handle matches Some(p) ==> proof.taker_handle == Some(p.bytes),
        proof.maker_is_payer == job.maker_is_payer,
        job.securities_reserve matches Some(p) ==> proof.securities_reserve == Some(p.bytes),
        job.cash_reserve matches Some(p) ==> proof.cash_reserve == Some(p.bytes),
        job.selected_maker_handle is None ==> proof.maker_handle is None,
        job.authorized_taker_handle is None ==> proof.taker_handle is None,
        job.securities_reserve is None ==> proof.securities_reserve is None,
        job.cash_reserve is None ==> proof.cash_reserve is None,
        proof.opening_shares == job.opening_shares,
        proof.typed_message_digest is None,
        proof.application_action_digest is None,
{
}

/// An observer closes a job exactly when it took part in every public phase and signed
/// nothing of it, or closed it before.
pub proof fn observer_closes_exactly<N, B, S>(party: ProofParty<N, B, S>, params: Json)
    ensures
        party.observer_refusal(params) is None <==> {
            let id = hex_in(params.field("job_id"@));
            let job = party.jobs.at(id);
            &&& names32(params.field("job_id"@))
            &&& party.completed.has(id) || {
                &&& party.jobs.has(id)
                &&& job.zkpi.secret is None && job.limit.secret is None && job.pool_remainder.secret is None
                &&& job.dvp.secret is None && job.quote.secret is None
                &&& job.authorized_payment_digest is None
                &&& !job.dvp_response_issued && !job.pool_remainder_response_issued
                &&& job.quote_verified
                &&& job.zkpi.bound is Some && job.zkpi_statements is Some && job.limit.bound is Some
                &&& job.dvp.bound is Some && job.pool_remainder.bound is Some
            }
        },
{
}

/// A health check is signed exactly where the node allows it, with a key, for a stage before
/// or after a restart, over the message of the node's own session and the cluster.
pub proof fn health_check_is_signed_exactly<N, B, S>(party: ProofParty<N, B, S>, params: Json)
    ensures
        party.health_refusal(params) is None <==> {
            let stage = text_in(params.field("stage"@));
            let cluster = hex_in(params.field("cluster_digest"@));
            let message = wire_in(params.field("message"@));
            let session = (party.frost_key->0).session@;
            &&& party.config.allow_health_signing
            &&& names32(params.field("signing_job_id"@))
            &&& names_wire(params.field("message"@))
            &&& names32(params.field("cluster_digest"@))
            &&& party.frost_key is Some
            &&& stage == Some("pre-restart"@) && message == health_message(session, 1, cluster) || stage == Some(
                "post-restart"@,
            ) && message == health_message(session, 2, cluster)
        },
{
    reveal_strlit("pre-restart");
    reveal_strlit("post-restart");
    assert("pre-restart"@.len() != "post-restart"@.len());
}

/// A publication is taken up exactly if its statement is well formed, its noise can be
/// drawn, its evidence is named, and the node has not signed it yet.
pub proof fn publication_is_taken_up_exactly<N, B, S, X>(
    party: ProofParty<N, B, S>,
    params: Json,
    facts: PublicationFacts<X>,
)
    ensures
        party.publication_refusal(params, facts) is None <==> {
            &&& params.field("statement"@) is Some
            &&& facts.terms is Some
            &&& unsigned_in(params.field("sensitivity"@)) is Some
            &&& unsigned_in(params.field("support"@)) is Some && unsigned_in(params.field("support"@))->0 <= 0xffff
            &&& facts.mechanism is Ok
            &&& text_in(params.field("evidence_path"@)) is Some
            &&& !party.publication_consumed.has((facts.terms->0).operation_id@)
        },
{
}

/// An application signs exactly over a completed proof of a healthy node that holds its
/// evidence, its four openings, its key, both handles, the side and both reserves.
pub proof fn application_may_sign_exactly<N, B, S>(party: ProofParty<N, B, S>, id: Seq<u8>)
    ensures
        party.application_refusal(id) is None <==> {
            let kept = party.completed_evidence.at(id);
            let shares = kept.opening_shares;
            &&& party.state_healthy
            &&& party.completed.has(id)
            &&& party.completed_evidence.has(id)
            &&& shares.securities_delivery is Some && shares.securities_refund is Some
            &&& shares.cash_delivery is Some && shares.cash_refund is Some
            &&& party.frost_key is Some
            &&& kept.maker_handle is Some && kept.taker_handle is Some && kept.maker_is_payer is Some
            &&& kept.securities_reserve is Some && kept.cash_reserve is Some
        },
{
}

/// An application is shown exactly what was kept of the proof, and the group's public key.
pub proof fn application_is_shown_what_was_kept<N, B, S>(party: ProofParty<N, B, S>, id: Seq<u8>)
    requires
        party.application_refusal(id) is None,
    ensures
        ({
            let kept = party.completed_evidence.at(id);
            let shown = party.application_evidence(id);
            &&& shown.job_id == id
            &&& shown.payment_digest == kept.payment_digest@
            &&& shown.quote_digest == kept.quote_digest@
            &&& shown.maker_handle == (kept.maker_handle->0)@
            &&& shown.taker_handle == (kept.taker_handle->0)@
            &&& Some(shown.maker_is_payer) == kept.maker_is_payer
            &&& shown.securities_reserve == (kept.securities_reserve->0)@
            &&& shown.cash_reserve == (kept.cash_reserve->0)@
            &&& shown.opening_shares == kept.opening_shares
            &&& shown.committee_public == (party.frost_key->0).public_package@
        }),
{
}

/// An application's statement is bound exactly if it is no empty action, the proof is bound
/// to no other, and its signing job is unused.
pub proof fn statement_is_bound_exactly<N, B, S>(
    party: ProofParty<N, B, S>,
    id: Seq<u8>,
    authorized: ApplicationStatementAuthorization,
)
    ensures
        party.statement_refusal(id, authorized) is None <==> {
            let kept = party.completed_evidence.at(id);
            let job = signing_job_of(authorized.message@);
            &&& authorized.message@ != zero32()
            &&& authorized.action_digest@ != zero32()
            &&& kept.application_action_digest matches Some(prior) ==> prior@ == authorized.action_digest@
            &&& !party.frost_reserved.has(job) && !party.frost_consumed.has(job) && !party.frost_nonces.has(job)
            &&& party.completed_evidence.has(id)
        },
{
}

/// A control operation is bound exactly if it and its action are no empty ones, it is bound
/// to no other action, there is room, and its signing job is unused.
pub proof fn control_is_bound_exactly<N, B, S>(party: ProofParty<N, B, S>, authorized: ApplicationControlAuthorization)
    ensures
        party.control_refusal(authorized) is None <==> {
            let id = authorized.control_id@;
            let job = signing_job_of(authorized.message@);
            &&& id != zero32()
            &&& authorized.message@ != zero32()
            &&& authorized.action_digest@ != zero32()
            &&& party.application_controls.has(id) ==> party.application_controls.at(id)@ == authorized.action_digest@
            &&& !party.application_controls.has(id) ==> party.application_controls.count() < 4096
            &&& !party.frost_reserved.has(job) && !party.frost_consumed.has(job) && !party.frost_nonces.has(job)
        },
{
}

/// The opening of a leg is given exactly to the side that the leg goes to, once the payment
/// is authorized and every round answered: cash to the one that is paid, what remains of it
/// to the one that pays, and securities the other way round.
pub proof fn opening_is_claimed_exactly<N, B, S>(party: ProofParty<N, B, S>, params: Json)
    ensures
        party.claim_refusal(params) is None <==> {
            let id = hex_in(params.field("job_id"@));
            let job = party.jobs.at(id);
            let leg = text_in(params.field("leg"@));
            let maker = (job.selected_maker_handle->0)@;
            let taker = (job.authorized_taker_handle->0)@;
            let payer = if job.maker_is_payer->0 { maker } else { taker };
            let payee = if job.maker_is_payer->0 { taker } else { maker };
            let view = hex_in(params.field("recipient_view"@));
            &&& names32(params.field("job_id"@))
            &&& leg is Some
            &&& names_point(params.field("recipient_view"@))
            &&& party.jobs.has(id)
            &&& job.authorized_payment_digest is Some && job.dvp_response_issued && job.pool_remainder_response_issued
            &&& job.zkpi.secret is None && job.limit.secret is None && job.pool_remainder.secret is None
            &&& job.dvp.secret is None && job.quote.secret is None
            &&& job.selected_maker_handle is Some && job.authorized_taker_handle is Some && job.maker_is_payer is Some
            &&& {
                ||| leg->0 == "securities_delivery"@ && view == payer
                ||| leg->0 == "securities_refund"@ && view == payee
                ||| leg->0 == "cash_delivery"@ && view == payee
                ||| leg->0 == "cash_refund"@ && view == payer
            }
        },
{
    reveal_strlit("securities_delivery");
    reveal_strlit("securities_refund");
    reveal_strlit("cash_delivery");
    reveal_strlit("cash_refund");
    assert("securities_delivery"@.len() == 19 && "securities_refund"@.len() == 17);
    assert("cash_delivery"@.len() == 13 && "cash_refund"@.len() == 11);
}

/// An observer closes a job once: an accepted one is completed on disk and leaves no
/// evidence, one that was completed before is only told so, and a refused one changes
/// nothing.
pub proof fn observer_closes_once<N, B, S, W: Fn(&ProofParty<N, B, S>, u64) -> Result<(), String>>(
    before: ProofParty<N, B, S>,
    params: Json,
    write: W,
    after: ProofParty<N, B, S>,
    r: Result<bool, String>,
)
    requires
        before.observed(params, write, after, r),
    ensures
        before.observer_refusal(params) is Some ==> r is Err && after == before,
        before.observer_refusal(params) is None && before.completed.has(hex_in(params.field("job_id"@))) ==> r == Ok::<
            bool,
            String,
        >(true) && after == before,
        before.observer_refusal(params) is None && !before.completed.has(hex_in(params.field("job_id"@))) && r is Ok
            ==> {
            &&& !(r->Ok_0)
            &&& after.completed.has(hex_in(params.field("job_id"@)))
            &&& !after.jobs.has(hex_in(params.field("job_id"@)))
            &&& after.completed_evidence == before.completed_evidence
            &&& after.state_generation == before.state_generation + 1
        },
{
}

} // verus!
