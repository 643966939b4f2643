//! What parties signed before and during a trade: acknowledgements as they travel, whose
//! signature counts, which mandate a request is read under, and what a share is made of.

use vstd::prelude::*;
use crate::application_crypto::{answers, signs, Signature, SigningKey, VerifyingKey};
use crate::authority_laws::is_hex32;
use crate::digest::sha256;
use crate::group::Point;
use crate::json::{array_in, text_in, Json, Value};
use crate::oracle::objection;
use crate::party_laws::names_wire;
use crate::pretrade::{by_rank, PretradeAcknowledgement, PretradeReservationBinding};
use crate::pretrade_wire::{WireAck, WireBinding};
use crate::proof_authorize::{PoolAllocationFacts, PqApproval, StandingPoolAllocationBinding, TypedReserveFacts};
use crate::proof_codec::{DvpProofs, ProductProof, ThresholdRangeProof};
use crate::proof_dkg::QuorumPolicy;
use crate::proof_evidence::{PoolTools, Remainder, VenueBounds, VenueTools, WireTools};
use crate::proof_frost::{commitments_said, FrostPackage};
use crate::proof_lifecycle::JobNodes;
use crate::proof_mandate::{
    mandate_from, ExecutionContext, MakerPolicyMandate, MandateTools, Payment, ReserveMandate, TakerExecutionMandate,
};
use crate::proof_params::wire_in;
use crate::proof_settle::TypedFacts;
use crate::proof_state::{FrostKey, ProofJob, ProofParty};
use crate::text::{base64_bytes, hex_bytes, hex_round_trip, hex_text, is_hex};

verus! {

/// A reservation is read back as it was written.
pub proof fn reservation_is_read_back(
    wire: WireBinding,
    written: PretradeReservationBinding,
    read: PretradeReservationBinding,
)
    requires
        wire.writes(written),
        wire.says(read),
    ensures
        written.party is Maker ==> wire.party == 1,
        written.party is Taker ==> wire.party == 2,
        read.party == written.party,
        wire.owner_index == written.owner_index && read.owner_index == written.owner_index,
        written.direction is TakerBuys ==> wire.direction == 1,
        written.direction is TakerSells ==> wire.direction == 2,
        read.direction == written.direction,
        wire.owner_handle@ == hex_text(written.owner_handle@) && read.owner_handle@ == written.owner_handle@,
        wire.facility_id@ == hex_text(written.facility_id@) && read.facility_id@ == written.facility_id@,
        wire.reserve_id@ == hex_text(written.reserve_id@) && read.reserve_id@ == written.reserve_id@,
        wire.mandate_digest@ == hex_text(written.mandate_digest@) && read.mandate_digest@ == written.mandate_digest@,
        wire.policy_digest@ == hex_text(written.policy_digest@) && read.policy_digest@ == written.policy_digest@,
        wire.amount_commitment@ == hex_text(written.amount_commitment@) && read.amount_commitment@
            == written.amount_commitment@,
        wire.reserve_receipt_digest@ == hex_text(written.reserve_receipt_digest@) && read.reserve_receipt_digest@
            == written.reserve_receipt_digest@,
{
    hex_round_trip(written.owner_handle@);
    hex_round_trip(written.facility_id@);
    hex_round_trip(written.reserve_id@);
    hex_round_trip(written.mandate_digest@);
    hex_round_trip(written.policy_digest@);
    hex_round_trip(written.amount_commitment@);
    hex_round_trip(written.reserve_receipt_digest@);
}

/// A reservation is read exactly where its party and its direction are one of two, and
/// its digests are of thirty-two bytes.
pub proof fn reservation_wire_is_accepted_exactly(wire: WireBinding)
    ensures
        wire.refusal() is None <==> {
            &&& wire.party == 1 || wire.party == 2
            &&& wire.direction == 1 || wire.direction == 2
            &&& is_hex32(wire.owner_handle@)
            &&& is_hex32(wire.facility_id@)
            &&& is_hex32(wire.reserve_id@)
            &&& is_hex32(wire.mandate_digest@)
            &&& is_hex32(wire.policy_digest@)
            &&& is_hex32(wire.amount_commitment@)
            &&& is_hex32(wire.reserve_receipt_digest@)
        },
{
}

/// An acknowledgement is read back as it was written, its reservations in the order of
/// their ranks.
pub proof fn acknowledgement_is_read_back(
    wire: WireAck,
    written: PretradeAcknowledgement,
    read: PretradeAcknowledgement,
)
    requires
        wire.writes(written),
        wire.says(read),
    ensures
        wire.version == 2,
        wire.private_pretrade_ack,
        wire.authority_digest@ == hex_text(written.authority_digest@) && read.authority_digest@
            == written.authority_digest@,
        wire.defmi_id@ == hex_text(written.defmi_id@) && read.defmi_id@ == written.defmi_id@,
        wire.after_state_root@ == hex_text(written.after_state_root@) && read.after_state_root@
            == written.after_state_root@,
        wire.signer_public@ == hex_text(written.signer_public@) && read.signer_public@ == written.signer_public@,
        wire.signature@ == hex_text(written.signature@) && read.signature@ == written.signature@,
        read.bindings@.len() == written.bindings@.len(),
        forall|i: int|
            #![trigger read.bindings@[i]]
            0 <= i < read.bindings@.len() ==> {
                let binding = by_rank(written.bindings@)[i];
                &&& read.bindings@[i].party == binding.party
                &&& read.bindings@[i].owner_index == binding.owner_index
                &&& read.bindings@[i].direction == binding.direction
                &&& read.bindings@[i].owner_handle@ == binding.owner_handle@
                &&& read.bindings@[i].facility_id@ == binding.facility_id@
                &&& read.bindings@[i].reserve_id@ == binding.reserve_id@
                &&& read.bindings@[i].mandate_digest@ == binding.mandate_digest@
                &&& read.bindings@[i].policy_digest@ == binding.policy_digest@
                &&& read.bindings@[i].amount_commitment@ == binding.amount_commitment@
                &&& read.bindings@[i].reserve_receipt_digest@ == binding.reserve_receipt_digest@
            },
{
    hex_round_trip(written.authority_digest@);
    hex_round_trip(written.defmi_id@);
    hex_round_trip(written.after_state_root@);
    hex_round_trip(written.signer_public@);
    hex_round_trip(written.signature@);
    assert forall|i: int| #![trigger read.bindings@[i]] 0 <= i < read.bindings@.len() implies {
        let binding = by_rank(written.bindings@)[i];
        &&& read.bindings@[i].party == binding.party
        &&& read.bindings@[i].owner_index == binding.owner_index
        &&& read.bindings@[i].direction == binding.direction
        &&& read.bindings@[i].owner_handle@ == binding.owner_handle@
        &&& read.bindings@[i].facility_id@ == binding.facility_id@
        &&& read.bindings@[i].reserve_id@ == binding.reserve_id@
        &&& read.bindings@[i].mandate_digest@ == binding.mandate_digest@
        &&& read.bindings@[i].policy_digest@ == binding.policy_digest@
        &&& read.bindings@[i].amount_commitment@ == binding.amount_commitment@
        &&& read.bindings@[i].reserve_receipt_digest@ == binding.reserve_receipt_digest@
    } by {
        let entry = wire.bindings@[i];
        reservation_is_read_back(entry, by_rank(written.bindings@)[i], read.bindings@[i]);
    }
}

/// An acknowledgement is signed only with the key that it names, and the signature is the
/// only thing that signing changes.
pub proof fn acknowledgement_is_signed_by_its_signer<
    K: Fn(&Vec<u8>) -> bool,
    S: Fn(&SigningKey, &Vec<u8>) -> Result<Signature, String>,
>(
    value: PretradeAcknowledgement,
    key: SigningKey,
    known: K,
    sign: S,
    r: Result<PretradeAcknowledgement, String>,
)
    requires
        value.signed(key, known, sign, r),
    ensures
        value.signer_public@ != key.public.bytes@ || value.refusal(known) is Some ==> r is Err,
        r matches Ok(signed) ==> {
            &&& signed.signer_public@ == key.public.bytes@
            &&& signs(sign, key, value.body(), Ok(signed.signature@))
            &&& signed.authority_digest == value.authority_digest
            &&& signed.defmi_id == value.defmi_id
            &&& signed.after_state_root == value.after_state_root
            &&& signed.bindings == value.bindings
            &&& signed.signer_public == value.signer_public
        },
{
}

/// An acknowledgement counts only where it is whole and the pinned key itself signed it.
pub proof fn acknowledgement_counts_only_from_the_pinned_key<
    K: Fn(&Vec<u8>) -> bool,
    V: Fn(&VerifyingKey, &Vec<u8>, &Signature) -> bool,
>(value: PretradeAcknowledgement, trusted: VerifyingKey, known: K, verify: V, r: Result<(), String>)
    requires
        value.verified(trusted, known, verify, r),
    ensures
        r is Ok ==> value.signer_public@ == trusted.bytes@ && value.refusal(known) is None && answers(
            verify,
            trusted,
            value.body(),
            value.signature@,
            true,
        ),
        r is Err && value.signer_public@ == trusted.bytes@ && value.refusal(known) is None ==> answers(
            verify,
            trusted,
            value.body(),
            value.signature@,
            false,
        ),
{
}

/// A mandate is read under the role that the request names, of the bytes and the signature
/// that it carries: a maker's request gives a maker's mandate, a taker's a taker's, and
/// another none.
pub proof fn mandate_is_read_under_its_role<
    G: Fn(&Vec<u8>) -> Result<(), String>,
    M: Fn(&Vec<u8>, &Vec<u8>, Option<u64>) -> Result<MakerPolicyMandate, String>,
    T: Fn(&Vec<u8>, &Vec<u8>, Option<u64>) -> Result<TakerExecutionMandate, String>,
>(by: MandateTools<G, M, T>, params: Json, now: Option<u64>, outcome: Result<ReserveMandate, String>)
    requires
        by.reads(params, now, outcome),
    ensures
        outcome matches Ok(mandate) ==> {
            let unsigned = base64_bytes(text_in(params.field("mandate_unsigned"@))->0)->0;
            let text = text_in(params.field("mandate_signature"@));
            &&& names_wire(params.field("mandate_unsigned"@))
            &&& text is Some && is_hex(text->0)
            &&& objection(by.envelope, hex_bytes(text->0)) is None
            &&& mandate is Maker ==> text_in(params.field("role"@)) == Some("maker"@) && mandate_from(
                by.maker,
                unsigned,
                hex_bytes(text->0),
                now,
                Ok(mandate->Maker_0),
            )
            &&& mandate is Taker ==> text_in(params.field("role"@)) == Some("taker"@) && mandate_from(
                by.taker,
                unsigned,
                hex_bytes(text->0),
                now,
                Ok(mandate->Taker_0),
            )
        },
{
}

/// A share is made of the nonces that the node holds for the job, for the very message it
/// committed to and with its own key, and comes with the committee's approval of that
/// message.
pub proof fn share_is_of_the_committed_message<
    N,
    B,
    S,
    R,
    A,
    F: FnOnce(S, &FrostPackage, &FrostKey) -> Result<R, String>,
    G: FnOnce(&QuorumPolicy, &Vec<u8>) -> Result<A, String>,
>(state: ProofParty<N, B, S>, params: Json, share: F, approve: G, r: Result<(R, A), String>)
    requires
        state.shared(params, share, approve, r),
    ensures
        r matches Ok((one, two)) ==> {
            let held = state.frost_nonces.at(hex_bytes(text_in(params.field("job_id"@))->0));
            let message = base64_bytes(text_in(params.field("message"@))->0)->0;
            &&& held.message_digest@ == sha256(message)
            &&& state.frost_key is Some && state.pq_committee is Some
            &&& exists|package: FrostPackage| #[trigger]
                call_ensures(share, (held.nonces, &package, &(state.frost_key->0)), Ok::<R, String>(one))
                    && package.message@ == message && commitments_said(
                    array_in(params.field("commitments"@))->0,
                    package.commitments@,
                ) && call_ensures(approve, (&(state.pq_committee->0), &package.message), Ok::<A, String>(two))
        },
{
}

/// A loaded job is fresh: it holds the quote's digest, the digest of its file and the four
/// nodes of its handoff, and nothing is bound, answered or reserved in it.
pub proof fn loaded_job_is_fresh<N, B, S>(
    before: ProofParty<N, B, S>,
    id: Seq<u8>,
    quote_digest: Seq<u8>,
    persistence: Seq<u8>,
    nodes: JobNodes<N>,
    after: ProofParty<N, B, S>,
)
    requires
        before.loaded(id, quote_digest, persistence, nodes, after),
    ensures
        after.jobs.has(id) && after.reserved.has(id),
        ({
            let job: ProofJob<N, B, S> = after.jobs.at(id);
            &&& job.expected_quote_digest@ == quote_digest
            &&& job.persistence_digest@ == sha256(persistence)
            &&& job.maker_handle_share == nodes.maker_handle_share
            &&& job.zkpi.node == Some(nodes.zkpi.node)
            &&& job.limit.node == Some(nodes.limit.node)
            &&& job.pool_remainder.node == Some(nodes.pool_remainder.node)
            &&& job.dvp.node == Some(nodes.dvp.node)
            &&& job.quote.node is Some <==> nodes.quote is Some
            &&& nodes.quote is Some ==> job.quote.node == Some((nodes.quote->0).node)
            &&& job.quote_verified <==> !before.config.complete_quote_proof
            &&& job.zkpi.bound is None && job.limit.bound is None && job.pool_remainder.bound is None
            &&& job.dvp.bound is None && job.quote.bound is None
            &&& job.zkpi.secret is None && job.limit.secret is None && job.pool_remainder.secret is None
            &&& job.dvp.secret is None && job.quote.secret is None
            &&& job.authorized_payment_digest is None && job.selected_maker_handle is None
            &&& job.securities_reserve is None && job.cash_reserve is None
            &&& !job.dvp_response_issued && !job.pool_remainder_response_issued
        }),
        forall|other: Seq<u8>|
            #![trigger after.jobs.has(other)]
            other != id ==> after.jobs.has(other) == before.jobs.has(other) && (after.jobs.has(other) ==> after.jobs.at(
                other,
            ) == before.jobs.at(other)),
        after.completed == before.completed,
        after.frost_key == before.frost_key,
        after.state_generation == before.state_generation,
{
}

/// What is found of a payment is read of the request's own wires: the context of that very
/// payment, and the digest that both of them make.
pub proof fn payment_is_looked_at_in_its_own_wires<
    P: Fn(&Vec<u8>) -> Option<Payment>,
    C: Fn(&Vec<u8>, &Vec<u8>) -> Option<ExecutionContext>,
    D: Fn(&Vec<u8>, &Vec<u8>) -> Result<Vec<u8>, String>,
>(
    by: WireTools<P, C, D>,
    params: Json,
    payment: Option<Payment>,
    context: Option<ExecutionContext>,
    expected: Result<Vec<u8>, String>,
)
    requires
        by.found(params, payment, context, expected),
        names_wire(params.field("payment"@)),
        names_wire(params.field("context"@)),
    ensures
        ({
            let paid = base64_bytes(text_in(params.field("payment"@))->0)->0;
            let bound = base64_bytes(text_in(params.field("context"@))->0)->0;
            &&& exists|w: &Vec<u8>| w@ == paid && #[trigger] call_ensures(by.payment, (w,), payment)
            &&& payment is Some ==> exists|c: &Vec<u8>, p: &Vec<u8>|
                c@ == bound && p@ == paid && #[trigger] call_ensures(by.context, (c, p), context)
            &&& payment is Some && context is Some ==> exists|p: &Vec<u8>, c: &Vec<u8>|
                p@ == paid && c@ == bound && #[trigger] call_ensures(by.digest, (p, c), expected)
        }),
{
}

/// A reserve is looked at as of now, under the mandate of the request, and its payment's
/// signature is tried under the node's own group key; without a key it counts as unsigned.
pub proof fn reserve_is_looked_at_under_the_group_key<
    N,
    B,
    S,
    G: Fn(&Vec<u8>) -> Result<(), String>,
    M: Fn(&Vec<u8>, &Vec<u8>, Option<u64>) -> Result<MakerPolicyMandate, String>,
    T: Fn(&Vec<u8>, &Vec<u8>, Option<u64>) -> Result<TakerExecutionMandate, String>,
    P: Fn(&Vec<u8>) -> Option<Payment>,
    C: Fn(&Vec<u8>, &Vec<u8>) -> Option<ExecutionContext>,
    D: Fn(&Vec<u8>, &Vec<u8>) -> Result<Vec<u8>, String>,
    E: Fn(&Vec<u8>, &[u8; 64], &Vec<u8>) -> bool,
>(
    state: ProofParty<N, B, S>,
    params: Json,
    now: Option<u64>,
    mandates: MandateTools<G, M, T>,
    wires: WireTools<P, C, D>,
    signed: E,
    facts: TypedReserveFacts,
)
    requires
        state.reserve_looked(params, now, mandates, wires, signed, facts),
    ensures
        facts.now == now,
        mandates.reads(params, now, facts.mandate),
        wires.found(params, facts.payment, facts.context, facts.expected),
        facts.payment_signed ==> state.frost_key is Some && facts.payment is Some,
        state.frost_key is Some && facts.payment is Some ==> call_ensures(
            signed,
            (
                &(state.frost_key->0).public_package,
                &(facts.payment->0).digest,
                &(facts.payment->0).signature,
            ),
            facts.payment_signed,
        ),
{
}

/// A settlement's payment is verified under the node's own group key and committee, which
/// have to be accepted first, within the node's own widths and the venue's horizon.
pub proof fn settlement_is_looked_at_under_the_own_committee<
    N,
    B,
    S,
    P: Fn(&Vec<u8>) -> Option<Payment>,
    C: Fn(&Vec<u8>, &Vec<u8>) -> Option<ExecutionContext>,
    D: Fn(&Vec<u8>, &Vec<u8>) -> Result<Vec<u8>, String>,
    A: Fn(&Vec<u8>, &QuorumPolicy) -> Result<(), String>,
    V: Fn(&Vec<u8>, &Vec<u8>, &QuorumPolicy, VenueBounds, u64) -> Result<(), String>,
>(
    state: ProofParty<N, B, S>,
    params: Json,
    now: Option<u64>,
    wires: WireTools<P, C, D>,
    venue: VenueTools<A, V>,
    facts: TypedFacts,
)
    requires
        state.settlement_looked(params, now, wires, venue, facts),
        names_wire(params.field("payment"@)),
        state.frost_key is Some,
        state.pq_committee is Some,
        now is Some,
    ensures
        facts.now == now,
        wires.found(params, facts.payment, facts.context, facts.expected),
        call_ensures(
            venue.accept,
            (&(state.frost_key->0).public_package, &(state.pq_committee->0)),
            facts.committee_accepted,
        ),
        facts.committee_accepted is Ok ==> exists|w: &Vec<u8>, bounds: VenueBounds|
            w@ == base64_bytes(text_in(params.field("payment"@))->0)->0 && bounds.amount_bits
                == state.config.amount_bits && bounds.price_bits == state.config.price_bits && bounds.max_horizon
                == 3600 && #[trigger] call_ensures(
                venue.verify,
                (w, &(state.frost_key->0).public_package, &(state.pq_committee->0), bounds, now->0),
                facts.payment_verified,
            ),
{
    if facts.committee_accepted is Ok {
        let w = choose|w: &Vec<u8>|
            w@ == wire_in(params.field("payment"@)) && #[trigger] call_ensures(
                venue.verify,
                (w, &(state.frost_key->0).public_package, &(state.pq_committee->0), state.bounds(), now->0),
                facts.payment_verified,
            );
        assert(w@ == base64_bytes(text_in(params.field("payment"@))->0)->0);
    }
}

/// An allocation is weighed against the commitments of its own job: the delivery in all its
/// parts, and the pool's remainder against the commitment that the node holds.
pub proof fn allocation_is_weighed_against_its_job<
    N,
    B,
    S,
    I: Fn(&Value) -> Result<StandingPoolAllocationBinding, String>,
    K: Fn(&MakerPolicyMandate, &[u8; 32]) -> Result<[u8; 32], String>,
    L: Fn(&[u8; 32], &MakerPolicyMandate, u64) -> Result<[u8; 32], String>,
    A: Fn(&QuorumPolicy, &Vec<u8>, &[u8; 64], u64) -> Result<(), String>,
    U: Fn(&Point, &[u8; 32], &Point, &ProductProof) -> bool,
    R: Fn(Remainder, &Point, &ThresholdRangeProof) -> bool,
    H: Fn(&Vec<u8>, &Point, &Point, &Point, &DvpProofs) -> [u8; 32],
    F: Fn(&ThresholdRangeProof) -> [u8; 32],
>(
    by: PoolTools<I, K, L, A, U, R, H, F>,
    job: ProofJob<N, B, S>,
    payment_wire: Seq<u8>,
    payment: Payment,
    proofs: DvpProofs,
    range: ThresholdRangeProof,
    facts: PoolAllocationFacts,
)
    requires
        by.weighs(job, payment_wire, payment, proofs, range, facts),
    ensures
        by.delivers(job, payment, proofs, facts.dvp_valid),
        exists|p: &Vec<u8>|
            p@ == payment_wire && #[trigger] call_ensures(
                by.package,
                (
                    p,
                    &(job.cash_commitment->0),
                    &(job.securities_remainder->0),
                    &(job.cash_remainder->0),
                    &proofs,
                ),
                facts.dvp_package_digest,
            ),
        call_ensures(by.range_digest, (&range,), facts.range_digest),
        call_ensures(
            by.range,
            (Remainder::Pool, &(job.pool_remainder_commitment->0), &range),
            facts.range_valid,
        ),
{
}

/// An approval counts as valid only where the node's own committee approved the payment's
/// digest; without a committee or an approval there is none.
pub proof fn approval_is_of_the_own_committee<
    I: Fn(&Value) -> Result<StandingPoolAllocationBinding, String>,
    K: Fn(&MakerPolicyMandate, &[u8; 32]) -> Result<[u8; 32], String>,
    L: Fn(&[u8; 32], &MakerPolicyMandate, u64) -> Result<[u8; 32], String>,
    A: Fn(&QuorumPolicy, &Vec<u8>, &[u8; 64], u64) -> Result<(), String>,
    U: Fn(&Point, &[u8; 32], &Point, &ProductProof) -> bool,
    R: Fn(Remainder, &Point, &ThresholdRangeProof) -> bool,
    H: Fn(&Vec<u8>, &Point, &Point, &Point, &DvpProofs) -> [u8; 32],
    F: Fn(&ThresholdRangeProof) -> [u8; 32],
>(
    by: PoolTools<I, K, L, A, U, R, H, F>,
    committee: Option<QuorumPolicy>,
    payment: Payment,
    now: u64,
    approval: PqApproval,
)
    requires
        by.approved(committee, payment, now, approval),
    ensures
        approval is Valid ==> committee is Some && payment.pq_approval is Some && call_ensures(
            by.approve,
            (&(committee->0), &(payment.pq_approval->0), &payment.digest, now),
            Ok::<(), String>(()),
        ),
        approval is NoCommittee <==> committee is None,
        approval is Missing <==> committee is Some && payment.pq_approval is None,
{
}

} // verus!
