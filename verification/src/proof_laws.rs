//! What holds of a proof party over several operations.

use vstd::prelude::*;
use crate::application_crypto::{answers, Signature, VerifyingKey};
use crate::fields::hex_in;
use crate::json::Json;
use crate::group::Point;
use crate::pretrade::PretradeAcknowledgement;
use crate::proof_authorize::PoolAllocationFacts;
use crate::proof_params::wire_in;
use crate::proof_settle::{
    decodes_to, paid_job, payment_binding_refusal, with_action, with_settlement, ApplicationControlAuthorization,
    ApplicationStatementAuthorization, TypedFacts,
};
use crate::proof_durable::canonical_evidence;
use crate::proof_restore::{holds, restart_keeps_lifecycle, DurableProofState, RestoreFacts, Seeds};
use crate::proof_state::{written, CompletedProof, ProofJob, ProofParty};

verus! {

/// Whether a party was started from what another kept.
pub open spec fn restarted<N, B, S>(before: ProofParty<N, B, S>, after: ProofParty<N, B, S>) -> bool {
    &&& forall|k: Seq<u8>| #[trigger]
        before.completed_evidence.has(k) ==> canonical_evidence(before.completed_evidence.at(k))
    &&& exists|generation: u64, seeds: Seeds, pq_key: Seq<u8>, state: DurableProofState, facts: RestoreFacts|
        #[trigger] kept_and_held(before, generation, seeds, pq_key, state, facts, after)
}

/// Whether a state is what one party kept and another holds.
pub open spec fn kept_and_held<N, B, S>(
    before: ProofParty<N, B, S>,
    generation: u64,
    seeds: Seeds,
    pq_key: Seq<u8>,
    state: DurableProofState,
    facts: RestoreFacts,
    after: ProofParty<N, B, S>,
) -> bool {
    before.kept_as(generation, seeds, pq_key, state) && holds(after, state, before.config, facts)
}

/// Whether states follow each other: by operations, each of which keeps what was
/// used up, or by a restart from what was kept.
pub open spec fn follows<N, B, S>(states: Seq<ProofParty<N, B, S>>) -> bool {
    &&& forall|i: int| 0 <= i < states.len() ==> (#[trigger] states[i]).consistent()
    &&& forall|i: int|
        0 <= i < states.len() - 1 ==> #[trigger] states[i].keeps_used(states[i + 1]) || restarted(
            states[i],
            states[i + 1],
        )
}

/// A restart keeps what was used up.
proof fn restart_keeps_used<N, B, S>(before: ProofParty<N, B, S>, after: ProofParty<N, B, S>)
    requires
        before.consistent(),
        restarted(before, after),
    ensures
        before.keeps_used(after),
{
    let (generation, seeds, pq_key, state, facts) = choose|
        generation: u64,
        seeds: Seeds,
        pq_key: Seq<u8>,
        state: DurableProofState,
        facts: RestoreFacts,
    | #[trigger] kept_and_held(before, generation, seeds, pq_key, state, facts, after);
    restart_keeps_lifecycle(before, generation, seeds, pq_key, state, facts, after);
    assert forall|k: Seq<u8>| #[trigger] before.frost_consumed.has(k) implies after.frost_consumed.has(k) by {
        assert(after.frost_consumed.has(k) == before.frost_consumed.has(k));
    }
    assert forall|k: Seq<u8>| #[trigger] before.completed.has(k) implies after.completed.has(k) by {
        assert(after.completed.has(k) == before.completed.has(k));
    }
    assert forall|k: Seq<u8>| #[trigger] before.publication_consumed.has(k) implies after.publication_consumed.has(k) by {
        assert(after.publication_consumed.has(k) == before.publication_consumed.has(k));
    }
}

/// What was used up is used up ever after.
pub proof fn used_stays_used<N, B, S>(states: Seq<ProofParty<N, B, S>>, at: int)
    requires
        follows(states),
        0 <= at < states.len(),
    ensures
        states[0].keeps_used(states[at]),
    decreases at,
{
    if at > 0 {
        used_stays_used(states, at - 1);
        let before = states[at - 1];
        let after = states[at];
        assert(states[at - 1].keeps_used(states[at - 1 + 1]) || restarted(states[at - 1], states[at - 1 + 1]));
        if restarted(before, after) {
            restart_keeps_used(before, after);
        }
        assert forall|k: Seq<u8>| #[trigger] states[0].frost_consumed.has(k) implies after.frost_consumed.has(k) by {
            assert(before.frost_consumed.has(k));
        }
        assert forall|k: Seq<u8>| #[trigger] states[0].completed.has(k) implies after.completed.has(k) by {
            assert(before.completed.has(k));
        }
        assert forall|k: Seq<u8>| #[trigger] states[0].publication_consumed.has(k) implies after.publication_consumed.has(
            k,
        ) by {
            assert(before.publication_consumed.has(k));
        }
    }
}

/// A signing job whose nonce was used up stays refused over every later operation
/// and every restart: it is not committed to, not answered and not authorized
/// again. At most one share is ever released for it.
pub proof fn burned_job_stays_refused<N, B, S, D: Fn(&Vec<u8>) -> bool>(
    before: ProofParty<N, B, S>,
    states: Seq<ProofParty<N, B, S>>,
    at: int,
    params: Json,
    message: Seq<u8>,
    decodes: D,
)
    requires
        follows(states),
        0 <= at < states.len(),
        before.burned(hex_in(params.field("job_id"@)), states[0]),
    ensures
        states[at].commit_refusal(params) is Some,
        states[at].sign_refusal(params, decodes) is Some,
        !states[at].signable(hex_in(params.field("job_id"@)), message),
        !states[at].frost_nonces.has(hex_in(params.field("job_id"@))),
{
    let id = hex_in(params.field("job_id"@));
    let later = states[at];
    used_stays_used(states, at);
    assert(states[0].frost_consumed.has(id));
    assert(later.frost_consumed.has(id));
    assert(later.consistent());
    if later.frost_nonces.has(id) {
        assert(later.frost_reserved.has(id));
    }
}

/// Where the signing job of a message is used up, no operation authorizes it.
pub proof fn used_job_is_not_authorized<N, B, S, W: Fn(&ProofParty<N, B, S>, u64) -> Result<(), String>>(
    party: ProofParty<N, B, S>,
    id: Seq<u8>,
    message: Seq<u8>,
    write: W,
    after: ProofParty<N, B, S>,
    outcome: Result<(), Seq<char>>,
)
    requires
        party.frost_consumed.has(id),
        party.authorizes(id, message, write, after, outcome),
    ensures
        outcome == Err::<(), Seq<char>>("FROST authorization names an invalid or used signing job"@),
        after == party,
{
}

/// A signing job that was committed to is burned by a restart: it stays reserved
/// without a nonce, so it is neither committed to nor authorized again.
pub proof fn reserved_job_stays_refused<N, B, S>(later: ProofParty<N, B, S>, params: Json, message: Seq<u8>)
    requires
        later.frost_reserved.has(hex_in(params.field("job_id"@))),
    ensures
        later.commit_refusal(params) is Some,
        !later.signable(hex_in(params.field("job_id"@)), message),
{
}

/// A proof job that was completed is never loaded again, over every later operation
/// and every restart.
pub proof fn completed_job_is_not_loaded_again<N, B, S>(
    before: ProofParty<N, B, S>,
    states: Seq<ProofParty<N, B, S>>,
    at: int,
    params: Json,
)
    requires
        follows(states),
        0 <= at < states.len(),
        before.job_completed(hex_in(params.field("job_id"@)), states[0]),
    ensures
        states[at].load_refusal(params) is Some,
{
    used_stays_used(states, at);
    assert(states[0].completed.has(hex_in(params.field("job_id"@))));
}

/// A proof job that was loaded is never loaded again, also not after a restart
/// that lost it.
pub proof fn reserved_proof_job_is_not_loaded_again<N, B, S>(later: ProofParty<N, B, S>, params: Json)
    requires
        later.reserved.has(hex_in(params.field("job_id"@))),
    ensures
        later.load_refusal(params) is Some,
{
}

/// A pool is not allocated from evaluations alone: the job has issued its answers, the
/// proofs hold for what it committed to, and the group key and the committee stand
/// behind the payment, under a Maker's mandate.
pub proof fn allocation_is_proved<N, B, S>(party: ProofParty<N, B, S>, params: Json, facts: PoolAllocationFacts)
    requires
        party.pool_allocation_refusal(params, facts) is None,
    ensures
        ({
            let id = hex_in(params.field("job_id"@));
            let job = party.jobs.at(id);
            let binding = facts.binding->Ok_0;
            &&& party.jobs.has(id)
            &&& job.quote_verified && job.dvp_response_issued && job.pool_remainder_response_issued
            &&& facts.dvp_valid && facts.range_valid
            &&& facts.payment_signed && facts.approval is Valid
            &&& facts.mandate->Ok_0 is Maker
            &&& binding.remainder_commitment@ == (job.pool_remainder_commitment->0)@
        }),
{
}

/// A job that was bound to a payment refuses every other payment, taker or side.
pub proof fn payment_binding_is_final<N, B, S>(
    job: ProofJob<N, B, S>,
    digest: [u8; 64],
    taker: Point,
    side: bool,
    other: [u8; 64],
    other_taker: Point,
    other_side: bool,
)
    requires
        payment_binding_refusal(job, digest, taker, side) is None,
    ensures
        ({
            let paid = paid_job(job, digest, taker, side);
            &&& payment_binding_refusal(paid, digest, taker, side) is None
            &&& paid_job(paid, digest, taker, side) == paid
            &&& other@ != digest@ || other_taker@ != taker@ || other_side != side ==> payment_binding_refusal(
                paid,
                other,
                other_taker,
                other_side,
            ) is Some
        }),
{
}

/// A completed proof that was bound to an application's action refuses every
/// other action.
pub proof fn application_action_is_final<N, B, S>(
    party: ProofParty<N, B, S>,
    id: Seq<u8>,
    kept: CompletedProof,
    action: [u8; 32],
    other: ApplicationStatementAuthorization,
)
    requires
        party.completed_evidence.at(id) == with_action(kept, action),
        other.action_digest@ != action@,
    ensures
        party.statement_refusal(id, other) is Some,
{
}

/// A control operation that was bound to an action refuses every other action.
pub proof fn control_action_is_final<N, B, S>(
    before: ProofParty<N, B, S>,
    after: ProofParty<N, B, S>,
    authorized: ApplicationControlAuthorization,
    other: ApplicationControlAuthorization,
)
    requires
        before.controlled(authorized, after),
        other.control_id@ == authorized.control_id@,
        other.action_digest@ != authorized.action_digest@,
    ensures
        after.control_refusal(other) is Some,
{
}

/// A completed proof that was bound to a settlement refuses every other one.
pub proof fn settlement_is_final<
    N,
    B,
    S,
    D: Fn(&Vec<u8>) -> Result<PretradeAcknowledgement, String>,
    K: Fn(&Vec<u8>) -> bool,
    V: Fn(&VerifyingKey, &Vec<u8>, &Signature) -> bool,
>(
    party: ProofParty<N, B, S>,
    params: Json,
    facts: TypedFacts,
    decode: D,
    known: K,
    verify: V,
    kept: CompletedProof,
    digest: [u8; 32],
)
    requires
        party.completed_evidence.at(hex_in(params.field("job_id"@))) == with_settlement(kept, digest),
        crate::digest::sha256(wire_in(params.field("message"@))) != digest@,
    ensures
        !party.typed_decided(params, facts, decode, known, verify, None),
{
}

/// A settlement is authorized only with an acknowledgement that its request carries
/// and that is signed, as the whole of it, under the node's pinned key.
pub proof fn settlement_needs_the_pinned_signer<
    N,
    B,
    S,
    D: Fn(&Vec<u8>) -> Result<PretradeAcknowledgement, String>,
    K: Fn(&Vec<u8>) -> bool,
    V: Fn(&VerifyingKey, &Vec<u8>, &Signature) -> bool,
>(party: ProofParty<N, B, S>, params: Json, facts: TypedFacts, decode: D, known: K, verify: V)
    requires
        party.typed_decided(params, facts, decode, known, verify, None),
    ensures
        party.config.trusted_defmi_receipt_public is Some,
        exists|ack: PretradeAcknowledgement|
            #[trigger] decodes_to(decode, wire_in(params.field("pretrade_ack"@)), Ok(ack)) && answers(
                verify,
                (VerifyingKey { bytes: party.config.trusted_defmi_receipt_public->0 }),
                ack.body(),
                ack.signature@,
                true,
            ),
{
}

/// A node whose state could not be written refuses every request.
pub proof fn failed_write_closes_the_node<N, B, S, W: Fn(&ProofParty<N, B, S>, u64) -> Result<(), String>>(
    write: W,
    before: ProofParty<N, B, S>,
    after: ProofParty<N, B, S>,
    error: Seq<char>,
    method: Seq<char>,
)
    requires
        written(write, before, after, Err::<(), Seq<char>>(error)),
        before.state_generation < u64::MAX,
    ensures
        after.dispatch_refusal(method) is Some,
{
}

} // verus!
