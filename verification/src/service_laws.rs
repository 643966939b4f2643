//! What a node answers, attests and starts from: requests and answers as they travel, the
//! operations that are served, and the bounds of a configuration.

use vstd::prelude::*;
use crate::bytes::{be_bytes, text_bytes, zero32};
use crate::digest::sha256;
use crate::group::Point;
use crate::json::{text_in, unsigned_in, Json, Value};
use crate::order::{Admission, Execution};
use crate::party_laws::names32;
use crate::proof_authorize::StandingPoolAllocationBinding;
use crate::proof_codec::{DvpProofs, ProductProof, ThresholdRangeProof};
use crate::proof_config::{is_ed25519_key, ProofPartyConfig};
use crate::proof_dkg::QuorumPolicy;
use crate::proof_evidence::{PoolTools, Remainder};
use crate::proof_mandate::{MakerPolicyMandate, Payment};
use crate::proof_restore::{DurableProofState, Seeds};
use crate::proof_service::{
    admission_request_refusal, method_refusal, response_refusal, shortened, AdmissionRequest, Operation,
    ProofResponse,
};
use crate::proof_start::is_first_state;
use crate::proof_state::{ProofJob, ProofParty};
use crate::text::{base64_bytes, hex_bytes, hex_text};

verus! {

/// Every operation is served under one name.
pub proof fn operations_are_named()
    ensures
        Operation::FrostStatus.name() == "frost_status"@,
        Operation::FrostIdentity.name() == "frost_identity"@,
        Operation::FrostConfigurePeers.name() == "frost_configure_peers"@,
        Operation::FrostConfirmPeers.name() == "frost_confirm_peers"@,
        Operation::FrostDkgRound1.name() == "frost_dkg_round1"@,
        Operation::FrostDkgRound2.name() == "frost_dkg_round2"@,
        Operation::FrostDkgFinalize.name() == "frost_dkg_finalize"@,
        Operation::AuthorizeReservePayment.name() == "authorize_reserve_payment"@,
        Operation::AuthorizeReserveTyped.name() == "authorize_reserve_typed"@,
        Operation::AuthorizeStandingPoolAllocation.name() == "authorize_standing_pool_allocation"@,
        Operation::AuthorizeZkpi.name() == "authorize_zkpi"@,
        Operation::AuthorizeTyped.name() == "authorize_typed"@,
        Operation::SignPublication.name() == "sign_publication"@,
        Operation::AuthorizeHealth.name() == "authorize_health"@,
        Operation::FrostCommit.name() == "frost_commit"@,
        Operation::FrostSign.name() == "frost_sign"@,
        Operation::Load.name() == "load"@,
        Operation::MakerHandleEvaluation.name() == "maker_handle_evaluation"@,
        Operation::QuoteEvaluations.name() == "quote_evaluations"@,
        Operation::QuoteBind.name() == "quote_bind"@,
        Operation::QuoteRelationBind.name() == "quote_relation_bind"@,
        Operation::QuoteRound1.name() == "quote_round1"@,
        Operation::QuoteRound2.name() == "quote_round2"@,
        Operation::QuoteFinalize.name() == "quote_finalize"@,
        Operation::ZkpiEvaluations.name() == "zkpi_evaluations"@,
        Operation::ZkpiBind.name() == "zkpi_bind"@,
        Operation::ZkpiRound1.name() == "zkpi_round1"@,
        Operation::ZkpiRound2.name() == "zkpi_round2"@,
        Operation::LimitEvaluations.name() == "limit_evaluations"@,
        Operation::LimitBind.name() == "limit_bind"@,
        Operation::LimitRound1.name() == "limit_round1"@,
        Operation::LimitRound2.name() == "limit_round2"@,
        Operation::PoolRemainderEvaluations.name() == "pool_remainder_evaluations"@,
        Operation::PoolRemainderBind.name() == "pool_remainder_bind"@,
        Operation::PoolRemainderRound1.name() == "pool_remainder_round1"@,
        Operation::PoolRemainderRound2.name() == "pool_remainder_round2"@,
        Operation::DvpEvaluations.name() == "dvp_evaluations"@,
        Operation::DvpBind.name() == "dvp_bind"@,
        Operation::DvpRound1.name() == "dvp_round1"@,
        Operation::DvpRound2.name() == "dvp_round2"@,
        Operation::ClaimOpeningShare.name() == "claim_opening_share"@,
        Operation::SignAdmissionAttestation.name() == "sign_admission_attestation"@,
        Operation::SignExecutionAttestation.name() == "sign_execution_attestation"@,
        Operation::Complete.name() == "complete"@,
        Operation::CompleteObserver.name() == "complete_observer"@,
        Operation::Health.name() == "health"@,
{
}

/// A request is dispatched exactly by a node whose state is on disk, for an operation that
/// has that name.
pub proof fn only_a_healthy_node_serves<N, B, S>(state: ProofParty<N, B, S>, method: Seq<char>)
    ensures
        state.dispatch_refusal(method) is None <==> state.state_healthy && exists|operation: Operation| #[trigger]
            operation.name() == method,
{
}

/// An answer is accepted exactly where it is the one to the call, says that it succeeded,
/// and brings a result; of a failure the party's own words are told.
pub proof fn answer_is_accepted_exactly(id: u64, response: ProofResponse)
    ensures
        response_refusal(id, response) is None <==> response.id == id && response.ok && response.result is Some,
        response.id == id && !response.ok && response.error is Some ==> response_refusal(id, response) == Some(
            (response.error->0)@,
        ),
{
}

/// A method is called only under a name of at least a byte and at most one hundred and
/// twenty-eight, and an error is told by its first five hundred and twelve characters.
pub proof fn names_and_errors_are_bounded(method: Seq<char>, error: Seq<char>)
    ensures
        method_refusal(method) is None <==> 0 < text_bytes(method).len() <= 128,
        shortened(error).len() <= 512,
        shortened(error).len() == error.len() || shortened(error).len() == 512,
        forall|i: int| 0 <= i < shortened(error).len() ==> shortened(error)[i] == error[i],
{
}

/// An admission is read exactly where its numbers, its principal and its four digests are
/// there.
pub proof fn admission_is_read_exactly(params: Json)
    ensures
        admission_request_refusal(params) is None <==> {
            &&& unsigned_in(params.field("slot"@)) is Some
            &&& unsigned_in(params.field("sequence"@)) is Some
            &&& text_in(params.field("principal"@)) is Some
            &&& names32(params.field("ticket_id"@))
            &&& names32(params.field("claim_digest"@))
            &&& names32(params.field("batch_digest"@))
            &&& names32(params.field("order_digest"@))
        },
{
}

/// A node attests an admission only for the ticket of that very principal and slot, and
/// what it attests are its own number and the request's own values.
pub proof fn admission_is_attested_for_its_ticket<N, B, S>(
    state: ProofParty<N, B, S>,
    request: AdmissionRequest,
    ticket: Seq<u8>,
)
    ensures
        state.admission_refusal(request.slot, request.principal@, ticket) is None <==> {
            let name = text_bytes(request.principal@);
            &&& state.state_healthy
            &&& request.slot <= 0xffff_ffff
            &&& 0 < name.len() <= 512
            &&& ticket == sha256(
                text_bytes("QOMM:NODE:PRINCIPAL-TICKET:v1"@) + be_bytes(request.slot as nat, 4)
                    + be_bytes(name.len(), 8) + name,
            )
        },
        ({
            let attested: Admission = state.admission_of(request);
            &&& attested.node == state.config.node
            &&& attested.slot == request.slot
            &&& attested.sequence == request.sequence
            &&& attested.principal_digest == sha256(
                text_bytes("QOMM:ORDER:PRINCIPAL:v1"@) + be_bytes(
                    text_bytes(request.principal@).len(),
                    8,
                ) + text_bytes(request.principal@),
            )
            &&& attested.ticket_id == request.ticket_id@
            &&& attested.claim_digest == request.claim_digest@
            &&& attested.batch_digest == request.batch_digest@
            &&& attested.order_digest == request.order_digest@
            &&& attested.signature.len() == 0
        }),
{
}

/// A node attests an execution only of a job that is active on it, with every number and
/// digest there, in a slot of thirty-two bits and under a generation that is not zero.
pub proof fn execution_is_attested_exactly<N, B, S>(state: ProofParty<N, B, S>, params: Json)
    ensures
        state.execution_refusal(params) is None <==> {
            &&& names32(params.field("job_id"@))
            &&& names32(params.field("batch_digest"@))
            &&& names32(params.field("source_digest"@))
            &&& names32(params.field("stdout_digest"@))
            &&& names32(params.field("stderr_digest"@))
            &&& unsigned_in(params.field("slot"@)) is Some && unsigned_in(params.field("slot"@))->0 <= 0xffff_ffff
            &&& unsigned_in(params.field("lane"@)) is Some
            &&& unsigned_in(params.field("state_generation"@)) is Some
            &&& unsigned_in(params.field("state_generation"@))->0 > 0
            &&& unsigned_in(params.field("frame_count"@)) is Some
            &&& unsigned_in(params.field("input_count"@)) is Some
            &&& state.jobs.has(hex_bytes(text_in(params.field("job_id"@))->0))
        },
{
}

/// An attested execution is the node's own, holds what the request says, and is bound to
/// the job's persistence and to its own receipt.
pub proof fn attested_execution_says_the_request<N, B, S>(
    state: ProofParty<N, B, S>,
    params: Json,
    attested: Execution,
)
    requires
        state.execution_refusal(params) is None,
        state.execution_said(params, attested),
    ensures
        attested.node == state.config.node,
        unsigned_in(params.field("slot"@)) == Some(attested.slot),
        unsigned_in(params.field("lane"@)) == Some(attested.lane),
        unsigned_in(params.field("state_generation"@)) == Some(attested.state_generation),
        unsigned_in(params.field("frame_count"@)) == Some(attested.frame_count),
        unsigned_in(params.field("input_count"@)) == Some(attested.input_count),
        attested.batch_digest == hex_bytes(text_in(params.field("batch_digest"@))->0),
        attested.source_digest == hex_bytes(text_in(params.field("source_digest"@))->0),
        attested.stdout_digest == hex_bytes(text_in(params.field("stdout_digest"@))->0),
        attested.stderr_digest == hex_bytes(text_in(params.field("stderr_digest"@))->0),
        attested.persistence_digest == state.jobs.at(
            hex_bytes(text_in(params.field("job_id"@))->0),
        ).persistence_digest@,
        attested.receipt_digest == sha256(attested.receipt_message()),
{
}

/// The instance of a node is bound to its application key, its configuration and its
/// identity.
pub proof fn instance_is_of_its_keys_and_configuration<N, B, S>(state: ProofParty<N, B, S>)
    ensures
        state.instance() == sha256(
            text_bytes("QOMM:PROOF-PARTY:INSTANCE:v3"@) + state.application_identity.public.bytes@ + sha256(
                state.config.security_message(),
            ) + state.identity_public@,
        ),
{
}

/// A configuration is valid exactly within its bounds: a node of a committee of two to
/// sixty-four with a threshold below its size, widths of one to sixty-four bits, three for
/// a complete quote's eligibility, a long passphrase, a receipt key that is one, and
/// recipients that differ, none of them zero.
pub proof fn configuration_is_valid_exactly(config: ProofPartyConfig, public_bytes: nat)
    ensures
        config.valid(public_bytes) <==> {
            let recipients = config.recipient_opening_keys@;
            &&& config.node < config.n_parties && 2 <= config.n_parties <= 64
            &&& 0 < config.n_mm <= 4096
            &&& 0 < config.threshold < config.n_parties
            &&& 1 <= config.amount_bits <= 64
            &&& 1 <= config.price_bits <= 64
            &&& 1 <= config.remainder_bits <= 64
            &&& 1 <= config.quote_eligibility_bits <= 64
            &&& config.complete_quote_proof ==> 3 <= config.quote_eligibility_bits
            &&& 1 <= config.quote_span_bits <= 64
            &&& 16 <= config.state_passphrase@.len()
            &&& config.trusted_defmi_receipt_public is Some ==> is_ed25519_key(
                (config.trusted_defmi_receipt_public->0)@,
            )
            &&& forall|i: int|
                0 <= i < recipients.len() ==> (#[trigger] recipients[i]).public@.len() == public_bytes
                    && recipients[i].view@ != Seq::new(32, |k: int| 0u8)
            &&& forall|i: int, j: int|
                0 <= i < recipients.len() && 0 <= j < recipients.len() && i != j ==> (#[trigger] recipients[i]).view@
                    != (#[trigger] recipients[j]).view@
        },
{
    let recipients = config.recipient_opening_keys@;
    assert(zero32() =~= Seq::new(32, |k: int| 0u8));
    if config.valid(public_bytes) {
        assert forall|i: int, j: int|
            0 <= i < recipients.len() && 0 <= j < recipients.len() && i != j implies (
        #[trigger] recipients[i]).view@ != (#[trigger] recipients[j]).view@ by {
            if i > j {
                assert(recipients[j].view@ != recipients[i].view@);
            }
        }
    }
}

/// A node starts with its own seeds and configuration, and with nothing else: no peers, no
/// key, no job and no answer.
pub proof fn node_starts_empty(config: ProofPartyConfig, seeds: Seeds, pq_key: Seq<u8>, state: DurableProofState)
    requires
        is_first_state(config, seeds, pq_key, state),
    ensures
        state.generation == 0,
        state.node == config.node && state.n_mm == config.n_mm,
        state.n_parties == config.n_parties && state.threshold == config.threshold,
        state.proof_configuration_digest@ == hex_text(sha256(config.security_message())),
        base64_bytes(state.identity_private@) == Some(seeds.identity@),
        base64_bytes(state.application_private@) == Some(seeds.application@),
        base64_bytes(state.exchange_private@) == Some(seeds.exchange@),
        base64_bytes(state.pq_private@) == Some(seeds.pq@),
        state.pq_key@ == pq_key,
        state.pq_committee is None && state.frost_session is None && state.frost_key_package is None,
        state.frost_public_package is None && state.frost_dkg_finalize_digest is None,
        state.frost_peer_manifest is None && state.frost_dkg_round1 is None && state.frost_dkg_round2 is None,
        state.frost_reserved@.len() == 0 && state.frost_consumed@.len() == 0 && state.frost_authorized@.len() == 0,
        state.publication_consumed@.len() == 0 && state.proof_reserved@.len() == 0,
        state.proof_completed@.len() == 0 && state.completed_evidence@.len() == 0,
        state.pq_identity_cache@.len() == 0 && state.application_controls@.len() == 0,
{
}

/// A venue takes payments of the widths that the node is configured for, due within an
/// hour.
pub proof fn venue_bounds_are_those_of_the_node<N, B, S>(state: ProofParty<N, B, S>)
    ensures
        state.bounds().amount_bits == state.config.amount_bits,
        state.bounds().price_bits == state.config.price_bits,
        state.bounds().max_horizon == 3600,
{
}

/// A delivery is found valid only where the product and both remainders are, each tried
/// against the commitments that the node holds for the job, and invalid only where one of
/// them is not.
pub proof fn delivery_is_weighed_in_all_its_parts<
    N,
    B,
    S,
    I: Fn(&Value) -> Result<StandingPoolAllocationBinding, String>,
    K: Fn(&MakerPolicyMandate, &[u8; 32]) -> Result<[u8; 32], String>,
    L: Fn(&[u8; 32], &MakerPolicyMandate, u64) -> Result<[u8; 32], String>,
    A: Fn(&QuorumPolicy, &Vec<u8>, &[u8; 64], u64) -> Result<(), String>,
    U: Fn(&Point, &[u8; 32], &Point, &ProductProof) -> bool,
    R: Fn(Remainder, &Point, &ThresholdRangeProof) -> bool,
    H: Fn(&Vec<u8>, &Point, &Point, &Point, &DvpProofs) -> [u8; 32],
    F: Fn(&ThresholdRangeProof) -> [u8; 32],
>(
    by: PoolTools<I, K, L, A, U, R, H, F>,
    job: ProofJob<N, B, S>,
    payment: Payment,
    proofs: DvpProofs,
    valid: bool,
)
    requires
        by.delivers(job, payment, proofs, valid),
    ensures
        valid ==> {
            &&& call_ensures(
                by.product,
                (&(job.quantity_commitment->0), &payment.price_commitment, &(job.cash_commitment->0), &proofs.product),
                true,
            )
            &&& call_ensures(
                by.range,
                (Remainder::Securities, &(job.securities_remainder->0), &proofs.securities_remainder),
                true,
            )
            &&& call_ensures(by.range, (Remainder::Cash, &(job.cash_remainder->0), &proofs.cash_remainder), true)
        },
        !valid ==> {
            ||| call_ensures(
                by.product,
                (&(job.quantity_commitment->0), &payment.price_commitment, &(job.cash_commitment->0), &proofs.product),
                false,
            )
            ||| call_ensures(
                by.range,
                (Remainder::Securities, &(job.securities_remainder->0), &proofs.securities_remainder),
                false,
            )
            ||| call_ensures(by.range, (Remainder::Cash, &(job.cash_remainder->0), &proofs.cash_remainder), false)
        },
{
}

} // verus!
