//! Binding a proof job to its payment and settlement, and the other messages
//! that a node agrees to sign.

use vstd::prelude::*;
use crate::bytes::{copied, is_zero32, put, same, same32, text_bytes, zero32};
use crate::application_crypto::{can_verify, Signature, VerifyingKey};
use crate::digest::{hash, sha256};
use crate::proof_dkg::QuorumPolicy;
use crate::proof_evidence::{VenueBounds, VenueTools, WireTools};
use crate::fields::{either, hex_in, unless};
use crate::group::Point;
use crate::json::{as_text, as_unsigned, text_in, unsigned_in, Json, Value};
use crate::oracle::{ask, decides, yes};
use crate::pretrade::{selected, PretradeAcknowledgement, ReservationParty};
use crate::proof_authorize::{
    check_deadline, deadline_refusal, scan_refusal, signing_refusal, signing_request, signing_said, SigningRequest,
    PAYMENT_HORIZON,
};
use crate::proof_codec::{decode_threshold_range, scan_range, ThresholdRangeProof};
use crate::proof_mandate::{refused, told, AuthorizationScope, Direction, ExecutionContext, OperationKind, Payment};
use crate::proof_params::{
    canonical_point_refusal, hex32, hex32_refusal, job_id, job_id_refusal, one_wire, one_wire_refusal, point, wire_in,
};
use crate::proof_state::{
    can_write, outcome_of, signing_job, signing_job_of, written, CompletedProof, OpeningShares, ProofJob, ProofParty,
    MAX_COMPLETED_EVIDENCE,
};
use crate::text::{about, same_text};

verus! {

/// A payment whose fields were read and held against its job.
#[derive(Debug)]
pub struct ZkpiRequest {
    pub proof_job: [u8; 32],
    pub signing: SigningRequest,
    pub amount_commitment: Point,
    pub price_commitment: Point,
    pub amount_range: ThresholdRangeProof,
    pub price_range: ThresholdRangeProof,
    pub asset_commitment: Point,
    pub payer_handle: Point,
    pub payee_handle: Point,
    pub deadline: u64,
    pub nonce: [u8; 32],
    pub quote_digest: [u8; 32],
    pub taker_handle: Point,
    pub maker_is_payer: bool,
}

/// What a job comes to when it is bound to a payment.
pub open spec fn paid_job<N, B, S>(
    job: ProofJob<N, B, S>,
    digest: [u8; 64],
    taker: Point,
    maker_is_payer: bool,
) -> ProofJob<N, B, S> {
    if job.authorized_payment_digest is Some && (job.authorized_payment_digest->0)@ != digest@ {
        job
    } else {
        let paid = if job.authorized_payment_digest is None {
            ProofJob { authorized_payment_digest: Some(digest), ..job }
        } else {
            job
        };
        if paid.authorized_taker_handle is None && paid.maker_is_payer is None {
            ProofJob { authorized_taker_handle: Some(taker), maker_is_payer: Some(maker_is_payer), ..paid }
        } else {
            paid
        }
    }
}

/// Why a job cannot be bound to a payment.
pub open spec fn payment_binding_refusal<N, B, S>(
    job: ProofJob<N, B, S>,
    digest: [u8; 64],
    taker: Point,
    maker_is_payer: bool,
) -> Option<Seq<char>> {
    if job.authorized_payment_digest is Some && (job.authorized_payment_digest->0)@ != digest@ {
        Some("proof job was rebound to another payment instruction"@)
    } else if job.authorized_taker_handle is Some && job.maker_is_payer is Some {
        unless(
            (job.authorized_taker_handle->0)@ == taker@ && job.maker_is_payer == Some(maker_is_payer),
            "proof job was rebound to another Maker/Taker payment side"@,
        )
    } else {
        unless(
            job.authorized_taker_handle is None && job.maker_is_payer is None,
            "proof job has incomplete payment-side evidence"@,
        )
    }
}

/// What was decoded and verified for the authorization of a settlement.
#[derive(Debug)]
pub struct TypedFacts {
    /// The payment, where its wire is valid.
    pub payment: Option<Payment>,
    /// The context, where its wire is valid for the payment.
    pub context: Option<ExecutionContext>,
    pub now: Option<u64>,
    /// Whether the post-quantum committee fits the group key.
    pub committee_accepted: Result<(), String>,
    /// Whether the payment holds under the committee's keys.
    pub payment_verified: Result<(), String>,
    /// The digest that the payment and its context are signed under.
    pub expected: Result<Vec<u8>, String>,
}

/// What is retained of a proof once it is bound to a settlement.
pub open spec fn with_settlement(kept: CompletedProof, digest: [u8; 32]) -> CompletedProof {
    CompletedProof { typed_message_digest: Some(digest), ..kept }
}

/// What is retained of a proof once it is bound to an application's action.
pub open spec fn with_action(kept: CompletedProof, digest: [u8; 32]) -> CompletedProof {
    CompletedProof { application_action_digest: Some(digest), ..kept }
}

/// The direction of a trade in which the Maker pays, or is paid.
pub open spec fn direction_of(maker_is_payer: bool) -> Direction {
    if maker_is_payer {
        Direction::TakerSells
    } else {
        Direction::TakerBuys
    }
}

/// Whether a context settles with the roles that the job selected.
pub open spec fn roles_match(context: ExecutionContext, completed: CompletedProof) -> bool {
    &&& context.maker_handle@ == (completed.maker_handle->0)@
    &&& context.taker_handle@ == (completed.taker_handle->0)@
    &&& context.direction == direction_of(completed.maker_is_payer->0)
}

/// Whether a context consumes the acknowledged reserves of a completed proof.
pub open spec fn reserves_match(
    context: ExecutionContext,
    completed: CompletedProof,
    ack: PretradeAcknowledgement,
) -> bool {
    let maker = selected(ack.bindings@, ReservationParty::Maker, (completed.maker_handle->0)@, context.direction)->0;
    let taker = selected(ack.bindings@, ReservationParty::Taker, (completed.taker_handle->0)@, context.direction)->0;
    let pays = completed.maker_is_payer->0;
    let maker_reserve = if pays { completed.cash_reserve->0 } else { completed.securities_reserve->0 };
    let taker_reserve = if pays { completed.securities_reserve->0 } else { completed.cash_reserve->0 };
    &&& maker.reserve_id@ == context.maker_reservation_id@
    &&& maker.mandate_digest@ == context.maker_mandate_digest@
    &&& maker.policy_digest@ == context.maker_policy_digest@
    &&& maker.policy_digest@ == (completed.winning_policy_digest->0)@
    &&& maker.reserve_receipt_digest@ == context.maker_reserve_receipt_digest@
    &&& maker.amount_commitment@ == maker_reserve@
    &&& taker.reserve_id@ == context.taker_reservation_id@
    &&& taker.mandate_digest@ == context.taker_mandate_digest@
    &&& taker.reserve_receipt_digest@ == context.taker_reserve_receipt_digest@
    &&& taker.amount_commitment@ == taker_reserve@
}

/// Why a settlement is not the one of a completed proof, before the acknowledgement
/// of its reservations is read.
pub open spec fn settlement_refusal<K: Fn(&Vec<u8>) -> bool>(
    completed: CompletedProof,
    context: ExecutionContext,
    payment: Payment,
    trusted: Option<[u8; 32]>,
    params: Json,
    known: K,
) -> Option<Seq<char>> {
    either(unless(payment.digest@ == completed.payment_digest@
        && context.quote_proof_digest@ == completed.quote_digest@,
        "typed authorization differs from the completed MPC quote"@),
    either(unless(completed.maker_handle is Some, "completed proof predates winning-Maker settlement binding"@),
    either(unless(completed.taker_handle is Some, "completed proof predates Taker settlement binding"@),
    either(unless(completed.maker_is_payer is Some, "completed proof predates payment-side settlement binding"@),
    either(unless(completed.winning_policy_digest is Some,
        "completed proof predates winning-policy settlement binding"@),
    either(unless(roles_match(context, completed), "typed settlement does not use the MPC-selected Maker/Taker roles"@),
    either(unless(trusted is Some, "proof node has no pinned DeFMI reservation receipt key"@),
    either(unless(yes(known, (trusted->0)@), "pinned DeFMI reservation receipt key is malformed"@),
    one_wire_refusal(params, "pretrade_ack"@)))))))))
}

/// Why a settlement does not consume the acknowledged reserves of a completed proof.
pub open spec fn reserves_refusal(
    completed: CompletedProof,
    context: ExecutionContext,
    ack: PretradeAcknowledgement,
) -> Option<Seq<char>> {
    let lacking = "pre-trade acknowledgement lacks the selected reservation"@;
    either(unless(ack.defmi_id@ == context.defmi_id@ && ack.after_state_root@ == context.before_state_root@,
        "typed settlement is not based on the acknowledged DeFMI state"@),
    either(unless(selected(ack.bindings@, ReservationParty::Maker, (completed.maker_handle->0)@,
        context.direction) is Some, lacking),
    either(unless(selected(ack.bindings@, ReservationParty::Taker, (completed.taker_handle->0)@,
        context.direction) is Some, lacking),
    either(unless(completed.securities_reserve is Some, "completed proof predates securities-reserve binding"@),
    either(unless(completed.cash_reserve is Some, "completed proof predates cash-reserve binding"@),
    unless(reserves_match(context, completed, ack),
        "typed settlement differs from the acknowledged pre-trade reserves"@))))))
}

fn check_settlement<K: Fn(&Vec<u8>) -> bool>(
    completed: &CompletedProof,
    context: &ExecutionContext,
    payment: &Payment,
    trusted: Option<[u8; 32]>,
    params: &Value,
    known: &K,
) -> (r: Result<(VerifyingKey, Vec<u8>), String>)
    requires
        decides(*known),
    ensures
        match r {
            Ok((key, wire)) => {
                &&& settlement_refusal(*completed, *context, *payment, trusted, params@, *known) is None
                &&& trusted == Some(key.bytes)
                &&& wire@ == wire_in(params@.field("pretrade_ack"@))
            },
            Err(e) => settlement_refusal(*completed, *context, *payment, trusted, params@, *known) == Some(e@),
        },
{
    if !same(payment.digest.as_slice(), completed.payment_digest.as_slice())
        || !same32(&context.quote_proof_digest, &completed.quote_digest) {
        return Err("typed authorization differs from the completed MPC quote".to_owned());
    }
    let maker_handle = match &completed.maker_handle {
        None => {
            return Err("completed proof predates winning-Maker settlement binding".to_owned());
        },
        Some(value) => value,
    };
    let taker_handle = match &completed.taker_handle {
        None => {
            return Err("completed proof predates Taker settlement binding".to_owned());
        },
        Some(value) => value,
    };
    let maker_is_payer = match &completed.maker_is_payer {
        None => {
            return Err("completed proof predates payment-side settlement binding".to_owned());
        },
        Some(value) => value,
    };
    if completed.winning_policy_digest.is_none() {
        return Err("completed proof predates winning-policy settlement binding".to_owned());
    }
    let expected_direction = if *maker_is_payer {
        Direction::TakerSells
    } else {
        Direction::TakerBuys
    };
    if !same32(&context.maker_handle, maker_handle) || !same32(&context.taker_handle, taker_handle)
        || context.direction != expected_direction {
        return Err("typed settlement does not use the MPC-selected Maker/Taker roles".to_owned());
    }
    let key = match trusted {
        None => {
            return Err("proof node has no pinned DeFMI reservation receipt key".to_owned());
        },
        Some(key) => key,
    };
    if !ask(known, &copied(key.as_slice())) {
        return Err("pinned DeFMI reservation receipt key is malformed".to_owned());
    }
    match one_wire(params, "pretrade_ack") {
        Err(e) => Err(e),
        Ok(wire) => Ok((VerifyingKey { bytes: key }, wire)),
    }
}

fn check_reserves(completed: &CompletedProof, context: &ExecutionContext, ack: &PretradeAcknowledgement) -> (r: Result<
    (),
    String,
>)
    requires
        completed.maker_handle is Some,
        completed.taker_handle is Some,
        completed.maker_is_payer is Some,
        completed.winning_policy_digest is Some,
    ensures
        match r {
            Ok(_) => reserves_refusal(*completed, *context, *ack) is None,
            Err(e) => reserves_refusal(*completed, *context, *ack) == Some(e@),
        },
{
    let none: [u8; 32] = [0u8; 32];
    let maker_handle = match &completed.maker_handle {
        None => &none,
        Some(value) => value,
    };
    let taker_handle = match &completed.taker_handle {
        None => &none,
        Some(value) => value,
    };
    let pays: bool = match &completed.maker_is_payer {
        None => false,
        Some(value) => *value,
    };
    let winning_policy_digest = match &completed.winning_policy_digest {
        None => &none,
        Some(value) => value,
    };
    if !same32(&ack.defmi_id, &context.defmi_id) || !same32(&ack.after_state_root, &context.before_state_root) {
        return Err("typed settlement is not based on the acknowledged DeFMI state".to_owned());
    }
    let maker = match ack.binding_for(ReservationParty::Maker, maker_handle, context.direction) {
        Err(e) => {
            return Err(e);
        },
        Ok(value) => value,
    };
    let taker = match ack.binding_for(ReservationParty::Taker, taker_handle, context.direction) {
        Err(e) => {
            return Err(e);
        },
        Ok(value) => value,
    };
    let securities_reserve = match &completed.securities_reserve {
        None => {
            return Err("completed proof predates securities-reserve binding".to_owned());
        },
        Some(value) => value,
    };
    let cash_reserve = match &completed.cash_reserve {
        None => {
            return Err("completed proof predates cash-reserve binding".to_owned());
        },
        Some(value) => value,
    };
    let (maker_reserve, taker_reserve) = if pays {
        (cash_reserve, securities_reserve)
    } else {
        (securities_reserve, cash_reserve)
    };
    if !same32(&maker.reserve_id, &context.maker_reservation_id) || !same32(
        &maker.mandate_digest,
        &context.maker_mandate_digest,
    ) || !same32(&maker.policy_digest, &context.maker_policy_digest) || !same32(
        &maker.policy_digest,
        winning_policy_digest,
    ) || !same32(&maker.reserve_receipt_digest, &context.maker_reserve_receipt_digest) || !same32(
        &maker.amount_commitment,
        maker_reserve,
    ) || !same32(&taker.reserve_id, &context.taker_reservation_id) || !same32(
        &taker.mandate_digest,
        &context.taker_mandate_digest,
    ) || !same32(&taker.reserve_receipt_digest, &context.taker_reserve_receipt_digest) || !same32(
        &taker.amount_commitment,
        taker_reserve,
    ) {
        return Err("typed settlement differs from the acknowledged pre-trade reserves".to_owned());
    }
    Ok(())
}

/// Whether `decode` may read this of some bytes.
pub open spec fn decodes_to<A, D: Fn(&Vec<u8>) -> Result<A, String>>(
    decode: D,
    bytes: Seq<u8>,
    outcome: Result<A, String>,
) -> bool {
    exists|w: Vec<u8>| w@ == bytes && #[trigger] call_ensures(decode, (&w,), outcome)
}

/// The stage of a health check, where a request names one.
pub open spec fn health_stage(params: Json) -> Option<u8> {
    if text_in(params.field("stage"@)) == Some("pre-restart"@) {
        Some(1u8)
    } else if text_in(params.field("stage"@)) == Some("post-restart"@) {
        Some(2u8)
    } else {
        None
    }
}

/// The message of a health check.
pub open spec fn health_message(session: Seq<u8>, stage: u8, cluster: Seq<u8>) -> Seq<u8> {
    sha256(text_bytes("QOMM:FROST:HEALTH:v1"@) + session + seq![stage] + cluster)
}

/// What a publication asks for.
#[derive(Debug)]
pub struct PublicationRequest<X> {
    pub operation_id: [u8; 32],
    pub statement: X,
    pub sensitivity: u64,
    pub support: u16,
    pub evidence_path: String,
}

/// A statement to publish, and the operation that it names.
#[derive(Debug)]
pub struct PublicationTerms<X> {
    pub operation_id: [u8; 32],
    pub statement: X,
}

/// What a publication comes to: its statement, where that is well formed, and
/// whether its noise can be drawn with the given sensitivity and support.
#[derive(Debug)]
pub struct PublicationFacts<X> {
    pub terms: Option<PublicationTerms<X>>,
    pub mechanism: Result<(), String>,
}

/// Whether a statement is read from a document so.
pub open spec fn terms_read<X, R: Fn(&Value) -> Option<PublicationTerms<X>>>(
    read: R,
    document: Json,
    terms: Option<PublicationTerms<X>>,
) -> bool {
    exists|v: &Value| v@ == document && #[trigger] call_ensures(read, (v,), terms)
}

/// Whether this is what the publication of a request comes to.
pub open spec fn publication_looked<
    X,
    R: Fn(&Value) -> Option<PublicationTerms<X>>,
    M: Fn(&X, u64, u16) -> Result<(), String>,
>(params: Json, read: R, mechanism: M, facts: PublicationFacts<X>) -> bool {
    let sensitivity = unsigned_in(params.field("sensitivity"@));
    let support = unsigned_in(params.field("support"@));
    &&& params.field("statement"@) matches Some(document) ==> terms_read(read, document, facts.terms)
    &&& params.field("statement"@) is Some && facts.terms is Some && sensitivity is Some && support is Some
        && support->0 <= u16::MAX ==> call_ensures(
        mechanism,
        (&(facts.terms->0).statement, sensitivity->0 as u64, support->0 as u16),
        facts.mechanism,
    )
}

/// The public evidence that this node retained of a completed proof. No secret
/// share or opening is in it. Applications use it in a verifier in the process
/// and never accept it from a caller.
#[derive(Debug)]
pub struct CompletedApplicationProof<'a> {
    pub job_id: [u8; 32],
    pub payment_digest: [u8; 64],
    pub quote_digest: [u8; 32],
    pub maker_handle: [u8; 32],
    pub taker_handle: [u8; 32],
    pub maker_is_payer: bool,
    pub securities_reserve: [u8; 32],
    pub cash_reserve: [u8; 32],
    pub opening_shares: &'a OpeningShares,
    pub committee_public: &'a Vec<u8>,
}

/// What the evidence of a completed proof says.
pub ghost struct ApplicationEvidence {
    pub job_id: Seq<u8>,
    pub payment_digest: Seq<u8>,
    pub quote_digest: Seq<u8>,
    pub maker_handle: Seq<u8>,
    pub taker_handle: Seq<u8>,
    pub maker_is_payer: bool,
    pub securities_reserve: Seq<u8>,
    pub cash_reserve: Seq<u8>,
    pub opening_shares: OpeningShares,
    pub committee_public: Seq<u8>,
}

impl<'a> View for CompletedApplicationProof<'a> {
    type V = ApplicationEvidence;

    open spec fn view(&self) -> ApplicationEvidence {
        ApplicationEvidence {
            job_id: self.job_id@,
            payment_digest: self.payment_digest@,
            quote_digest: self.quote_digest@,
            maker_handle: self.maker_handle@,
            taker_handle: self.taker_handle@,
            maker_is_payer: self.maker_is_payer,
            securities_reserve: self.securities_reserve@,
            cash_reserve: self.cash_reserve@,
            opening_shares: *self.opening_shares,
            committee_public: self.committee_public@,
        }
    }
}

/// An application's own check of a completed proof. A request cannot reach it.
pub trait ApplicationStatementVerifier {
    /// Whether the check may come to an outcome on some evidence.
    open spec fn allows(
        &self,
        evidence: ApplicationEvidence,
        outcome: Result<ApplicationStatementAuthorization, Seq<char>>,
    ) -> bool {
        true
    }

    /// Checks the evidence.
    fn verify(&self, evidence: &CompletedApplicationProof<'_>) -> (r: Result<ApplicationStatementAuthorization, String>)
        ensures
            self.allows(evidence@, told_outcome(r)),
    ;
}

/// What a check came to.
pub open spec fn told_outcome<A>(r: Result<A, String>) -> Result<A, Seq<char>> {
    match r {
        Ok(authorized) => Ok(authorized),
        Err(e) => Err(e@),
    }
}

/// What an application allows a completed proof to sign.
#[derive(Clone, Copy, Debug)]
pub struct ApplicationStatementAuthorization {
    pub message: [u8; 32],
    /// Binds all immutable bytes of the action.
    pub action_digest: [u8; 32],
}

/// An application's own check of an ordered control operation, such as the
/// cancellation of a reservation. A request cannot reach it.
pub trait ApplicationControlVerifier {
    /// Whether the check may come to an outcome for a committee.
    open spec fn allows(
        &self,
        committee_public: Seq<u8>,
        outcome: Result<ApplicationControlAuthorization, Seq<char>>,
    ) -> bool {
        true
    }

    /// Checks the operation for a committee.
    fn verify(&self, committee_public: &Vec<u8>) -> (r: Result<ApplicationControlAuthorization, String>)
        ensures
            self.allows(committee_public@, told_outcome(r)),
    ;
}

/// What an application allows a control operation to sign.
#[derive(Clone, Copy, Debug)]
pub struct ApplicationControlAuthorization {
    /// The identity of the immutable ordered control operation.
    pub control_id: [u8; 32],
    pub message: [u8; 32],
    /// Binds the operation, the reservation and its head.
    pub action_digest: [u8; 32],
}

impl<N, B, S> ProofParty<N, B, S> {
    /// The state with one job changed.
    pub open spec fn job_changed(self, id: Seq<u8>, job: ProofJob<N, B, S>, after: ProofParty<N, B, S>) -> bool {
        &&& after == (ProofParty { jobs: after.jobs, ..self })
        &&& after.jobs.has(id)
        &&& after.jobs.at(id) == job
        &&& after.jobs.same_but(self.jobs, id)
    }

    /// The state with the evidence of one job changed.
    pub open spec fn evidence_changed(
        self,
        id: Seq<u8>,
        proof_kept: CompletedProof,
        after: ProofParty<N, B, S>,
    ) -> bool {
        &&& after == (ProofParty { completed_evidence: after.completed_evidence, ..self })
        &&& after.completed_evidence.has(id)
        &&& after.completed_evidence.at(id) == proof_kept
        &&& after.completed_evidence.same_but(self.completed_evidence, id)
    }

    /// Why a payment is not the one of its job.
    pub open spec fn zkpi_refusal(self, params: Json, now: Option<u64>) -> Option<Seq<char>> {
        let id = hex_in(params.field("job_id"@));
        let job = self.jobs.at(id);
        let payer = hex_in(params.field("payer_handle"@));
        let payee = hex_in(params.field("payee_handle"@));
        either(job_id_refusal(params),
        either(signing_refusal(params, "zkPI signing message must be one SHA-512 digest"@),
        either(one_wire_refusal(params, "amount_range"@),
        either(scan_refusal(scan_range(wire_in(params.field("amount_range"@)))),
        either(one_wire_refusal(params, "price_range"@),
        either(scan_refusal(scan_range(wire_in(params.field("price_range"@)))),
        either(canonical_point_refusal(params.field("asset_commitment"@), "asset_commitment"@),
        either(canonical_point_refusal(params.field("payer_handle"@), "payer_handle"@),
        either(canonical_point_refusal(params.field("payee_handle"@), "payee_handle"@),
        either(unless(unsigned_in(params.field("deadline"@)) is Some, "deadline must be an unsigned timestamp"@),
        either(hex32_refusal(params.field("nonce"@), "nonce"@),
        either(hex32_refusal(params.field("quote_digest"@), "quote_digest"@),
        either(unless(self.jobs.has(id), "zkPI authorization proof job is not active"@),
        either(unless(job.zkpi_statements is Some, "zkPI proof statement is not ready"@),
        either(unless(job.selected_maker_handle is Some, "winning Maker handle is not bound to the zkPI job"@),
        either(unless(job.quote_verified, "zkPI cannot be authorized before the complete quote proof"@),
        either(unless(hex_in(params.field("quote_digest"@)) == job.expected_quote_digest@,
            "zkPI quote digest differs from the loaded MPC job"@),
        either(deadline_refusal(now, unsigned_in(params.field("deadline"@))->0, PAYMENT_HORIZON,
            "zkPI deadline is outside the proof-node horizon"@),
        unless((payer == (job.selected_maker_handle->0)@) != (payee == (job.selected_maker_handle->0)@),
            "zkPI must bind the MPC-selected Maker to exactly one payment endpoint"@)))))))))))))))))))
    }

    /// Whether a request asks for this payment of its job.
    pub open spec fn zkpi_said(self, params: Json, request: ZkpiRequest) -> bool {
        let job = self.jobs.at(hex_in(params.field("job_id"@)));
        &&& request.proof_job@ == hex_in(params.field("job_id"@))
        &&& signing_said(params, request.signing)
        &&& Some((request.amount_commitment, request.price_commitment)) == job.zkpi_statements
        &&& request.amount_range.wire() == wire_in(params.field("amount_range"@))
        &&& request.price_range.wire() == wire_in(params.field("price_range"@))
        &&& request.asset_commitment@ == hex_in(params.field("asset_commitment"@))
        &&& request.payer_handle@ == hex_in(params.field("payer_handle"@))
        &&& request.payee_handle@ == hex_in(params.field("payee_handle"@))
        &&& unsigned_in(params.field("deadline"@)) == Some(request.deadline as nat)
        &&& request.nonce@ == hex_in(params.field("nonce"@))
        &&& request.quote_digest@ == hex_in(params.field("quote_digest"@))
        &&& request.maker_is_payer == (request.payer_handle@ == (job.selected_maker_handle->0)@)
        &&& request.taker_handle == if request.maker_is_payer { request.payee_handle } else { request.payer_handle }
    }

    /// Reads a payment and holds it against its job and the clock.
    pub fn zkpi_request(&self, params: &Value, now: Option<u64>) -> (r: Result<ZkpiRequest, String>)
        requires
            self.ordered(),
        ensures
            match r {
                Ok(request) => self.zkpi_refusal(params@, now) is None && self.zkpi_said(params@, request),
                Err(e) => self.zkpi_refusal(params@, now) == Some(e@),
            },
    {
        let proof_job = match job_id(params) {
            Err(e) => {
                return Err(e);
            },
            Ok(value) => value,
        };
        let signing = match signing_request(params, "zkPI signing message must be one SHA-512 digest") {
            Err(e) => {
                return Err(e);
            },
            Ok(value) => value,
        };
        let amount_wire = match one_wire(params, "amount_range") {
            Err(e) => {
                return Err(e);
            },
            Ok(value) => value,
        };
        let amount_range = match decode_threshold_range(amount_wire.as_slice()) {
            Err(e) => {
                return Err(e);
            },
            Ok(value) => value,
        };
        let price_wire = match one_wire(params, "price_range") {
            Err(e) => {
                return Err(e);
            },
            Ok(value) => value,
        };
        let price_range = match decode_threshold_range(price_wire.as_slice()) {
            Err(e) => {
                return Err(e);
            },
            Ok(value) => value,
        };
        let asset_commitment = match point(params.get("asset_commitment"), "asset_commitment") {
            Err(e) => {
                return Err(e);
            },
            Ok(value) => value,
        };
        let payer_handle = match point(params.get("payer_handle"), "payer_handle") {
            Err(e) => {
                return Err(e);
            },
            Ok(value) => value,
        };
        let payee_handle = match point(params.get("payee_handle"), "payee_handle") {
            Err(e) => {
                return Err(e);
            },
            Ok(value) => value,
        };
        let deadline = match as_unsigned(params.get("deadline")) {
            None => {
                return Err("deadline must be an unsigned timestamp".to_owned());
            },
            Some(value) => value,
        };
        let nonce = match hex32(params.get("nonce"), "nonce") {
            Err(e) => {
                return Err(e);
            },
            Ok(value) => value,
        };
        let quote_digest = match hex32(params.get("quote_digest"), "quote_digest") {
            Err(e) => {
                return Err(e);
            },
            Ok(value) => value,
        };
        let job = match self.jobs.get(&proof_job) {
            None => {
                return Err("zkPI authorization proof job is not active".to_owned());
            },
            Some(value) => value,
        };
        let statements = match job.zkpi_statements {
            None => {
                return Err("zkPI proof statement is not ready".to_owned());
            },
            Some(value) => value,
        };
        let selected_handle = match job.selected_maker_handle {
            None => {
                return Err("winning Maker handle is not bound to the zkPI job".to_owned());
            },
            Some(value) => value,
        };
        if !job.quote_verified {
            return Err("zkPI cannot be authorized before the complete quote proof".to_owned());
        }
        if !same32(&quote_digest, &job.expected_quote_digest) {
            return Err("zkPI quote digest differs from the loaded MPC job".to_owned());
        }
        if let Err(e) = check_deadline(now, deadline, PAYMENT_HORIZON,
            "zkPI deadline is outside the proof-node horizon") {
            return Err(e);
        }
        let maker_is_payer = same32(&payer_handle.bytes, &selected_handle.bytes);
        let maker_is_payee = same32(&payee_handle.bytes, &selected_handle.bytes);
        if maker_is_payer == maker_is_payee {
            return Err("zkPI must bind the MPC-selected Maker to exactly one payment endpoint".to_owned());
        }
        let taker_handle = if maker_is_payer {
            payee_handle
        } else {
            payer_handle
        };
        Ok(
            ZkpiRequest {
                proof_job,
                signing,
                amount_commitment: statements.0,
                price_commitment: statements.1,
                amount_range,
                price_range,
                asset_commitment,
                payer_handle,
                payee_handle,
                deadline,
                nonce,
                quote_digest,
                taker_handle,
                maker_is_payer,
            },
        )
    }

    /// What authorizing the payment of a job does, where `partial` is what the
    /// instruction made of its public fields comes to.
    pub open spec fn zkpi_authorized<W: Fn(&ProofParty<N, B, S>, u64) -> Result<(), String>>(
        self,
        request: ZkpiRequest,
        partial: Result<[u8; 64], String>,
        write: W,
        later: ProofParty<N, B, S>,
        outcome: Result<(), Seq<char>>,
    ) -> bool {
        match partial {
            Err(e) => {
                &&& outcome == Err::<(), Seq<char>>(e@)
                &&& later == self
            },
            Ok(digest) => if request.signing.message@ != digest@ {
                &&& outcome == Err::<(), Seq<char>>("FROST request is not the verified MPC-derived zkPI"@)
                &&& later == self
            } else if !self.jobs.has(request.proof_job@) {
                &&& outcome == Err::<(), Seq<char>>("zkPI authorization proof job is not active"@)
                &&& later == self
            } else {
                let job = self.jobs.at(request.proof_job@);
                let paid = paid_job(job, digest, request.taker_handle, request.maker_is_payer);
                exists|middle: ProofParty<N, B, S>| #[trigger]
                    self.job_changed(request.proof_job@, paid, middle) && match payment_binding_refusal(
                        job,
                        digest,
                        request.taker_handle,
                        request.maker_is_payer,
                    ) {
                        Some(e) => later == middle && outcome == Err::<(), Seq<char>>(e),
                        None => middle.authorizes(
                            request.signing.signing_job@,
                            request.signing.message@,
                            write,
                            later,
                            outcome,
                        ),
                    }
            },
        }
    }

    /// Authorizes the payment of a job. `digest` builds the instruction of the public
    /// fields that the request and the job give. A job is bound to one payment and one
    /// side; both are durable before a nonce exists.
    pub fn authorize_zkpi<
        D: Fn(&ProofParty<N, B, S>, &ZkpiRequest) -> Result<[u8; 64], String>,
        W: Fn(&ProofParty<N, B, S>, u64) -> Result<(), String>,
    >(&mut self, params: &Value, now: Option<u64>, digest: &D, write: &W) -> (r: Result<&'static str, String>)
        requires
            old(self).consistent(),
            forall|p: &ProofParty<N, B, S>, q: &ZkpiRequest| call_requires(*digest, (p, q)),
            can_write(*write),
        ensures
            final(self).consistent(),
            old(self).keeps_used(*final(self)),
            r matches Ok(kind) ==> kind@ == "mpc-zkpi"@,
            match old(self).zkpi_refusal(params@, now) {
                Some(e) => {
                    &&& r matches Err(f) && f@ == e
                    &&& *final(self) == *old(self)
                },
                None => exists|request: ZkpiRequest, partial: Result<[u8; 64], String>|
                    old(self).zkpi_said(params@, request) && #[trigger] call_ensures(
                        *digest,
                        (&*old(self), &request),
                        partial,
                    ) && old(self).zkpi_authorized(request, partial, *write, *final(self), outcome_of(r)),
            },
    {
        let request = match self.zkpi_request(params, now) {
            Err(e) => {
                return Err(e);
            },
            Ok(request) => request,
        };
        let partial = digest(&*self, &request);
        assert(call_ensures(*digest, (&*old(self), &request), partial));
        self.authorize_payment(&request, &partial, write)
    }

    fn authorize_payment<W: Fn(&ProofParty<N, B, S>, u64) -> Result<(), String>>(
        &mut self,
        request: &ZkpiRequest,
        partial: &Result<[u8; 64], String>,
        write: &W,
    ) -> (r: Result<&'static str, String>)
        requires
            old(self).consistent(),
            can_write(*write),
        ensures
            final(self).consistent(),
            old(self).keeps_used(*final(self)),
            r matches Ok(kind) ==> kind@ == "mpc-zkpi"@,
            old(self).zkpi_authorized(*request, *partial, *write, *final(self), outcome_of(r)),
    {
        let payment_digest = match partial {
            Err(e) => {
                return Err(told(e));
            },
            Ok(digest) => *digest,
        };
        if !same(request.signing.message.as_slice(), payment_digest.as_slice()) {
            return Err("FROST request is not the verified MPC-derived zkPI".to_owned());
        }
        let ghost before = *self;
        let ghost id = request.proof_job@;
        let refusal: Option<&'static str> = match self.jobs.get_mut(&request.proof_job) {
            None => {
                return Err("zkPI authorization proof job is not active".to_owned());
            },
            Some(job) => {
                let rebound = match &job.authorized_payment_digest {
                    Some(prior) => !same(prior.as_slice(), payment_digest.as_slice()),
                    None => false,
                };
                if rebound {
                    Some("proof job was rebound to another payment instruction")
                } else {
                    if job.authorized_payment_digest.is_none() {
                        job.authorized_payment_digest = Some(payment_digest);
                    }
                    match (job.authorized_taker_handle, job.maker_is_payer) {
                        (Some(prior_handle), Some(prior_side)) => if !same32(
                            &prior_handle.bytes,
                            &request.taker_handle.bytes,
                        ) || prior_side != request.maker_is_payer {
                            Some("proof job was rebound to another Maker/Taker payment side")
                        } else {
                            None
                        },
                        (None, None) => {
                            job.authorized_taker_handle = Some(request.taker_handle);
                            job.maker_is_payer = Some(request.maker_is_payer);
                            None
                        },
                        _ => Some("proof job has incomplete payment-side evidence"),
                    }
                }
            },
        };
        let ghost middle = *self;
        proof {
            assert(before.job_changed(
                id,
                paid_job(before.jobs.at(id), payment_digest, request.taker_handle, request.maker_is_payer),
                middle,
            ));
            job_change_keeps_lifecycle(before, middle, id);
        }
        if let Some(complaint) = refusal {
            return Err(complaint.to_owned());
        }
        match self.authorize_frost(request.signing.signing_job, request.signing.message.as_slice(), write) {
            Err(e) => Err(e),
            Ok(_) => Ok("mpc-zkpi"),
        }
    }

    /// Why the authorization of a settlement is refused before the acknowledgement
    /// of its reservations is read.
    pub open spec fn typed_refusal<K: Fn(&Vec<u8>) -> bool>(self, params: Json, facts: TypedFacts, known: K) -> Option<
        Seq<char>,
    > {
        let id = hex_in(params.field("job_id"@));
        let completed = self.completed_evidence.at(id);
        let context = facts.context->0;
        either(job_id_refusal(params),
        either(signing_refusal(params, "typed zkPI signing message must be one SHA-512 digest"@),
        either(one_wire_refusal(params, "payment"@),
        either(unless(facts.payment is Some, "typed authorization payment wire is invalid"@),
        either(one_wire_refusal(params, "context"@),
        either(unless(facts.context is Some, "typed authorization context wire is invalid"@),
        either(unless((context.operation == OperationKind::Consume || context.operation == OperationKind::Settle)
            && context.scope == AuthorizationScope::Joint, "typed proof finalization must jointly settle a trade"@),
        either(unless(self.completed_evidence.has(id), "typed authorization has no completed MPC proof"@),
        settlement_refusal(completed, context, facts.payment->0, self.config.trusted_defmi_receipt_public, params,
            known)))))))))
    }

    /// Why the authorization of a settlement is refused once its acknowledgement holds.
    pub open spec fn acknowledged_refusal(
        self,
        params: Json,
        facts: TypedFacts,
        ack: PretradeAcknowledgement,
    ) -> Option<Seq<char>> {
        let completed = self.completed_evidence.at(hex_in(params.field("job_id"@)));
        either(reserves_refusal(completed, facts.context->0, ack),
        either(unless(self.frost_key is Some, "FROST DKG is not complete"@),
        either(unless(facts.now is Some, "system clock is before the Unix epoch"@),
        either(unless(self.pq_committee is Some, "proof node lacks its PQ committee"@),
        either(refused(facts.committee_accepted),
        either(match facts.payment_verified { Ok(_) => None,
            Err(e) => Some("typed authorization payment failed: "@ + e@) },
        either(refused(facts.expected),
        either(unless(wire_in(params.field("message"@)) == (facts.expected->Ok_0)@,
            "typed FROST message does not encode this execution context"@),
        unless(completed.typed_message_digest is None || (completed.typed_message_digest->0)@
            == sha256(wire_in(params.field("message"@))),
            "completed MPC proof was already bound to another settlement"@)))))))))
    }

    /// Whether the authorization of a settlement is refused, and why. The
    /// acknowledgement is what `decode` reads of the request's wire, and it has to
    /// hold under the pinned key.
    pub open spec fn typed_decided<
        D: Fn(&Vec<u8>) -> Result<PretradeAcknowledgement, String>,
        K: Fn(&Vec<u8>) -> bool,
        V: Fn(&VerifyingKey, &Vec<u8>, &Signature) -> bool,
    >(
        self,
        params: Json,
        facts: TypedFacts,
        decode: D,
        known: K,
        verify: V,
        refusal: Option<Seq<char>>,
    ) -> bool {
        let wire = wire_in(params.field("pretrade_ack"@));
        let trusted = VerifyingKey { bytes: self.config.trusted_defmi_receipt_public->0 };
        if self.typed_refusal(params, facts, known) is Some {
            refusal == self.typed_refusal(params, facts, known)
        } else {
            ||| exists|e: String| refusal == Some(e@) && #[trigger] decodes_to(decode, wire, Err(e))
            ||| exists|ack: PretradeAcknowledgement, verdict: Result<(), String>|
                decodes_to(decode, wire, Ok(ack)) && #[trigger] ack.verified(trusted, known, verify, verdict)
                    && refusal == match verdict {
                    Err(e) => Some(e@),
                    Ok(_) => self.acknowledged_refusal(params, facts, ack),
                }
        }
    }

    fn check_typed<
        D: Fn(&Vec<u8>) -> Result<PretradeAcknowledgement, String>,
        K: Fn(&Vec<u8>) -> bool,
        V: Fn(&VerifyingKey, &Vec<u8>, &Signature) -> bool,
    >(&self, params: &Value, facts: &TypedFacts, decode: &D, known: &K, verify: &V) -> (r: Result<
        ([u8; 32], SigningRequest),
        String,
    >)
        requires
            self.ordered(),
            forall|w: &Vec<u8>| call_requires(*decode, (w,)),
            decides(*known),
            can_verify(*verify),
        ensures
            match r {
                Ok((id, signing)) => {
                    &&& self.typed_decided(params@, *facts, *decode, *known, *verify, None)
                    &&& id@ == hex_in(params@.field("job_id"@))
                    &&& signing_said(params@, signing)
                    &&& self.completed_evidence.has(id@)
                },
                Err(e) => self.typed_decided(params@, *facts, *decode, *known, *verify, Some(e@)),
            },
    {
        let proof_job = match job_id(params) {
            Err(e) => {
                return Err(e);
            },
            Ok(value) => value,
        };
        let signing = match signing_request(params, "typed zkPI signing message must be one SHA-512 digest") {
            Err(e) => {
                return Err(e);
            },
            Ok(value) => value,
        };
        if let Err(e) = one_wire(params, "payment") {
            return Err(e);
        }
        let payment = match &facts.payment {
            None => {
                return Err("typed authorization payment wire is invalid".to_owned());
            },
            Some(value) => value,
        };
        if let Err(e) = one_wire(params, "context") {
            return Err(e);
        }
        let context = match &facts.context {
            None => {
                return Err("typed authorization context wire is invalid".to_owned());
            },
            Some(value) => value,
        };
        if (context.operation != OperationKind::Consume && context.operation != OperationKind::Settle)
            || context.scope != AuthorizationScope::Joint {
            return Err("typed proof finalization must jointly settle a trade".to_owned());
        }
        let completed = match self.completed_evidence.get(&proof_job) {
            None => {
                return Err("typed authorization has no completed MPC proof".to_owned());
            },
            Some(value) => value,
        };
        let (trusted, wire) = match check_settlement(completed, context, payment,
            self.config.trusted_defmi_receipt_public, params, known) {
            Err(e) => {
                return Err(e);
            },
            Ok(found) => found,
        };
        let decoded = decode(&wire);
        assert(call_ensures(*decode, (&wire,), decoded));
        assert(decodes_to(*decode, wire@, decoded));
        let ack = match decoded {
            Err(e) => {
                return Err(e);
            },
            Ok(ack) => ack,
        };
        let verdict = ack.verify(&trusted, known, verify);
        assert(ack.verified(trusted, *known, *verify, verdict));
        if let Err(e) = verdict {
            return Err(e);
        }
        if let Err(e) = check_reserves(completed, context, &ack) {
            return Err(e);
        }
        if self.frost_key.is_none() {
            return Err("FROST DKG is not complete".to_owned());
        }
        if facts.now.is_none() {
            return Err("system clock is before the Unix epoch".to_owned());
        }
        if self.pq_committee.is_none() {
            return Err("proof node lacks its PQ committee".to_owned());
        }
        if let Err(e) = &facts.committee_accepted {
            return Err(told(e));
        }
        if let Err(e) = &facts.payment_verified {
            return Err(about("typed authorization payment failed: ", e.as_str()));
        }
        match &facts.expected {
            Err(e) => {
                return Err(told(e));
            },
            Ok(expected) => {
                if !same(signing.message.as_slice(), expected.as_slice()) {
                    return Err("typed FROST message does not encode this execution context".to_owned());
                }
            },
        }
        let message_digest = hash(signing.message.as_slice());
        let rebound = match &completed.typed_message_digest {
            Some(prior) => !same32(prior, &message_digest),
            None => false,
        };
        if rebound {
            return Err("completed MPC proof was already bound to another settlement".to_owned());
        }
        Ok((proof_job, signing))
    }

    /// What binding a completed proof to a settlement does.
    pub open spec fn settled<W: Fn(&ProofParty<N, B, S>, u64) -> Result<(), String>>(
        self,
        params: Json,
        write: W,
        after: ProofParty<N, B, S>,
        outcome: Result<(), Seq<char>>,
    ) -> bool {
        let id = hex_in(params.field("job_id"@));
        let message = wire_in(params.field("message"@));
        exists|middle: ProofParty<N, B, S>, digest: [u8; 32]|
            digest@ == sha256(message) && #[trigger] self.evidence_changed(
                id,
                with_settlement(self.completed_evidence.at(id), digest),
                middle,
            ) && middle.authorizes(hex_in(params.field("signing_job_id"@)), message, write, after, outcome)
    }

    /// Authorizes the settlement of a completed proof, with the roles, reserves
    /// and state that were acknowledged before the trade. A completed proof is
    /// bound to one settlement, durably, before a nonce exists.
    ///
    /// `wires` decodes the payment and its context, `venue` verifies the payment under
    /// the committee's keys, and `decode` reads the acknowledgement, which this node
    /// verifies itself under its pinned key.
    pub fn authorize_typed<
        P: Fn(&Vec<u8>) -> Option<Payment>,
        C: Fn(&Vec<u8>, &Vec<u8>) -> Option<ExecutionContext>,
        E: Fn(&Vec<u8>, &Vec<u8>) -> Result<Vec<u8>, String>,
        H: Fn(&Vec<u8>, &QuorumPolicy) -> Result<(), String>,
        X: Fn(&Vec<u8>, &Vec<u8>, &QuorumPolicy, VenueBounds, u64) -> Result<(), String>,
        D: Fn(&Vec<u8>) -> Result<PretradeAcknowledgement, String>,
        K: Fn(&Vec<u8>) -> bool,
        V: Fn(&VerifyingKey, &Vec<u8>, &Signature) -> bool,
        W: Fn(&ProofParty<N, B, S>, u64) -> Result<(), String>,
    >(
        &mut self,
        params: &Value,
        now: Option<u64>,
        wires: &WireTools<P, C, E>,
        venue: &VenueTools<H, X>,
        decode: &D,
        known: &K,
        verify: &V,
        write: &W,
    ) -> (r: Result<&'static str, String>)
        requires
            old(self).consistent(),
            wires.ready(),
            venue.ready(),
            forall|w: &Vec<u8>| call_requires(*decode, (w,)),
            decides(*known),
            can_verify(*verify),
            can_write(*write),
        ensures
            final(self).consistent(),
            old(self).keeps_used(*final(self)),
            r matches Ok(kind) ==> kind@ == "typed-mpc-zkpi"@,
            exists|facts: TypedFacts, refusal: Option<Seq<char>>|
                old(self).settlement_looked(params@, now, *wires, *venue, facts) && #[trigger] old(self).typed_decided(
                    params@,
                    facts,
                    *decode,
                    *known,
                    *verify,
                    refusal,
                ) && match refusal {
                    Some(e) => {
                        &&& r matches Err(f) && f@ == e
                        &&& *final(self) == *old(self)
                    },
                    None => old(self).settled(params@, *write, *final(self), outcome_of(r)),
                },
    {
        let facts = self.look_at_settlement(params, now, wires, venue);
        let (proof_job, signing) = match self.check_typed(params, &facts, decode, known, verify) {
            Err(e) => {
                return Err(e);
            },
            Ok(found) => found,
        };
        let message_digest = hash(signing.message.as_slice());
        assert(old(self).typed_decided(params@, facts, *decode, *known, *verify, None));
        let ghost before = *self;
        match self.completed_evidence.get_mut(&proof_job) {
            None => {},
            Some(kept) => {
                kept.typed_message_digest = Some(message_digest);
            },
        }
        let ghost middle = *self;
        proof {
            assert(before.evidence_changed(
                proof_job@,
                with_settlement(before.completed_evidence.at(proof_job@), message_digest),
                middle,
            ));
            evidence_change_keeps_lifecycle(before, middle, proof_job@);
        }
        match self.authorize_frost(signing.signing_job, signing.message.as_slice(), write) {
            Err(e) => Err(e),
            Ok(_) => Ok("typed-mpc-zkpi"),
        }
    }

    /// Why a publication is refused before its evidence is read.
    pub open spec fn publication_refusal<X>(self, params: Json, facts: PublicationFacts<X>) -> Option<Seq<char>> {
        let support = unsigned_in(params.field("support"@));
        either(unless(params.field("statement"@) is Some, "publication statement is absent"@),
        either(unless(facts.terms is Some, "publication statement is malformed"@),
        either(unless(unsigned_in(params.field("sensitivity"@)) is Some,
            "publication sensitivity must be an unsigned integer"@),
        either(unless(support is Some && support->0 <= u16::MAX,
            "publication support must be an unsigned 16-bit integer"@),
        either(refused(facts.mechanism),
        either(unless(text_in(params.field("evidence_path"@)) is Some, "publication evidence_path is absent"@),
        unless(!self.publication_consumed.has((facts.terms->0).operation_id@),
            "publication operation was already signed by this node"@)))))))
    }

    /// Reads a publication that this node has not signed yet. `read` decodes its
    /// statement, and `mechanism` says whether the statement's noise can be drawn with
    /// the given sensitivity and support.
    pub fn publication_request<
        X,
        R: Fn(&Value) -> Option<PublicationTerms<X>>,
        M: Fn(&X, u64, u16) -> Result<(), String>,
    >(&self, params: &Value, read: &R, mechanism: &M) -> (r: Result<PublicationRequest<X>, String>)
        requires
            self.ordered(),
            forall|v: &Value| call_requires(*read, (v,)),
            forall|x: &X, sensitivity: u64, support: u16| call_requires(*mechanism, (x, sensitivity, support)),
        ensures
            exists|facts: PublicationFacts<X>| #[trigger]
                publication_looked(params@, *read, *mechanism, facts) && match r {
                    Ok(request) => {
                        &&& self.publication_refusal(params@, facts) is None
                        &&& facts.terms == Some(
                            PublicationTerms { operation_id: request.operation_id, statement: request.statement },
                        )
                        &&& unsigned_in(params@.field("sensitivity"@)) == Some(request.sensitivity as nat)
                        &&& unsigned_in(params@.field("support"@)) == Some(request.support as nat)
                        &&& text_in(params@.field("evidence_path"@)) == Some(request.evidence_path@)
                    },
                    Err(e) => self.publication_refusal(params@, facts) == Some(e@),
                },
    {
        let document = match params.get("statement") {
            None => {
                let ghost facts = PublicationFacts::<X> { terms: None, mechanism: Ok(()) };
                assert(publication_looked(params@, *read, *mechanism, facts));
                return Err("publication statement is absent".to_owned());
            },
            Some(document) => document,
        };
        let terms = read(document);
        assert(call_ensures(*read, (document,), terms));
        assert(terms_read(*read, document@, terms));
        let mut noise: Result<(), String> = Ok(());
        if let Some(terms) = &terms {
            if let Some(sensitivity) = as_unsigned(params.get("sensitivity")) {
                if let Some(support) = as_unsigned(params.get("support")) {
                    if support <= 0xffff {
                        noise = mechanism(&terms.statement, sensitivity, support as u16);
                    }
                }
            }
        }
        let ghost facts = PublicationFacts::<X> { terms, mechanism: noise };
        assert(publication_looked(params@, *read, *mechanism, facts));
        let terms = match terms {
            None => {
                return Err("publication statement is malformed".to_owned());
            },
            Some(value) => value,
        };
        let sensitivity = match as_unsigned(params.get("sensitivity")) {
            None => {
                return Err("publication sensitivity must be an unsigned integer".to_owned());
            },
            Some(value) => value,
        };
        let wide = match as_unsigned(params.get("support")) {
            None => {
                return Err("publication support must be an unsigned 16-bit integer".to_owned());
            },
            Some(value) => value,
        };
        if wide > 0xffff {
            return Err("publication support must be an unsigned 16-bit integer".to_owned());
        }
        let support: u16 = wide as u16;
        if let Err(e) = noise {
            return Err(e);
        }
        let path = match as_text(params.get("evidence_path")) {
            None => {
                return Err("publication evidence_path is absent".to_owned());
            },
            Some(value) => value,
        };
        if self.publication_consumed.contains(&terms.operation_id) {
            return Err("publication operation was already signed by this node".to_owned());
        }
        Ok(
            PublicationRequest {
                operation_id: terms.operation_id,
                statement: terms.statement,
                sensitivity,
                support,
                evidence_path: path.to_owned(),
            },
        )
    }

    /// The state with a publication signed.
    pub open spec fn published(self, operation_id: Seq<u8>, after: ProofParty<N, B, S>) -> bool {
        &&& after == (ProofParty { publication_consumed: after.publication_consumed, ..self })
        &&& after.publication_consumed.has(operation_id)
        &&& after.publication_consumed.same_but(self.publication_consumed, operation_id)
    }

    /// Records a publication as signed, durably, before its signature leaves the node.
    pub fn sign_publication<X, W: Fn(&ProofParty<N, B, S>, u64) -> Result<(), String>>(
        &mut self,
        request: &PublicationRequest<X>,
        write: &W,
    ) -> (r: Result<(), String>)
        requires
            old(self).consistent(),
            can_write(*write),
        ensures
            final(self).consistent(),
            old(self).keeps_used(*final(self)),
            if old(self).publication_consumed.has(request.operation_id@) {
                &&& r matches Err(e) && e@ == "publication operation was already signed by this node"@
                &&& *final(self) == *old(self)
            } else {
                exists|middle: ProofParty<N, B, S>| #[trigger]
                    old(self).published(request.operation_id@, middle) && written(
                        *write,
                        middle,
                        *final(self),
                        outcome_of(r),
                    )
            },
    {
        if self.publication_consumed.contains(&request.operation_id) {
            return Err("publication operation was already signed by this node".to_owned());
        }
        self.publication_consumed.insert(request.operation_id, ());
        let ghost middle = *self;
        assert(old(self).published(request.operation_id@, middle));
        self.persist(write)
    }

    /// Why a health check is not signed.
    pub open spec fn health_refusal(self, params: Json) -> Option<Seq<char>> {
        either(unless(self.config.allow_health_signing, "health signing is disabled on this proof node"@),
        either(hex32_refusal(params.field("signing_job_id"@), "signing_job_id"@),
        either(one_wire_refusal(params, "message"@),
        either(hex32_refusal(params.field("cluster_digest"@), "cluster_digest"@),
        either(unless(health_stage(params) is Some, "health signing stage is invalid"@),
        either(unless(self.frost_key is Some, "FROST DKG is not complete"@),
        unless(wire_in(params.field("message"@)) == health_message((self.frost_key->0).session@,
            health_stage(params)->0, hex_in(params.field("cluster_digest"@))),
            "health signing message is not domain-separated"@)))))))
    }

    /// Authorizes a health check, where the node's operator allows them.
    pub fn authorize_health<W: Fn(&ProofParty<N, B, S>, u64) -> Result<(), String>>(
        &mut self,
        params: &Value,
        write: &W,
    ) -> (r: Result<&'static str, String>)
        requires
            old(self).consistent(),
            can_write(*write),
        ensures
            final(self).consistent(),
            old(self).keeps_used(*final(self)),
            r matches Ok(kind) ==> kind@ == "health"@,
            match old(self).health_refusal(params@) {
                Some(e) => {
                    &&& r matches Err(f) && f@ == e
                    &&& *final(self) == *old(self)
                },
                None => old(self).authorizes(
                    hex_in(params@.field("signing_job_id"@)),
                    wire_in(params@.field("message"@)),
                    *write,
                    *final(self),
                    outcome_of(r),
                ),
            },
    {
        if !self.config.allow_health_signing {
            return Err("health signing is disabled on this proof node".to_owned());
        }
        let signing_job_id = match hex32(params.get("signing_job_id"), "signing_job_id") {
            Err(e) => {
                return Err(e);
            },
            Ok(value) => value,
        };
        let message = match one_wire(params, "message") {
            Err(e) => {
                return Err(e);
            },
            Ok(value) => value,
        };
        let cluster = match hex32(params.get("cluster_digest"), "cluster_digest") {
            Err(e) => {
                return Err(e);
            },
            Ok(value) => value,
        };
        let stage: u8 = match as_text(params.get("stage")) {
            None => {
                return Err("health signing stage is invalid".to_owned());
            },
            Some(text) => if same_text(text, "pre-restart") {
                1
            } else if same_text(text, "post-restart") {
                2
            } else {
                return Err("health signing stage is invalid".to_owned());
            },
        };
        let key = match &self.frost_key {
            None => {
                return Err("FROST DKG is not complete".to_owned());
            },
            Some(value) => value,
        };
        let mut text: Vec<u8> = Vec::new();
        put(&mut text, "QOMM:FROST:HEALTH:v1".as_bytes());
        put(&mut text, key.session.as_slice());
        text.push(stage);
        put(&mut text, cluster.as_slice());
        assert(text@ =~= text_bytes("QOMM:FROST:HEALTH:v1"@) + key.session@ + seq![stage] + cluster@);
        let expected = hash(text.as_slice());
        if !same(message.as_slice(), expected.as_slice()) {
            return Err("health signing message is not domain-separated".to_owned());
        }
        match self.authorize_frost(signing_job_id, message.as_slice(), write) {
            Err(e) => Err(e),
            Ok(_) => Ok("health"),
        }
    }

    /// Why a node has no evidence for an application to verify.
    pub open spec fn application_refusal(self, id: Seq<u8>) -> Option<Seq<char>> {
        let kept = self.completed_evidence.at(id);
        either(unless(self.state_healthy && self.completed.has(id),
            "application signing requires a healthy completed local proof"@),
        either(unless(self.completed_evidence.has(id), "application signing lacks local completed evidence"@),
        either(unless(kept.opening_shares.complete() && self.frost_key is Some,
            "application signing requires the node's four encrypted openings and key"@),
        unless(kept.maker_handle is Some && kept.taker_handle is Some && kept.maker_is_payer is Some
            && kept.securities_reserve is Some && kept.cash_reserve is Some,
            "application signing lacks locally bound payment endpoints or reserves"@))))
    }

    /// What this node retained of a completed proof, for an application to verify.
    pub open spec fn application_evidence(self, id: Seq<u8>) -> ApplicationEvidence {
        let kept = self.completed_evidence.at(id);
        ApplicationEvidence {
            job_id: id,
            payment_digest: kept.payment_digest@,
            quote_digest: kept.quote_digest@,
            maker_handle: (kept.maker_handle->0)@,
            taker_handle: (kept.taker_handle->0)@,
            maker_is_payer: kept.maker_is_payer->0,
            securities_reserve: (kept.securities_reserve->0)@,
            cash_reserve: (kept.cash_reserve->0)@,
            opening_shares: kept.opening_shares,
            committee_public: (self.frost_key->0).public_package@,
        }
    }

    /// Why what an application allows is not signed for a completed proof.
    pub open spec fn statement_refusal(self, id: Seq<u8>, authorized: ApplicationStatementAuthorization) -> Option<
        Seq<char>,
    > {
        let kept = self.completed_evidence.at(id);
        either(unless(authorized.message@ != zero32() && authorized.action_digest@ != zero32()
            && (kept.application_action_digest is None || (kept.application_action_digest->0)@
            == authorized.action_digest@), "application proof cannot authorize an empty or different action"@),
        either(unless(self.unused(signing_job_of(authorized.message@)),
            "application signing job is already reserved or consumed"@),
        unless(self.completed_evidence.has(id), "application proof evidence disappeared"@)))
    }

    /// What binding a completed proof to an application's action does.
    pub open spec fn statement_bound<W: Fn(&ProofParty<N, B, S>, u64) -> Result<(), String>>(
        self,
        id: Seq<u8>,
        authorized: ApplicationStatementAuthorization,
        write: W,
        after: ProofParty<N, B, S>,
        outcome: Result<(), Seq<char>>,
    ) -> bool {
        match self.statement_refusal(id, authorized) {
            Some(e) => outcome == Err::<(), Seq<char>>(e) && after == self,
            None => exists|middle: ProofParty<N, B, S>| #[trigger]
                self.evidence_changed(
                    id,
                    with_action(self.completed_evidence.at(id), authorized.action_digest),
                    middle,
                ) && middle.authorizes(
                    signing_job_of(authorized.message@),
                    authorized.message@,
                    write,
                    after,
                    outcome,
                ),
        }
    }

    /// Binds a completed proof to the action that an application allows, and
    /// authorizes its message. The action and the message become durable
    /// together, before a nonce exists; the action can never change.
    pub fn bind_application_statement<W: Fn(&ProofParty<N, B, S>, u64) -> Result<(), String>>(
        &mut self,
        job_id: [u8; 32],
        authorized: &ApplicationStatementAuthorization,
        write: &W,
    ) -> (r: Result<[u8; 32], String>)
        requires
            old(self).consistent(),
            old(self).completed_evidence.has(job_id@),
            can_write(*write),
        ensures
            final(self).consistent(),
            old(self).keeps_used(*final(self)),
            r matches Ok(message) ==> message == authorized.message,
            old(self).statement_bound(job_id@, *authorized, *write, *final(self), outcome_of(r)),
    {
        let changed = match self.completed_evidence.get(&job_id) {
            Some(kept) => match &kept.application_action_digest {
                Some(prior) => !same32(prior, &authorized.action_digest),
                None => false,
            },
            None => false,
        };
        if is_zero32(&authorized.message) || is_zero32(&authorized.action_digest) || changed {
            return Err("application proof cannot authorize an empty or different action".to_owned());
        }
        let job = signing_job(authorized.message.as_slice());
        if !self.is_unused(&job) {
            return Err("application signing job is already reserved or consumed".to_owned());
        }
        let ghost before = *self;
        match self.completed_evidence.get_mut(&job_id) {
            None => {
                return Err("application proof evidence disappeared".to_owned());
            },
            Some(kept) => {
                kept.application_action_digest = Some(authorized.action_digest);
            },
        }
        let ghost middle = *self;
        proof {
            assert(before.evidence_changed(
                job_id@,
                with_action(before.completed_evidence.at(job_id@), authorized.action_digest),
                middle,
            ));
            evidence_change_keeps_lifecycle(before, middle, job_id@);
        }
        match self.authorize_frost(job, authorized.message.as_slice(), write) {
            Err(e) => Err(e),
            Ok(_) => Ok(authorized.message),
        }
    }

    /// Local extension point: a request can neither select a verifier nor call
    /// this. A verification that fails never authorizes a nonce.
    pub fn authorize_application_statement<
        V: ApplicationStatementVerifier,
        W: Fn(&ProofParty<N, B, S>, u64) -> Result<(), String>,
    >(&mut self, job_id: [u8; 32], verifier: &V, write: &W) -> (r: Result<[u8; 32], String>)
        requires
            old(self).consistent(),
            can_write(*write),
        ensures
            final(self).consistent(),
            old(self).keeps_used(*final(self)),
            match old(self).application_refusal(job_id@) {
                Some(e) => {
                    &&& r matches Err(f) && f@ == e
                    &&& *final(self) == *old(self)
                },
                None => {
                    ||| {
                        &&& r is Err
                        &&& verifier.allows(old(self).application_evidence(job_id@), Err((r->Err_0)@))
                        &&& *final(self) == *old(self)
                    }
                    ||| exists|authorized: ApplicationStatementAuthorization|
                        verifier.allows(old(self).application_evidence(job_id@), Ok(authorized)) && (
                        r matches Ok(message) ==> message == authorized.message) && #[trigger] old(
                            self,
                        ).statement_bound(job_id@, authorized, *write, *final(self), outcome_of(r))
                },
            },
    {
        if !self.state_healthy || !self.completed.contains(&job_id) {
            return Err("application signing requires a healthy completed local proof".to_owned());
        }
        let kept = match self.completed_evidence.get(&job_id) {
            None => {
                return Err("application signing lacks local completed evidence".to_owned());
            },
            Some(value) => value,
        };
        let committee_public = match &self.frost_key {
            None => {
                return Err("application signing requires the node's four encrypted openings and key".to_owned());
            },
            Some(key) => &key.public_package,
        };
        if !kept.opening_shares.is_complete() {
            return Err("application signing requires the node's four encrypted openings and key".to_owned());
        }
        let maker_handle = match kept.maker_handle {
            None => {
                return Err("application signing lacks locally bound payment endpoints or reserves".to_owned());
            },
            Some(value) => value,
        };
        let taker_handle = match kept.taker_handle {
            None => {
                return Err("application signing lacks locally bound payment endpoints or reserves".to_owned());
            },
            Some(value) => value,
        };
        let maker_is_payer = match kept.maker_is_payer {
            None => {
                return Err("application signing lacks locally bound payment endpoints or reserves".to_owned());
            },
            Some(value) => value,
        };
        let securities_reserve = match kept.securities_reserve {
            None => {
                return Err("application signing lacks locally bound payment endpoints or reserves".to_owned());
            },
            Some(value) => value,
        };
        let cash_reserve = match kept.cash_reserve {
            None => {
                return Err("application signing lacks locally bound payment endpoints or reserves".to_owned());
            },
            Some(value) => value,
        };
        let evidence = CompletedApplicationProof {
            job_id,
            payment_digest: kept.payment_digest,
            quote_digest: kept.quote_digest,
            maker_handle,
            taker_handle,
            maker_is_payer,
            securities_reserve,
            cash_reserve,
            opening_shares: &kept.opening_shares,
            committee_public,
        };
        assert(evidence@ == self.application_evidence(job_id@));
        match verifier.verify(&evidence) {
            Err(e) => Err(e),
            Ok(authorized) => self.bind_application_statement(job_id, &authorized, write),
        }
    }

    /// Why a control operation is not signed.
    pub open spec fn control_refusal(self, authorized: ApplicationControlAuthorization) -> Option<Seq<char>> {
        let id = authorized.control_id@;
        either(unless(id != zero32() && authorized.message@ != zero32() && authorized.action_digest@ != zero32()
            && (self.application_controls.has(id) ==> self.application_controls.at(id)@ == authorized.action_digest@)
            && (self.application_controls.has(id) || self.application_controls.count() < MAX_COMPLETED_EVIDENCE),
            "control signing cannot authorize an empty, different or unbounded action"@),
        unless(self.unused(signing_job_of(authorized.message@)),
            "control signing job is already reserved or consumed"@))
    }

    /// The state with a control operation bound to its action.
    pub open spec fn controlled(self, authorized: ApplicationControlAuthorization, after: ProofParty<N, B, S>) -> bool {
        &&& after == (ProofParty { application_controls: after.application_controls, ..self })
        &&& after.application_controls.has(authorized.control_id@)
        &&& after.application_controls.at(authorized.control_id@) == authorized.action_digest
        &&& after.application_controls.same_but(self.application_controls, authorized.control_id@)
    }

    /// What binding a control operation to its action does.
    pub open spec fn control_bound<W: Fn(&ProofParty<N, B, S>, u64) -> Result<(), String>>(
        self,
        authorized: ApplicationControlAuthorization,
        write: W,
        after: ProofParty<N, B, S>,
        outcome: Result<(), Seq<char>>,
    ) -> bool {
        match self.control_refusal(authorized) {
            Some(e) => outcome == Err::<(), Seq<char>>(e) && after == self,
            None => exists|middle: ProofParty<N, B, S>| #[trigger]
                self.controlled(authorized, middle) && middle.authorizes(
                    signing_job_of(authorized.message@),
                    authorized.message@,
                    write,
                    after,
                    outcome,
                ),
        }
    }

    /// Binds a control operation to its action and authorizes its message, both
    /// durable together before a nonce exists.
    pub fn bind_application_control<W: Fn(&ProofParty<N, B, S>, u64) -> Result<(), String>>(
        &mut self,
        authorized: &ApplicationControlAuthorization,
        write: &W,
    ) -> (r: Result<[u8; 32], String>)
        requires
            old(self).consistent(),
            can_write(*write),
        ensures
            final(self).consistent(),
            old(self).keeps_used(*final(self)),
            r matches Ok(message) ==> message == authorized.message,
            old(self).control_bound(*authorized, *write, *final(self), outcome_of(r)),
    {
        let (changed, known) = match self.application_controls.get(&authorized.control_id) {
            Some(prior) => (!same32(prior, &authorized.action_digest), true),
            None => (false, false),
        };
        if is_zero32(&authorized.control_id) || is_zero32(&authorized.message) || is_zero32(&authorized.action_digest)
            || changed || (!known && self.application_controls.len() >= MAX_COMPLETED_EVIDENCE) {
            return Err("control signing cannot authorize an empty, different or unbounded action".to_owned());
        }
        let job = signing_job(authorized.message.as_slice());
        if !self.is_unused(&job) {
            return Err("control signing job is already reserved or consumed".to_owned());
        }
        let ghost before = *self;
        self.application_controls.insert(authorized.control_id, authorized.action_digest);
        let ghost middle = *self;
        proof {
            assert(before.controlled(*authorized, middle));
            assert forall|k: Seq<u8>| #[trigger] middle.application_controls.has(k) implies k != zero32()
                && middle.application_controls.at(k)@ != zero32() by {
                if k != authorized.control_id@ {
                    assert(before.application_controls.has(k));
                }
            }
            assert(middle.consistent());
        }
        match self.authorize_frost(job, authorized.message.as_slice(), write) {
            Err(e) => Err(e),
            Ok(_) => Ok(authorized.message),
        }
    }

    /// Local extension point for an application's ordered control operations.
    /// No completed proof and no health signature stands in for one.
    pub fn authorize_application_control<
        V: ApplicationControlVerifier,
        W: Fn(&ProofParty<N, B, S>, u64) -> Result<(), String>,
    >(&mut self, verifier: &V, write: &W) -> (r: Result<[u8; 32], String>)
        requires
            old(self).consistent(),
            can_write(*write),
        ensures
            final(self).consistent(),
            old(self).keeps_used(*final(self)),
            if !old(self).state_healthy || old(self).frost_key is None {
                &&& r matches Err(e) && e@ == "control signing requires a healthy initialized committee"@
                &&& *final(self) == *old(self)
            } else {
                ||| {
                    &&& r is Err
                    &&& verifier.allows((old(self).frost_key->0).public_package@, Err((r->Err_0)@))
                    &&& *final(self) == *old(self)
                }
                ||| exists|authorized: ApplicationControlAuthorization|
                    verifier.allows((old(self).frost_key->0).public_package@, Ok(authorized)) && (r matches Ok(
                        message,
                    ) ==> message == authorized.message) && #[trigger] old(self).control_bound(
                        authorized,
                        *write,
                        *final(self),
                        outcome_of(r),
                    )
            },
    {
        if !self.state_healthy {
            return Err("control signing requires a healthy initialized committee".to_owned());
        }
        let committee_public = match &self.frost_key {
            None => {
                return Err("control signing requires a healthy initialized committee".to_owned());
            },
            Some(key) => &key.public_package,
        };
        match verifier.verify(committee_public) {
            Err(e) => Err(e),
            Ok(authorized) => self.bind_application_control(&authorized, write),
        }
    }
}

/// Changing one job keeps the lifecycle consistent.
pub proof fn job_change_keeps_lifecycle<N, B, S>(before: ProofParty<N, B, S>, after: ProofParty<N, B, S>, id: Seq<u8>)
    requires
        before.consistent(),
        before.jobs.has(id),
        after == (ProofParty { jobs: after.jobs, ..before }),
        after.jobs.sorted(),
        after.jobs.has(id),
        after.jobs.same_but(before.jobs, id),
        after.jobs.count() == before.jobs.count(),
    ensures
        after.consistent(),
{
    assert forall|k: Seq<u8>| #[trigger] after.jobs.has(k) implies after.reserved.has(k) by {
        assert(before.jobs.has(k));
    }
}

/// Changing what is retained of one job keeps the lifecycle consistent.
pub proof fn evidence_change_keeps_lifecycle<N, B, S>(
    before: ProofParty<N, B, S>,
    after: ProofParty<N, B, S>,
    id: Seq<u8>,
)
    requires
        before.consistent(),
        before.completed_evidence.has(id),
        after == (ProofParty { completed_evidence: after.completed_evidence, ..before }),
        after.completed_evidence.sorted(),
        after.completed_evidence.has(id),
        after.completed_evidence.same_but(before.completed_evidence, id),
        after.completed_evidence.count() == before.completed_evidence.count(),
    ensures
        after.consistent(),
{
    assert forall|k: Seq<u8>| #[trigger] after.completed_evidence.has(k) implies after.completed.has(k) by {
        assert(before.completed_evidence.has(k));
    }
}

} // verus!
