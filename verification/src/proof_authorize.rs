//! What a node agrees to sign: reserves, payments, pool allocations,
//! settlements and health checks.
//!
//! Decoding payments and contexts, proof verification, and signatures are done
//! elsewhere; each decoder and verifier is handed in with a request.

use vstd::prelude::*;
use crate::bytes::{same, same32};
use crate::fields::{either, hex_in, unless};
use crate::group::{is_point, Point};
use crate::json::{as_text, as_unsigned, text_in, unsigned_in, Json, Value};
use crate::proof_codec::{DvpProofs, ProductProof, ThresholdRangeProof};
use crate::proof_dkg::QuorumPolicy;
use crate::proof_evidence::{checks_payments, pool_proofs, pool_proofs_refusal, PoolTools, Remainder, WireTools};
use crate::proof_mandate::{
    refused, told, ExecutionContext, MakerPolicyMandate, MandateTools, OperationKind, Payment, ReserveMandate,
    TakerExecutionMandate,
};
use crate::proof_params::{
    canonical_point_refusal, hex32, hex32_refusal, job_id, job_id_refusal, one_wire, one_wire_refusal, point, wire_in,
};
use crate::proof_state::{can_write, outcome_of, ProofJob, ProofParty};
use crate::text::same_text;

verus! {

/// The longest time until the deadline of a reserve, in seconds.
pub const RESERVE_HORIZON: u64 = 86400;

/// The longest time until the deadline of a payment, in seconds.
pub const PAYMENT_HORIZON: u64 = 3600;

/// The message that a signing job is authorized for.
#[derive(Debug)]
pub struct SigningRequest {
    pub signing_job: [u8; 32],
    pub message: Vec<u8>,
}

/// Why a request names no signing job with a message of one SHA-512 digest.
pub open spec fn signing_refusal(params: Json, complaint: Seq<char>) -> Option<Seq<char>> {
    either(
        hex32_refusal(params.field("signing_job_id"@), "signing_job_id"@),
        either(
            one_wire_refusal(params, "message"@),
            unless(wire_in(params.field("message"@)).len() == 64, complaint),
        ),
    )
}

/// Whether a request names this signing job and message.
pub open spec fn signing_said(params: Json, request: SigningRequest) -> bool {
    &&& request.signing_job@ == hex_in(params.field("signing_job_id"@))
    &&& request.message@ == wire_in(params.field("message"@))
}

/// Reads a signing job with a message of one SHA-512 digest.
pub fn signing_request(params: &Value, complaint: &str) -> (r: Result<SigningRequest, String>)
    ensures
        match r {
            Ok(request) => signing_refusal(params@, complaint@) is None && signing_said(params@, request),
            Err(e) => signing_refusal(params@, complaint@) == Some(e@),
        },
{
    let signing_job = match hex32(params.get("signing_job_id"), "signing_job_id") {
        Err(e) => {
            return Err(e);
        },
        Ok(value) => value,
    };
    let message = match one_wire(params, "message") {
        Err(e) => {
            return Err(e);
        },
        Ok(value) => value,
    };
    if message.len() != 64 {
        return Err(complaint.to_owned());
    }
    Ok(SigningRequest { signing_job, message })
}

/// The latest time that lies within a horizon.
pub open spec fn horizon_end(now: u64, horizon: u64) -> u64 {
    if now + horizon > u64::MAX {
        u64::MAX
    } else {
        (now + horizon) as u64
    }
}

/// Why a deadline is refused at a time that may be unknown.
pub open spec fn deadline_refusal(now: Option<u64>, deadline: nat, horizon: u64, complaint: Seq<char>) -> Option<
    Seq<char>,
> {
    match now {
        None => Some("system clock is before the Unix epoch"@),
        Some(now) => unless(now <= deadline <= horizon_end(now, horizon), complaint),
    }
}

/// Holds a deadline against the clock.
pub fn check_deadline(now: Option<u64>, deadline: u64, horizon: u64, complaint: &str) -> (r: Result<u64, String>)
    ensures
        match r {
            Ok(time) => deadline_refusal(now, deadline as nat, horizon, complaint@) is None && now == Some(time),
            Err(e) => deadline_refusal(now, deadline as nat, horizon, complaint@) == Some(e@),
        },
{
    match now {
        None => Err("system clock is before the Unix epoch".to_owned()),
        Some(time) => {
            let end: u64 = if horizon > 0xffff_ffff_ffff_ffff - time {
                0xffff_ffff_ffff_ffff
            } else {
                time + horizon
            };
            if deadline < time || deadline > end {
                Err(complaint.to_owned())
            } else {
                Ok(time)
            }
        },
    }
}

/// What a payment is bound to.
#[derive(Clone, Copy, Debug, PartialEq, Eq)]
pub enum QuoteBinding {
    LegacyPackedKey(u64),
    ProofDigest([u8; 32]),
}

/// Why a request binds its payment to no quote.
pub open spec fn quote_binding_refusal(params: Json) -> Option<Seq<char>> {
    if text_in(params.field("quote_kind"@)) == Some("legacy"@) {
        unless(
            unsigned_in(params.field("quote_key"@)) is Some && unsigned_in(params.field("quote_key"@)) != Some(0nat),
            "reserve quote key must be non-zero"@,
        )
    } else if text_in(params.field("quote_kind"@)) == Some("proof"@) {
        hex32_refusal(params.field("quote_digest"@), "quote_digest"@)
    } else {
        Some("reserve quote binding kind is invalid"@)
    }
}

/// Whether a request binds its payment to this quote.
pub open spec fn quote_binding_said(params: Json, binding: QuoteBinding) -> bool {
    match binding {
        QuoteBinding::LegacyPackedKey(key) => text_in(params.field("quote_kind"@)) == Some("legacy"@) && unsigned_in(
            params.field("quote_key"@),
        ) == Some(key as nat),
        QuoteBinding::ProofDigest(digest) => text_in(params.field("quote_kind"@)) == Some("proof"@)
            && digest@ == hex_in(
            params.field("quote_digest"@),
        ),
    }
}

fn read_quote_binding(params: &Value) -> (r: Result<QuoteBinding, String>)
    ensures
        match r {
            Ok(binding) => quote_binding_refusal(params@) is None && quote_binding_said(params@, binding),
            Err(e) => quote_binding_refusal(params@) == Some(e@),
        },
{
    proof {
        kinds_differ();
    }
    let kind = match as_text(params.get("quote_kind")) {
        None => {
            return Err("reserve quote binding kind is invalid".to_owned());
        },
        Some(kind) => kind,
    };
    if same_text(kind, "legacy") {
        match as_unsigned(params.get("quote_key")) {
            None => Err("reserve quote key must be non-zero".to_owned()),
            Some(key) => if key == 0 {
                Err("reserve quote key must be non-zero".to_owned())
            } else {
                Ok(QuoteBinding::LegacyPackedKey(key))
            },
        }
    } else if same_text(kind, "proof") {
        match hex32(params.get("quote_digest"), "quote_digest") {
            Err(e) => Err(e),
            Ok(digest) => Ok(QuoteBinding::ProofDigest(digest)),
        }
    } else {
        Err("reserve quote binding kind is invalid".to_owned())
    }
}

proof fn kinds_differ()
    ensures
        "legacy"@ != "proof"@,
{
    reveal_strlit("legacy");
    reveal_strlit("proof");
    assert("legacy"@.len() == 6);
    assert("proof"@.len() == 5);
}

/// A reserve payment that its mandate allows.
#[derive(Debug)]
pub struct ReservePayment {
    pub signing: SigningRequest,
    pub amount_commitment: Point,
    pub price_commitment: Point,
    pub asset_commitment: Point,
    pub payer_handle: Point,
    pub payee_handle: Point,
    pub deadline: u64,
    pub nonce: [u8; 32],
    pub quote_binding: QuoteBinding,
}

/// Whether a request asks for this reserve payment.
pub open spec fn reserve_payment_said(params: Json, payment: ReservePayment) -> bool {
    &&& signing_said(params, payment.signing)
    &&& payment.amount_commitment@ == hex_in(params.field("amount_commitment"@))
    &&& payment.price_commitment@ == hex_in(params.field("price_commitment"@))
    &&& payment.asset_commitment@ == hex_in(params.field("asset_commitment"@))
    &&& payment.payer_handle@ == hex_in(params.field("payer_handle"@))
    &&& payment.payee_handle@ == hex_in(params.field("payee_handle"@))
    &&& unsigned_in(params.field("deadline"@)) == Some(payment.deadline as nat)
    &&& payment.nonce@ == hex_in(params.field("nonce"@))
    &&& quote_binding_said(params, payment.quote_binding)
}

/// Why a reserve payment is refused, where `mandate` is the one that the request
/// carries and `now` the time.
pub open spec fn reserve_payment_refusal(
    params: Json,
    mandate: Result<ReserveMandate, String>,
    now: Option<u64>,
) -> Option<Seq<char>> {
    either(signing_refusal(params, "reserve payment message must be one SHA-512 digest"@),
    either(refused(mandate),
    either(canonical_point_refusal(params.field("amount_commitment"@), "amount_commitment"@),
    either(canonical_point_refusal(params.field("price_commitment"@), "price_commitment"@),
    either(canonical_point_refusal(params.field("asset_commitment"@), "asset_commitment"@),
    either(canonical_point_refusal(params.field("payer_handle"@), "payer_handle"@),
    either(canonical_point_refusal(params.field("payee_handle"@), "payee_handle"@),
    either(unless(hex_in(params.field("payer_handle"@)) != hex_in(params.field("payee_handle"@)),
        "reserve payment cannot pay its owner handle"@),
    either(unless(unsigned_in(params.field("deadline"@)) is Some, "deadline must be an unsigned timestamp"@),
    either(hex32_refusal(params.field("nonce"@), "nonce"@),
    either(quote_binding_refusal(params),
    either(deadline_refusal(now, unsigned_in(params.field("deadline"@))->0, RESERVE_HORIZON,
        "reserve deadline is outside the signer horizon"@),
    mandate->Ok_0.payment_refusal(hex_in(params.field("amount_commitment"@)), hex_in(params.field("payer_handle"@)),
        unsigned_in(params.field("deadline"@))->0 as u64)))))))))))))
}

/// Reads a reserve payment and holds it against its mandate and the clock.
pub fn reserve_payment(params: &Value, mandate: &Result<ReserveMandate, String>, now: Option<u64>) -> (r: Result<
    ReservePayment,
    String,
>)
    ensures
        match r {
            Ok(payment) => reserve_payment_refusal(params@, *mandate, now) is None
                && reserve_payment_said(params@, payment),
            Err(e) => reserve_payment_refusal(params@, *mandate, now) == Some(e@),
        },
{
    let signing = match signing_request(params, "reserve payment message must be one SHA-512 digest") {
        Err(e) => {
            return Err(e);
        },
        Ok(value) => value,
    };
    let mandate = match mandate {
        Err(e) => {
            return Err(told(e));
        },
        Ok(mandate) => mandate,
    };
    let amount_commitment = match point(params.get("amount_commitment"), "amount_commitment") {
        Err(e) => {
            return Err(e);
        },
        Ok(value) => value,
    };
    let price_commitment = match point(params.get("price_commitment"), "price_commitment") {
        Err(e) => {
            return Err(e);
        },
        Ok(value) => value,
    };
    let asset_commitment = match point(params.get("asset_commitment"), "asset_commitment") {
        Err(e) => {
            return Err(e);
        },
        Ok(value) => value,
    };
    let payer_handle = match point(params.get("payer_handle"), "payer_handle") {
        Err(e) => {
            return Err(e);
        },
        Ok(value) => value,
    };
    let payee_handle = match point(params.get("payee_handle"), "payee_handle") {
        Err(e) => {
            return Err(e);
        },
        Ok(value) => value,
    };
    if same32(&payer_handle.bytes, &payee_handle.bytes) {
        return Err("reserve payment cannot pay its owner handle".to_owned());
    }
    let deadline = match as_unsigned(params.get("deadline")) {
        None => {
            return Err("deadline must be an unsigned timestamp".to_owned());
        },
        Some(value) => value,
    };
    let nonce = match hex32(params.get("nonce"), "nonce") {
        Err(e) => {
            return Err(e);
        },
        Ok(value) => value,
    };
    let quote_binding = match read_quote_binding(params) {
        Err(e) => {
            return Err(e);
        },
        Ok(value) => value,
    };
    if let Err(e) = check_deadline(now, deadline, RESERVE_HORIZON, "reserve deadline is outside the signer horizon") {
        return Err(e);
    }
    if let Err(e) = mandate.verify_payment(&amount_commitment.bytes, &payer_handle.bytes, deadline) {
        return Err(e);
    }
    Ok(
        ReservePayment {
            signing,
            amount_commitment,
            price_commitment,
            asset_commitment,
            payer_handle,
            payee_handle,
            deadline,
            nonce,
            quote_binding,
        },
    )
}

/// What was decoded for the authorization of a reserve's context.
#[derive(Debug)]
pub struct TypedReserveFacts {
    pub mandate: Result<ReserveMandate, String>,
    /// The payment, where its wire is valid.
    pub payment: Option<Payment>,
    /// Whether this committee signed the payment.
    pub payment_signed: bool,
    /// The context, where its wire is valid for the payment.
    pub context: Option<ExecutionContext>,
    pub now: Option<u64>,
    /// The digest that the payment and its context are signed under.
    pub expected: Result<Vec<u8>, String>,
}

/// How the committee's post-quantum approval of a payment came out.
#[derive(Debug)]
pub enum PqApproval {
    NoCommittee,
    Missing,
    Refused(String),
    Valid,
}

/// Why an approval does not stand.
pub open spec fn approval_refusal(approval: PqApproval) -> Option<Seq<char>> {
    match approval {
        PqApproval::NoCommittee => Some("proof node lacks its PQ committee"@),
        PqApproval::Missing => Some("standing pool payment lacks PQ approval"@),
        PqApproval::Refused(e) => Some("standing pool payment PQ approval is invalid: "@ + e@),
        PqApproval::Valid => None,
    }
}

fn check_approval(approval: &PqApproval) -> (r: Result<(), String>)
    ensures
        match r {
            Ok(_) => approval_refusal(*approval) is None,
            Err(e) => approval_refusal(*approval) == Some(e@),
        },
{
    match approval {
        PqApproval::NoCommittee => Err("proof node lacks its PQ committee".to_owned()),
        PqApproval::Missing => Err("standing pool payment lacks PQ approval".to_owned()),
        PqApproval::Refused(e) => Err(
            crate::text::about("standing pool payment PQ approval is invalid: ", e.as_str()),
        ),
        PqApproval::Valid => Ok(()),
    }
}

/// The allocation out of a standing pool that is to be signed.
#[derive(Debug)]
pub struct StandingPoolAllocationBinding {
    pub proof_job_id: [u8; 32],
    pub pool_id: [u8; 32],
    pub delegation_digest: [u8; 32],
    pub committee_epoch: u64,
    pub expected_pool_sequence: u64,
    pub previous_amount_commitment: [u8; 32],
    pub entity_commitment: [u8; 32],
    pub asset_id: [u8; 32],
    pub direction: u8,
    pub policy_digest: [u8; 32],
    pub mandate_digest: [u8; 32],
    pub policy_version: u64,
    pub quote_proof_digest: [u8; 32],
    pub dvp_proof_digest: [u8; 32],
    /// The value commitment of the note put in escrow.
    pub escrow_commitment: [u8; 32],
    /// The value commitment of the note left in the pool.
    pub remainder_commitment: [u8; 32],
    pub remainder_range_proof_digest: [u8; 32],
    /// The message that encodes the allocation.
    pub signing_message: Result<Vec<u8>, String>,
}

/// What was decoded and verified for the authorization of a pool allocation.
#[derive(Debug)]
pub struct PoolAllocationFacts {
    pub binding: Result<StandingPoolAllocationBinding, String>,
    pub mandate: Result<ReserveMandate, String>,
    pub payment: Option<Payment>,
    pub payment_signed: bool,
    pub approval: PqApproval,
    pub now: Option<u64>,
    /// The pool identifier of the mandate.
    pub pool_id: Result<[u8; 32], String>,
    /// The delegation digest of the mandate.
    pub delegation_digest: Result<[u8; 32], String>,
    /// Whether the product and both remainder proofs hold for the job.
    pub dvp_valid: bool,
    pub dvp_package_digest: [u8; 32],
    pub range_digest: [u8; 32],
    pub range_valid: bool,
}

/// Whether an allocation names the entity, asset, side and policy of a mandate.
pub open spec fn allocation_named(
    binding: StandingPoolAllocationBinding,
    maker: MakerPolicyMandate,
    mandate_digest: Seq<u8>,
) -> bool {
    &&& binding.entity_commitment@ == maker.entity_commitment@
    &&& binding.asset_id@ == maker.asset_id@
    &&& binding.direction == maker.direction.code()
    &&& binding.policy_digest@ == maker.policy_digest@
    &&& binding.mandate_digest@ == mandate_digest
    &&& binding.policy_version == maker.policy_version
}

/// Why an allocation is not the one that a mandate allows.
pub open spec fn allocation_refusal(
    binding: StandingPoolAllocationBinding,
    maker: MakerPolicyMandate,
    facts: PoolAllocationFacts,
) -> Option<Seq<char>> {
    let differs = Some("standing pool allocation differs from the signed Maker mandate"@);
    match maker.digest {
        Err(e) => Some(e@),
        Ok(mandate_digest) => if !allocation_named(binding, maker, mandate_digest@) {
            differs
        } else {
            match facts.pool_id {
                Err(e) => Some(e@),
                Ok(pool_id) => if binding.pool_id@ != pool_id@ {
                    differs
                } else {
                    match facts.delegation_digest {
                        Err(e) => Some(e@),
                        Ok(delegation) => if binding.delegation_digest@ != delegation@ || (
                        binding.expected_pool_sequence == 0 && binding.previous_amount_commitment@
                            != maker.maximum_amount_commitment@) {
                            differs
                        } else {
                            None
                        },
                    }
                },
            }
        },
    }
}

fn check_allocation(
    binding: &StandingPoolAllocationBinding,
    maker: &MakerPolicyMandate,
    facts: &PoolAllocationFacts,
) -> (r: Result<(), String>)
    ensures
        match r {
            Ok(_) => allocation_refusal(*binding, *maker, *facts) is None,
            Err(e) => allocation_refusal(*binding, *maker, *facts) == Some(e@),
        },
{
    let mandate_digest = match &maker.digest {
        Err(e) => {
            return Err(told(e));
        },
        Ok(digest) => digest,
    };
    if !same32(&binding.entity_commitment, &maker.entity_commitment) || !same32(&binding.asset_id, &maker.asset_id)
        || binding.direction != maker.direction.to_byte() || !same32(&binding.policy_digest, &maker.policy_digest)
        || !same32(&binding.mandate_digest, mandate_digest) || binding.policy_version != maker.policy_version {
        return Err("standing pool allocation differs from the signed Maker mandate".to_owned());
    }
    match &facts.pool_id {
        Err(e) => {
            return Err(told(e));
        },
        Ok(pool_id) => {
            if !same32(&binding.pool_id, pool_id) {
                return Err("standing pool allocation differs from the signed Maker mandate".to_owned());
            }
        },
    }
    match &facts.delegation_digest {
        Err(e) => {
            return Err(told(e));
        },
        Ok(delegation) => {
            if !same32(&binding.delegation_digest, delegation) || (binding.expected_pool_sequence == 0 && !same32(
                &binding.previous_amount_commitment,
                &maker.maximum_amount_commitment,
            )) {
                return Err("standing pool allocation differs from the signed Maker mandate".to_owned());
            }
        },
    }
    Ok(())
}

/// Whether an allocation is the one that the job's quote selected, for a job that
/// has all its evidence.
pub open spec fn allocation_selected<N, B, S>(
    job: ProofJob<N, B, S>,
    binding: StandingPoolAllocationBinding,
    maker: MakerPolicyMandate,
    payment: Payment,
) -> bool {
    let side = job.maker_is_payer->0;
    let handle = job.selected_maker_handle->0;
    &&& maker.policy_digest@ == (job.winning_policy_digest->0)@
    &&& maker.maker_handle@ == handle@
    &&& binding.direction == if side { 2u8 } else { 1u8 }
    &&& payment.digest@ == (job.authorized_payment_digest->0)@
    &&& payment.quote_proof_digest is Some
    &&& (payment.quote_proof_digest->0)@ == job.expected_quote_digest@
    &&& binding.quote_proof_digest@ == job.expected_quote_digest@
    &&& payment.amount_commitment@ == (job.quantity_commitment->0)@
    &&& if side { payment.payer_handle@ == handle@ } else { payment.payee_handle@ == handle@ }
}

/// Whether the notes of an allocation are the ones that the job proved.
pub open spec fn allocation_split<N, B, S>(
    job: ProofJob<N, B, S>,
    binding: StandingPoolAllocationBinding,
    facts: PoolAllocationFacts,
) -> bool {
    let child = if job.maker_is_payer->0 { job.cash_reserve->0 } else { job.securities_reserve->0 };
    &&& binding.escrow_commitment@ == child@
    &&& binding.remainder_commitment@ == (job.pool_remainder_commitment->0)@
    &&& binding.remainder_range_proof_digest@ == facts.range_digest@
    &&& facts.range_valid
}

/// Why an allocation is not what a job proved.
pub open spec fn proved_refusal<N, B, S>(
    job: ProofJob<N, B, S>,
    binding: StandingPoolAllocationBinding,
    maker: MakerPolicyMandate,
    payment: Payment,
    facts: PoolAllocationFacts,
) -> Option<Seq<char>> {
    either(unless(job.quote_verified && job.dvp_response_issued
        && job.pool_remainder_response_issued,
        "standing pool cannot be allocated before quote, DvP, and pool-remainder proofs"@),
    either(unless(job.winning_policy_digest is Some, "standing pool proof has no winning policy"@),
    either(unless(job.selected_maker_handle is Some, "standing pool proof has no winning Maker"@),
    either(unless(job.authorized_payment_digest is Some, "standing pool proof has no authorized zkPI"@),
    either(unless(job.maker_is_payer is Some, "standing pool proof has no Maker payment side"@),
    either(unless(job.quantity_commitment is Some, "standing pool proof has no quantity commitment"@),
    either(unless(job.cash_commitment is Some, "standing pool proof has no cash commitment"@),
    either(unless(job.securities_remainder is Some, "standing pool proof has no securities remainder"@),
    either(unless(job.cash_remainder is Some, "standing pool proof has no cash remainder"@),
    either(unless(job.securities_reserve is Some, "standing pool proof has no securities reserve"@),
    either(unless(job.cash_reserve is Some, "standing pool proof has no cash reserve"@),
    either(unless(job.pool_remainder_commitment is Some,
        "standing pool proof has no parent-pool remainder commitment"@),
    either(unless(is_point(maker.maker_handle@), "Maker mandate handle is not canonical"@),
    either(unless(allocation_selected(job, binding, maker, payment),
        "standing pool allocation differs from the MPC-selected Maker quote"@),
    either(unless(facts.dvp_valid, "standing pool received an invalid public DvP proof"@),
    either(unless(binding.dvp_proof_digest@ == facts.dvp_package_digest@,
        "standing pool names another DvP proof package"@),
    either(unless(is_point(binding.remainder_commitment@), "standing pool remainder is not canonical"@),
    unless(allocation_split(job, binding, facts),
        "standing pool split differs from the proved Maker reserve or remainder"@))))))))))))))))))
}

fn check_proved<N, B, S>(
    job: &ProofJob<N, B, S>,
    binding: &StandingPoolAllocationBinding,
    maker: &MakerPolicyMandate,
    payment: &Payment,
    facts: &PoolAllocationFacts,
) -> (r: Result<(), String>)
    ensures
        match r {
            Ok(_) => proved_refusal(*job, *binding, *maker, *payment, *facts) is None,
            Err(e) => proved_refusal(*job, *binding, *maker, *payment, *facts) == Some(e@),
        },
{
    if !job.quote_verified || !job.dvp_response_issued || !job.pool_remainder_response_issued {
        return Err("standing pool cannot be allocated before quote, DvP, and pool-remainder proofs".to_owned());
    }
    let winning_policy_digest = match &job.winning_policy_digest {
        None => {
            return Err("standing pool proof has no winning policy".to_owned());
        },
        Some(value) => value,
    };
    let selected_maker_handle = match &job.selected_maker_handle {
        None => {
            return Err("standing pool proof has no winning Maker".to_owned());
        },
        Some(value) => value,
    };
    let authorized_payment_digest = match &job.authorized_payment_digest {
        None => {
            return Err("standing pool proof has no authorized zkPI".to_owned());
        },
        Some(value) => value,
    };
    let maker_is_payer = match &job.maker_is_payer {
        None => {
            return Err("standing pool proof has no Maker payment side".to_owned());
        },
        Some(value) => value,
    };
    let quantity_commitment = match &job.quantity_commitment {
        None => {
            return Err("standing pool proof has no quantity commitment".to_owned());
        },
        Some(value) => value,
    };
    let cash_commitment = match &job.cash_commitment {
        None => {
            return Err("standing pool proof has no cash commitment".to_owned());
        },
        Some(value) => value,
    };
    let securities_remainder = match &job.securities_remainder {
        None => {
            return Err("standing pool proof has no securities remainder".to_owned());
        },
        Some(value) => value,
    };
    let cash_remainder = match &job.cash_remainder {
        None => {
            return Err("standing pool proof has no cash remainder".to_owned());
        },
        Some(value) => value,
    };
    let securities_reserve = match &job.securities_reserve {
        None => {
            return Err("standing pool proof has no securities reserve".to_owned());
        },
        Some(value) => value,
    };
    let cash_reserve = match &job.cash_reserve {
        None => {
            return Err("standing pool proof has no cash reserve".to_owned());
        },
        Some(value) => value,
    };
    let pool_remainder_commitment = match &job.pool_remainder_commitment {
        None => {
            return Err("standing pool proof has no parent-pool remainder commitment".to_owned());
        },
        Some(value) => value,
    };
    if Point::from_canonical(maker.maker_handle).is_none() {
        return Err("Maker mandate handle is not canonical".to_owned());
    }
    let expected_direction: u8 = if *maker_is_payer {
        2
    } else {
        1
    };
    let quoted = match &payment.quote_proof_digest {
        Some(digest) => same32(digest, &job.expected_quote_digest),
        None => false,
    };
    let endpoint = if *maker_is_payer {
        same32(&payment.payer_handle, &selected_maker_handle.bytes)
    } else {
        same32(&payment.payee_handle, &selected_maker_handle.bytes)
    };
    if !same32(&maker.policy_digest, winning_policy_digest) || !same32(
        &maker.maker_handle,
        &selected_maker_handle.bytes,
    ) || binding.direction != expected_direction || !same(
        payment.digest.as_slice(),
        authorized_payment_digest.as_slice(),
    ) || !quoted || !same32(&binding.quote_proof_digest, &job.expected_quote_digest) || !same32(
        &payment.amount_commitment,
        &quantity_commitment.bytes,
    ) || !endpoint {
        return Err("standing pool allocation differs from the MPC-selected Maker quote".to_owned());
    }
    if !facts.dvp_valid {
        return Err("standing pool received an invalid public DvP proof".to_owned());
    }
    if !same32(&binding.dvp_proof_digest, &facts.dvp_package_digest) {
        return Err("standing pool names another DvP proof package".to_owned());
    }
    if Point::from_canonical(binding.remainder_commitment).is_none() {
        return Err("standing pool remainder is not canonical".to_owned());
    }
    let child = if *maker_is_payer {
        cash_reserve
    } else {
        securities_reserve
    };
    if !same32(&binding.escrow_commitment, &child.bytes) || !same32(
        &binding.remainder_commitment,
        &pool_remainder_commitment.bytes,
    ) || !same32(&binding.remainder_range_proof_digest, &facts.range_digest) || !facts.range_valid {
        return Err("standing pool split differs from the proved Maker reserve or remainder".to_owned());
    }
    Ok(())
}

/// The text of a refused scan of bytes.
pub open spec fn scan_refusal(scanned: Result<int, Seq<char>>) -> Option<Seq<char>> {
    match scanned {
        Ok(_) => None,
        Err(e) => Some(e),
    }
}

impl<N, B, S> ProofParty<N, B, S> {
    /// What authorizing a reserve payment does, whose message has to be the digest of
    /// its fields.
    pub open spec fn reserve_authorized<W: Fn(&ProofParty<N, B, S>, u64) -> Result<(), String>>(
        self,
        payment: ReservePayment,
        expected: Seq<u8>,
        write: W,
        later: ProofParty<N, B, S>,
        outcome: Result<(), Seq<char>>,
    ) -> bool {
        if payment.signing.message@ != expected {
            &&& outcome == Err::<(), Seq<char>>("reserve payment signing request changed a signed field"@)
            &&& later == self
        } else {
            self.authorizes(payment.signing.signing_job@, payment.signing.message@, write, later, outcome)
        }
    }

    /// Authorizes a reserve payment that its mandate allows. `mandates` reads the mandate
    /// that the request carries, and `digest` gives the digest of the payment's fields.
    pub fn authorize_reserve_payment<
        G: Fn(&Vec<u8>) -> Result<(), String>,
        M: Fn(&Vec<u8>, &Vec<u8>, Option<u64>) -> Result<MakerPolicyMandate, String>,
        T: Fn(&Vec<u8>, &Vec<u8>, Option<u64>) -> Result<TakerExecutionMandate, String>,
        D: Fn(&ReservePayment) -> Vec<u8>,
        W: Fn(&ProofParty<N, B, S>, u64) -> Result<(), String>,
    >(
        &mut self,
        params: &Value,
        now: Option<u64>,
        mandates: &MandateTools<G, M, T>,
        digest: &D,
        write: &W,
    ) -> (r: Result<&'static str, String>)
        requires
            old(self).consistent(),
            mandates.ready(),
            forall|p: &ReservePayment| call_requires(*digest, (p,)),
            can_write(*write),
        ensures
            final(self).consistent(),
            old(self).keeps_used(*final(self)),
            r matches Ok(kind) ==> kind@ == "pretrade-reserve-payment"@,
            exists|read: Result<ReserveMandate, String>| #[trigger]
                mandates.reads(params@, now, read) && match reserve_payment_refusal(params@, read, now) {
                    Some(e) => {
                        &&& r matches Err(f) && f@ == e
                        &&& *final(self) == *old(self)
                    },
                    None => exists|payment: ReservePayment, expected: Vec<u8>|
                        reserve_payment_said(params@, payment) && #[trigger] call_ensures(
                            *digest,
                            (&payment,),
                            expected,
                        ) && old(self).reserve_authorized(payment, expected@, *write, *final(self), outcome_of(r)),
                },
    {
        let read = mandates.read(params, now);
        assert(mandates.reads(params@, now, read));
        let payment = match reserve_payment(params, &read, now) {
            Err(e) => {
                return Err(e);
            },
            Ok(payment) => payment,
        };
        let expected = digest(&payment);
        assert(call_ensures(*digest, (&payment,), expected));
        if !same(payment.signing.message.as_slice(), expected.as_slice()) {
            return Err("reserve payment signing request changed a signed field".to_owned());
        }
        match self.authorize_frost(payment.signing.signing_job, payment.signing.message.as_slice(), write) {
            Err(e) => Err(e),
            Ok(_) => Ok("pretrade-reserve-payment"),
        }
    }

    /// Why the authorization of a reserve's context is refused.
    pub open spec fn reserve_typed_refusal(self, params: Json, facts: TypedReserveFacts) -> Option<Seq<char>> {
        either(signing_refusal(params, "typed reserve message must be one SHA-512 digest"@),
        either(refused(facts.mandate),
        either(one_wire_refusal(params, "payment"@),
        either(unless(facts.payment is Some, "reserve payment wire is invalid"@),
        either(unless(self.frost_key is Some, "FROST key generation is incomplete"@),
        either(unless(facts.payment_signed, "reserve payment lacks this committee's signature"@),
        either(one_wire_refusal(params, "context"@),
        either(unless(facts.context is Some, "typed reserve context wire is invalid"@),
        either(unless((facts.context->0).operation == OperationKind::Reserve,
            "reserve signer received a non-reserve operation"@),
        either(unless(facts.now is Some, "system clock is before the Unix epoch"@),
        either((facts.mandate->Ok_0).context_refusal(facts.payment->0, facts.context->0),
        either(refused(facts.expected),
        unless(wire_in(params.field("message"@)) == (facts.expected->Ok_0)@,
            "typed reserve signing request changed its context"@)))))))))))))
    }

    /// Authorizes the context of a reserve that its mandate allows. `mandates` and
    /// `wires` decode what the request carries, and `signed` says whether the group
    /// key signed the payment's digest.
    pub fn authorize_reserve_typed<
        G: Fn(&Vec<u8>) -> Result<(), String>,
        M: Fn(&Vec<u8>, &Vec<u8>, Option<u64>) -> Result<MakerPolicyMandate, String>,
        T: Fn(&Vec<u8>, &Vec<u8>, Option<u64>) -> Result<TakerExecutionMandate, String>,
        P: Fn(&Vec<u8>) -> Option<Payment>,
        C: Fn(&Vec<u8>, &Vec<u8>) -> Option<ExecutionContext>,
        D: Fn(&Vec<u8>, &Vec<u8>) -> Result<Vec<u8>, String>,
        E: Fn(&Vec<u8>, &[u8; 64], &Vec<u8>) -> bool,
        W: Fn(&ProofParty<N, B, S>, u64) -> Result<(), String>,
    >(
        &mut self,
        params: &Value,
        now: Option<u64>,
        mandates: &MandateTools<G, M, T>,
        wires: &WireTools<P, C, D>,
        signed: &E,
        write: &W,
    ) -> (r: Result<&'static str, String>)
        requires
            old(self).consistent(),
            mandates.ready(),
            wires.ready(),
            checks_payments(*signed),
            can_write(*write),
        ensures
            final(self).consistent(),
            old(self).keeps_used(*final(self)),
            r matches Ok(kind) ==> kind@ == "pretrade-reserve-context"@,
            exists|facts: TypedReserveFacts| #[trigger]
                old(self).reserve_looked(params@, now, *mandates, *wires, *signed, facts) && match old(
                    self,
                ).reserve_typed_refusal(params@, facts) {
                    Some(e) => {
                        &&& r matches Err(f) && f@ == e
                        &&& *final(self) == *old(self)
                    },
                    None => old(self).authorizes(
                        hex_in(params@.field("signing_job_id"@)),
                        wire_in(params@.field("message"@)),
                        *write,
                        *final(self),
                        outcome_of(r),
                    ),
                },
    {
        let facts = self.look_at_reserve(params, now, mandates, wires, signed);
        let signing = match signing_request(params, "typed reserve message must be one SHA-512 digest") {
            Err(e) => {
                return Err(e);
            },
            Ok(value) => value,
        };
        let mandate = match &facts.mandate {
            Err(e) => {
                return Err(told(e));
            },
            Ok(mandate) => mandate,
        };
        if let Err(e) = one_wire(params, "payment") {
            return Err(e);
        }
        let payment = match &facts.payment {
            None => {
                return Err("reserve payment wire is invalid".to_owned());
            },
            Some(value) => value,
        };
        if self.frost_key.is_none() {
            return Err("FROST key generation is incomplete".to_owned());
        }
        if !facts.payment_signed {
            return Err("reserve payment lacks this committee's signature".to_owned());
        }
        if let Err(e) = one_wire(params, "context") {
            return Err(e);
        }
        let context = match &facts.context {
            None => {
                return Err("typed reserve context wire is invalid".to_owned());
            },
            Some(value) => value,
        };
        if context.operation != OperationKind::Reserve {
            return Err("reserve signer received a non-reserve operation".to_owned());
        }
        if facts.now.is_none() {
            return Err("system clock is before the Unix epoch".to_owned());
        }
        if let Err(e) = mandate.verify_context(payment, context) {
            return Err(e);
        }
        match &facts.expected {
            Err(e) => {
                return Err(told(e));
            },
            Ok(expected) => {
                if !same(signing.message.as_slice(), expected.as_slice()) {
                    return Err("typed reserve signing request changed its context".to_owned());
                }
            },
        }
        match self.authorize_frost(signing.signing_job, signing.message.as_slice(), write) {
            Err(e) => Err(e),
            Ok(_) => Ok("pretrade-reserve-context"),
        }
    }

    /// Why the authorization of a pool allocation is refused.
    pub open spec fn pool_allocation_refusal(self, params: Json, facts: PoolAllocationFacts) -> Option<Seq<char>> {
        let id = hex_in(params.field("job_id"@));
        let binding = facts.binding->Ok_0;
        either(job_id_refusal(params),
        either(signing_refusal(params, "standing pool signing message must be one SHA-512 digest"@),
        either(unless(params.field("allocation_binding"@) is Some, "standing pool allocation binding is absent"@),
        either(refused(facts.binding),
        either(if binding.proof_job_id@ != id {
            Some("standing pool signing request changed its canonical allocation"@)
        } else { refused(binding.signing_message) },
        either(unless((binding.signing_message->Ok_0)@ == wire_in(params.field("message"@)),
            "standing pool signing request changed its canonical allocation"@),
        either(refused(facts.mandate),
        either(unless(facts.mandate->Ok_0 is Maker, "a Taker mandate cannot allocate a Maker standing pool"@),
        either(one_wire_refusal(params, "payment"@),
        either(unless(facts.payment is Some, "standing pool payment wire is invalid"@),
        either(pool_proofs_refusal(params),
        either(unless(facts.now is Some, "system clock is before the Unix epoch"@),
        either(refused((facts.mandate->Ok_0->Maker_0).authentic),
        either(allocation_refusal(binding, facts.mandate->Ok_0->Maker_0, facts),
        either(unless(self.frost_key is Some, "FROST key generation is incomplete"@),
        either(unless(facts.payment_signed, "standing pool payment lacks this committee's signature"@),
        either(approval_refusal(facts.approval),
        either(unless(self.jobs.has(id), "standing pool authorization proof job is not active"@),
        proved_refusal(self.jobs.at(id), binding, facts.mandate->Ok_0->Maker_0, facts.payment->0,
            facts)))))))))))))))))))
    }

    /// Authorizes the allocation of a pool that the job proved, for its Maker alone.
    /// `mandates` and `read` decode the mandate and the payment, `signed` says whether
    /// the group key signed the payment's digest, and `by` verifies the allocation
    /// against the job.
    pub fn authorize_standing_pool_allocation<
        G: Fn(&Vec<u8>) -> Result<(), String>,
        M: Fn(&Vec<u8>, &Vec<u8>, Option<u64>) -> Result<MakerPolicyMandate, String>,
        T: Fn(&Vec<u8>, &Vec<u8>, Option<u64>) -> Result<TakerExecutionMandate, String>,
        P: Fn(&Vec<u8>) -> Option<Payment>,
        E: Fn(&Vec<u8>, &[u8; 64], &Vec<u8>) -> bool,
        I: Fn(&Value) -> Result<StandingPoolAllocationBinding, String>,
        K: Fn(&MakerPolicyMandate, &[u8; 32]) -> Result<[u8; 32], String>,
        L: Fn(&[u8; 32], &MakerPolicyMandate, u64) -> Result<[u8; 32], String>,
        A: Fn(&QuorumPolicy, &Vec<u8>, &[u8; 64], u64) -> Result<(), String>,
        U: Fn(&Point, &[u8; 32], &Point, &ProductProof) -> bool,
        R: Fn(Remainder, &Point, &ThresholdRangeProof) -> bool,
        H: Fn(&Vec<u8>, &Point, &Point, &Point, &DvpProofs) -> [u8; 32],
        F: Fn(&ThresholdRangeProof) -> [u8; 32],
        W: Fn(&ProofParty<N, B, S>, u64) -> Result<(), String>,
    >(
        &mut self,
        params: &Value,
        now: Option<u64>,
        mandates: &MandateTools<G, M, T>,
        read: &P,
        signed: &E,
        by: &PoolTools<I, K, L, A, U, R, H, F>,
        write: &W,
    ) -> (r: Result<&'static str, String>)
        requires
            old(self).consistent(),
            mandates.ready(),
            forall|w: &Vec<u8>| call_requires(*read, (w,)),
            checks_payments(*signed),
            by.ready(),
            can_write(*write),
        ensures
            final(self).consistent(),
            old(self).keeps_used(*final(self)),
            r matches Ok(kind) ==> kind@ == "standing-pool-allocation"@,
            exists|facts: PoolAllocationFacts| #[trigger]
                old(self).pool_looked(params@, now, *mandates, *read, *signed, *by, facts) && match old(
                    self,
                ).pool_allocation_refusal(params@, facts) {
                    Some(e) => {
                        &&& r matches Err(f) && f@ == e
                        &&& *final(self) == *old(self)
                    },
                    None => old(self).authorizes(
                        hex_in(params@.field("signing_job_id"@)),
                        wire_in(params@.field("message"@)),
                        *write,
                        *final(self),
                        outcome_of(r),
                    ),
                },
    {
        let facts = self.look_at_pool(params, now, mandates, read, signed, by);
        let proof_job = match job_id(params) {
            Err(e) => {
                return Err(e);
            },
            Ok(value) => value,
        };
        let signing = match signing_request(params, "standing pool signing message must be one SHA-512 digest") {
            Err(e) => {
                return Err(e);
            },
            Ok(value) => value,
        };
        if params.get("allocation_binding").is_none() {
            return Err("standing pool allocation binding is absent".to_owned());
        }
        let binding = match &facts.binding {
            Err(e) => {
                return Err(told(e));
            },
            Ok(binding) => binding,
        };
        if !same32(&binding.proof_job_id, &proof_job) {
            return Err("standing pool signing request changed its canonical allocation".to_owned());
        }
        match &binding.signing_message {
            Err(e) => {
                return Err(told(e));
            },
            Ok(expected) => {
                if !same(expected.as_slice(), signing.message.as_slice()) {
                    return Err("standing pool signing request changed its canonical allocation".to_owned());
                }
            },
        }
        let mandate = match &facts.mandate {
            Err(e) => {
                return Err(told(e));
            },
            Ok(mandate) => mandate,
        };
        let maker = match mandate {
            ReserveMandate::Maker(maker) => maker,
            ReserveMandate::Taker(_) => {
                return Err("a Taker mandate cannot allocate a Maker standing pool".to_owned());
            },
        };
        if let Err(e) = one_wire(params, "payment") {
            return Err(e);
        }
        let payment = match &facts.payment {
            None => {
                return Err("standing pool payment wire is invalid".to_owned());
            },
            Some(value) => value,
        };
        if let Err(e) = pool_proofs(params) {
            return Err(e);
        }
        if facts.now.is_none() {
            return Err("system clock is before the Unix epoch".to_owned());
        }
        if let Err(e) = &maker.authentic {
            return Err(told(e));
        }
        if let Err(e) = check_allocation(binding, maker, &facts) {
            return Err(e);
        }
        if self.frost_key.is_none() {
            return Err("FROST key generation is incomplete".to_owned());
        }
        if !facts.payment_signed {
            return Err("standing pool payment lacks this committee's signature".to_owned());
        }
        if let Err(e) = check_approval(&facts.approval) {
            return Err(e);
        }
        let job = match self.jobs.get(&proof_job) {
            None => {
                return Err("standing pool authorization proof job is not active".to_owned());
            },
            Some(value) => value,
        };
        if let Err(e) = check_proved(job, binding, maker, payment, &facts) {
            return Err(e);
        }
        match self.authorize_frost(signing.signing_job, signing.message.as_slice(), write) {
            Err(e) => Err(e),
            Ok(_) => Ok("standing-pool-allocation"),
        }
    }
}

} // verus!
