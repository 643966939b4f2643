//! What a proved settlement hands over, and its final authorization.

use vstd::prelude::*;
use crate::application_crypto::{can_verify, Signature, VerifyingKey};
use crate::coordinator::{told, Call, ProofPartyRpc, COMMITTEE_SIZE};
use crate::group::{Point, Scalar};
use crate::json::Value;
use crate::oracle::decides;
use crate::pretrade::PretradeAcknowledgement;
use crate::product_settlement::{
    authorize_settlement, certify_settlement, evidence_outcome, evidence_traced, settlement_authorized, EvidenceTrace,
    OpeningContexts, SettlementEvidence,
};
use crate::proof_codec::{DvpProofs, ThresholdRangeProof};
use crate::proof_mandate::ExecutionContext;
use crate::quote_codec::QuoteVerificationBundle;
use crate::settlement::{judges_shares, PriceLimitDirection, ProductSettlementRequest, TypedSettlement};
use crate::sharing::{add_points, point_sum};

verus! {

/// A payment that the committee signed. The wire is its whole encoding.
#[derive(Debug)]
pub struct SignedInstruction {
    pub amount_commitment: Point,
    pub price_commitment: Point,
    pub payer_handle: Point,
    pub payee_handle: Point,
    pub wire: Vec<u8>,
}

/// The two signatures of a committee.
#[derive(Debug)]
pub struct HybridSignature {
    pub classical: Vec<u8>,
    pub pq: Vec<u8>,
}

/// The payment of a settlement with what it was signed under.
#[derive(Debug)]
pub struct PaymentPart {
    pub instruction: SignedInstruction,
    pub frost_public: Vec<u8>,
    pub pq_committee: Vec<u8>,
    pub quote_digest: [u8; 32],
    pub asset_blinding: Scalar,
}

/// The proofs of a settlement and the commitments that they speak of.
#[derive(Debug)]
pub struct ProofPart {
    pub price_limit_proof: ThresholdRangeProof,
    pub dvp_proofs: DvpProofs,
    pub cash_commitment: Point,
    pub securities_remainder: Point,
    pub cash_remainder: Point,
    pub maker_pool_remainder: Point,
    pub maker_pool_remainder_proof: ThresholdRangeProof,
}

/// What a proved settlement hands over.
#[derive(Debug)]
pub struct SettlementHandoff {
    pub job_id: [u8; 32],
    pub lane: usize,
    pub admission_sequence: u64,
    pub admission_ticket_id: [u8; 32],
    pub instruction: SignedInstruction,
    pub frost_public: Vec<u8>,
    pub pq_committee: Option<Vec<u8>>,
    pub quote_digest: [u8; 32],
    pub quote_verification: QuoteVerificationBundle,
    pub limit_direction: PriceLimitDirection,
    pub limit_commitment: Point,
    pub limit_context: [u8; 32],
    pub price_limit_proof: ThresholdRangeProof,
    pub dvp_proofs: DvpProofs,
    pub cash_commitment: Point,
    pub securities_remainder: Point,
    pub cash_remainder: Point,
    pub securities_reserve: Point,
    pub cash_reserve: Point,
    pub maker_pool_remainder: Point,
    pub maker_pool_remainder_proof: ThresholdRangeProof,
    /// The encrypted openings of the legs: securities delivery and refund, then cash
    /// delivery and refund.
    pub openings: Vec<Vec<Value>>,
    pub asset_id: [u8; 32],
    pub asset_blinding: Scalar,
    pub execution_context: Option<ExecutionContext>,
    pub typed_authorization: Option<Vec<u8>>,
    pub typed_pq_authorization: Option<Vec<u8>>,
}

/// Whether a handoff is that of a request with its payment, proofs and openings: the
/// reserves are what is delivered and what remains, and nothing is authorized yet.
pub open spec fn handed_over(
    request: ProductSettlementRequest,
    payment: PaymentPart,
    proofs: ProofPart,
    openings: Vec<Vec<Value>>,
    handoff: SettlementHandoff,
) -> bool {
    &&& handoff == (SettlementHandoff {
            job_id: request.job_id,
            lane: request.execution.lane,
            admission_sequence: request.admission_sequence,
            admission_ticket_id: request.admission_ticket_id,
            instruction: payment.instruction,
            frost_public: payment.frost_public,
            pq_committee: Some(payment.pq_committee),
            quote_digest: payment.quote_digest,
            quote_verification: request.quote_verification,
            limit_direction: request.limit_direction,
            limit_commitment: request.limit_commitment,
            limit_context: request.limit_context,
            price_limit_proof: proofs.price_limit_proof,
            dvp_proofs: proofs.dvp_proofs,
            cash_commitment: proofs.cash_commitment,
            securities_remainder: proofs.securities_remainder,
            cash_remainder: proofs.cash_remainder,
            securities_reserve: handoff.securities_reserve,
            cash_reserve: handoff.cash_reserve,
            maker_pool_remainder: proofs.maker_pool_remainder,
            maker_pool_remainder_proof: proofs.maker_pool_remainder_proof,
            openings,
            asset_id: request.asset_id,
            asset_blinding: payment.asset_blinding,
            execution_context: None,
            typed_authorization: None,
            typed_pq_authorization: None,
        })
    &&& handoff.securities_reserve@ == point_sum(payment.instruction.amount_commitment@, proofs.securities_remainder@)
    &&& handoff.cash_reserve@ == point_sum(proofs.cash_commitment@, proofs.cash_remainder@)
}

/// Puts a proved settlement together: the reserves are what is delivered and what
/// remains, and nothing is authorized yet.
pub fn settlement_handoff(
    request: ProductSettlementRequest,
    payment: PaymentPart,
    proofs: ProofPart,
    openings: Vec<Vec<Value>>,
) -> (handoff: SettlementHandoff)
    ensures
        handed_over(request, payment, proofs, openings, handoff),
{
    let securities_reserve = add_points(&payment.instruction.amount_commitment, &proofs.securities_remainder);
    let cash_reserve = add_points(&proofs.cash_commitment, &proofs.cash_remainder);
    SettlementHandoff {
        job_id: request.job_id,
        lane: request.execution.lane,
        admission_sequence: request.admission_sequence,
        admission_ticket_id: request.admission_ticket_id,
        instruction: payment.instruction,
        frost_public: payment.frost_public,
        pq_committee: Some(payment.pq_committee),
        quote_digest: payment.quote_digest,
        quote_verification: request.quote_verification,
        limit_direction: request.limit_direction,
        limit_commitment: request.limit_commitment,
        limit_context: request.limit_context,
        price_limit_proof: proofs.price_limit_proof,
        dvp_proofs: proofs.dvp_proofs,
        cash_commitment: proofs.cash_commitment,
        securities_remainder: proofs.securities_remainder,
        cash_remainder: proofs.cash_remainder,
        securities_reserve,
        cash_reserve,
        maker_pool_remainder: proofs.maker_pool_remainder,
        maker_pool_remainder_proof: proofs.maker_pool_remainder_proof,
        openings,
        asset_id: request.asset_id,
        asset_blinding: payment.asset_blinding,
        execution_context: None,
        typed_authorization: None,
        typed_pq_authorization: None,
    }
}

/// A proved settlement with the evidence that the committee ran it.
#[derive(Debug)]
pub struct ProductSettlementProof {
    pub handoff: SettlementHandoff,
    pub execution_attestations: Vec<u8>,
    pub execution_node_keys: Vec<[u8; 32]>,
}

/// Whether a settlement is put together of its parts and its evidence.
pub open spec fn settlement_proved(
    request: ProductSettlementRequest,
    payment: PaymentPart,
    proofs: ProofPart,
    evidence: SettlementEvidence,
    proved: ProductSettlementProof,
) -> bool {
    &&& handed_over(request, payment, proofs, evidence.openings, proved.handoff)
    &&& proved.execution_attestations == evidence.execution_attestations
    &&& proved.execution_node_keys == evidence.execution_node_keys
}

/// What came of finishing a settlement, from one history of calls to another.
pub open spec fn settlement_finished<
    J: Fn(&Value) -> Result<(), String>,
    K: Fn(&Vec<u8>) -> bool,
    V: Fn(&VerifyingKey, &Vec<u8>, &Signature) -> bool,
>(
    before: Seq<Seq<Call>>,
    after: Seq<Seq<Call>>,
    request: ProductSettlementRequest,
    payment: PaymentPart,
    proofs: ProofPart,
    contexts: OpeningContexts,
    valid: J,
    known: K,
    verify: V,
    width: nat,
    r: Result<ProductSettlementProof, String>,
) -> bool {
    let payer = payment.instruction.payer_handle;
    let payee = payment.instruction.payee_handle;
    exists|trace: EvidenceTrace, evidence: Result<SettlementEvidence, String>|
        after == evidence_traced(before, request, payer, payee, trace) && #[trigger] evidence_outcome(
            request,
            contexts,
            payer,
            payee,
            valid,
            known,
            verify,
            width,
            trace,
            evidence,
        ) && match evidence {
            Err(e) => r == Err::<ProductSettlementProof, String>(e),
            Ok(found) => r matches Ok(proved) && settlement_proved(request, payment, proofs, found, proved),
        }
}

/// Finishes a settlement that was proved and paid for: collects the openings of its
/// legs and the receipts of the seven nodes, which have to certify the job that was
/// proved, and puts together what is handed over.
pub fn finish_settlement<
    T: ProofPartyRpc,
    J: Fn(&Value) -> Result<(), String>,
    K: Fn(&Vec<u8>) -> bool,
    V: Fn(&VerifyingKey, &Vec<u8>, &Signature) -> bool,
>(
    parties: &mut Vec<T>,
    request: ProductSettlementRequest,
    payment: PaymentPart,
    proofs: ProofPart,
    contexts: &OpeningContexts,
    valid: &J,
    known: &K,
    verify: &V,
    width: usize,
) -> (r: Result<ProductSettlementProof, String>)
    requires
        old(parties)@.len() == COMMITTEE_SIZE,
        request.execution.nodes@.len() == COMMITTEE_SIZE,
        judges_shares(*valid),
        decides(*known),
        can_verify(*verify),
    ensures
        final(parties)@.len() == COMMITTEE_SIZE,
        settlement_finished(
            told(old(parties)@),
            told(final(parties)@),
            request,
            payment,
            proofs,
            *contexts,
            *valid,
            *known,
            *verify,
            width as nat,
            r,
        ),
{
    let evidence = certify_settlement(
        parties,
        &request,
        &payment.instruction.payer_handle,
        &payment.instruction.payee_handle,
        contexts,
        valid,
        known,
        verify,
        width,
    );
    let ghost found = evidence;
    let SettlementEvidence { openings, execution_attestations, execution_node_keys } = match evidence {
        Err(e) => {
            return Err(e);
        },
        Ok(evidence) => evidence,
    };
    let ghost asked = request;
    let ghost paid = payment;
    let handoff = settlement_handoff(request, payment, proofs, openings);
    let proved = ProductSettlementProof { handoff, execution_attestations, execution_node_keys };
    assert(settlement_proved(asked, paid, proofs, found->Ok_0, proved));
    Ok(proved)
}

/// The message that a settlement's context signs, and the wires beside it.
#[derive(Debug)]
pub struct TypedWires {
    pub message: Vec<u8>,
    pub payment: Vec<u8>,
    pub context: Vec<u8>,
    pub pretrade_ack: Vec<u8>,
}

/// The settlement of a job that is to be authorized, or why there is none.
pub open spec fn settlement_of(job: [u8; 32], wires: Result<TypedWires, String>) -> Result<TypedSettlement, String> {
    match wires {
        Err(e) => Err(e),
        Ok(w) => Ok(
            TypedSettlement {
                job_id: job,
                message: w.message,
                payment: w.payment,
                context: w.context,
                pretrade_ack: w.pretrade_ack,
            },
        ),
    }
}

/// Whether the committee can be asked to sign, and signatures and handoffs checked.
pub open spec fn can_finalize<
    T,
    G: Fn(&mut Vec<T>, &Vec<u8>, &Vec<u8>, &Vec<u8>) -> Result<HybridSignature, String>,
    H: Fn(&Vec<u8>, &Vec<u8>, &Vec<u8>) -> bool,
    I: Fn(&SettlementHandoff) -> Result<(), String>,
>(sign: G, holds: H, whole: I) -> bool {
    &&& forall|p: &mut Vec<T>, m: &Vec<u8>, k: &Vec<u8>, c: &Vec<u8>| call_requires(sign, (p, m, k, c))
    &&& forall|k: &Vec<u8>, m: &Vec<u8>, s: &Vec<u8>| call_requires(holds, (k, m, s))
    &&& forall|h: &SettlementHandoff| call_requires(whole, (h,))
}

/// Whether the committee was asked for a signature and gave this outcome.
pub open spec fn committee_signed<
    T,
    G: Fn(&mut Vec<T>, &Vec<u8>, &Vec<u8>, &Vec<u8>) -> Result<HybridSignature, String>,
>(
    sign: G,
    before: Seq<T>,
    message: Vec<u8>,
    public: Vec<u8>,
    committee: Vec<u8>,
    outcome: Result<HybridSignature, String>,
) -> bool {
    exists|p: &mut Vec<T>| (*p)@ == before && #[trigger] call_ensures(sign, (p, &message, &public, &committee), outcome)
}

impl SettlementHandoff {
    /// Whether the settlement was authorized before.
    pub open spec fn finalized(self) -> bool {
        self.execution_context is Some || self.typed_authorization is Some
    }

    /// What a signature over the message comes to: it is kept with the context
    /// where it holds, and the whole is checked once more.
    pub open spec fn sealed<
        H: Fn(&Vec<u8>, &Vec<u8>, &Vec<u8>) -> bool,
        I: Fn(&SettlementHandoff) -> Result<(), String>,
    >(
        self,
        context: ExecutionContext,
        message: Vec<u8>,
        signed: HybridSignature,
        holds: H,
        whole: I,
        after: SettlementHandoff,
        r: Result<(), String>,
    ) -> bool {
        ||| {
            &&& call_ensures(holds, (&self.frost_public, &message, &signed.classical), false)
            &&& r matches Err(e) && e@ == "typed product settlement signature is invalid"@
            &&& after == self
        }
        ||| {
            &&& call_ensures(holds, (&self.frost_public, &message, &signed.classical), true)
            &&& after == (SettlementHandoff {
                execution_context: Some(context),
                typed_authorization: Some(signed.classical),
                typed_pq_authorization: Some(signed.pq),
                ..self
            })
            &&& call_ensures(whole, (&after,), r)
        }
    }
}

/// What came of finalizing a settlement whose wires were made, or could not be.
pub open spec fn settlement_finalized<
    T: ProofPartyRpc,
    K: Fn(&Vec<u8>) -> bool,
    V: Fn(&VerifyingKey, &Vec<u8>, &Signature) -> bool,
    G: Fn(&mut Vec<T>, &Vec<u8>, &Vec<u8>, &Vec<u8>) -> Result<HybridSignature, String>,
    H: Fn(&Vec<u8>, &Vec<u8>, &Vec<u8>) -> bool,
    I: Fn(&SettlementHandoff) -> Result<(), String>,
>(
    before: Seq<T>,
    after: Seq<T>,
    handoff: SettlementHandoff,
    later: SettlementHandoff,
    context: ExecutionContext,
    acknowledgement: PretradeAcknowledgement,
    trusted: VerifyingKey,
    known: K,
    verify: V,
    wires: Result<TypedWires, String>,
    sign: G,
    holds: H,
    whole: I,
    r: Result<(), String>,
) -> bool {
    exists|middle: Seq<T>, error: Option<Seq<char>>|
        #![trigger settlement_authorized(
            told(before),
            told(middle),
            acknowledgement,
            trusted,
            known,
            verify,
            settlement_of(handoff.job_id, wires),
            error,
        )]
        settlement_authorized(
            told(before),
            told(middle),
            acknowledgement,
            trusted,
            known,
            verify,
            settlement_of(handoff.job_id, wires),
            error,
        ) && match error {
            Some(e) => {
                &&& r matches Err(f) && f@ == e
                &&& after == middle
                &&& later == handoff
            },
            None => match handoff.pq_committee {
                None => {
                    &&& r matches Err(f) && f@ == "typed settlement requires its PQ committee"@
                    &&& after == middle
                    &&& later == handoff
                },
                Some(policy) => {
                    ||| {
                        &&& r is Err
                        &&& committee_signed(
                            sign,
                            middle,
                            wires->Ok_0.message,
                            handoff.frost_public,
                            policy,
                            Err(r->Err_0),
                        )
                        &&& later == handoff
                    }
                    ||| exists|signed: HybridSignature|
                        committee_signed(
                            sign,
                            middle,
                            wires->Ok_0.message,
                            handoff.frost_public,
                            policy,
                            Ok(signed),
                        ) && #[trigger] handoff.sealed(
                            context,
                            wires->Ok_0.message,
                            signed,
                            holds,
                            whole,
                            later,
                            r,
                        )
                },
            },
        }
}

/// Binds a proved settlement to its reservations and has the committee sign it,
/// once. The signing quorum authorizes the message first, against the
/// acknowledgement of the reservations by the pinned signer. `make` gives what is
/// authorized of the payment in its context, or why there is nothing. `sign` has the
/// committee sign a message under its two keys, `holds` checks the classical signature, and
/// `whole` the handoff in the end.
pub fn finalize_product_settlement<
    T: ProofPartyRpc,
    K: Fn(&Vec<u8>) -> bool,
    V: Fn(&VerifyingKey, &Vec<u8>, &Signature) -> bool,
    G: Fn(&mut Vec<T>, &Vec<u8>, &Vec<u8>, &Vec<u8>) -> Result<HybridSignature, String>,
    H: Fn(&Vec<u8>, &Vec<u8>, &Vec<u8>) -> bool,
    I: Fn(&SettlementHandoff) -> Result<(), String>,
    M: Fn(&SettlementHandoff, &ExecutionContext, &PretradeAcknowledgement) -> Result<TypedWires, String>,
>(
    parties: &mut Vec<T>,
    handoff: &mut SettlementHandoff,
    context: ExecutionContext,
    acknowledgement: &PretradeAcknowledgement,
    trusted: &VerifyingKey,
    known: &K,
    verify: &V,
    make: &M,
    sign: &G,
    holds: &H,
    whole: &I,
) -> (r: Result<(), String>)
    requires
        decides(*known),
        can_verify(*verify),
        can_finalize(*sign, *holds, *whole),
        forall|h: &SettlementHandoff, c: &ExecutionContext, a: &PretradeAcknowledgement|
            call_requires(*make, (h, c, a)),
    ensures
        if old(parties)@.len() != COMMITTEE_SIZE {
            &&& r matches Err(e) && e@ == "typed product settlement requires exactly seven parties"@
            &&& *final(parties) == *old(parties)
            &&& *final(handoff) == *old(handoff)
        } else if old(handoff).finalized() {
            &&& r matches Err(e) && e@ == "product settlement handoff was already finalized"@
            &&& *final(parties) == *old(parties)
            &&& *final(handoff) == *old(handoff)
        } else {
            exists|wires: Result<TypedWires, String>| #[trigger]
                call_ensures(*make, (&*old(handoff), &context, acknowledgement), wires) && settlement_finalized(
                    old(parties)@,
                    final(parties)@,
                    *old(handoff),
                    *final(handoff),
                    context,
                    *acknowledgement,
                    *trusted,
                    *known,
                    *verify,
                    wires,
                    *sign,
                    *holds,
                    *whole,
                    r,
                )
        },
{
    if parties.len() != COMMITTEE_SIZE {
        return Err("typed product settlement requires exactly seven parties".to_owned());
    }
    if handoff.execution_context.is_some() || handoff.typed_authorization.is_some() {
        return Err("product settlement handoff was already finalized".to_owned());
    }
    let wires = make(&*handoff, &context, acknowledgement);
    let ghost given = wires;
    assert(call_ensures(*make, (&*old(handoff), &context, acknowledgement), given));
    let settlement = match wires {
        Err(e) => Err(e),
        Ok(w) => Ok(
            TypedSettlement {
                job_id: handoff.job_id,
                message: w.message,
                payment: w.payment,
                context: w.context,
                pretrade_ack: w.pretrade_ack,
            },
        ),
    };
    assert(settlement == settlement_of(handoff.job_id, given));
    if let Err(e) = authorize_settlement(parties, acknowledgement, trusted, known, verify, &settlement) {
        return Err(e);
    }
    let ghost middle = parties@;
    let message = match settlement {
        Err(e) => {
            return Err(e);
        },
        Ok(s) => s.message,
    };
    let policy = match &handoff.pq_committee {
        None => {
            return Err("typed settlement requires its PQ committee".to_owned());
        },
        Some(policy) => policy,
    };
    let signed = match sign(parties, &message, &handoff.frost_public, policy) {
        Err(e) => {
            return Err(e);
        },
        Ok(signed) => signed,
    };
    let ghost signature = signed;
    if !holds(&handoff.frost_public, &message, &signed.classical) {
        let refused = Err("typed product settlement signature is invalid".to_owned());
        assert(old(handoff).sealed(context, message, signature, *holds, *whole, *handoff, refused));
        return refused;
    }
    handoff.execution_context = Some(context);
    handoff.typed_authorization = Some(signed.classical);
    handoff.typed_pq_authorization = Some(signed.pq);
    let checked = whole(&*handoff);
    assert(old(handoff).sealed(context, message, signature, *holds, *whole, *handoff, checked));
    checked
}

} // verus!
