//! The proof of a settlement, from its request to what it hands over.

use vstd::prelude::*;
use crate::application_crypto::{can_verify, Signature, VerifyingKey};
use crate::bytes::copied;
use crate::committee_proof::{traced, CommitteeProof, ProofNames, Trace, Wanted};
use crate::coordinator::{job_json, told, Call, ProofPartyRpc, COMMITTEE_SIZE};
use crate::group::Point;
use crate::json::Value;
use crate::oracle::decides;
use crate::product_settlement::{
    can_interpolate, instruction_step, prove_instruction, OpeningContexts, PaymentDraft, PaymentRanges,
    SettlementInstruction,
};
use crate::proof_codec::{DvpProofs, ThresholdRangeProof};
use crate::proof_rounds::{DvpCommitments, HandleEvaluation};
use crate::quote_codec::{can_check, checks, QuoteVerificationBundle};
use crate::settlement::{judges_shares, limit_round_json, ProductSettlementRequest};
use crate::settlement_handoff::{
    committee_signed, finish_settlement, settlement_finished, HybridSignature, PaymentPart, ProductSettlementProof,
    ProofPart, SignedInstruction,
};
use crate::settlement_proofs::{
    dvp_named, limit_named, limit_outcome, limit_wanted, pool_named, prove_delivery, prove_price_limit,
    prove_standing_pool_remainder, verified_outcome,
};
use crate::sharing::point_sum;

verus! {

/// A proof of the committee with its verifier.
#[derive(Debug)]
pub struct VerifiedProof<A, V> {
    pub by: A,
    pub verify: V,
}

/// How a payment is made: `check` verifies the quote, `ladder` interpolates the
/// Maker's handle, `ranges` proves the ranges of the payment, and `build` drafts it.
#[derive(Debug)]
pub struct PaymentTools<A, C, Fl, Fb> {
    pub ranges: A,
    pub check: C,
    pub ladder: Fl,
    pub build: Fb,
}

/// How a payment is signed: `read` gives the post-quantum committee that belongs to
/// a public key, `sign` has the committee sign a message, `seal` encodes the payment
/// with its signatures, and `accept` is the venue's verifier at a time.
#[derive(Debug)]
pub struct SigningTools<R, G, W, U> {
    pub read: R,
    pub sign: G,
    pub seal: W,
    pub accept: U,
}

/// How the rest is proved: the price limit and the delivery of a signed payment, and
/// what remains of the Maker's pool. `context` is what the proof of the limit is
/// bound to, and `commitments` are those of a delivery's statement.
#[derive(Debug)]
pub struct DeliveryTools<X, Lf, Df, M, P, Pv> {
    pub context: X,
    pub limit: Lf,
    pub delivery: Df,
    pub commitments: M,
    pub pool: VerifiedProof<P, Pv>,
}

/// How evidence is checked: what the openings are bound to, whether a share is valid
/// and a key known, and a signature of so many bytes holds.
#[derive(Debug)]
pub struct EvidenceTools<J, K, V> {
    pub contexts: OpeningContexts,
    pub valid: J,
    pub known: K,
    pub verify: V,
    pub width: usize,
}

/// The payment as it was signed.
pub open spec fn signed_instruction<SZ>(instruction: SettlementInstruction<SZ>, wire: Vec<u8>) -> SignedInstruction {
    SignedInstruction {
        amount_commitment: instruction.draft.amount_commitment,
        price_commitment: instruction.draft.price_commitment,
        payer_handle: instruction.payment.payer_handle,
        payee_handle: instruction.payment.payee_handle,
        wire,
    }
}

/// Whether the post-quantum committee was asked for and this was given.
pub open spec fn committee_read<T, R: Fn(&mut Vec<T>, &Vec<u8>) -> Result<Vec<u8>, String>>(
    read: R,
    before: Seq<T>,
    public: Vec<u8>,
    outcome: Result<Vec<u8>, String>,
) -> bool {
    exists|p: &mut Vec<T>| (*p)@ == before && #[trigger] call_ensures(read, (p, &public), outcome)
}

/// Whether a signed payment was brought before the venue, and what it came to.
pub open spec fn payment_accepted<SZ, U: Fn(&SignedInstruction, &Vec<u8>, &Vec<u8>, u64) -> Result<(), String>>(
    accept: U,
    now: u64,
    public: Vec<u8>,
    policy: Vec<u8>,
    instruction: SettlementInstruction<SZ>,
    wire: Vec<u8>,
    r: Result<PaymentPart, String>,
) -> bool {
    let signed = signed_instruction(instruction, wire);
    match r {
        Err(e) => call_ensures(accept, (&signed, &public, &policy, now), Err::<(), String>(e)),
        Ok(part) => {
            &&& call_ensures(accept, (&signed, &public, &policy, now), Ok::<(), String>(()))
            &&& part == (PaymentPart {
                instruction: signed,
                frost_public: public,
                pq_committee: policy,
                quote_digest: instruction.quote_digest,
                asset_blinding: instruction.draft.asset_blinding,
            })
        },
    }
}

/// Whether a payment was signed by the committee that was read, over the digest that
/// the quorum authorized, and accepted by the venue.
pub open spec fn payment_sealed<
    T,
    SZ,
    R: Fn(&mut Vec<T>, &Vec<u8>) -> Result<Vec<u8>, String>,
    G: Fn(&mut Vec<T>, &Vec<u8>, &Vec<u8>, &Vec<u8>) -> Result<HybridSignature, String>,
    W: Fn(&SettlementInstruction<SZ>, &HybridSignature) -> Vec<u8>,
    U: Fn(&SignedInstruction, &Vec<u8>, &Vec<u8>, u64) -> Result<(), String>,
>(
    by: SigningTools<R, G, W, U>,
    now: u64,
    public: Vec<u8>,
    policy: Vec<u8>,
    instruction: SettlementInstruction<SZ>,
    r: Result<PaymentPart, String>,
) -> bool {
    exists|middle: Seq<T>, message: Vec<u8>, signed: Result<HybridSignature, String>|
        message@ == instruction.payment.digest@ && #[trigger] committee_signed(
            by.sign,
            middle,
            message,
            public,
            policy,
            signed,
        ) && match signed {
            Err(e) => r == Err::<PaymentPart, String>(e),
            Ok(signature) => exists|wire: Vec<u8>|
                call_ensures(by.seal, (&instruction, &signature), wire) && #[trigger] payment_accepted(
                    by.accept,
                    now,
                    public,
                    policy,
                    instruction,
                    wire,
                    r,
                ),
        }
}

/// What came of having a payment signed.
pub open spec fn payment_signed<
    T,
    SZ,
    R: Fn(&mut Vec<T>, &Vec<u8>) -> Result<Vec<u8>, String>,
    G: Fn(&mut Vec<T>, &Vec<u8>, &Vec<u8>, &Vec<u8>) -> Result<HybridSignature, String>,
    W: Fn(&SettlementInstruction<SZ>, &HybridSignature) -> Vec<u8>,
    U: Fn(&SignedInstruction, &Vec<u8>, &Vec<u8>, u64) -> Result<(), String>,
>(
    by: SigningTools<R, G, W, U>,
    before: Seq<T>,
    now: u64,
    public: Vec<u8>,
    instruction: SettlementInstruction<SZ>,
    r: Result<PaymentPart, String>,
) -> bool {
    exists|policy: Result<Vec<u8>, String>| #[trigger]
        committee_read(by.read, before, public, policy) && match policy {
            Err(e) => r == Err::<PaymentPart, String>(e),
            Ok(policy) => payment_sealed(by, now, public, policy, instruction, r),
        }
}

/// Whether signing can be asked for.
pub open spec fn can_seal<
    T,
    SZ,
    R: Fn(&mut Vec<T>, &Vec<u8>) -> Result<Vec<u8>, String>,
    G: Fn(&mut Vec<T>, &Vec<u8>, &Vec<u8>, &Vec<u8>) -> Result<HybridSignature, String>,
    W: Fn(&SettlementInstruction<SZ>, &HybridSignature) -> Vec<u8>,
    U: Fn(&SignedInstruction, &Vec<u8>, &Vec<u8>, u64) -> Result<(), String>,
>(by: SigningTools<R, G, W, U>) -> bool {
    &&& forall|p: &mut Vec<T>, k: &Vec<u8>| call_requires(by.read, (p, k))
    &&& forall|p: &mut Vec<T>, m: &Vec<u8>, k: &Vec<u8>, c: &Vec<u8>| call_requires(by.sign, (p, m, k, c))
    &&& forall|i: &SettlementInstruction<SZ>, s: &HybridSignature| call_requires(by.seal, (i, s))
    &&& forall|i: &SignedInstruction, k: &Vec<u8>, c: &Vec<u8>, now: u64| call_requires(by.accept, (i, k, c, now))
}

/// Has the committee sign the payment that its quorum authorized, and brings it
/// before the venue.
pub fn sign_payment<
    T: ProofPartyRpc,
    SZ,
    R: Fn(&mut Vec<T>, &Vec<u8>) -> Result<Vec<u8>, String>,
    G: Fn(&mut Vec<T>, &Vec<u8>, &Vec<u8>, &Vec<u8>) -> Result<HybridSignature, String>,
    W: Fn(&SettlementInstruction<SZ>, &HybridSignature) -> Vec<u8>,
    U: Fn(&SignedInstruction, &Vec<u8>, &Vec<u8>, u64) -> Result<(), String>,
>(
    parties: &mut Vec<T>,
    now: u64,
    public: Vec<u8>,
    instruction: &SettlementInstruction<SZ>,
    by: &SigningTools<R, G, W, U>,
) -> (r: Result<PaymentPart, String>)
    requires
        can_seal(*by),
    ensures
        payment_signed(*by, old(parties)@, now, public, *instruction, r),
{
    let read = (by.read)(parties, &public);
    assert(committee_read(by.read, old(parties)@, public, read));
    let pq_committee = match read {
        Err(e) => {
            return Err(e);
        },
        Ok(policy) => policy,
    };
    let ghost middle = parties@;
    let message = copied(instruction.payment.digest.as_slice());
    let signed = (by.sign)(parties, &message, &public, &pq_committee);
    assert(committee_signed(by.sign, middle, message, public, pq_committee, signed));
    let signature = match signed {
        Err(e) => {
            let r = Err(e);
            assert(payment_sealed(*by, now, public, pq_committee, *instruction, r));
            return r;
        },
        Ok(signature) => signature,
    };
    let wire = (by.seal)(instruction, &signature);
    let sealed = SignedInstruction {
        amount_commitment: instruction.draft.amount_commitment,
        price_commitment: instruction.draft.price_commitment,
        payer_handle: instruction.payment.payer_handle,
        payee_handle: instruction.payment.payee_handle,
        wire,
    };
    assert(sealed == signed_instruction(*instruction, wire));
    let verdict = (by.accept)(&sealed, &public, &pq_committee, now);
    let ghost key = public;
    let ghost policy = pq_committee;
    match verdict {
        Err(e) => {
            let r = Err(e);
            assert(payment_accepted(by.accept, now, key, policy, *instruction, wire, r));
            assert(payment_sealed(*by, now, key, policy, *instruction, r));
            r
        },
        Ok(unit) => {
            assert(unit == ());
            let r = Ok(
                PaymentPart {
                    instruction: sealed,
                    frost_public: public,
                    pq_committee,
                    quote_digest: instruction.quote_digest,
                    asset_blinding: instruction.draft.asset_blinding,
                },
            );
            assert(payment_accepted(by.accept, now, key, policy, *instruction, wire, r));
            assert(payment_sealed(*by, now, key, policy, *instruction, r));
            r
        },
    }
}

/// What came of proving the price limit, from one history of calls to another.
pub open spec fn limit_step<
    SL,
    L: CommitteeProof<SL, ThresholdRangeProof>,
    Lv: Fn(&SL, &ThresholdRangeProof) -> Result<(), String>,
>(
    before: Seq<Seq<Call>>,
    after: Seq<Seq<Call>>,
    request: ProductSettlementRequest,
    price: Seq<u8>,
    context: Seq<u8>,
    limit: VerifiedProof<L, Lv>,
    r: Result<(SL, ThresholdRangeProof), String>,
) -> bool {
    exists|names: ProofNames<'static>, wanted: Wanted<'_>, trace: Trace|
        #![trigger traced(before, names, request.job_id@, limit_round_json(request.job_id@, context), trace),
            limit_wanted(request, price, wanted)]
        limit_named(names) && limit_wanted(request, price, wanted) && after == traced(
            before,
            names,
            request.job_id@,
            limit_round_json(request.job_id@, context),
            trace,
        ) && limit_outcome(limit.by, limit.verify, wanted, names, request.job_id@, trace, r)
}

/// What came of proving the delivery, from one history of calls to another.
pub open spec fn delivery_step<SD, D: CommitteeProof<SD, DvpProofs>, Dv: Fn(&SD, &DvpProofs) -> bool>(
    before: Seq<Seq<Call>>,
    after: Seq<Seq<Call>>,
    job: Seq<u8>,
    delivery: VerifiedProof<D, Dv>,
    r: Result<(SD, DvpProofs), String>,
) -> bool {
    exists|names: ProofNames<'static>, trace: Trace|
        #![trigger traced(before, names, job, job_json(job), trace)]
        dvp_named(names) && after == traced(before, names, job, job_json(job), trace) && verified_outcome(
            delivery.by,
            delivery.verify,
            "public DvP verifier rejected the node-local MPC handoff"@,
            None,
            names,
            job,
            trace,
            r,
        )
}

/// What came of proving the pool's remainder, from one history of calls to another.
pub open spec fn pool_step<
    SP,
    P: CommitteeProof<SP, ThresholdRangeProof>,
    Pv: Fn(&SP, &ThresholdRangeProof) -> bool,
>(
    before: Seq<Seq<Call>>,
    after: Seq<Seq<Call>>,
    job: Seq<u8>,
    pool: VerifiedProof<P, Pv>,
    r: Result<(SP, ThresholdRangeProof), String>,
) -> bool {
    exists|names: ProofNames<'static>, trace: Trace|
        #![trigger traced(before, names, job, job_json(job), trace)]
        pool_named(names) && after == traced(before, names, job, job_json(job), trace) && verified_outcome(
            pool.by,
            pool.verify,
            "public verifier rejected the standing-pool remainder proof"@,
            None,
            names,
            job,
            trace,
            r,
        )
}

/// The steps behind the signature: what was proved and how, and the history of calls
/// after each proof.
pub ghost struct SignedSteps<SL, L, Lv, SD, D, Dv, SP> {
    pub context: [u8; 32],
    pub limit_by: VerifiedProof<L, Lv>,
    pub limit: Result<(SL, ThresholdRangeProof), String>,
    pub one: Seq<Seq<Call>>,
    pub delivery_by: VerifiedProof<D, Dv>,
    pub delivery: Result<(SD, DvpProofs), String>,
    pub two: Seq<Seq<Call>>,
    pub committed: DvpCommitments,
    pub pool: Result<(SP, ThresholdRangeProof), String>,
    pub three: Seq<Seq<Call>>,
    pub remainder: Point,
}

impl<SL, L, Lv, SD, D, Dv, SP> SignedSteps<SL, L, Lv, SD, D, Dv, SP> {
    /// The proofs of the settlement.
    pub open spec fn proofs(self) -> ProofPart {
        ProofPart {
            price_limit_proof: self.limit->Ok_0.1,
            dvp_proofs: self.delivery->Ok_0.1,
            cash_commitment: self.committed.cash,
            securities_remainder: self.committed.securities_remainder,
            cash_remainder: self.committed.cash_remainder,
            maker_pool_remainder: self.remainder,
            maker_pool_remainder_proof: self.pool->Ok_0.1,
        }
    }
}

/// Whether the steps behind the signature were taken in their order, each only where
/// the one before it succeeded, and what came of them: the error of the step that
/// stopped, or the settlement.
pub open spec fn signed_steps<
    SL,
    SD,
    SP,
    X: Fn(&ProductSettlementRequest, &Point) -> [u8; 32],
    L: CommitteeProof<SL, ThresholdRangeProof>,
    Lv: Fn(&SL, &ThresholdRangeProof) -> Result<(), String>,
    Lf: Fn(&SignedInstruction) -> VerifiedProof<L, Lv>,
    D: CommitteeProof<SD, DvpProofs>,
    Dv: Fn(&SD, &DvpProofs) -> bool,
    Df: Fn(&SignedInstruction) -> VerifiedProof<D, Dv>,
    M: Fn(&SD) -> DvpCommitments,
    P: CommitteeProof<SP, ThresholdRangeProof>,
    Pv: Fn(&SP, &ThresholdRangeProof) -> bool,
    J: Fn(&Value) -> Result<(), String>,
    K: Fn(&Vec<u8>) -> bool,
    V: Fn(&VerifyingKey, &Vec<u8>, &Signature) -> bool,
>(
    before: Seq<Seq<Call>>,
    after: Seq<Seq<Call>>,
    request: ProductSettlementRequest,
    payment: PaymentPart,
    by: DeliveryTools<X, Lf, Df, M, P, Pv>,
    evidence: EvidenceTools<J, K, V>,
    steps: SignedSteps<SL, L, Lv, SD, D, Dv, SP>,
    r: Result<ProductSettlementProof, String>,
) -> bool {
    let job = request.job_id@;
    let price = payment.instruction.price_commitment;
    &&& call_ensures(by.context, (&request, &price), steps.context)
    &&& call_ensures(by.limit, (&payment.instruction,), steps.limit_by)
    &&& limit_step(before, steps.one, request, price@, steps.context@, steps.limit_by, steps.limit)
    &&& match steps.limit {
        Err(e) => r == Err::<ProductSettlementProof, String>(e) && after == steps.one,
        Ok(_) => {
            &&& call_ensures(by.delivery, (&payment.instruction,), steps.delivery_by)
            &&& delivery_step(steps.one, steps.two, job, steps.delivery_by, steps.delivery)
            &&& match steps.delivery {
                Err(e) => r == Err::<ProductSettlementProof, String>(e) && after == steps.two,
                Ok((made, _)) => {
                    &&& call_ensures(by.commitments, (&made,), steps.committed)
                    &&& pool_step(steps.two, steps.three, job, by.pool, steps.pool)
                    &&& match steps.pool {
                        Err(e) => r == Err::<ProductSettlementProof, String>(e) && after == steps.three,
                        Ok((left, _)) => {
                            &&& by.pool.by.commits(left, steps.remainder)
                            &&& settlement_finished(
                                steps.three,
                                after,
                                request,
                                payment,
                                steps.proofs(),
                                evidence.contexts,
                                evidence.valid,
                                evidence.known,
                                evidence.verify,
                                evidence.width as nat,
                                r,
                            )
                        },
                    }
                },
            }
        },
    }
}

/// Whether the further proofs can be asked for.
pub open spec fn can_deliver<
    SL,
    SD,
    SP,
    X: Fn(&ProductSettlementRequest, &Point) -> [u8; 32],
    L: CommitteeProof<SL, ThresholdRangeProof>,
    Lv: Fn(&SL, &ThresholdRangeProof) -> Result<(), String>,
    Lf: Fn(&SignedInstruction) -> VerifiedProof<L, Lv>,
    D: CommitteeProof<SD, DvpProofs>,
    Dv: Fn(&SD, &DvpProofs) -> bool,
    Df: Fn(&SignedInstruction) -> VerifiedProof<D, Dv>,
    M: Fn(&SD) -> DvpCommitments,
    P: CommitteeProof<SP, ThresholdRangeProof>,
    Pv: Fn(&SP, &ThresholdRangeProof) -> bool,
>(by: DeliveryTools<X, Lf, Df, M, P, Pv>) -> bool {
    &&& forall|q: &ProductSettlementRequest, p: &Point| call_requires(by.context, (q, p))
    &&& forall|i: &SignedInstruction| call_requires(by.limit, (i,))
    &&& forall|i: &SignedInstruction, found: VerifiedProof<L, Lv>| #[trigger]
        call_ensures(by.limit, (i,), found) ==> found.by.ready() && forall|s: &SL, p: &ThresholdRangeProof|
            call_requires(found.verify, (s, p))
    &&& forall|i: &SignedInstruction| call_requires(by.delivery, (i,))
    &&& forall|i: &SignedInstruction, found: VerifiedProof<D, Dv>| #[trigger]
        call_ensures(by.delivery, (i,), found) ==> found.by.ready() && forall|s: &SD, p: &DvpProofs|
            call_requires(found.verify, (s, p))
    &&& forall|s: &SD| call_requires(by.commitments, (s,))
    &&& by.pool.by.ready()
    &&& forall|s: &SP, p: &ThresholdRangeProof| call_requires(by.pool.verify, (s, p))
}

/// Finishes a settlement whose payment the committee signed: proves its price limit,
/// its delivery and the pool's remainder, collects the openings and the receipts, and
/// puts together what is handed over.
pub fn prove_signed_settlement<
    T: ProofPartyRpc,
    SL,
    SD,
    SP,
    X: Fn(&ProductSettlementRequest, &Point) -> [u8; 32],
    L: CommitteeProof<SL, ThresholdRangeProof>,
    Lv: Fn(&SL, &ThresholdRangeProof) -> Result<(), String>,
    Lf: Fn(&SignedInstruction) -> VerifiedProof<L, Lv>,
    D: CommitteeProof<SD, DvpProofs>,
    Dv: Fn(&SD, &DvpProofs) -> bool,
    Df: Fn(&SignedInstruction) -> VerifiedProof<D, Dv>,
    M: Fn(&SD) -> DvpCommitments,
    P: CommitteeProof<SP, ThresholdRangeProof>,
    Pv: Fn(&SP, &ThresholdRangeProof) -> bool,
    J: Fn(&Value) -> Result<(), String>,
    K: Fn(&Vec<u8>) -> bool,
    V: Fn(&VerifyingKey, &Vec<u8>, &Signature) -> bool,
>(
    parties: &mut Vec<T>,
    request: ProductSettlementRequest,
    payment: PaymentPart,
    by: &DeliveryTools<X, Lf, Df, M, P, Pv>,
    evidence: &EvidenceTools<J, K, V>,
) -> (r: Result<ProductSettlementProof, String>)
    requires
        old(parties)@.len() == COMMITTEE_SIZE,
        request.execution.nodes@.len() == COMMITTEE_SIZE,
        can_deliver(*by),
        judges_shares(evidence.valid),
        decides(evidence.known),
        can_verify(evidence.verify),
    ensures
        final(parties)@.len() == COMMITTEE_SIZE,
        exists|steps: SignedSteps<SL, L, Lv, SD, D, Dv, SP>| #[trigger]
            signed_steps(told(old(parties)@), told(final(parties)@), request, payment, *by, *evidence, steps, r),
{
    let ghost before = told(parties@);
    let ghost mut steps: SignedSteps<SL, L, Lv, SD, D, Dv, SP> = arbitrary();
    let price = payment.instruction.price_commitment;
    let context = (by.context)(&request, &price);
    let limit = (by.limit)(&payment.instruction);
    assert(call_ensures(by.limit, (&payment.instruction,), limit));
    let limited = prove_price_limit(parties, &request, &price, &context, &limit.by, &limit.verify);
    proof {
        steps = SignedSteps { context, limit_by: limit, limit: limited, one: told(parties@), ..steps };
        assert(limit_step(before, steps.one, request, price@, steps.context@, steps.limit_by, steps.limit));
    }
    let price_limit_proof = match limited {
        Err(e) => {
            let r = Err(e);
            assert(signed_steps(before, told(parties@), request, payment, *by, *evidence, steps, r));
            return r;
        },
        Ok((_, proved)) => proved,
    };
    let delivery = (by.delivery)(&payment.instruction);
    assert(call_ensures(by.delivery, (&payment.instruction,), delivery));
    let delivered = prove_delivery(parties, &request.job_id, &delivery.by, &delivery.verify);
    proof {
        steps = SignedSteps { delivery_by: delivery, delivery: delivered, two: told(parties@), ..steps };
        assert(delivery_step(steps.one, steps.two, request.job_id@, steps.delivery_by, steps.delivery));
    }
    let (made, dvp_proofs) = match delivered {
        Err(e) => {
            let r = Err(e);
            assert(signed_steps(before, told(parties@), request, payment, *by, *evidence, steps, r));
            return r;
        },
        Ok(found) => found,
    };
    let committed = (by.commitments)(&made);
    let left = prove_standing_pool_remainder(parties, &request.job_id, &by.pool.by, &by.pool.verify);
    proof {
        steps = SignedSteps { committed, pool: left, three: told(parties@), ..steps };
        assert(pool_step(steps.two, steps.three, request.job_id@, by.pool, steps.pool));
    }
    let (remaining, maker_pool_remainder_proof) = match left {
        Err(e) => {
            let r = Err(e);
            assert(signed_steps(before, told(parties@), request, payment, *by, *evidence, steps, r));
            return r;
        },
        Ok(found) => found,
    };
    let maker_pool_remainder = by.pool.by.committed(&remaining);
    proof {
        steps = SignedSteps { remainder: maker_pool_remainder, ..steps };
    }
    let proofs = ProofPart {
        price_limit_proof,
        dvp_proofs,
        cash_commitment: committed.cash,
        securities_remainder: committed.securities_remainder,
        cash_remainder: committed.cash_remainder,
        maker_pool_remainder,
        maker_pool_remainder_proof,
    };
    assert(proofs == steps.proofs());
    let r = finish_settlement(
        parties,
        request,
        payment,
        proofs,
        &evidence.contexts,
        &evidence.valid,
        &evidence.known,
        &evidence.verify,
        evidence.width,
    );
    assert(signed_steps(before, told(parties@), request, payment, *by, *evidence, steps, r));
    r
}

/// The steps of a settlement: the payment that the quorum authorized, the payment
/// that the committee signed, the committee after each, and the steps behind them.
pub ghost struct SettlementSteps<T, SZ, SL, L, Lv, SD, D, Dv, SP> {
    pub instruction: Result<SettlementInstruction<SZ>, String>,
    pub authorized: Seq<T>,
    pub payment: Result<PaymentPart, String>,
    pub sealed: Seq<T>,
    pub behind: SignedSteps<SL, L, Lv, SD, D, Dv, SP>,
}

/// Whether a settlement was proved in its steps, each only where the one before it
/// succeeded, and what came of it: the error of the step that stopped, or the
/// settlement.
pub open spec fn settlement_run<
    T: ProofPartyRpc,
    SZ,
    SL,
    SD,
    SP,
    A: CommitteeProof<SZ, PaymentRanges>,
    C: Fn(&QuoteVerificationBundle) -> Result<[u8; 32], String>,
    Fl: Fn(&Vec<HandleEvaluation>) -> Result<Point, String>,
    Fb: Fn(&SZ, &PaymentRanges, &ProductSettlementRequest, &(Point, Point), &[u8; 32]) -> Result<PaymentDraft,
        String>,
    R: Fn(&mut Vec<T>, &Vec<u8>) -> Result<Vec<u8>, String>,
    G: Fn(&mut Vec<T>, &Vec<u8>, &Vec<u8>, &Vec<u8>) -> Result<HybridSignature, String>,
    W: Fn(&SettlementInstruction<SZ>, &HybridSignature) -> Vec<u8>,
    U: Fn(&SignedInstruction, &Vec<u8>, &Vec<u8>, u64) -> Result<(), String>,
    X: Fn(&ProductSettlementRequest, &Point) -> [u8; 32],
    L: CommitteeProof<SL, ThresholdRangeProof>,
    Lv: Fn(&SL, &ThresholdRangeProof) -> Result<(), String>,
    Lf: Fn(&SignedInstruction) -> VerifiedProof<L, Lv>,
    D: CommitteeProof<SD, DvpProofs>,
    Dv: Fn(&SD, &DvpProofs) -> bool,
    Df: Fn(&SignedInstruction) -> VerifiedProof<D, Dv>,
    M: Fn(&SD) -> DvpCommitments,
    P: CommitteeProof<SP, ThresholdRangeProof>,
    Pv: Fn(&SP, &ThresholdRangeProof) -> bool,
    J: Fn(&Value) -> Result<(), String>,
    K: Fn(&Vec<u8>) -> bool,
    V: Fn(&VerifyingKey, &Vec<u8>, &Signature) -> bool,
>(
    before: Seq<T>,
    after: Seq<T>,
    public: Vec<u8>,
    request: ProductSettlementRequest,
    pay: PaymentTools<A, C, Fl, Fb>,
    seal: SigningTools<R, G, W, U>,
    deliver: DeliveryTools<X, Lf, Df, M, P, Pv>,
    evidence: EvidenceTools<J, K, V>,
    steps: SettlementSteps<T, SZ, SL, L, Lv, SD, D, Dv, SP>,
    r: Result<ProductSettlementProof, String>,
) -> bool {
    &&& instruction_step(
        told(before),
        told(steps.authorized),
        request,
        pay.ranges,
        pay.check,
        pay.ladder,
        pay.build,
        steps.instruction,
    )
    &&& match steps.instruction {
        Err(e) => r == Err::<ProductSettlementProof, String>(e) && after == steps.authorized,
        Ok(instruction) => {
            &&& payment_signed(seal, steps.authorized, request.now, public, instruction, steps.payment)
            &&& match steps.payment {
                Err(e) => r == Err::<ProductSettlementProof, String>(e),
                Ok(payment) => if steps.sealed.len() != COMMITTEE_SIZE {
                    &&& r matches Err(e) && e@ == "product settlement proof requires exactly seven parties"@
                    &&& after == steps.sealed
                } else {
                    signed_steps(
                        told(steps.sealed),
                        told(after),
                        request,
                        payment,
                        deliver,
                        evidence,
                        steps.behind,
                        r,
                    )
                },
            }
        },
    }
}

/// Proves a settlement with the committee: makes and authorizes its payment, has the
/// committee sign it, proves the price limit, the delivery and the pool's remainder,
/// collects the openings and the receipts, and puts together what is handed over. The
/// coordinator sees public commitments and proof messages alone.
pub fn prove_product_settlement<
    T: ProofPartyRpc,
    SZ,
    SL,
    SD,
    SP,
    A: CommitteeProof<SZ, PaymentRanges>,
    C: Fn(&QuoteVerificationBundle) -> Result<[u8; 32], String>,
    Fl: Fn(&Vec<HandleEvaluation>) -> Result<Point, String>,
    Fb: Fn(&SZ, &PaymentRanges, &ProductSettlementRequest, &(Point, Point), &[u8; 32]) -> Result<PaymentDraft,
        String>,
    R: Fn(&mut Vec<T>, &Vec<u8>) -> Result<Vec<u8>, String>,
    G: Fn(&mut Vec<T>, &Vec<u8>, &Vec<u8>, &Vec<u8>) -> Result<HybridSignature, String>,
    W: Fn(&SettlementInstruction<SZ>, &HybridSignature) -> Vec<u8>,
    U: Fn(&SignedInstruction, &Vec<u8>, &Vec<u8>, u64) -> Result<(), String>,
    X: Fn(&ProductSettlementRequest, &Point) -> [u8; 32],
    L: CommitteeProof<SL, ThresholdRangeProof>,
    Lv: Fn(&SL, &ThresholdRangeProof) -> Result<(), String>,
    Lf: Fn(&SignedInstruction) -> VerifiedProof<L, Lv>,
    D: CommitteeProof<SD, DvpProofs>,
    Dv: Fn(&SD, &DvpProofs) -> bool,
    Df: Fn(&SignedInstruction) -> VerifiedProof<D, Dv>,
    M: Fn(&SD) -> DvpCommitments,
    P: CommitteeProof<SP, ThresholdRangeProof>,
    Pv: Fn(&SP, &ThresholdRangeProof) -> bool,
    J: Fn(&Value) -> Result<(), String>,
    K: Fn(&Vec<u8>) -> bool,
    V: Fn(&VerifyingKey, &Vec<u8>, &Signature) -> bool,
>(
    parties: &mut Vec<T>,
    frost_public: Vec<u8>,
    request: ProductSettlementRequest,
    pay: &PaymentTools<A, C, Fl, Fb>,
    seal: &SigningTools<R, G, W, U>,
    deliver: &DeliveryTools<X, Lf, Df, M, P, Pv>,
    evidence: &EvidenceTools<J, K, V>,
) -> (r: Result<ProductSettlementProof, String>)
    requires
        pay.ranges.ready(),
        can_check(pay.check),
        can_interpolate(pay.ladder),
        forall|s: &SZ, p: &PaymentRanges, q: &ProductSettlementRequest, e: &(Point, Point), d: &[u8; 32]|
            call_requires(pay.build, (s, p, q, e, d)),
        can_seal(*seal),
        can_deliver(*deliver),
        judges_shares(evidence.valid),
        decides(evidence.known),
        can_verify(evidence.verify),
    ensures
        exists|steps: SettlementSteps<T, SZ, SL, L, Lv, SD, D, Dv, SP>| #[trigger]
            settlement_run(
                old(parties)@,
                final(parties)@,
                frost_public,
                request,
                *pay,
                *seal,
                *deliver,
                *evidence,
                steps,
                r,
            ),
        r matches Ok(proved) ==> {
            let handoff = proved.handoff;
            &&& old(parties)@.len() == COMMITTEE_SIZE
            &&& request.execution.planned() == Ok::<Seq<u8>, Seq<char>>(handoff.job_id@)
            &&& handoff.job_id == request.job_id
            &&& checks(pay.check, request.quote_verification, Ok(handoff.quote_digest@))
            &&& handoff.securities_reserve@ == point_sum(
                handoff.instruction.amount_commitment@,
                handoff.securities_remainder@,
            )
            &&& handoff.cash_reserve@ == point_sum(handoff.cash_commitment@, handoff.cash_remainder@)
            &&& handoff.frost_public == frost_public
            &&& handoff.execution_context is None
            &&& handoff.typed_authorization is None
            &&& handoff.typed_pq_authorization is None
            &&& proved.execution_node_keys@.len() == COMMITTEE_SIZE
        },
{
    let ghost before = parties@;
    let ghost mut steps: SettlementSteps<T, SZ, SL, L, Lv, SD, D, Dv, SP> = arbitrary();
    let instructed = prove_instruction(parties, &request, &pay.ranges, &pay.check, &pay.ladder, &pay.build);
    proof {
        steps = SettlementSteps { instruction: instructed, authorized: parties@, ..steps };
    }
    let instruction = match instructed {
        Err(e) => {
            let r = Err(e);
            assert(settlement_run(before, parties@, frost_public, request, *pay, *seal, *deliver, *evidence, steps, r));
            return r;
        },
        Ok(instruction) => instruction,
    };
    assert(request.refusal() is None);
    let ghost public = frost_public;
    let paid = sign_payment(parties, request.now, frost_public, &instruction, seal);
    proof {
        steps = SettlementSteps { payment: paid, sealed: parties@, ..steps };
    }
    let payment = match paid {
        Err(e) => {
            let r = Err(e);
            assert(settlement_run(before, parties@, public, request, *pay, *seal, *deliver, *evidence, steps, r));
            return r;
        },
        Ok(payment) => payment,
    };
    if parties.len() != COMMITTEE_SIZE {
        let r = Err("product settlement proof requires exactly seven parties".to_owned());
        assert(settlement_run(before, parties@, public, request, *pay, *seal, *deliver, *evidence, steps, r));
        return r;
    }
    let ghost sealed = told(parties@);
    let r = prove_signed_settlement(parties, request, payment, deliver, evidence);
    proof {
        let behind = choose|behind: SignedSteps<SL, L, Lv, SD, D, Dv, SP>| #[trigger]
            signed_steps(sealed, told(parties@), request, payment, *deliver, *evidence, behind, r);
        steps = SettlementSteps { behind, ..steps };
        assert(settlement_run(before, parties@, public, request, *pay, *seal, *deliver, *evidence, steps, r));
    }
    r
}

/// A settlement that was proved hands over the payment that the quorum authorized: the
/// committee signed its digest under the keys that are handed over, the venue accepted
/// it, and its price is the one that was held against the limit.
pub proof fn proved_settlement_was_signed<
    T: ProofPartyRpc,
    SZ,
    SL,
    SD,
    SP,
    A: CommitteeProof<SZ, PaymentRanges>,
    C: Fn(&QuoteVerificationBundle) -> Result<[u8; 32], String>,
    Fl: Fn(&Vec<HandleEvaluation>) -> Result<Point, String>,
    Fb: Fn(&SZ, &PaymentRanges, &ProductSettlementRequest, &(Point, Point), &[u8; 32]) -> Result<PaymentDraft,
        String>,
    R: Fn(&mut Vec<T>, &Vec<u8>) -> Result<Vec<u8>, String>,
    G: Fn(&mut Vec<T>, &Vec<u8>, &Vec<u8>, &Vec<u8>) -> Result<HybridSignature, String>,
    W: Fn(&SettlementInstruction<SZ>, &HybridSignature) -> Vec<u8>,
    U: Fn(&SignedInstruction, &Vec<u8>, &Vec<u8>, u64) -> Result<(), String>,
    X: Fn(&ProductSettlementRequest, &Point) -> [u8; 32],
    L: CommitteeProof<SL, ThresholdRangeProof>,
    Lv: Fn(&SL, &ThresholdRangeProof) -> Result<(), String>,
    Lf: Fn(&SignedInstruction) -> VerifiedProof<L, Lv>,
    D: CommitteeProof<SD, DvpProofs>,
    Dv: Fn(&SD, &DvpProofs) -> bool,
    Df: Fn(&SignedInstruction) -> VerifiedProof<D, Dv>,
    M: Fn(&SD) -> DvpCommitments,
    P: CommitteeProof<SP, ThresholdRangeProof>,
    Pv: Fn(&SP, &ThresholdRangeProof) -> bool,
    J: Fn(&Value) -> Result<(), String>,
    K: Fn(&Vec<u8>) -> bool,
    V: Fn(&VerifyingKey, &Vec<u8>, &Signature) -> bool,
>(
    before: Seq<T>,
    after: Seq<T>,
    public: Vec<u8>,
    request: ProductSettlementRequest,
    pay: PaymentTools<A, C, Fl, Fb>,
    seal: SigningTools<R, G, W, U>,
    deliver: DeliveryTools<X, Lf, Df, M, P, Pv>,
    evidence: EvidenceTools<J, K, V>,
    steps: SettlementSteps<T, SZ, SL, L, Lv, SD, D, Dv, SP>,
    proved: ProductSettlementProof,
)
    requires
        settlement_run(before, after, public, request, pay, seal, deliver, evidence, steps, Ok(proved)),
    ensures
        proved.handoff.frost_public == public,
        proved.handoff.pq_committee is Some,
        steps.instruction is Ok,
        ({
            let instruction = steps.instruction->Ok_0;
            let handed = proved.handoff.instruction;
            let policy = proved.handoff.pq_committee->0;
            &&& handed == signed_instruction(instruction, handed.wire)
            &&& handed.payer_handle == request.endpoints(instruction.maker_handle).0
            &&& handed.payee_handle == request.endpoints(instruction.maker_handle).1
            &&& instruction.payment == instruction.draft.payment(
                request,
                instruction.maker_handle,
                proved.handoff.quote_digest,
            )
            &&& call_ensures(seal.accept, (&handed, &public, &policy, request.now), Ok::<(), String>(()))
            &&& exists|middle: Seq<T>, message: Vec<u8>, signature: HybridSignature|
                message@ == instruction.payment.digest@ && #[trigger] committee_signed(
                    seal.sign,
                    middle,
                    message,
                    public,
                    policy,
                    Ok(signature),
                ) && call_ensures(seal.seal, (&instruction, &signature), handed.wire)
            &&& limit_step(
                told(steps.sealed),
                steps.behind.one,
                request,
                handed.price_commitment@,
                steps.behind.context@,
                steps.behind.limit_by,
                steps.behind.limit,
            )
            &&& steps.behind.limit is Ok
        }),
{
}

} // verus!
