//! Assembling a settlement with the committee: its payment, the evidence that the
//! committee ran what was proved, and its final authorization.

use vstd::prelude::*;
use crate::application_crypto::{answers, can_verify, Signature, VerifyingKey};
use crate::bytes::zero32;
use crate::committee_proof::{traced, CommitteeProof, ProofNames, Trace};
use crate::coordinator::{
    all_parties, are_parties, answered, ask_one, asked, asked_agrees, committee, decided, demand_refusal, error_of,
    job_json, job_params, signing_quorum, told, Call, Demand, ProofPartyRpc, COMMITTEE_SIZE,
};
use crate::group::{Point, Scalar};
use crate::json::{Json, Value};
use crate::oracle::decides;
use crate::order::{
    encode_execution_attestations, encoded_executions, execution_lane, executions, executions_by_node, lane_authentic,
    lane_refused, Execution, NodeExecutionAttestation,
};
use crate::pretrade::PretradeAcknowledgement;
use crate::product_execution::{
    all_attest, attests, certified_job, collect_executions, executions_asked, job_of_lane, AttestedExecution,
};
use crate::proof_codec::{encode_threshold_range, ThresholdRangeProof};
use crate::proof_quote_rounds::Leg;
use crate::proof_rounds::HandleEvaluation;
use crate::proof_state::signing_job_of;
use crate::quote_codec::{can_check, checks, QuoteVerificationBundle};
use crate::settlement::{
    authorize_typed, authorize_zkpi, check_certified, check_maker_handle, claim_json, collect_opening,
    evaluations_read, evaluations_refusal, judges_shares, maker_handle_points, share_refusal, typed_json, values_said,
    zkpi_json, PartialPayment, ProductSettlementRequest, TypedSettlement,
};
use crate::settlement_proofs::{zkpi_named, zkpi_names};

verus! {

/// Whether values are the answers.
pub open spec fn values_answered(outcomes: Seq<Result<Json, Seq<char>>>, values: Seq<Value>) -> bool {
    &&& values.len() == outcomes.len()
    &&& forall|i: int| #![trigger values[i]] 0 <= i < values.len() ==> outcomes[i] == Ok::<Json, Seq<char>>(values[i]@)
}

/// Asks the targets in turn, up to the first that refuses, and keeps their answers.
#[verifier::loop_isolation(false)]
pub fn collect_answers<T: ProofPartyRpc>(
    parties: &mut Vec<T>,
    targets: &Vec<usize>,
    method: &str,
    params: &Value,
) -> (r: Result<Vec<Value>, String>)
    requires
        are_parties(targets@, old(parties)@.len()),
    ensures
        final(parties)@.len() == old(parties)@.len(),
        exists|outcomes: Seq<Result<Json, Seq<char>>>|
            #![trigger asked(told(old(parties)@), targets@, method@, params@, outcomes, outcomes.len())]
            told(final(parties)@) == asked(told(old(parties)@), targets@, method@, params@, outcomes, outcomes.len())
                && decided(
                outcomes,
                targets@.len(),
                |o: Result<Json, Seq<char>>| demand_refusal(o, Demand::Answer, ""@),
                error_of(r),
            ) && (r matches Ok(values) ==> values_answered(outcomes, values@)),
{
    let ghost start = told(parties@);
    let ghost check = |o: Result<Json, Seq<char>>| demand_refusal(o, Demand::Answer, ""@);
    let ghost mut outcomes: Seq<Result<Json, Seq<char>>> = Seq::empty();
    let mut values: Vec<Value> = Vec::new();
    let mut i: usize = 0;
    while i < targets.len()
        invariant
            i <= targets@.len(),
            parties@.len() == old(parties)@.len(),
            outcomes.len() == i,
            told(parties@) == asked(start, targets@, method@, params@, outcomes, i as nat),
            forall|j: int| 0 <= j < i ==> check(#[trigger] outcomes[j]) is None,
            values_answered(outcomes, values@),
        decreases targets@.len() - i,
    {
        let answer = ask_one(parties, targets[i], method, params);
        proof {
            let more = outcomes.push(answered(answer));
            asked_agrees(start, targets@, method@, params@, outcomes, more, i as nat);
            outcomes = more;
            assert(told(parties@) == asked(start, targets@, method@, params@, outcomes, outcomes.len()));
            assert(outcomes.last() == answered(answer));
        }
        match answer {
            Err(e) => {
                return Err(e);
            },
            Ok(value) => {
                values.push(value);
            },
        }
        i = i + 1;
    }
    Ok(values)
}

/// Whether any evaluations can be interpolated to a point.
pub open spec fn can_interpolate<Fl: Fn(&Vec<HandleEvaluation>) -> Result<Point, String>>(ladder: Fl) -> bool {
    forall|points: &Vec<HandleEvaluation>| call_requires(ladder, (points,))
}

/// Whether a handle may be that of the winning Maker: the interpolation of the
/// evaluations of the whole committee, neither nobody nor the Taker.
pub open spec fn maker_found<Fl: Fn(&Vec<HandleEvaluation>) -> Result<Point, String>>(
    ladder: Fl,
    taker: Seq<u8>,
    values: Seq<Json>,
    maker: Point,
) -> bool {
    &&& evaluations_refusal(values, values.len()) is None
    &&& exists|points: Vec<HandleEvaluation>|
        evaluations_read(values, points@) && #[trigger] call_ensures(ladder, (&points,), Ok::<Point, String>(maker))
    &&& maker@ != zero32()
    &&& maker@ != taker
}

/// Whether no winning Maker is found, in these words.
pub open spec fn maker_missing<Fl: Fn(&Vec<HandleEvaluation>) -> Result<Point, String>>(
    ladder: Fl,
    taker: Seq<u8>,
    values: Seq<Json>,
    e: String,
) -> bool {
    ||| evaluations_refusal(values, values.len()) == Some(e@)
    ||| {
        &&& evaluations_refusal(values, values.len()) is None
        &&& exists|points: Vec<HandleEvaluation>, outcome: Result<Point, String>|
            evaluations_read(values, points@) && #[trigger] call_ensures(ladder, (&points,), outcome) && match outcome {
                Err(f) => f == e,
                Ok(maker) => {
                    &&& maker@ == zero32() || maker@ == taker
                    &&& e@ == "winning Maker and Taker handles must be distinct non-identity points"@
                },
            }
    }
}

/// Whether the answers of the committee give the winning Maker, or what is said instead.
pub open spec fn maker_outcome<Fl: Fn(&Vec<HandleEvaluation>) -> Result<Point, String>>(
    ladder: Fl,
    taker: Seq<u8>,
    outcomes: Seq<Result<Json, Seq<char>>>,
    r: Result<(Point, Vec<Value>), String>,
) -> bool {
    match r {
        Ok((maker, values)) => {
            &&& decided(outcomes, COMMITTEE_SIZE as nat, |o: Result<Json, Seq<char>>| demand_refusal(o,
                Demand::Answer, ""@), None)
            &&& values_answered(outcomes, values@)
            &&& maker_found(ladder, taker, values_said(values@), maker)
        },
        Err(e) => {
            ||| decided(outcomes, COMMITTEE_SIZE as nat, |o: Result<Json, Seq<char>>| demand_refusal(o,
                Demand::Answer, ""@), Some(e@))
            ||| exists|values: Vec<Value>| #[trigger]
                values_answered(outcomes, values@) && maker_missing(ladder, taker, values_said(values@), e)
        },
    }
}

/// Finds the handle of the winning Maker from the evaluations of the whole
/// committee. `ladder` interpolates them.
pub fn find_maker<T: ProofPartyRpc, Fl: Fn(&Vec<HandleEvaluation>) -> Result<Point, String>>(
    parties: &mut Vec<T>,
    job: &[u8; 32],
    taker: &Point,
    ladder: &Fl,
) -> (r: Result<(Point, Vec<Value>), String>)
    requires
        old(parties)@.len() == COMMITTEE_SIZE,
        can_interpolate(*ladder),
    ensures
        final(parties)@.len() == COMMITTEE_SIZE,
        exists|outcomes: Seq<Result<Json, Seq<char>>>|
            #![trigger asked(
                told(old(parties)@),
                committee(),
                "maker_handle_evaluation"@,
                job_json(job@),
                outcomes,
                outcomes.len(),
            )]
            told(final(parties)@) == asked(
                told(old(parties)@),
                committee(),
                "maker_handle_evaluation"@,
                job_json(job@),
                outcomes,
                outcomes.len(),
            ) && maker_outcome(*ladder, taker@, outcomes, r),
{
    let ghost before = told(parties@);
    let everyone = all_parties();
    let params = job_params(job);
    let collected = collect_answers(parties, &everyone, "maker_handle_evaluation", &params);
    let ghost outcomes = choose|outcomes: Seq<Result<Json, Seq<char>>>|
        #![trigger asked(before, committee(), "maker_handle_evaluation"@, job_json(job@), outcomes, outcomes.len())]
        told(parties@) == asked(
            before,
            committee(),
            "maker_handle_evaluation"@,
            job_json(job@),
            outcomes,
            outcomes.len(),
        ) && decided(outcomes, COMMITTEE_SIZE as nat, |o: Result<Json, Seq<char>>| demand_refusal(o, Demand::Answer,
            ""@), error_of(collected)) && (collected matches Ok(
            values,
        ) ==> values_answered(outcomes, values@));
    assert(told(parties@) == asked(
        before,
        committee(),
        "maker_handle_evaluation"@,
        job_json(job@),
        outcomes,
        outcomes.len(),
    ));
    let values = match collected {
        Err(e) => {
            return Err(e);
        },
        Ok(values) => values,
    };
    assert(values_answered(outcomes, values@));
    let points = match maker_handle_points(&values) {
        Err(e) => {
            assert(values_said(values@).len() == values@.len());
            assert(maker_missing(*ladder, taker@, values_said(values@), e));
            return Err(e);
        },
        Ok(points) => points,
    };
    assert(values_said(values@).len() == values@.len());
    let found = ladder(&points);
    assert(call_ensures(*ladder, (&points,), found));
    match found {
        Err(e) => {
            assert(maker_missing(*ladder, taker@, values_said(values@), e));
            Err(e)
        },
        Ok(maker) => match check_maker_handle(&maker, taker) {
            Err(e) => {
                assert(call_ensures(*ladder, (&points,), Ok::<Point, String>(maker)));
                assert(maker_missing(*ladder, taker@, values_said(values@), e));
                Err(e)
            },
            Ok(_) => {
                assert(call_ensures(*ladder, (&points,), Ok::<Point, String>(maker)));
                assert(maker_found(*ladder, taker@, values_said(values@), maker));
                Ok((maker, values))
            },
        },
    }
}

/// The range proofs of a payment.
#[derive(Debug)]
pub struct PaymentRanges {
    pub amount: ThresholdRangeProof,
    pub price: ThresholdRangeProof,
}

/// What a payment commits to, and the digest of its whole.
#[derive(Clone, Copy, Debug)]
pub struct PaymentDraft {
    pub digest: [u8; 64],
    pub amount_commitment: Point,
    pub price_commitment: Point,
    pub asset_commitment: Point,
    pub asset_blinding: Scalar,
}

impl PaymentDraft {
    /// The payment of a settlement: between the ends that the direction of the limit
    /// fixes, until the request's deadline, once for its job, and bound to its quote.
    pub open spec fn payment(self, request: ProductSettlementRequest, maker: Point, quote_digest: [u8; 32])
        -> PartialPayment {
        PartialPayment {
            digest: self.digest,
            asset_commitment: self.asset_commitment,
            payer_handle: request.endpoints(maker).0,
            payee_handle: request.endpoints(maker).1,
            deadline: request.deadline,
            nonce: request.job_id,
            quote_digest: Some(quote_digest),
        }
    }
}

/// A payment that the signing quorum authorized, and what it was made of.
#[derive(Debug)]
pub struct SettlementInstruction<St> {
    pub quote_digest: [u8; 32],
    pub maker_handle: Point,
    pub statement: St,
    pub ranges: PaymentRanges,
    pub draft: PaymentDraft,
    pub payment: PartialPayment,
}

/// The answers that a payment was made of.
pub ghost struct InstructionTrace {
    pub handles: Seq<Result<Json, Seq<char>>>,
    pub proof: Trace,
    pub params: Json,
    pub authorizations: Seq<Result<Json, Seq<char>>>,
}

/// A proof that nobody was asked for.
pub open spec fn untouched() -> Trace {
    Trace {
        evaluations: Seq::empty(),
        relations: Seq::empty(),
        rounds: Seq::empty(),
        responses: Seq::empty(),
        bind_params: Json::Null,
        challenge: Seq::empty(),
    }
}

/// The calls after the three steps of a payment.
pub open spec fn instruction_traced(
    before: Seq<Seq<Call>>,
    names: ProofNames<'_>,
    job: Seq<u8>,
    trace: InstructionTrace,
) -> Seq<Seq<Call>> {
    let one = asked(
        before,
        committee(),
        "maker_handle_evaluation"@,
        job_json(job),
        trace.handles,
        trace.handles.len(),
    );
    let two = traced(one, names, job, job_json(job), trace.proof);
    asked(
        two,
        signing_quorum(),
        "authorize_zkpi"@,
        trace.params,
        trace.authorizations,
        trace.authorizations.len(),
    )
}

/// Whether a payment may be drafted of a statement and its ranges, from the payer to
/// the payee that the direction of the limit fixes, with the proof of the quote.
pub open spec fn payment_built<
    St,
    Fb: Fn(&St, &PaymentRanges, &ProductSettlementRequest, &(Point, Point), &[u8; 32]) -> Result<PaymentDraft,
        String>,
>(
    build: Fb,
    request: ProductSettlementRequest,
    maker: Point,
    quote_digest: [u8; 32],
    made: St,
    ranges: PaymentRanges,
    outcome: Result<PaymentDraft, String>,
) -> bool {
    exists|endpoints: (Point, Point)|
        endpoints == request.endpoints(maker) && #[trigger] call_ensures(
            build,
            (&made, &ranges, &request, &endpoints, &quote_digest),
            outcome,
        )
}

/// Whether a payment stops behind its proof, in these words, and what it came to.
pub open spec fn authorization_outcome<
    St,
    Fb: Fn(&St, &PaymentRanges, &ProductSettlementRequest, &(Point, Point), &[u8; 32]) -> Result<PaymentDraft,
        String>,
>(
    build: Fb,
    request: ProductSettlementRequest,
    maker: Point,
    quote_digest: [u8; 32],
    made: St,
    ranges: PaymentRanges,
    trace: InstructionTrace,
    r: Result<(PaymentDraft, PartialPayment), String>,
) -> bool {
    if !ranges.amount.bounded() || !ranges.price.bounded() {
        &&& trace.authorizations.len() == 0
        &&& r matches Err(e) && e@ == "threshold range proof shape is outside the wire bound"@
    } else {
        exists|built: Result<PaymentDraft, String>| #[trigger]
            payment_built(build, request, maker, quote_digest, made, ranges, built) && match built {
                Err(e) => trace.authorizations.len() == 0 && r == Err::<(PaymentDraft, PartialPayment), String>(e),
                Ok(draft) => {
                    &&& trace.params == zkpi_json(
                        request.job_id@,
                        draft.payment(request, maker, quote_digest),
                        signing_job_of(draft.digest@),
                        quote_digest@,
                        ranges.amount.wire(),
                        ranges.price.wire(),
                    )
                    &&& decided(trace.authorizations, 3, |o: Result<Json, Seq<char>>| demand_refusal(o,
                        Demand::Answer, ""@), error_of(r))
                    &&& r matches Ok(p) ==> p == (draft, draft.payment(request, maker, quote_digest))
                },
            }
    }
}

/// What came of making the payment of a settlement.
pub open spec fn instruction_outcome<
    St,
    A: CommitteeProof<St, PaymentRanges>,
    Fl: Fn(&Vec<HandleEvaluation>) -> Result<Point, String>,
    Fb: Fn(&St, &PaymentRanges, &ProductSettlementRequest, &(Point, Point), &[u8; 32]) -> Result<PaymentDraft,
        String>,
>(
    by: A,
    ladder: Fl,
    build: Fb,
    names: ProofNames<'_>,
    request: ProductSettlementRequest,
    quote_digest: [u8; 32],
    trace: InstructionTrace,
    r: Result<SettlementInstruction<St>, String>,
) -> bool {
    exists|found: Result<(Point, Vec<Value>), String>| #[trigger]
        maker_outcome(ladder, request.taker_handle@, trace.handles, found) && match found {
            Err(e) => {
                &&& trace.proof == untouched()
                &&& trace.authorizations.len() == 0
                &&& r == Err::<SettlementInstruction<St>, String>(e)
            },
            Ok((maker, values)) => instruction_proved(
                by,
                build,
                names,
                request,
                quote_digest,
                maker,
                values_said(values@),
                trace,
                r,
            ),
        }
}

/// What came of making the payment of a settlement, with its winning Maker.
pub open spec fn instruction_proved<
    St,
    A: CommitteeProof<St, PaymentRanges>,
    Fb: Fn(&St, &PaymentRanges, &ProductSettlementRequest, &(Point, Point), &[u8; 32]) -> Result<PaymentDraft,
        String>,
>(
    by: A,
    build: Fb,
    names: ProofNames<'_>,
    request: ProductSettlementRequest,
    quote_digest: [u8; 32],
    maker: Point,
    handles: Seq<Json>,
    trace: InstructionTrace,
    r: Result<SettlementInstruction<St>, String>,
) -> bool {
    exists|proved: Result<(St, PaymentRanges), String>| #[trigger]
        by.outcome(None, names, request.job_id@, Some(handles), trace.proof, proved) && match proved {
            Err(e) => trace.authorizations.len() == 0 && r == Err::<SettlementInstruction<St>, String>(e),
            Ok((made, ranges)) => exists|paid: Result<(PaymentDraft, PartialPayment), String>| #[trigger]
                authorization_outcome(build, request, maker, quote_digest, made, ranges, trace, paid) && match paid {
                    Err(e) => r == Err::<SettlementInstruction<St>, String>(e),
                    Ok((draft, payment)) => r == Ok::<SettlementInstruction<St>, String>(
                        instruction_of(quote_digest, maker, made, ranges, draft, payment),
                    ),
                },
        }
}

/// The instruction of its parts.
pub open spec fn instruction_of<St>(
    quote_digest: [u8; 32],
    maker_handle: Point,
    statement: St,
    ranges: PaymentRanges,
    draft: PaymentDraft,
    payment: PartialPayment,
) -> SettlementInstruction<St> {
    SettlementInstruction { quote_digest, maker_handle, statement, ranges, draft, payment }
}

fn authorize_payment<
    T: ProofPartyRpc,
    St,
    Fb: Fn(&St, &PaymentRanges, &ProductSettlementRequest, &(Point, Point), &[u8; 32]) -> Result<PaymentDraft,
        String>,
>(
    parties: &mut Vec<T>,
    request: &ProductSettlementRequest,
    maker: Point,
    quote_digest: &[u8; 32],
    made: &St,
    ranges: &PaymentRanges,
    build: &Fb,
    Ghost(given): Ghost<InstructionTrace>,
) -> (r: (Result<(PaymentDraft, PartialPayment), String>, Ghost<InstructionTrace>))
    requires
        old(parties)@.len() == COMMITTEE_SIZE,
        given.authorizations.len() == 0,
        forall|s: &St, p: &PaymentRanges, q: &ProductSettlementRequest, e: &(Point, Point), d: &[u8; 32]|
            call_requires(*build, (s, p, q, e, d)),
    ensures
        final(parties)@.len() == COMMITTEE_SIZE,
        r.1@.handles == given.handles,
        r.1@.proof == given.proof,
        told(final(parties)@) == asked(
            told(old(parties)@),
            signing_quorum(),
            "authorize_zkpi"@,
            r.1@.params,
            r.1@.authorizations,
            r.1@.authorizations.len(),
        ),
        authorization_outcome(*build, *request, maker, *quote_digest, *made, *ranges, r.1@, r.0),
{
    let ghost before = told(parties@);
    let amount_range = match encode_threshold_range(&ranges.amount) {
        Err(e) => {
            return (Err(e), Ghost(given));
        },
        Ok(wire) => wire,
    };
    let price_range = match encode_threshold_range(&ranges.price) {
        Err(e) => {
            return (Err(e), Ghost(given));
        },
        Ok(wire) => wire,
    };
    let endpoints = request.cash_endpoints(maker);
    let built = build(made, ranges, request, &endpoints, quote_digest);
    assert(call_ensures(*build, (made, ranges, request, &endpoints, quote_digest), built));
    assert(payment_built(*build, *request, maker, *quote_digest, *made, *ranges, built));
    let draft = match built {
        Err(e) => {
            return (Err(e), Ghost(given));
        },
        Ok(draft) => draft,
    };
    let (payer_handle, payee_handle) = endpoints;
    let payment = PartialPayment {
        digest: draft.digest,
        asset_commitment: draft.asset_commitment,
        payer_handle,
        payee_handle,
        deadline: request.deadline,
        nonce: request.job_id,
        quote_digest: Some(*quote_digest),
    };
    assert(payment == draft.payment(*request, maker, *quote_digest));
    let outcome = authorize_zkpi(parties, &request.job_id, &payment, &amount_range, &price_range);
    let ghost mut trace = given;
    proof {
        let params = zkpi_json(
            request.job_id@,
            payment,
            signing_job_of(payment.digest@),
            quote_digest@,
            amount_range@,
            price_range@,
        );
        let outcomes = choose|outcomes: Seq<Result<Json, Seq<char>>>|
            #![trigger asked(before, signing_quorum(), "authorize_zkpi"@, params, outcomes, outcomes.len())]
            told(parties@) == asked(before, signing_quorum(), "authorize_zkpi"@, params, outcomes, outcomes.len())
                && decided(outcomes, 3, |o: Result<Json, Seq<char>>| demand_refusal(o, Demand::Answer, ""@),
                    error_of(outcome));
        trace = InstructionTrace { params, authorizations: outcomes, ..given };
    }
    assert(payment_built(*build, *request, maker, *quote_digest, *made, *ranges, Ok::<PaymentDraft, String>(draft)));
    match outcome {
        Err(e) => (Err(e), Ghost(trace)),
        Ok(_) => (Ok((draft, payment)), Ghost(trace)),
    }
}

/// What came of making the payment of a settlement, from one history of calls to
/// another: nobody is asked before the request and its quote are checked.
pub open spec fn instruction_step<
    St,
    A: CommitteeProof<St, PaymentRanges>,
    C: Fn(&QuoteVerificationBundle) -> Result<[u8; 32], String>,
    Fl: Fn(&Vec<HandleEvaluation>) -> Result<Point, String>,
    Fb: Fn(&St, &PaymentRanges, &ProductSettlementRequest, &(Point, Point), &[u8; 32]) -> Result<PaymentDraft,
        String>,
>(
    before: Seq<Seq<Call>>,
    after: Seq<Seq<Call>>,
    request: ProductSettlementRequest,
    by: A,
    check: C,
    ladder: Fl,
    build: Fb,
    r: Result<SettlementInstruction<St>, String>,
) -> bool {
    if before.len() != COMMITTEE_SIZE {
        &&& r matches Err(e) && e@ == "product settlement proof requires exactly seven parties"@
        &&& after == before
    } else if request.refusal() is Some {
        &&& r matches Err(e) && Some(e@) == request.refusal()
        &&& after == before
    } else if !request.quote_verification.registry_ok() {
        &&& r matches Err(e) && e@ == "quote registry size is outside the settlement bound"@
        &&& after == before
    } else {
        ||| {
            &&& r matches Err(e) && checks(check, request.quote_verification, Err(e@))
            &&& after == before
        }
        ||| exists|quote_digest: [u8; 32], names: ProofNames<'static>, trace: InstructionTrace|
            #![trigger
                instruction_traced(before, names, request.job_id@, trace),
                checks(check, request.quote_verification, Ok(quote_digest@))
            ]
            checks(check, request.quote_verification, Ok(quote_digest@)) && zkpi_named(names)
                && after == instruction_traced(before, names, request.job_id@, trace) && instruction_outcome(
                by,
                ladder,
                build,
                names,
                request,
                quote_digest,
                trace,
                r,
            )
    }
}

/// Makes the payment of a settlement: checks the request and its quote, finds the
/// winning Maker, proves the ranges of the payment with the committee, and has the
/// signing quorum authorize its signature. `check` verifies the quote, `ladder`
/// interpolates the Maker's handle, and `build` makes the payment.
pub fn prove_instruction<
    T: ProofPartyRpc,
    St,
    A: CommitteeProof<St, PaymentRanges>,
    C: Fn(&QuoteVerificationBundle) -> Result<[u8; 32], String>,
    Fl: Fn(&Vec<HandleEvaluation>) -> Result<Point, String>,
    Fb: Fn(&St, &PaymentRanges, &ProductSettlementRequest, &(Point, Point), &[u8; 32]) -> Result<PaymentDraft,
        String>,
>(
    parties: &mut Vec<T>,
    request: &ProductSettlementRequest,
    by: &A,
    check: &C,
    ladder: &Fl,
    build: &Fb,
) -> (r: Result<SettlementInstruction<St>, String>)
    requires
        by.ready(),
        can_check(*check),
        can_interpolate(*ladder),
        forall|s: &St, p: &PaymentRanges, q: &ProductSettlementRequest, e: &(Point, Point), d: &[u8; 32]|
            call_requires(*build, (s, p, q, e, d)),
    ensures
        final(parties)@.len() == old(parties)@.len(),
        instruction_step(
            told(old(parties)@),
            told(final(parties)@),
            *request,
            *by,
            *check,
            *ladder,
            *build,
            r,
        ),
{
    let ghost before = told(parties@);
    if parties.len() != COMMITTEE_SIZE {
        return Err("product settlement proof requires exactly seven parties".to_owned());
    }
    let quote_digest = match request.validate(check) {
        Err(e) => {
            return Err(e);
        },
        Ok(digest) => digest,
    };
    assert(checks(*check, request.quote_verification, Ok(quote_digest@)));
    let names = zkpi_names();
    let found = find_maker(parties, &request.job_id, &request.taker_handle, ladder);
    let ghost handles = choose|outcomes: Seq<Result<Json, Seq<char>>>|
        #![trigger asked(
            before,
            committee(),
            "maker_handle_evaluation"@,
            job_json(request.job_id@),
            outcomes,
            outcomes.len(),
        )]
        told(parties@) == asked(
            before,
            committee(),
            "maker_handle_evaluation"@,
            job_json(request.job_id@),
            outcomes,
            outcomes.len(),
        ) && maker_outcome(*ladder, request.taker_handle@, outcomes, found);
    let ghost mut trace = InstructionTrace {
        handles,
        proof: untouched(),
        params: Json::Null,
        authorizations: Seq::empty(),
    };
    assert(told(parties@) == instruction_traced(before, names, request.job_id@, trace));
    assert(maker_outcome(*ladder, request.taker_handle@, trace.handles, found));
    let ghost maker_given = found;
    let (maker, values) = match found {
        Err(e) => {
            assert(instruction_outcome(
                *by,
                *ladder,
                *build,
                names,
                *request,
                quote_digest,
                trace,
                Err::<SettlementInstruction<St>, String>(e),
            ));
            return Err(e);
        },
        Ok(found) => found,
    };
    let ghost one = told(parties@);
    let params = job_params(&request.job_id);
    let proved = by.prove(parties, names, &request.job_id, &params, Some(&values), None);
    let ghost proof_given = proved;
    proof {
        let step = choose|step: Trace|
            #![trigger traced(one, names, request.job_id@, params@, step)]
            told(parties@) == traced(one, names, request.job_id@, params@, step) && by.outcome(
                None,
                names,
                request.job_id@,
                Some(values_said(values@)),
                step,
                proved,
            );
        trace = InstructionTrace { proof: step, ..trace };
        assert(told(parties@) == instruction_traced(before, names, request.job_id@, trace));
        assert(by.outcome(
            None,
            names,
            request.job_id@,
            Some(values_said(values@)),
            trace.proof,
            proof_given,
        ));
        assert(maker_outcome(*ladder, request.taker_handle@, trace.handles, maker_given));
    }
    let (made, ranges) = match proved {
        Err(e) => {
            assert(instruction_proved(
                *by,
                *build,
                names,
                *request,
                quote_digest,
                maker,
                values_said(values@),
                trace,
                Err::<SettlementInstruction<St>, String>(e),
            ));
            assert(instruction_outcome(
                *by,
                *ladder,
                *build,
                names,
                *request,
                quote_digest,
                trace,
                Err::<SettlementInstruction<St>, String>(e),
            ));
            return Err(e);
        },
        Ok(proved) => proved,
    };
    let ghost two = told(parties@);
    let (paid, last) = authorize_payment(
        parties,
        request,
        maker,
        &quote_digest,
        &made,
        &ranges,
        build,
        Ghost(trace),
    );
    proof {
        trace = last@;
        assert(told(parties@) == instruction_traced(before, names, request.job_id@, trace));
        assert(maker_outcome(*ladder, request.taker_handle@, trace.handles, maker_given));
        assert(by.outcome(
            None,
            names,
            request.job_id@,
            Some(values_said(values@)),
            trace.proof,
            proof_given,
        ));
        assert(authorization_outcome(*build, *request, maker, quote_digest, made, ranges, trace, paid));
    }
    let r = match paid {
        Err(e) => Err(e),
        Ok((draft, payment)) => Ok(
            SettlementInstruction { quote_digest, maker_handle: maker, statement: made, ranges, draft, payment },
        ),
    };
    proof {
        assert(instruction_proved(
            *by,
            *build,
            names,
            *request,
            quote_digest,
            maker,
            values_said(values@),
            trace,
            r,
        ));
        assert(instruction_outcome(*by, *ladder, *build, names, *request, quote_digest, trace, r));
    }
    r
}

/// What the openings of a settlement are bound to, leg by leg: securities
/// delivered and refunded, cash delivered and refunded.
#[derive(Clone, Copy, Debug)]
pub struct OpeningContexts {
    pub securities_delivery: [u8; 32],
    pub securities_refund: [u8; 32],
    pub cash_delivery: [u8; 32],
    pub cash_refund: [u8; 32],
}

/// The legs of a settlement in the order in which they are opened.
pub open spec fn leg_at(at: int) -> Leg {
    if at == 0 {
        Leg::SecuritiesDelivery
    } else if at == 1 {
        Leg::SecuritiesRefund
    } else if at == 2 {
        Leg::CashDelivery
    } else {
        Leg::CashRefund
    }
}

/// Who opens a leg: the payer of the cash gets the securities and the rest of the
/// cash, the payee the cash and the rest of the securities.
pub open spec fn recipient_at(at: int, payer: Point, payee: Point) -> Point {
    if at == 0 || at == 3 {
        payer
    } else {
        payee
    }
}

impl OpeningContexts {
    /// The context of a leg.
    pub open spec fn at(self, at: int) -> [u8; 32] {
        if at == 0 {
            self.securities_delivery
        } else if at == 1 {
            self.securities_refund
        } else if at == 2 {
            self.cash_delivery
        } else {
            self.cash_refund
        }
    }
}

/// The calls after asking the signing quorum for the first `count` legs.
pub open spec fn legs_asked(
    before: Seq<Seq<Call>>,
    job: Seq<u8>,
    payer: Point,
    payee: Point,
    legs: Seq<Seq<Result<Json, Seq<char>>>>,
    count: nat,
) -> Seq<Seq<Call>>
    decreases count,
{
    if count == 0 {
        before
    } else {
        asked(
            legs_asked(before, job, payer, payee, legs, (count - 1) as nat),
            signing_quorum(),
            "claim_opening_share"@,
            claim_json(job, leg_at(count - 1).name(), recipient_at(count - 1, payer, payee)@),
            legs[count - 1],
            legs[count - 1].len(),
        )
    }
}

proof fn legs_agree(
    before: Seq<Seq<Call>>,
    job: Seq<u8>,
    payer: Point,
    payee: Point,
    a: Seq<Seq<Result<Json, Seq<char>>>>,
    b: Seq<Seq<Result<Json, Seq<char>>>>,
    count: nat,
)
    requires
        count <= a.len(),
        count <= b.len(),
        forall|i: int| 0 <= i < count ==> #[trigger] a[i] == b[i],
    ensures
        legs_asked(before, job, payer, payee, a, count) == legs_asked(before, job, payer, payee, b, count),
    decreases count,
{
    if count > 0 {
        legs_agree(before, job, payer, payee, a, b, (count - 1) as nat);
        assert(a[count - 1] == b[count - 1]);
    }
}

/// Whether the shares of a leg come to this.
pub open spec fn leg_decided<J: Fn(&Value) -> Result<(), String>>(
    outcomes: Seq<Result<Json, Seq<char>>>,
    contexts: OpeningContexts,
    at: int,
    payer: Point,
    payee: Point,
    valid: J,
    error: Option<Seq<char>>,
) -> bool {
    decided(
        outcomes,
        3,
        |o: Result<Json, Seq<char>>| share_refusal(o, contexts.at(at)@, recipient_at(at, payer, payee)@, valid),
        error,
    )
}

/// Whether the first legs are opened.
pub open spec fn legs_opened<J: Fn(&Value) -> Result<(), String>>(
    legs: Seq<Seq<Result<Json, Seq<char>>>>,
    count: int,
    contexts: OpeningContexts,
    payer: Point,
    payee: Point,
    valid: J,
) -> bool {
    forall|i: int| 0 <= i < count ==> leg_decided(#[trigger] legs[i], contexts, i, payer, payee, valid, None)
}

/// Whether the openings of a settlement come to this.
pub open spec fn openings_outcome<J: Fn(&Value) -> Result<(), String>>(
    legs: Seq<Seq<Result<Json, Seq<char>>>>,
    contexts: OpeningContexts,
    payer: Point,
    payee: Point,
    valid: J,
    r: Result<Vec<Vec<Value>>, String>,
) -> bool {
    match r {
        Ok(openings) => {
            &&& legs.len() == 4
            &&& openings@.len() == 4
            &&& legs_opened(legs, 4, contexts, payer, payee, valid)
            &&& forall|i: int| 0 <= i < 4 ==> values_answered(legs[i], (#[trigger] openings@[i])@)
        },
        Err(e) => {
            &&& 0 < legs.len() <= 4
            &&& legs_opened(legs, legs.len() - 1, contexts, payer, payee, valid)
            &&& leg_decided(legs.last(), contexts, legs.len() - 1, payer, payee, valid, Some(e@))
        },
    }
}

/// Asks the signing quorum for its shares of the openings of a settlement, leg by leg.
#[verifier::loop_isolation(false)]
pub fn collect_openings<T: ProofPartyRpc, J: Fn(&Value) -> Result<(), String>>(
    parties: &mut Vec<T>,
    job: &[u8; 32],
    payer: &Point,
    payee: &Point,
    contexts: &OpeningContexts,
    valid: &J,
) -> (r: Result<Vec<Vec<Value>>, String>)
    requires
        old(parties)@.len() == COMMITTEE_SIZE,
        judges_shares(*valid),
    ensures
        final(parties)@.len() == COMMITTEE_SIZE,
        exists|legs: Seq<Seq<Result<Json, Seq<char>>>>|
            #![trigger legs_asked(told(old(parties)@), job@, *payer, *payee, legs, legs.len())]
            told(final(parties)@) == legs_asked(told(old(parties)@), job@, *payer, *payee, legs, legs.len())
                && openings_outcome(legs, *contexts, *payer, *payee, *valid, r),
{
    let ghost before = told(parties@);
    let ghost mut legs: Seq<Seq<Result<Json, Seq<char>>>> = Seq::empty();
    let mut openings: Vec<Vec<Value>> = Vec::new();
    let mut at: usize = 0;
    while at < 4
        invariant
            at <= 4,
            parties@.len() == COMMITTEE_SIZE,
            legs.len() == at,
            openings@.len() == at,
            told(parties@) == legs_asked(before, job@, *payer, *payee, legs, at as nat),
            legs_opened(legs, at as int, *contexts, *payer, *payee, *valid),
            forall|i: int| 0 <= i < at ==> values_answered(legs[i], (#[trigger] openings@[i])@),
        decreases 4 - at,
    {
        let (leg, context, recipient) = if at == 0 {
            (Leg::SecuritiesDelivery, contexts.securities_delivery, *payer)
        } else if at == 1 {
            (Leg::SecuritiesRefund, contexts.securities_refund, *payee)
        } else if at == 2 {
            (Leg::CashDelivery, contexts.cash_delivery, *payee)
        } else {
            (Leg::CashRefund, contexts.cash_refund, *payer)
        };
        let ghost one = told(parties@);
        let ghost earlier = legs;
        let outcome = collect_opening(parties, job, leg, &recipient, &context, valid);
        proof {
            let outcomes = choose|outcomes: Seq<Result<Json, Seq<char>>>|
                #![trigger asked(
                    one,
                    signing_quorum(),
                    "claim_opening_share"@,
                    claim_json(job@, leg.name(), recipient@),
                    outcomes,
                    outcomes.len(),
                )]
                told(parties@) == asked(
                    one,
                    signing_quorum(),
                    "claim_opening_share"@,
                    claim_json(job@, leg.name(), recipient@),
                    outcomes,
                    outcomes.len(),
                ) && decided(
                    outcomes,
                    3,
                    |o: Result<Json, Seq<char>>| share_refusal(o, context@, recipient@, *valid),
                    error_of(outcome),
                ) && (outcome matches Ok(shares) ==> shares@.len() == 3 && forall|i: int|
                    #![trigger shares@[i]]
                    0 <= i < 3 ==> outcomes[i] == Ok::<Json, Seq<char>>(shares@[i]@));
            legs = earlier.push(outcomes);
            legs_agree(before, job@, *payer, *payee, earlier, legs, at as nat);
            assert(legs[at as int] == outcomes);
            assert(told(parties@) == legs_asked(before, job@, *payer, *payee, legs, legs.len()));
            assert(leg_decided(legs[at as int], *contexts, at as int, *payer, *payee, *valid, error_of(outcome)));
            assert forall|i: int| 0 <= i < at implies leg_decided(
                #[trigger] legs[i],
                *contexts,
                i,
                *payer,
                *payee,
                *valid,
                None,
            ) by {
                assert(legs[i] == earlier[i]);
            }
            assert forall|i: int| 0 <= i < at implies values_answered(legs[i], (#[trigger] openings@[i])@) by {
                assert(legs[i] == earlier[i]);
            }
        }
        match outcome {
            Err(e) => {
                return Err(e);
            },
            Ok(shares) => {
                assert(values_answered(legs[at as int], shares@));
                openings.push(shares);
            },
        }
        at = at + 1;
    }
    Ok(openings)
}

/// The evidence of a settlement: the shares of its openings, and the receipts of
/// the run that was proved, with the keys that signed them.
#[derive(Debug)]
pub struct SettlementEvidence {
    pub openings: Vec<Vec<Value>>,
    pub execution_attestations: Vec<u8>,
    pub execution_node_keys: Vec<[u8; 32]>,
}

/// The answers that the evidence of a settlement was made of.
pub ghost struct EvidenceTrace {
    pub legs: Seq<Seq<Result<Json, Seq<char>>>>,
    pub executions: Seq<Result<Json, Seq<char>>>,
}

/// The calls after the evidence was asked for.
pub open spec fn evidence_traced(
    before: Seq<Seq<Call>>,
    request: ProductSettlementRequest,
    payer: Point,
    payee: Point,
    trace: EvidenceTrace,
) -> Seq<Seq<Call>> {
    let one = legs_asked(before, request.job_id@, payer, payee, trace.legs, trace.legs.len());
    if trace.executions.len() == 0 {
        one
    } else {
        executions_asked(one, request.execution, request.job_id@, trace.executions, trace.executions.len())
    }
}

/// The receipts among attested executions.
pub open spec fn receipts_of(found: Seq<AttestedExecution>) -> Seq<Execution> {
    found.map_values(|a: AttestedExecution| a.attestation@)
}

/// The keys among attested executions.
pub open spec fn keys_of(found: Seq<AttestedExecution>) -> Seq<VerifyingKey> {
    found.map_values(|a: AttestedExecution| VerifyingKey { bytes: a.key })
}

/// Whether receipts certify a job, or what is said instead.
pub open spec fn job_outcome<V: Fn(&VerifyingKey, &Vec<u8>, &Signature) -> bool>(
    verify: V,
    receipts: Seq<Execution>,
    keys: Seq<VerifyingKey>,
    order_digest: Seq<u8>,
    job: Result<Seq<u8>, Seq<char>>,
) -> bool {
    let sorted = executions_by_node(receipts);
    match job {
        Ok(id) => {
            &&& lane_authentic(verify, sorted, keys)
            &&& job_of_lane(execution_lane(receipts, order_digest)) == Ok::<Seq<u8>, Seq<char>>(id)
        },
        Err(e) => {
            ||| lane_refused(verify, sorted, keys) && e
                == "execution lane contains an unknown, duplicate, or invalid node"@
            ||| lane_authentic(verify, sorted, keys) && job_of_lane(execution_lane(receipts, order_digest)) == Err::<
                Seq<u8>,
                Seq<char>,
            >(e)
        },
    }
}

/// Whether the receipts of a run come to this wire: they certify the job that was proved.
pub open spec fn receipts_outcome<V: Fn(&VerifyingKey, &Vec<u8>, &Signature) -> bool>(
    verify: V,
    request: ProductSettlementRequest,
    found: Seq<AttestedExecution>,
    wire: Result<Seq<u8>, Seq<char>>,
) -> bool {
    exists|job: Result<Seq<u8>, Seq<char>>| #[trigger]
        job_outcome(verify, receipts_of(found), keys_of(found), request.execution.order_digest@, job) && match job {
            Err(e) => wire == Err::<Seq<u8>, Seq<char>>(e),
            Ok(id) => if id != request.job_id@ {
                wire == Err::<Seq<u8>, Seq<char>>("signed MPC execution receipts derive another proof job"@)
            } else {
                wire == encoded_executions(receipts_of(found))
            },
        }
}

/// What came of asking for the evidence of a settlement.
pub open spec fn evidence_outcome<
    J: Fn(&Value) -> Result<(), String>,
    K: Fn(&Vec<u8>) -> bool,
    V: Fn(&VerifyingKey, &Vec<u8>, &Signature) -> bool,
>(
    request: ProductSettlementRequest,
    contexts: OpeningContexts,
    payer: Point,
    payee: Point,
    valid: J,
    known: K,
    verify: V,
    width: nat,
    trace: EvidenceTrace,
    r: Result<SettlementEvidence, String>,
) -> bool {
    exists|opened: Result<Vec<Vec<Value>>, String>| #[trigger]
        openings_outcome(trace.legs, contexts, payer, payee, valid, opened) && match opened {
            Err(e) => trace.executions.len() == 0 && r == Err::<SettlementEvidence, String>(e),
            Ok(openings) => executions_outcome(request, known, verify, width, trace.executions, openings, r),
        }
}

/// What came of asking the nodes for the receipts of a run.
pub open spec fn executions_outcome<
    K: Fn(&Vec<u8>) -> bool,
    V: Fn(&VerifyingKey, &Vec<u8>, &Signature) -> bool,
>(
    request: ProductSettlementRequest,
    known: K,
    verify: V,
    width: nat,
    outcomes: Seq<Result<Json, Seq<char>>>,
    openings: Vec<Vec<Value>>,
    r: Result<SettlementEvidence, String>,
) -> bool {
    ||| {
        &&& 0 < outcomes.len() <= COMMITTEE_SIZE
        &&& r matches Err(e) && attests(
            outcomes.last(),
            request.execution,
            outcomes.len() - 1,
            known,
            verify,
            width,
            Err(e@),
        )
    }
    ||| exists|found: Seq<AttestedExecution>| #[trigger]
        all_attest(outcomes, request.execution, known, verify, width, found) && outcomes.len() == COMMITTEE_SIZE
            && found.len() == COMMITTEE_SIZE && match r {
            Err(e) => receipts_outcome(verify, request, found, Err(e@)),
            Ok(evidence) => {
                &&& receipts_outcome(verify, request, found, Ok(evidence.execution_attestations@))
                &&& evidence.openings == openings
                &&& evidence.execution_node_keys@.len() == COMMITTEE_SIZE
                &&& forall|i: int|
                    0 <= i < COMMITTEE_SIZE ==> #[trigger] evidence.execution_node_keys@[i] == found[i].key
            },
        }
}

fn check_receipts<V: Fn(&VerifyingKey, &Vec<u8>, &Signature) -> bool>(
    request: &ProductSettlementRequest,
    found: Vec<AttestedExecution>,
    verify: &V,
) -> (r: Result<(Vec<u8>, Vec<[u8; 32]>), String>)
    requires
        found@.len() == COMMITTEE_SIZE,
        can_verify(*verify),
    ensures
        match r {
            Ok((wire, raw_keys)) => {
                &&& receipts_outcome(*verify, *request, found@, Ok(wire@))
                &&& raw_keys@.len() == COMMITTEE_SIZE
                &&& forall|i: int| 0 <= i < COMMITTEE_SIZE ==> #[trigger] raw_keys@[i] == found@[i].key
            },
            Err(e) => receipts_outcome(*verify, *request, found@, Err(e@)),
        },
{
    let ghost all = found@;
    let mut raw_keys: Vec<[u8; 32]> = Vec::new();
    let mut keys: Vec<VerifyingKey> = Vec::new();
    let mut i: usize = 0;
    while i < found.len()
        invariant
            i <= found@.len(),
            found@ == all,
            raw_keys@.len() == i,
            keys@.len() == i,
            forall|j: int| 0 <= j < i ==> #[trigger] raw_keys@[j] == all[j].key,
            forall|j: int| 0 <= j < i ==> #[trigger] keys@[j] == (VerifyingKey { bytes: all[j].key }),
        decreases found@.len() - i,
    {
        raw_keys.push(found[i].key);
        keys.push(VerifyingKey { bytes: found[i].key });
        i = i + 1;
    }
    let mut found = found;
    let mut turned: Vec<NodeExecutionAttestation> = Vec::new();
    while found.len() > 0
        invariant
            found@.len() + turned@.len() == all.len(),
            found@ == all.take(found@.len() as int),
            forall|j: int|
                0 <= j < turned@.len() ==> (#[trigger] turned@[j])@ == all[all.len() - 1 - j].attestation@,
        decreases found@.len(),
    {
        let ghost left = found@;
        if let Some(last) = found.pop() {
            assert(last == all[left.len() - 1]);
            assert(found@ =~= all.take(left.len() - 1));
            turned.push(last.attestation);
        }
    }
    let mut attestations: Vec<NodeExecutionAttestation> = Vec::new();
    let ghost reversed = turned@;
    while turned.len() > 0
        invariant
            reversed.len() == all.len(),
            turned@.len() + attestations@.len() == reversed.len(),
            turned@ == reversed.take(turned@.len() as int),
            forall|j: int| 0 <= j < reversed.len() ==> (#[trigger] reversed[j])@ == all[all.len() - 1 - j].attestation@,
            forall|j: int| 0 <= j < attestations@.len() ==> (#[trigger] attestations@[j])@ == all[j].attestation@,
        decreases turned@.len(),
    {
        let ghost left = turned@;
        if let Some(last) = turned.pop() {
            assert(last == reversed[left.len() - 1]);
            assert(turned@ =~= reversed.take(left.len() - 1));
            attestations.push(last);
        }
    }
    proof {
        assert(executions(attestations@) =~= receipts_of(all));
        assert(keys@ =~= keys_of(all));
    }
    let job = match certified_job(&attestations, &keys, request.execution.order_digest, verify) {
        Err(e) => {
            assert(job_outcome(*verify, receipts_of(all), keys_of(all), request.execution.order_digest@, Err(e@)));
            return Err(e);
        },
        Ok(job) => job,
    };
    assert(job_outcome(*verify, receipts_of(all), keys_of(all), request.execution.order_digest@, Ok(job@)));
    if let Err(e) = check_certified(&job, &request.job_id) {
        return Err(e);
    }
    match encode_execution_attestations(attestations.as_slice()) {
        Err(e) => Err(e),
        Ok(wire) => Ok((wire, raw_keys)),
    }
}

/// Collects the evidence of a settlement: the openings of its legs for payer and
/// payee, and the receipts of the seven nodes, which have to certify the job that
/// was proved.
pub fn certify_settlement<
    T: ProofPartyRpc,
    J: Fn(&Value) -> Result<(), String>,
    K: Fn(&Vec<u8>) -> bool,
    V: Fn(&VerifyingKey, &Vec<u8>, &Signature) -> bool,
>(
    parties: &mut Vec<T>,
    request: &ProductSettlementRequest,
    payer: &Point,
    payee: &Point,
    contexts: &OpeningContexts,
    valid: &J,
    known: &K,
    verify: &V,
    width: usize,
) -> (r: Result<SettlementEvidence, String>)
    requires
        old(parties)@.len() == COMMITTEE_SIZE,
        request.execution.nodes@.len() == COMMITTEE_SIZE,
        judges_shares(*valid),
        decides(*known),
        can_verify(*verify),
    ensures
        final(parties)@.len() == COMMITTEE_SIZE,
        exists|trace: EvidenceTrace|
            #![trigger evidence_traced(told(old(parties)@), *request, *payer, *payee, trace)]
            told(final(parties)@) == evidence_traced(told(old(parties)@), *request, *payer, *payee, trace)
                && evidence_outcome(
                *request,
                *contexts,
                *payer,
                *payee,
                *valid,
                *known,
                *verify,
                width as nat,
                trace,
                r,
            ),
{
    let ghost before = told(parties@);
    let opened = collect_openings(parties, &request.job_id, payer, payee, contexts, valid);
    let ghost legs = choose|legs: Seq<Seq<Result<Json, Seq<char>>>>|
        #![trigger legs_asked(before, request.job_id@, *payer, *payee, legs, legs.len())]
        told(parties@) == legs_asked(before, request.job_id@, *payer, *payee, legs, legs.len()) && openings_outcome(
            legs,
            *contexts,
            *payer,
            *payee,
            *valid,
            opened,
        );
    let ghost mut trace = EvidenceTrace { legs, executions: Seq::empty() };
    assert(told(parties@) == evidence_traced(before, *request, *payer, *payee, trace));
    let ghost opened_given = opened;
    assert(openings_outcome(trace.legs, *contexts, *payer, *payee, *valid, opened_given));
    let openings = match opened {
        Err(e) => {
            assert(evidence_outcome(
                *request,
                *contexts,
                *payer,
                *payee,
                *valid,
                *known,
                *verify,
                width as nat,
                trace,
                Err::<SettlementEvidence, String>(e),
            ));
            return Err(e);
        },
        Ok(openings) => openings,
    };
    let ghost one = told(parties@);
    let collected = collect_executions(parties, &request.execution, &request.job_id, known, verify, width);
    proof {
        let outcomes = choose|outcomes: Seq<Result<Json, Seq<char>>>|
            #![trigger executions_asked(one, request.execution, request.job_id@, outcomes, outcomes.len())]
            told(parties@) == executions_asked(one, request.execution, request.job_id@, outcomes, outcomes.len())
                && match collected {
                Ok(found) => {
                    &&& outcomes.len() == COMMITTEE_SIZE
                    &&& found@.len() == COMMITTEE_SIZE
                    &&& all_attest(outcomes, request.execution, *known, *verify, width as nat, found@)
                },
                Err(e) => {
                    &&& 0 < outcomes.len() <= COMMITTEE_SIZE
                    &&& attests(
                        outcomes.last(),
                        request.execution,
                        outcomes.len() - 1,
                        *known,
                        *verify,
                        width as nat,
                        Err(e@),
                    )
                },
            };
        trace = EvidenceTrace { executions: outcomes, ..trace };
        assert(told(parties@) == evidence_traced(before, *request, *payer, *payee, trace));
        assert(openings_outcome(trace.legs, *contexts, *payer, *payee, *valid, opened_given));
    }
    let found = match collected {
        Err(e) => {
            assert(executions_outcome(
                *request,
                *known,
                *verify,
                width as nat,
                trace.executions,
                openings,
                Err::<SettlementEvidence, String>(e),
            ));
            return Err(e);
        },
        Ok(found) => found,
    };
    let ghost attested = found@;
    assert(all_attest(trace.executions, request.execution, *known, *verify, width as nat, attested));
    match check_receipts(request, found, verify) {
        Err(e) => {
            assert(executions_outcome(
                *request,
                *known,
                *verify,
                width as nat,
                trace.executions,
                openings,
                Err::<SettlementEvidence, String>(e),
            ));
            Err(e)
        },
        Ok((execution_attestations, execution_node_keys)) => {
            let ghost kept = openings;
            let evidence = SettlementEvidence { openings, execution_attestations, execution_node_keys };
            let r = Ok(evidence);
            assert(executions_outcome(*request, *known, *verify, width as nat, trace.executions, kept, r));
            r
        },
    }
}

/// What an acknowledgement comes to under its pinned signer.
pub open spec fn acknowledged<K: Fn(&Vec<u8>) -> bool, V: Fn(&VerifyingKey, &Vec<u8>, &Signature) -> bool>(
    ack: PretradeAcknowledgement,
    trusted: VerifyingKey,
    known: K,
    verify: V,
    error: Option<Seq<char>>,
) -> bool {
    if ack.signer_public@ != trusted.bytes@ {
        error == Some("pre-trade acknowledgement is not from the pinned DeFMI"@)
    } else if ack.refusal(known) is Some {
        error == ack.refusal(known)
    } else {
        ||| error is None && answers(verify, trusted, ack.body(), ack.signature@, true)
        ||| error == Some("pre-trade acknowledgement signature is invalid"@) && answers(
            verify,
            trusted,
            ack.body(),
            ack.signature@,
            false,
        )
    }
}

/// What came of having a settlement authorized: the acknowledgement is refused,
/// there is nothing to authorize, or the signing quorum decides.
pub open spec fn settlement_authorized<
    K: Fn(&Vec<u8>) -> bool,
    V: Fn(&VerifyingKey, &Vec<u8>, &Signature) -> bool,
>(
    before: Seq<Seq<Call>>,
    after: Seq<Seq<Call>>,
    ack: PretradeAcknowledgement,
    trusted: VerifyingKey,
    known: K,
    verify: V,
    settlement: Result<TypedSettlement, String>,
    error: Option<Seq<char>>,
) -> bool {
    ||| error is Some && acknowledged(ack, trusted, known, verify, error) && after == before
    ||| acknowledged(ack, trusted, known, verify, None) && match settlement {
        Err(e) => error == Some(e@) && after == before,
        Ok(s) => authorized_typed(before, after, s, error),
    }
}

/// Has the signing quorum authorize the settlement of a completed proof, against
/// the acknowledgement of the reservations by the pinned signer. `settlement` is
/// what is authorized, or why there is nothing to authorize.
pub fn authorize_settlement<
    T: ProofPartyRpc,
    K: Fn(&Vec<u8>) -> bool,
    V: Fn(&VerifyingKey, &Vec<u8>, &Signature) -> bool,
>(
    parties: &mut Vec<T>,
    acknowledgement: &PretradeAcknowledgement,
    trusted: &VerifyingKey,
    known: &K,
    verify: &V,
    settlement: &Result<TypedSettlement, String>,
) -> (r: Result<(), String>)
    requires
        old(parties)@.len() == COMMITTEE_SIZE,
        decides(*known),
        can_verify(*verify),
    ensures
        settlement_authorized(
            told(old(parties)@),
            told(final(parties)@),
            *acknowledgement,
            *trusted,
            *known,
            *verify,
            *settlement,
            error_of(r),
        ),
{
    if let Err(e) = acknowledgement.verify(trusted, known, verify) {
        return Err(e);
    }
    match settlement {
        Err(e) => Err(e.as_str().to_owned()),
        Ok(s) => authorize_typed(parties, s),
    }
}

/// Whether the signing quorum was asked to authorize a settlement, and what came of it.
pub open spec fn authorized_typed(
    before: Seq<Seq<Call>>,
    after: Seq<Seq<Call>>,
    settlement: TypedSettlement,
    error: Option<Seq<char>>,
) -> bool {
    let params = typed_json(settlement, signing_job_of(settlement.message@));
    exists|outcomes: Seq<Result<Json, Seq<char>>>|
        #![trigger asked(before, signing_quorum(), "authorize_typed"@, params, outcomes, outcomes.len())]
        after == asked(before, signing_quorum(), "authorize_typed"@, params, outcomes, outcomes.len()) && decided(
            outcomes,
            3,
            |o: Result<Json, Seq<char>>|
                demand_refusal(
                    o,
                    Demand::True("authorized"),
                    "proof party did not authorize the typed settlement"@,
                ),
            error,
        )
}

} // verus!
