//! What holds of a settlement: who pays, what is handed over, and who opens which leg.

use vstd::prelude::*;
use crate::application_crypto::{Signature, VerifyingKey};
use crate::asking_laws::typed_settlement_is_authorized_by_the_quorum;
use crate::bytes::zero32;
use crate::committee_proof::CommitteeProof;
use crate::coordinator::{
    committee, completion_method, completion_refusal, completions, demand_refusal, job_json, product_completed,
    signing_quorum, told, wires_json, Call, Demand, ProofPartyRpc,
};
use crate::group::{is_point, Point};
use crate::json::{text_in, Json, Value};
use crate::pretrade::PretradeAcknowledgement;
use crate::product_settlement::{
    instruction_step, leg_at, recipient_at, settlement_authorized, OpeningContexts, PaymentDraft, PaymentRanges,
    SettlementInstruction,
};
use crate::proof_codec::{DvpProofs, ThresholdRangeProof};
use crate::proof_mandate::ExecutionContext;
use crate::proof_quote_rounds::{share_of, with_share, witness_of, Leg};
use crate::proof_rounds::{DvpCommitments, HandleEvaluation};
use crate::proof_state::{OpeningShares, ProofJob};
use crate::quote_codec::{checks, QuoteVerificationBundle};
use crate::settlement::{allocation_bound, quorum_json, ProductSettlementRequest};
use crate::settlement_handoff::{
    committee_signed, handed_over, settlement_finalized, settlement_of, HybridSignature, PaymentPart,
    ProductSettlementProof, ProofPart, SettlementHandoff, SignedInstruction, TypedWires,
};
use crate::settlement_run::{
    settlement_run, DeliveryTools, EvidenceTools, PaymentTools, SettlementSteps, SigningTools, VerifiedProof,
};
use crate::sharing::{pedersen, point_sum, point_times};
use crate::text::{base64_bytes, base64_round_trip};

verus! {

/// The cash goes from the buyer to the seller: a Taker that buys pays the Maker, one that
/// sells is paid by it, and the two directions exchange the ends of the payment.
pub proof fn buyer_pays_and_seller_is_paid(
    buy: ProductSettlementRequest,
    sell: ProductSettlementRequest,
    maker: Point,
)
    requires
        buy.limit_direction is MaximumBuyPrice,
        sell.limit_direction is MinimumSellPrice,
        buy.taker_handle == sell.taker_handle,
    ensures
        buy.endpoints(maker).0 == buy.taker_handle,
        buy.endpoints(maker).1 == maker,
        sell.endpoints(maker).0 == maker,
        sell.endpoints(maker).1 == sell.taker_handle,
        sell.endpoints(maker) == (buy.endpoints(maker).1, buy.endpoints(maker).0),
{
}

/// A payment that the quorum authorized goes from the buyer to the seller, until the
/// request's deadline, once for its job and bound to the quote that was verified. The
/// winning Maker is somebody, and not the Taker.
pub proof fn authorized_payment_goes_from_buyer_to_seller<
    St,
    A: CommitteeProof<St, PaymentRanges>,
    C: Fn(&QuoteVerificationBundle) -> Result<[u8; 32], String>,
    Fl: Fn(&Vec<HandleEvaluation>) -> Result<Point, String>,
    Fb: Fn(&St, &PaymentRanges, &ProductSettlementRequest, &(Point, Point), &[u8; 32]) -> Result<PaymentDraft,
        String>,
>(
    before: Seq<Seq<Call>>,
    after: Seq<Seq<Call>>,
    request: ProductSettlementRequest,
    by: A,
    check: C,
    ladder: Fl,
    build: Fb,
    instruction: SettlementInstruction<St>,
)
    requires
        instruction_step(before, after, request, by, check, ladder, build, Ok(instruction)),
    ensures
        before.len() == 7,
        request.limit_direction is MaximumBuyPrice ==> instruction.payment.payer_handle == request.taker_handle
            && instruction.payment.payee_handle == instruction.maker_handle,
        request.limit_direction is MinimumSellPrice ==> instruction.payment.payer_handle == instruction.maker_handle
            && instruction.payment.payee_handle == request.taker_handle,
        instruction.maker_handle@ != request.taker_handle@,
        instruction.maker_handle@ != zero32(),
        instruction.payment.deadline == request.deadline,
        instruction.payment.nonce == request.job_id,
        instruction.payment.quote_digest == Some(instruction.quote_digest),
        instruction.payment.digest == instruction.draft.digest,
        instruction.payment.asset_commitment == instruction.draft.asset_commitment,
        checks(check, request.quote_verification, Ok(instruction.quote_digest@)),
        request.job_id@ != zero32(),
        request.admission_sequence != 0,
        request.admission_ticket_id@ != zero32(),
        request.limit_context@ != zero32(),
        request.asset_id@ != zero32(),
        request.taker_handle@ != zero32(),
        request.now <= request.deadline,
        request.deadline - request.now <= 3600,
        request.execution.planned() == Ok::<Seq<u8>, Seq<char>>(request.job_id@),
{
}

/// A settlement that was proved hands over a payment from the buyer to the seller: a Taker
/// whose limit is a highest price to buy at pays the winning Maker, and one whose limit is
/// a lowest price to sell at is paid by it. The two are different parties.
pub proof fn proved_settlement_pays_the_seller<
    T: ProofPartyRpc,
    SZ,
    SL,
    SD,
    SP,
    A: CommitteeProof<SZ, PaymentRanges>,
    C: Fn(&QuoteVerificationBundle) -> Result<[u8; 32], String>,
    Fl: Fn(&Vec<HandleEvaluation>) -> Result<Point, String>,
    Fb: Fn(&SZ, &PaymentRanges, &ProductSettlementRequest, &(Point, Point), &[u8; 32]) -> Result<PaymentDraft,
        String>,
    R: Fn(&mut Vec<T>, &Vec<u8>) -> Result<Vec<u8>, String>,
    G: Fn(&mut Vec<T>, &Vec<u8>, &Vec<u8>, &Vec<u8>) -> Result<HybridSignature, String>,
    W: Fn(&SettlementInstruction<SZ>, &HybridSignature) -> Vec<u8>,
    U: Fn(&SignedInstruction, &Vec<u8>, &Vec<u8>, u64) -> Result<(), String>,
    X: Fn(&ProductSettlementRequest, &Point) -> [u8; 32],
    L: CommitteeProof<SL, ThresholdRangeProof>,
    Lv: Fn(&SL, &ThresholdRangeProof) -> Result<(), String>,
    Lf: Fn(&SignedInstruction) -> VerifiedProof<L, Lv>,
    D: CommitteeProof<SD, DvpProofs>,
    Dv: Fn(&SD, &DvpProofs) -> bool,
    Df: Fn(&SignedInstruction) -> VerifiedProof<D, Dv>,
    M: Fn(&SD) -> DvpCommitments,
    P: CommitteeProof<SP, ThresholdRangeProof>,
    Pv: Fn(&SP, &ThresholdRangeProof) -> bool,
    J: Fn(&Value) -> Result<(), String>,
    K: Fn(&Vec<u8>) -> bool,
    V: Fn(&VerifyingKey, &Vec<u8>, &Signature) -> bool,
>(
    before: Seq<T>,
    after: Seq<T>,
    public: Vec<u8>,
    request: ProductSettlementRequest,
    pay: PaymentTools<A, C, Fl, Fb>,
    seal: SigningTools<R, G, W, U>,
    deliver: DeliveryTools<X, Lf, Df, M, P, Pv>,
    evidence: EvidenceTools<J, K, V>,
    steps: SettlementSteps<T, SZ, SL, L, Lv, SD, D, Dv, SP>,
    proved: ProductSettlementProof,
)
    requires
        settlement_run(before, after, public, request, pay, seal, deliver, evidence, steps, Ok(proved)),
    ensures
        steps.instruction is Ok,
        ({
            let maker = (steps.instruction->Ok_0).maker_handle;
            let handed = proved.handoff.instruction;
            &&& request.limit_direction is MaximumBuyPrice ==> handed.payer_handle == request.taker_handle
                && handed.payee_handle == maker
            &&& request.limit_direction is MinimumSellPrice ==> handed.payer_handle == maker && handed.payee_handle
                == request.taker_handle
            &&& handed.payer_handle@ != handed.payee_handle@
            &&& handed.amount_commitment == (steps.instruction->Ok_0).draft.amount_commitment
            &&& handed.price_commitment == (steps.instruction->Ok_0).draft.price_commitment
        }),
        proved.handoff.job_id == request.job_id,
        proved.handoff.limit_direction == request.limit_direction,
        proved.handoff.limit_commitment == request.limit_commitment,
        proved.handoff.limit_context == request.limit_context,
        proved.handoff.asset_id == request.asset_id,
        proved.handoff.admission_sequence == request.admission_sequence,
        proved.handoff.admission_ticket_id == request.admission_ticket_id,
        proved.handoff.lane == request.execution.lane,
{
    authorized_payment_goes_from_buyer_to_seller(
        told(before),
        told(steps.authorized),
        request,
        pay.ranges,
        pay.check,
        pay.ladder,
        pay.build,
        steps.instruction->Ok_0,
    );
}

/// A settlement is taken up exactly if it names its job, admission, limit, asset and Taker,
/// its deadline is within an hour from now, and its execution is the one of the job.
pub proof fn settlement_is_taken_up_exactly(request: ProductSettlementRequest)
    ensures
        request.refusal() is None <==> {
            &&& request.job_id@ != zero32()
            &&& request.admission_sequence != 0
            &&& request.admission_ticket_id@ != zero32()
            &&& request.limit_context@ != zero32()
            &&& request.asset_id@ != zero32()
            &&& request.taker_handle@ != zero32()
            &&& request.now <= request.deadline
            &&& request.deadline - request.now <= 3600
            &&& request.execution.planned() == Ok::<Seq<u8>, Seq<char>>(request.job_id@)
        },
{
}

/// What the hidden limit leaves is the limit without the price for a buyer, and the price
/// without the limit for a seller.
pub proof fn limit_leaves_the_better_side(
    request: ProductSettlementRequest,
    price: Seq<u8>,
    witness: Seq<u8>,
    g: Seq<u8>,
    h: Seq<u8>,
    limit: int,
    limit_blinding: int,
    paid: int,
    paid_blinding: int,
)
    requires
        request.limit_left(price, witness),
        is_point(g),
        is_point(h),
        request.limit_commitment@ == pedersen(g, h, limit, limit_blinding),
        price == pedersen(g, h, paid, paid_blinding),
    ensures
        request.limit_direction is MaximumBuyPrice ==> witness == pedersen(
            g,
            h,
            limit - paid,
            limit_blinding - paid_blinding,
        ),
        request.limit_direction is MinimumSellPrice ==> witness == pedersen(
            g,
            h,
            paid - limit,
            paid_blinding - limit_blinding,
        ),
{
}

/// A buyer's difference takes the price from the limit, a seller's the limit from the price.
pub proof fn limit_difference_takes_from_the_better_side(
    request: ProductSettlementRequest,
    price: Seq<u8>,
    minus_one: Seq<u8>,
)
    ensures
        request.limit_direction is MaximumBuyPrice ==> request.limit_difference(price, minus_one) == point_sum(
            request.limit_commitment@,
            point_times(price, minus_one),
        ),
        request.limit_direction is MinimumSellPrice ==> request.limit_difference(price, minus_one) == point_sum(
            price,
            point_times(request.limit_commitment@, minus_one),
        ),
{
}

/// What is handed over is the request's, the payment's and the proofs' own: each reserve
/// is what is delivered and what remains of the same side, and nothing is authorized yet.
pub proof fn handoff_holds_what_was_proved(
    request: ProductSettlementRequest,
    payment: PaymentPart,
    proofs: ProofPart,
    openings: Vec<Vec<Value>>,
    handoff: SettlementHandoff,
)
    requires
        handed_over(request, payment, proofs, openings, handoff),
    ensures
        handoff.job_id == request.job_id,
        handoff.lane == request.execution.lane,
        handoff.admission_sequence == request.admission_sequence,
        handoff.admission_ticket_id == request.admission_ticket_id,
        handoff.quote_verification == request.quote_verification,
        handoff.limit_direction == request.limit_direction,
        handoff.limit_commitment == request.limit_commitment,
        handoff.limit_context == request.limit_context,
        handoff.asset_id == request.asset_id,
        handoff.instruction == payment.instruction,
        handoff.frost_public == payment.frost_public,
        handoff.pq_committee == Some(payment.pq_committee),
        handoff.quote_digest == payment.quote_digest,
        handoff.asset_blinding == payment.asset_blinding,
        handoff.price_limit_proof == proofs.price_limit_proof,
        handoff.dvp_proofs == proofs.dvp_proofs,
        handoff.cash_commitment == proofs.cash_commitment,
        handoff.securities_remainder == proofs.securities_remainder,
        handoff.cash_remainder == proofs.cash_remainder,
        handoff.maker_pool_remainder == proofs.maker_pool_remainder,
        handoff.maker_pool_remainder_proof == proofs.maker_pool_remainder_proof,
        handoff.openings == openings,
        handoff.securities_reserve@ == point_sum(
            handoff.instruction.amount_commitment@,
            handoff.securities_remainder@,
        ),
        handoff.cash_reserve@ == point_sum(handoff.cash_commitment@, handoff.cash_remainder@),
        handoff.execution_context is None,
        handoff.typed_authorization is None,
        handoff.typed_pq_authorization is None,
{
}

/// A settlement is finalized once, with the context that was signed and both signatures:
/// nothing else of it changes.
pub proof fn sealed_handoff_keeps_the_settlement<
    H: Fn(&Vec<u8>, &Vec<u8>, &Vec<u8>) -> bool,
    I: Fn(&SettlementHandoff) -> Result<(), String>,
>(
    before: SettlementHandoff,
    context: ExecutionContext,
    message: Vec<u8>,
    signed: HybridSignature,
    holds: H,
    whole: I,
    after: SettlementHandoff,
)
    requires
        before.sealed(context, message, signed, holds, whole, after, Ok(())),
    ensures
        call_ensures(holds, (&before.frost_public, &message, &signed.classical), true),
        after.execution_context == Some(context),
        after.typed_authorization == Some(signed.classical),
        after.typed_pq_authorization == Some(signed.pq),
        after.instruction == before.instruction,
        after.job_id == before.job_id,
        after.securities_reserve == before.securities_reserve,
        after.cash_reserve == before.cash_reserve,
        after.finalized(),
{
}

/// The signing quorum is the first, the fourth and the seventh party, the committee all
/// seven, each once; counted from one the quorum is one, four and seven.
pub proof fn quorum_is_three_of_seven(at: int)
    ensures
        signing_quorum().len() == 3,
        signing_quorum()[0] == 0 && signing_quorum()[1] == 3 && signing_quorum()[2] == 6,
        committee().len() == 7,
        0 <= at < 7 ==> committee()[at] == at,
        quorum_json() == Json::Array(seq![Json::Integer(1), Json::Integer(4), Json::Integer(7)]),
        completion_method(at) == if signing_quorum().contains(at as usize) && 0 <= at < 7 {
            "complete"@
        } else {
            "complete_observer"@
        },
{
    let q = signing_quorum();
    assert(q[0] == 0 && q[1] == 3 && q[2] == 6);
    if 0 <= at < 7 {
        if at == 0 || at == 3 || at == 6 {
            let i = at / 3;
            assert(q[i] == at as usize);
        } else if q.contains(at as usize) {
            let i = choose|i: int| 0 <= i < q.len() && q[i] == at as usize;
        }
    }
}

/// A signing party completes a job only by saying that it did, an observer by saying that
/// it closed it: an error, a silence or the other's word does not do.
pub proof fn completion_needs_the_own_word(at: int, outcome: Result<Json, Seq<char>>)
    requires
        completion_refusal(at, outcome) is None,
    ensures
        outcome is Ok,
        at == 0 || at == 3 || at == 6 ==> (outcome->Ok_0).field("completed"@) == Some(Json::Bool(true)),
        at != 0 && at != 3 && at != 6 ==> (outcome->Ok_0).field("observer_completed"@) == Some(Json::Bool(true)),
{
}

/// An answer meets a demand for a true member only with that member true, and one for a
/// text only with that text; an error meets none.
pub proof fn demands_are_exact(outcome: Result<Json, Seq<char>>, name: &str, text: &str, complaint: Seq<char>)
    ensures
        demand_refusal(outcome, Demand::Answer, complaint) is None <==> outcome is Ok,
        demand_refusal(outcome, Demand::True(name), complaint) is None <==> outcome is Ok && (outcome->Ok_0).field(
            name@,
        ) == Some(Json::Bool(true)),
        demand_refusal(outcome, Demand::Text(name, text), complaint) is None <==> outcome is Ok
            && text_in((outcome->Ok_0).field(name@)) == Some(text@),
{
}

/// A list of wires is read back wire by wire.
pub proof fn wires_are_read_back(wires: Seq<Vec<u8>>, at: int)
    requires
        0 <= at < wires.len(),
    ensures
        wires_json(wires) is Array,
        wires_json(wires)->Array_0.len() == wires.len(),
        wires_json(wires)->Array_0[at] is Text,
        base64_bytes(wires_json(wires)->Array_0[at]->Text_0) == Some(wires[at]@),
{
    base64_round_trip(wires[at]@);
}

/// Every leg has a name of its own by which it is found.
pub proof fn leg_is_found_by_its_name(leg: Leg, other: Leg)
    ensures
        Leg::named(leg.name()) == Some(leg),
        leg != other ==> leg.name() != other.name(),
{
    reveal_strlit("securities_delivery");
    reveal_strlit("securities_refund");
    reveal_strlit("cash_delivery");
    reveal_strlit("cash_refund");
    assert("securities_delivery"@.len() == 19 && "securities_refund"@.len() == 17);
    assert("cash_delivery"@.len() == 13 && "cash_refund"@.len() == 11);
}

/// The delivery of cash is opened to the party that is paid, and the rest of the cash to
/// the one that pays; the delivery of securities to the one that pays, and the rest of
/// them to the one that is paid. The coordinator asks for each leg for the recipient to
/// whom the nodes give it, whichever side the Maker is on.
pub proof fn each_leg_is_opened_to_its_side(maker: Point, taker: Point, maker_is_payer: bool, at: int)
    requires
        0 <= at < 4,
    ensures
        ({
            let payer = if maker_is_payer { maker } else { taker };
            let payee = if maker_is_payer { taker } else { maker };
            let leg = leg_at(at);
            &&& at == 0 ==> leg is SecuritiesDelivery && recipient_at(at, payer, payee) == payer
            &&& at == 1 ==> leg is SecuritiesRefund && recipient_at(at, payer, payee) == payee
            &&& at == 2 ==> leg is CashDelivery && recipient_at(at, payer, payee) == payee
            &&& at == 3 ==> leg is CashRefund && recipient_at(at, payer, payee) == payer
            &&& recipient_at(at, payer, payee) == if leg.for_maker(maker_is_payer) { maker } else { taker }
            &&& leg.for_maker(maker_is_payer) != leg.for_maker(!maker_is_payer)
        }),
{
}

/// The context of a leg is its own.
pub proof fn each_leg_has_its_context(contexts: OpeningContexts)
    ensures
        contexts.at(0) == contexts.securities_delivery,
        contexts.at(1) == contexts.securities_refund,
        contexts.at(2) == contexts.cash_delivery,
        contexts.at(3) == contexts.cash_refund,
{
}

/// A share that was given out for a leg is kept for that leg alone, and the delivery of
/// securities is opened out of the payment's witness, every other leg out of the
/// delivery's.
pub proof fn share_is_kept_for_its_leg<N, B, S>(
    shares: OpeningShares,
    leg: Leg,
    other: Leg,
    share: Vec<u8>,
    job: ProofJob<N, B, S>,
)
    ensures
        share_of(with_share(shares, leg, share), leg) == Some(share),
        other != leg ==> share_of(with_share(shares, leg, share), other) == share_of(shares, other),
        leg is SecuritiesDelivery ==> witness_of(job, leg) == job.zkpi.bound,
        !(leg is SecuritiesDelivery) ==> witness_of(job, leg) == job.dvp.bound,
        share_of(shares, Leg::SecuritiesDelivery) == shares.securities_delivery,
        share_of(shares, Leg::SecuritiesRefund) == shares.securities_refund,
        share_of(shares, Leg::CashDelivery) == shares.cash_delivery,
        share_of(shares, Leg::CashRefund) == shares.cash_refund,
{
}

/// A settlement is final only with the signatures of its own committee over the message
/// that the quorum authorized; a settlement that is not stays as it was handed over.
pub proof fn final_settlement_is_signed_as_authorized<
    T: ProofPartyRpc,
    K: Fn(&Vec<u8>) -> bool,
    V: Fn(&VerifyingKey, &Vec<u8>, &Signature) -> bool,
    G: Fn(&mut Vec<T>, &Vec<u8>, &Vec<u8>, &Vec<u8>) -> Result<HybridSignature, String>,
    H: Fn(&Vec<u8>, &Vec<u8>, &Vec<u8>) -> bool,
    I: Fn(&SettlementHandoff) -> Result<(), String>,
>(
    before: Seq<T>,
    after: Seq<T>,
    handoff: SettlementHandoff,
    later: SettlementHandoff,
    context: ExecutionContext,
    acknowledgement: PretradeAcknowledgement,
    trusted: VerifyingKey,
    known: K,
    verify: V,
    wires: Result<TypedWires, String>,
    sign: G,
    holds: H,
    whole: I,
    r: Result<(), String>,
)
    requires
        settlement_finalized(
            before,
            after,
            handoff,
            later,
            context,
            acknowledgement,
            trusted,
            known,
            verify,
            wires,
            sign,
            holds,
            whole,
            r,
        ),
    ensures
        r is Ok ==> {
            &&& wires is Ok && handoff.pq_committee is Some
            &&& acknowledgement.signer_public@ == trusted.bytes@
            &&& exists|middle: Seq<T>, signed: HybridSignature| #[trigger]
                committee_signed(
                    sign,
                    middle,
                    (wires->Ok_0).message,
                    handoff.frost_public,
                    handoff.pq_committee->0,
                    Ok::<HybridSignature, String>(signed),
                ) && later.typed_authorization == Some(signed.classical) && later.typed_pq_authorization == Some(
                    signed.pq,
                ) && call_ensures(
                    holds,
                    (&handoff.frost_public, &(wires->Ok_0).message, &signed.classical),
                    true,
                )
            &&& later.execution_context == Some(context)
            &&& later.job_id == handoff.job_id && later.instruction == handoff.instruction
        },
        wires is Err || handoff.pq_committee is None || acknowledgement.signer_public@ != trusted.bytes@ ==> r is Err
            && later == handoff,
{
    let (middle, error) = choose|middle: Seq<T>, error: Option<Seq<char>>|
        #![trigger settlement_authorized(
            told(before),
            told(middle),
            acknowledgement,
            trusted,
            known,
            verify,
            settlement_of(handoff.job_id, wires),
            error,
        )]
        settlement_authorized(
            told(before),
            told(middle),
            acknowledgement,
            trusted,
            known,
            verify,
            settlement_of(handoff.job_id, wires),
            error,
        ) && match error {
            Some(e) => {
                &&& r matches Err(f) && f@ == e
                &&& after == middle
                &&& later == handoff
            },
            None => match handoff.pq_committee {
                None => {
                    &&& r matches Err(f) && f@ == "typed settlement requires its PQ committee"@
                    &&& after == middle
                    &&& later == handoff
                },
                Some(policy) => {
                    ||| {
                        &&& r is Err
                        &&& committee_signed(
                            sign,
                            middle,
                            wires->Ok_0.message,
                            handoff.frost_public,
                            policy,
                            Err(r->Err_0),
                        )
                        &&& later == handoff
                    }
                    ||| exists|signed: HybridSignature|
                        committee_signed(
                            sign,
                            middle,
                            wires->Ok_0.message,
                            handoff.frost_public,
                            policy,
                            Ok(signed),
                        ) && #[trigger] handoff.sealed(
                            context,
                            wires->Ok_0.message,
                            signed,
                            holds,
                            whole,
                            later,
                            r,
                        )
                },
            },
        };
    typed_settlement_is_authorized_by_the_quorum(
        told(before),
        told(middle),
        acknowledgement,
        trusted,
        known,
        verify,
        settlement_of(handoff.job_id, wires),
        error,
    );
}

/// What the quorum authorizes is the settlement of the handoff's own job, with the wires
/// that were made for it.
pub proof fn authorized_settlement_is_of_the_job(job: [u8; 32], wires: TypedWires)
    ensures
        ({
            let made = settlement_of(job, Ok::<TypedWires, String>(wires));
            &&& made is Ok
            &&& (made->Ok_0).job_id == job
            &&& (made->Ok_0).message == wires.message
            &&& (made->Ok_0).payment == wires.payment
            &&& (made->Ok_0).context == wires.context
            &&& (made->Ok_0).pretrade_ack == wires.pretrade_ack
        }),
{
}

/// A product proof is complete only when there are seven parties and every one of them,
/// in turn, said that it closed the job.
pub proof fn completion_is_of_all_seven(
    before: Seq<Seq<Call>>,
    after: Seq<Seq<Call>>,
    job: Seq<u8>,
    r: Result<(), String>,
)
    requires
        product_completed(before, after, job, r),
    ensures
        before.len() != 7 ==> r is Err && after == before,
        r is Ok ==> {
            &&& before.len() == 7 && after.len() == 7
            &&& forall|i: int|
                #![trigger after[i]]
                0 <= i < 7 ==> {
                    let told = after[i].last();
                    &&& after[i].len() == before[i].len() + 1
                    &&& told.params == job_json(job)
                    &&& told.outcome is Ok
                    &&& i == 0 || i == 3 || i == 6 ==> told.method == "complete"@ && (told.outcome->Ok_0).field(
                        "completed"@,
                    ) == Some(Json::Bool(true))
                    &&& i != 0 && i != 3 && i != 6 ==> told.method == "complete_observer"@ && (
                    told.outcome->Ok_0).field("observer_completed"@) == Some(Json::Bool(true))
                }
        },
{
    if r is Ok {
        let outcomes = choose|outcomes: Seq<Result<Json, Seq<char>>>|
            #![trigger completions(before, job, outcomes, outcomes.len())]
            after == completions(before, job, outcomes, outcomes.len()) && (forall|i: int|
                0 <= i < outcomes.len() - 1 ==> completion_refusal(i, #[trigger] outcomes[i]) is None)
                && outcomes.len() == 7 && completion_refusal(outcomes.len() - 1, outcomes.last()) is None;
        assert forall|i: int| #![trigger after[i]] 0 <= i < 7 implies {
            let told = after[i].last();
            &&& after[i].len() == before[i].len() + 1
            &&& told.params == job_json(job)
            &&& told.outcome is Ok
            &&& i == 0 || i == 3 || i == 6 ==> told.method == "complete"@ && (told.outcome->Ok_0).field("completed"@)
                == Some(Json::Bool(true))
            &&& i != 0 && i != 3 && i != 6 ==> told.method == "complete_observer"@ && (told.outcome->Ok_0).field(
                "observer_completed"@,
            ) == Some(Json::Bool(true))
        } by {
            assert(completion_refusal(i, outcomes[i]) is None);
        }
    }
}

/// An allocation is taken exactly for the job, the quote and the remainder of the
/// completed proof.
pub proof fn allocation_is_of_the_completed_proof(
    bound_job: Seq<u8>,
    bound_quote: Seq<u8>,
    bound_remainder: Seq<u8>,
    job_id: Seq<u8>,
    quote_digest: Seq<u8>,
    remainder: Seq<u8>,
    r: Result<(), String>,
)
    requires
        allocation_bound(bound_job, bound_quote, bound_remainder, job_id, quote_digest, remainder, r),
    ensures
        r is Ok <==> bound_job == job_id && bound_quote == quote_digest && bound_remainder == remainder,
{
}

} // verus!
