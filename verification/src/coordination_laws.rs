//! Whole runs of the coordinator: of how many parties a complete quote and a settlement
//! are made, what all of them have to have said, and what the result is bound to.

use vstd::prelude::*;
use crate::application_crypto::{Signature, VerifyingKey};
use crate::bytes::zero32;
use crate::complete_quote::CompleteQuoteRequest;
use crate::coordinator::{
    answer_wire_refusal, asked, committee, decided, demand_refusal, error_of, job_json, signing_quorum, wire_of,
    wire_refusal, COMMITTEE_SIZE, Call, Demand,
};
use crate::digest::sha256;
use crate::group::Point;
use crate::json::{text_in, Json, Value};
use crate::order::{complete_quote_message, encoded_executions, execution_lane, executions_by_node, lane_authentic};
use crate::product_execution::{job_of_lane, AttestedExecution};
use crate::product_settlement::{
    keys_of, leg_decided, legs_asked, maker_outcome, openings_outcome, receipts_of, receipts_outcome, recipient_at,
    values_answered, OpeningContexts, SettlementInstruction,
};
use crate::proof_quote_rounds::{quote_wire_refusal, Leg};
use crate::proof_rounds::{handle_party, HandleEvaluation};
use crate::proof_service::Operation;
use crate::quote_codec::{QuoteProof, QuoteVerificationBundle};
use crate::quote_committee::{
    binds_evaluations, binds_relations, bundle_of, final_refusal, finalizes_answers, quote_assembled, quote_checked,
    quote_outcome, quote_outcome_last, quote_outcome_second, quote_outcome_third, quote_related,
    quote_response_refusal, quote_round_refusal, quote_stated, quote_traced, QuoteArithmetic, QuoteRounds, QuoteTrace,
};
use crate::quote_messages::{Envelope, Message};
use crate::settlement::{
    challenge_json, claim_json, evaluations_read, share_objection, share_refusal, values_said,
    ProductSettlementRequest,
};
use crate::settlement_handoff::{committee_signed, HybridSignature, PaymentPart, SignedInstruction};
use crate::settlement_run::{payment_accepted, payment_sealed, SigningTools};
use crate::text::hex_text;

verus! {

/// A bundle is of its request: in the context of the request's own job and context, with
/// two bits of eligibility fewer than the request's, and with its public statement.
pub proof fn quote_bundle_is_of_its_request(request: CompleteQuoteRequest, bundle: QuoteVerificationBundle)
    requires
        bundle_of(request, bundle),
    ensures
        bundle.context@ == sha256(complete_quote_message(request.job_id@, request.request_context@)),
        bundle.eligibility_bits + 2 == request.eligibility_bits,
        bundle.span_bits == request.span_bits,
        bundle.public == request.public,
{
}

/// A first round of a quote is two wires of the job, a seal and a round, and an answer one
/// wire; each has to be of its kind.
pub proof fn quote_rounds_are_of_their_kinds(outcome: Result<Json, Seq<char>>, job: Seq<u8>)
    ensures
        quote_round_refusal(outcome, job) is None <==> {
            let value = outcome->Ok_0;
            &&& outcome is Ok
            &&& wire_refusal(value.field("seal"@), "quote round-one seal"@) is None
            &&& wire_refusal(value.field("round"@), "quote round one"@) is None
            &&& quote_wire_refusal(
                wire_of(value.field("seal"@)),
                job,
                Some("round1-seal"@),
                "quote proof party returned another seal type"@,
            ) is None
            &&& quote_wire_refusal(
                wire_of(value.field("round"@)),
                job,
                Some("round1"@),
                "quote proof party returned another round-one type"@,
            ) is None
        },
        quote_response_refusal(outcome, job) is None <==> {
            &&& outcome is Ok
            &&& wire_refusal(Some(outcome->Ok_0), "quote round two"@) is None
            &&& quote_wire_refusal(
                wire_of(Some(outcome->Ok_0)),
                job,
                Some("round2"@),
                "quote proof party returned another response type"@,
            ) is None
        },
{
}

/// A complete quote is asked for in six steps that parties serve: by all seven for the
/// evaluations, the binding, the relations and the end, by the three signers for the two
/// rounds.
pub proof fn quote_is_asked_for_in_order(before: Seq<Seq<Call>>, job: Seq<u8>, t: QuoteTrace)
    ensures
        ({
            let one = asked(
                before,
                committee(),
                Operation::QuoteEvaluations.name(),
                job_json(job),
                t.evaluations,
                t.evaluations.len(),
            );
            let two = asked(
                one,
                committee(),
                Operation::QuoteBind.name(),
                t.bind_params,
                t.relations,
                t.relations.len(),
            );
            let three = asked(
                two,
                committee(),
                Operation::QuoteRelationBind.name(),
                t.relation_params,
                t.bounds,
                t.bounds.len(),
            );
            let four = asked(
                three,
                signing_quorum(),
                Operation::QuoteRound1.name(),
                job_json(job),
                t.rounds,
                t.rounds.len(),
            );
            let five = asked(
                four,
                signing_quorum(),
                Operation::QuoteRound2.name(),
                challenge_json(job, t.challenge),
                t.responses,
                t.responses.len(),
            );
            quote_traced(before, job, t) == asked(
                five,
                committee(),
                Operation::QuoteFinalize.name(),
                t.final_params,
                t.finals,
                t.finals.len(),
            )
        }),
{
}

/// A complete quote is given only when all seven parties evaluated, related and bound it,
/// the three signers gave both rounds, the assembled bundle was checked, and all seven
/// finalized the very digest of that check.
pub proof fn complete_quote_is_of_the_whole_committee<
    St,
    Re,
    Fs: Fn(&CompleteQuoteRequest, &Vec<Envelope>) -> Result<St, String>,
    Fr: Fn(&St, &CompleteQuoteRequest, &Vec<Envelope>) -> Result<Re, String>,
    Fc: Fn(&St, &Re, &CompleteQuoteRequest, &[u8; 32], &QuoteRounds) -> Result<Message, String>,
    Fa: Fn(&St, &Re, &CompleteQuoteRequest, &[u8; 32], &QuoteRounds, &Vec<Envelope>) -> Result<QuoteProof, String>,
    Fv: Fn(&QuoteVerificationBundle) -> Result<[u8; 32], String>,
>(
    by: QuoteArithmetic<Fs, Fr, Fc, Fa, Fv>,
    request: CompleteQuoteRequest,
    t: QuoteTrace,
    bundle: QuoteVerificationBundle,
)
    requires
        quote_outcome(by, request, t, Ok::<QuoteVerificationBundle, String>(bundle)),
    ensures
        t.evaluations.len() == 7 && t.relations.len() == 7 && t.bounds.len() == 7,
        t.rounds.len() == 3 && t.responses.len() == 3 && t.finals.len() == 7,
        forall|i: int| 0 <= i < 7 ==> (#[trigger] t.evaluations[i]) is Ok,
        forall|i: int| 0 <= i < 7 ==> (#[trigger] t.relations[i]) is Ok,
        forall|i: int|
            0 <= i < 7 ==> (#[trigger] t.bounds[i]) is Ok && (t.bounds[i]->Ok_0).field("bound"@) == Some(
                Json::Bool(true),
            ),
        forall|i: int| 0 <= i < 3 ==> quote_round_refusal(#[trigger] t.rounds[i], request.job_id@) is None,
        forall|i: int| 0 <= i < 3 ==> quote_response_refusal(#[trigger] t.responses[i], request.job_id@) is None,
        bundle_of(request, bundle),
        bundle.registry_ok(),
        exists|digest: [u8; 32]| #[trigger]
            quote_checked(by.check, bundle, Ok(digest@)) && forall|i: int|
                0 <= i < 7 ==> (#[trigger] t.finals[i]) is Ok && text_in(
                    (t.finals[i]->Ok_0).field("quote_digest"@),
                ) == Some(hex_text(digest@)),
{
    let r = Ok::<QuoteVerificationBundle, String>(bundle);
    let made = choose|made: St| #[trigger]
        quote_stated(by, request, t.evaluations, Ok::<St, String>(made))
            && binds_evaluations(request, t) && quote_outcome_second(by, request, t, made, r);
    let bound = choose|bound: Re| #[trigger]
        quote_related(by, request, t.relations, made, Ok::<Re, String>(bound))
            && binds_relations(request, t) && quote_outcome_third(
            by,
            request,
            t,
            made,
            bound,
            r,
        );
    let job = request.job_id@;
    let evaluated = |o: Result<Json, Seq<char>>| answer_wire_refusal(o, "quote evaluation"@);
    let related = |o: Result<Json, Seq<char>>| answer_wire_refusal(o, "quote relation evaluation"@);
    let bind_check = |o: Result<Json, Seq<char>>|
        demand_refusal(o, Demand::True("bound"), "quote proof party did not bind its relation statement"@);
    let opened = |o: Result<Json, Seq<char>>| quote_round_refusal(o, job);
    let answered = |o: Result<Json, Seq<char>>| quote_response_refusal(o, job);
    assert forall|i: int| 0 <= i < 7 implies (#[trigger] t.evaluations[i]) is Ok by {
        assert(evaluated(t.evaluations[i]) is None);
    }
    assert forall|i: int| 0 <= i < 7 implies (#[trigger] t.relations[i]) is Ok by {
        assert(related(t.relations[i]) is None);
    }
    assert forall|i: int| 0 <= i < 7 implies (#[trigger] t.bounds[i]) is Ok && (t.bounds[i]->Ok_0).field("bound"@)
        == Some(Json::Bool(true)) by {
        assert(bind_check(t.bounds[i]) is None);
    }
    assert(quote_outcome_last(by, request, t, made, bound, r));
    assert forall|i: int| 0 <= i < 3 implies quote_round_refusal(#[trigger] t.rounds[i], job) is None by {
        assert(opened(t.rounds[i]) is None);
    }
    let (found, digest) = choose|found: QuoteVerificationBundle, digest: [u8; 32]|
        bundle_of(request, found) && quote_assembled(
            by,
            request,
            t,
            made,
            bound,
            Ok::<QuoteProof, String>(found.proof),
        ) && #[trigger] quote_checked(by.check, found, Ok(digest@)) && finalizes_answers(request, t) && decided(
            t.finals,
            COMMITTEE_SIZE as nat,
            final_refusal(digest@),
            error_of(r),
        ) && (r matches Ok(b) ==> b == found);
    assert(found == bundle);
    assert forall|i: int| 0 <= i < 3 implies quote_response_refusal(#[trigger] t.responses[i], job) is None by {
        assert(answered(t.responses[i]) is None);
    }
    assert forall|i: int| 0 <= i < 7 implies (#[trigger] t.finals[i]) is Ok && text_in(
        (t.finals[i]->Ok_0).field("quote_digest"@),
    ) == Some(hex_text(digest@)) by {
        assert(final_refusal(digest@)(t.finals[i]) is None);
    }
    assert(quote_checked(by.check, bundle, Ok(digest@)));
}

/// The winning Maker is found of the answers of all seven parties, and is neither nobody
/// nor the Taker.
pub proof fn maker_is_found_by_all<Fl: Fn(&Vec<HandleEvaluation>) -> Result<Point, String>>(
    ladder: Fl,
    taker: Seq<u8>,
    outcomes: Seq<Result<Json, Seq<char>>>,
    maker: Point,
    values: Vec<Value>,
)
    requires
        maker_outcome(ladder, taker, outcomes, Ok((maker, values))),
    ensures
        outcomes.len() == 7,
        values@.len() == 7,
        forall|i: int|
            #![trigger values@[i]]
            0 <= i < 7 ==> outcomes[i] == Ok::<Json, Seq<char>>(values@[i]@),
        maker@ != taker,
        maker@ != zero32(),
        exists|points: Vec<HandleEvaluation>| #[trigger]
            call_ensures(ladder, (&points,), Ok::<Point, String>(maker)) && evaluations_read(
                values_said(values@),
                points@,
            ),
{
}

/// A share of an opening is taken exactly where it is for the leg's context and recipient,
/// names its party, carries the recipient's key and a sealed payload, and is not objected
/// to.
pub proof fn opening_share_is_taken_exactly<J: Fn(&Value) -> Result<(), String>>(
    outcome: Result<Json, Seq<char>>,
    context: Seq<u8>,
    recipient: Seq<u8>,
    valid: J,
)
    ensures
        share_refusal(outcome, context, recipient, valid) is None <==> {
            let value = outcome->Ok_0;
            &&& outcome is Ok
            &&& text_in(value.field("context"@)) == Some(hex_text(context))
            &&& text_in(value.field("recipient_view"@)) == Some(hex_text(recipient))
            &&& handle_party(value) is Some
            &&& value.field("recipient_public"@) is Some
            &&& value.field("sealed"@) is Some
            &&& share_objection(valid, value) is None
        },
{
}

/// The legs are opened one after the other, the deliveries and refunds of the securities
/// first, each by the three signers and to the side that it is for.
pub proof fn legs_are_asked_for_in_order(
    before: Seq<Seq<Call>>,
    job: Seq<u8>,
    payer: Point,
    payee: Point,
    legs: Seq<Seq<Result<Json, Seq<char>>>>,
)
    requires
        legs.len() == 4,
    ensures
        ({
            let method = Operation::ClaimOpeningShare.name();
            let quorum = signing_quorum();
            let one = asked(
                before,
                quorum,
                method,
                claim_json(job, Leg::SecuritiesDelivery.name(), payer@),
                legs[0],
                legs[0].len(),
            );
            let two = asked(
                one,
                quorum,
                method,
                claim_json(job, Leg::SecuritiesRefund.name(), payee@),
                legs[1],
                legs[1].len(),
            );
            let three = asked(
                two,
                quorum,
                method,
                claim_json(job, Leg::CashDelivery.name(), payee@),
                legs[2],
                legs[2].len(),
            );
            legs_asked(before, job, payer, payee, legs, 4) == asked(
                three,
                quorum,
                method,
                claim_json(job, Leg::CashRefund.name(), payer@),
                legs[3],
                legs[3].len(),
            )
        }),
{
    reveal_with_fuel(legs_asked, 6);
}

/// Openings are given only when all four legs have three shares each, every one of them
/// for its context and its recipient.
pub proof fn openings_are_of_all_legs<J: Fn(&Value) -> Result<(), String>>(
    legs: Seq<Seq<Result<Json, Seq<char>>>>,
    contexts: OpeningContexts,
    payer: Point,
    payee: Point,
    valid: J,
    openings: Vec<Vec<Value>>,
)
    requires
        openings_outcome(legs, contexts, payer, payee, valid, Ok(openings)),
    ensures
        legs.len() == 4 && openings@.len() == 4,
        forall|leg: int, i: int|
            #![trigger legs[leg][i]]
            0 <= leg < 4 && 0 <= i < 3 ==> share_refusal(
                legs[leg][i],
                contexts.at(leg)@,
                recipient_at(leg, payer, payee)@,
                valid,
            ) is None,
        forall|leg: int|
            #![trigger openings@[leg]]
            0 <= leg < 4 ==> openings@[leg]@.len() == 3 && legs[leg].len() == 3 && forall|i: int|
                0 <= i < 3 ==> legs[leg][i] == Ok::<Json, Seq<char>>((#[trigger] openings@[leg]@[i])@),
{
    assert forall|leg: int, i: int| #![trigger legs[leg][i]] 0 <= leg < 4 && 0 <= i < 3 implies share_refusal(
        legs[leg][i],
        contexts.at(leg)@,
        recipient_at(leg, payer, payee)@,
        valid,
    ) is None by {
        let check = |o: Result<Json, Seq<char>>|
            share_refusal(o, contexts.at(leg)@, recipient_at(leg, payer, payee)@, valid);
        assert(leg_decided(legs[leg], contexts, leg, payer, payee, valid, None));
        assert(check(legs[leg][i]) is None);
    }
    assert forall|leg: int| #![trigger openings@[leg]] 0 <= leg < 4 implies openings@[leg]@.len() == 3
        && legs[leg].len() == 3 && forall|i: int|
        0 <= i < 3 ==> legs[leg][i] == Ok::<Json, Seq<char>>((#[trigger] openings@[leg]@[i])@) by {
        assert(leg_decided(legs[leg], contexts, leg, payer, payee, valid, None));
        assert(values_answered(legs[leg], openings@[leg]@));
    }
}

/// Receipts are taken only when every node's is authentic and the lane that they agree on
/// derives the very job of the request.
pub proof fn receipts_derive_the_job<V: Fn(&VerifyingKey, &Vec<u8>, &Signature) -> bool>(
    verify: V,
    request: ProductSettlementRequest,
    found: Seq<AttestedExecution>,
    wire: Seq<u8>,
)
    requires
        receipts_outcome(verify, request, found, Ok(wire)),
    ensures
        lane_authentic(verify, executions_by_node(receipts_of(found)), keys_of(found)),
        job_of_lane(execution_lane(receipts_of(found), request.execution.order_digest@)) == Ok::<Seq<u8>, Seq<char>>(
            request.job_id@,
        ),
        encoded_executions(receipts_of(found)) == Ok::<Seq<u8>, Seq<char>>(wire),
{
}

/// A payment is signed by its own committee over its own digest, and what is accepted
/// holds its commitments, its two ends and the signed wire.
pub proof fn payment_is_signed_over_its_digest<
    T,
    SZ,
    R: Fn(&mut Vec<T>, &Vec<u8>) -> Result<Vec<u8>, String>,
    G: Fn(&mut Vec<T>, &Vec<u8>, &Vec<u8>, &Vec<u8>) -> Result<HybridSignature, String>,
    W: Fn(&SettlementInstruction<SZ>, &HybridSignature) -> Vec<u8>,
    U: Fn(&SignedInstruction, &Vec<u8>, &Vec<u8>, u64) -> Result<(), String>,
>(
    by: SigningTools<R, G, W, U>,
    now: u64,
    public: Vec<u8>,
    policy: Vec<u8>,
    instruction: SettlementInstruction<SZ>,
    part: PaymentPart,
)
    requires
        payment_sealed::<T, SZ, R, G, W, U>(by, now, public, policy, instruction, Ok(part)),
    ensures
        part.frost_public == public,
        part.pq_committee == policy,
        part.quote_digest == instruction.quote_digest,
        part.asset_blinding == instruction.draft.asset_blinding,
        part.instruction.amount_commitment == instruction.draft.amount_commitment,
        part.instruction.price_commitment == instruction.draft.price_commitment,
        part.instruction.payer_handle == instruction.payment.payer_handle,
        part.instruction.payee_handle == instruction.payment.payee_handle,
        call_ensures(by.accept, (&part.instruction, &public, &policy, now), Ok::<(), String>(())),
        exists|middle: Seq<T>, message: Vec<u8>, signed: HybridSignature|
            message@ == instruction.payment.digest@ && #[trigger] committee_signed(
                by.sign,
                middle,
                message,
                public,
                policy,
                Ok::<HybridSignature, String>(signed),
            ) && call_ensures(by.seal, (&instruction, &signed), part.instruction.wire),
{
    let r = Ok::<PaymentPart, String>(part);
    let (middle, message, signed) = choose|middle: Seq<T>, message: Vec<u8>, signed: Result<HybridSignature, String>|
        message@ == instruction.payment.digest@ && #[trigger] committee_signed(
            by.sign,
            middle,
            message,
            public,
            policy,
            signed,
        ) && match signed {
            Err(e) => r == Err::<PaymentPart, String>(e),
            Ok(signature) => exists|wire: Vec<u8>|
                call_ensures(by.seal, (&instruction, &signature), wire) && #[trigger] payment_accepted(
                    by.accept,
                    now,
                    public,
                    policy,
                    instruction,
                    wire,
                    r,
                ),
        };
    assert(signed == Ok::<HybridSignature, String>(signed->Ok_0));
}

} // verus!
