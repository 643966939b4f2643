//! What the coordinator asks of whom: every target once, in turn, and nothing after the
//! first answer that it does not accept.

use vstd::prelude::*;
use crate::application_crypto::{answers, Signature, VerifyingKey};
use crate::committee_proof::{
    in_order, proof_done, proof_outcome, proof_stopped, Arithmetic, ProofNames, Steps, Trace, Wanted,
};
use crate::coordinator::{
    answer_opened_refusal, answer_wire_refusal, asked, decided, demand_refusal, first_round_refusal, opening_refusal,
    opens, opens_as, signing_quorum, wire_of, wire_refusal, wires_answered, Call, Demand, FirstRound, RoundNames,
};
use crate::fields::first;
use crate::group::Point;
use crate::json::{text_in, Json};
use crate::pretrade::PretradeAcknowledgement;
use crate::product_settlement::{authorized_typed, settlement_authorized};
use crate::proof_rounds::OpenedWire;
use crate::proof_service::Operation;
use crate::proof_state::signing_job_of;
use crate::settlement::{typed_json, TypedSettlement};
use crate::settlement_proofs::{dvp_named, limit_named, pool_named, verified, zkpi_named};
use crate::text::base64_bytes;

verus! {

/// Targets that are parties and differ are each told one more call, with the outcome that
/// stands at their place; a party that is no target is told nothing.
pub proof fn each_target_is_asked_once(
    before: Seq<Seq<Call>>,
    targets: Seq<usize>,
    method: Seq<char>,
    params: Json,
    outcomes: Seq<Result<Json, Seq<char>>>,
    count: nat,
)
    requires
        count <= targets.len(),
        count <= outcomes.len(),
        forall|i: int| 0 <= i < targets.len() ==> #[trigger] targets[i] < before.len(),
        forall|i: int, j: int| 0 <= i < j < targets.len() ==> targets[i] != targets[j],
    ensures
        asked(before, targets, method, params, outcomes, count).len() == before.len(),
        forall|i: int|
            #![trigger targets[i]]
            0 <= i < count ==> {
                let calls = asked(before, targets, method, params, outcomes, count)[targets[i] as int];
                &&& calls.len() == before[targets[i] as int].len() + 1
                &&& calls.drop_last() == before[targets[i] as int]
                &&& calls.last().method == method
                &&& calls.last().params == params
                &&& calls.last().outcome == outcomes[i]
            },
        forall|p: int|
            #![trigger before[p]]
            0 <= p < before.len() && (forall|i: int| 0 <= i < count ==> #[trigger] targets[i] != p) ==> asked(
                before,
                targets,
                method,
                params,
                outcomes,
                count,
            )[p] == before[p],
    decreases count,
{
    if count > 0 {
        let fewer = (count - 1) as nat;
        each_target_is_asked_once(before, targets, method, params, outcomes, fewer);
        let prior = asked(before, targets, method, params, outcomes, fewer);
        let after = asked(before, targets, method, params, outcomes, count);
        let at = targets[count - 1] as int;
        assert(forall|i: int| 0 <= i < fewer ==> #[trigger] targets[i] != at);
        assert(prior[at] == before[at]);
        assert(after[at].drop_last() =~= before[at]);
        assert forall|i: int| #![trigger targets[i]] 0 <= i < count implies {
            let calls = after[targets[i] as int];
            &&& calls.len() == before[targets[i] as int].len() + 1
            &&& calls.drop_last() == before[targets[i] as int]
            &&& calls.last().method == method
            &&& calls.last().params == params
            &&& calls.last().outcome == outcomes[i]
        } by {
            if i < fewer {
                assert(targets[i] != targets[count - 1]);
                assert(after[targets[i] as int] == prior[targets[i] as int]);
            }
        }
        assert forall|p: int|
            #![trigger before[p]]
            0 <= p < before.len() && (forall|i: int| 0 <= i < count ==> #[trigger] targets[i] != p) implies after[p]
            == before[p] by {
            assert(targets[count - 1] != p);
            assert(forall|i: int| 0 <= i < fewer ==> #[trigger] targets[i] != p);
            assert(after[p] == prior[p]);
        }
    }
}

/// A step succeeds only when every target answered acceptably; it fails with the refusal
/// of the last that was asked, and only of that one.
pub proof fn step_ends_at_the_first_refusal(
    outcomes: Seq<Result<Json, Seq<char>>>,
    targets: nat,
    refusal: spec_fn(Result<Json, Seq<char>>) -> Option<Seq<char>>,
    error: Option<Seq<char>>,
)
    requires
        decided(outcomes, targets, refusal, error),
    ensures
        error is None ==> outcomes.len() == targets,
        error is Some ==> 0 < outcomes.len() <= targets && refusal(outcomes[outcomes.len() - 1]) == error,
        forall|i: int|
            0 <= i < outcomes.len() && (error is None || i < outcomes.len() - 1) ==> refusal(#[trigger] outcomes[i])
                is None,
{
}

/// A wire is taken from an answer exactly where it is base64 of at least a byte and at
/// most a mebibyte, and an error gives none.
pub proof fn wire_is_taken_exactly(outcome: Result<Json, Seq<char>>, value: Option<Json>, name: Seq<char>)
    ensures
        wire_refusal(value, name) is None <==> {
            &&& text_in(value) is Some
            &&& base64_bytes(text_in(value)->0) == Some(wire_of(value))
            &&& 0 < wire_of(value).len() <= 0x10_0000
        },
        answer_wire_refusal(outcome, name) is None <==> outcome is Ok && wire_refusal(Some(outcome->Ok_0), name)
            is None,
        outcome is Err ==> answer_wire_refusal(outcome, name) == Some(outcome->Err_0),
{
}

/// A wire is opened for a job exactly where what is found in it is of that job and of the
/// kind that was expected.
pub proof fn wire_is_opened_for_its_job<F: Fn(&Vec<u8>) -> Result<OpenedWire, String>>(
    f: F,
    raw: Seq<u8>,
    job: Seq<u8>,
    complaint: Seq<char>,
    outcome: Result<OpenedWire, String>,
)
    requires
        opens(f),
        opens_as(f, raw, outcome),
    ensures
        opening_refusal(f, raw, job, complaint) is None <==> outcome is Ok && (outcome->Ok_0).job_id@ == job && (
        outcome->Ok_0).expected,
        outcome is Err ==> opening_refusal(f, raw, job, complaint) == Some((outcome->Err_0)@),
{
    let found = choose|found: Result<OpenedWire, String>| opens_as(f, raw, found);
    let a = choose|b: &Vec<u8>| b@ == raw && #[trigger] call_ensures(f, (b,), outcome);
    let b = choose|b: &Vec<u8>| b@ == raw && #[trigger] call_ensures(f, (b,), found);
    assert(call_ensures(f, (a,), outcome) && call_ensures(f, (b,), found));
}

/// An opened answer is a wire of the job, and a first round is two of them, a seal and a
/// round, in whichever order they are looked at.
pub proof fn first_round_is_two_opened_wires<
    F: Fn(&Vec<u8>) -> Result<OpenedWire, String>,
    G: Fn(&Vec<u8>) -> Result<OpenedWire, String>,
>(outcome: Result<Json, Seq<char>>, names: RoundNames<'_>, name: Seq<char>, seal: F, round: G, job: Seq<u8>,
    complaint: Seq<char>)
    ensures
        answer_opened_refusal(outcome, name, seal, job, complaint) is None <==> answer_wire_refusal(outcome, name)
            is None && opening_refusal(seal, wire_of(Some(outcome->Ok_0)), job, complaint) is None,
        first_round_refusal(outcome, names, seal, round, job) is None <==> {
            let value = outcome->Ok_0;
            &&& outcome is Ok
            &&& wire_refusal(value.field("seal"@), names.seal@) is None
            &&& wire_refusal(value.field("round"@), names.round@) is None
            &&& opening_refusal(seal, wire_of(value.field("seal"@)), job, names.other_seal@) is None
            &&& opening_refusal(round, wire_of(value.field("round"@)), job, names.other_round@) is None
        },
{
}

/// A proof is assembled only when all seven parties evaluated and related, the three
/// signers gave both rounds, and the statement commits to what was wanted.
pub proof fn proof_is_of_the_whole_committee<
    St,
    Re,
    Pr,
    F1: Fn(&Vec<u8>) -> Result<OpenedWire, String>,
    F2: Fn(&Vec<u8>) -> Result<OpenedWire, String>,
    F3: Fn(&Vec<u8>) -> Result<OpenedWire, String>,
    F4: Fn(&Vec<u8>) -> Result<OpenedWire, String>,
    F5: Fn(&Vec<u8>) -> Result<OpenedWire, String>,
    Fs: Fn(&Vec<Vec<u8>>) -> Result<St, String>,
    Fk: Fn(&St) -> Point,
    Fr: Fn(&St, &Vec<Vec<u8>>) -> Result<Re, String>,
    Fc: Fn(&St, &Re, &Vec<FirstRound>) -> Result<Vec<u8>, String>,
    Fa: Fn(&St, &Re, &Vec<FirstRound>, &Vec<Vec<u8>>) -> Result<Pr, String>,
>(
    by: Arithmetic<F1, F2, F3, F4, F5, Fs, Fk, Fr, Fc, Fa>,
    wanted: Option<Wanted<'_>>,
    names: ProofNames<'_>,
    job: Seq<u8>,
    handles: Option<Seq<Json>>,
    trace: Trace,
    made: St,
    proved: Pr,
)
    requires
        proof_outcome(by, wanted, names, job, handles, trace, Ok::<(St, Pr), String>((made, proved))),
    ensures
        trace.evaluations.len() == 7,
        trace.relations.len() == 7,
        trace.rounds.len() == 3,
        trace.responses.len() == 3,
        forall|i: int| 0 <= i < 7 ==> (#[trigger] trace.evaluations[i]) is Ok,
        forall|i: int| 0 <= i < 7 ==> (#[trigger] trace.relations[i]) is Ok,
        forall|i: int| 0 <= i < 3 ==> (#[trigger] trace.rounds[i]) is Ok,
        forall|i: int| 0 <= i < 3 ==> (#[trigger] trace.responses[i]) is Ok,
        forall|i: int|
            #![trigger trace.relations[i]]
            0 <= i < 7 ==> opening_refusal(
                by.relation,
                wire_of(Some(trace.relations[i]->Ok_0)),
                job,
                names.other_relation@,
            ) is None,
        forall|i: int|
            #![trigger trace.responses[i]]
            0 <= i < 3 ==> opening_refusal(
                by.response,
                wire_of(Some(trace.responses[i]->Ok_0)),
                job,
                names.other_response@,
            ) is None,
        forall|i: int|
            #![trigger trace.rounds[i]]
            0 <= i < 3 ==> opening_refusal(
                by.seal,
                wire_of((trace.rounds[i]->Ok_0).field("seal"@)),
                job,
                names.rounds.other_seal@,
            ) is None && opening_refusal(
                by.round,
                wire_of((trace.rounds[i]->Ok_0).field("round"@)),
                job,
                names.rounds.other_round@,
            ) is None,
        exists|evaluations: Vec<Vec<u8>>| #[trigger]
            call_ensures(by.statement, (&evaluations,), Ok::<St, String>(made)) && wires_answered(
                trace.evaluations,
                evaluations@,
            ) && first(
                evaluations@,
                |w: Vec<u8>| opening_refusal(by.evaluation, w@, job, names.other_evaluation@),
            ) is None,
        wanted is Some ==> exists|point: Point| #[trigger]
            call_ensures(by.commitment, (&made,), point) && point@ == (wanted->0).commitment@,
{
    let r = Ok::<(St, Pr), String>((made, proved));
    let steps = choose|steps: Steps<St, Re>| #[trigger]
        in_order(by, wanted, names, job, handles, trace, steps) && match r {
            Ok((m, p)) => m == steps.made && proof_done(by, names, job, trace, steps, p),
            Err(e) => proof_stopped(by, wanted, names, job, trace, steps, e),
        };
    let evaluated = |o: Result<Json, Seq<char>>| answer_wire_refusal(o, names.evaluation@);
    let related = |o: Result<Json, Seq<char>>|
        answer_opened_refusal(o, names.relation@, by.relation, job, names.other_relation@);
    let opened = |o: Result<Json, Seq<char>>| first_round_refusal(o, names.rounds, by.seal, by.round, job);
    let answered = |o: Result<Json, Seq<char>>|
        answer_opened_refusal(o, names.response@, by.response, job, names.other_response@);
    assert forall|i: int| 0 <= i < 7 implies (#[trigger] trace.evaluations[i]) is Ok by {
        assert(evaluated(trace.evaluations[i]) is None);
    }
    assert forall|i: int| 0 <= i < 7 implies (#[trigger] trace.relations[i]) is Ok && opening_refusal(
        by.relation,
        wire_of(Some(trace.relations[i]->Ok_0)),
        job,
        names.other_relation@,
    ) is None by {
        assert(related(trace.relations[i]) is None);
    }
    assert forall|i: int| 0 <= i < 3 implies first_round_refusal(
        #[trigger] trace.rounds[i],
        names.rounds,
        by.seal,
        by.round,
        job,
    ) is None by {
        assert(opened(trace.rounds[i]) is None);
    }
    assert forall|i: int| 0 <= i < 3 implies (#[trigger] trace.responses[i]) is Ok && opening_refusal(
        by.response,
        wire_of(Some(trace.responses[i]->Ok_0)),
        job,
        names.other_response@,
    ) is None by {
        assert(answered(trace.responses[i]) is None);
    }
    assert(call_ensures(by.statement, (&steps.evaluations,), Ok::<St, String>(made)));
}

/// What the coordinator calls are operations that a party serves, those of each proof in
/// their order.
pub proof fn coordinator_calls_what_parties_serve(names: ProofNames<'_>)
    ensures
        zkpi_named(names) ==> names.evaluate@ == Operation::ZkpiEvaluations.name() && names.bind@
            == Operation::ZkpiBind.name() && names.round1@ == Operation::ZkpiRound1.name() && names.round2@
            == Operation::ZkpiRound2.name(),
        limit_named(names) ==> names.evaluate@ == Operation::LimitEvaluations.name() && names.bind@
            == Operation::LimitBind.name() && names.round1@ == Operation::LimitRound1.name() && names.round2@
            == Operation::LimitRound2.name(),
        dvp_named(names) ==> names.evaluate@ == Operation::DvpEvaluations.name() && names.bind@
            == Operation::DvpBind.name() && names.round1@ == Operation::DvpRound1.name() && names.round2@
            == Operation::DvpRound2.name(),
        pool_named(names) ==> names.evaluate@ == Operation::PoolRemainderEvaluations.name() && names.bind@
            == Operation::PoolRemainderBind.name() && names.round1@ == Operation::PoolRemainderRound1.name()
            && names.round2@ == Operation::PoolRemainderRound2.name(),
{
}

/// A proof is handed on only when its verifier said yes to it, and it is the one that was
/// assembled.
pub proof fn proof_is_verified_before_it_is_used<St, Pr, Fv: Fn(&St, &Pr) -> bool>(
    verify: Fv,
    complaint: Seq<char>,
    inner: Result<(St, Pr), String>,
    r: Result<(St, Pr), String>,
)
    requires
        verified(verify, complaint, inner, r),
    ensures
        r is Ok ==> inner is Ok && (r->Ok_0).0 == (inner->Ok_0).0 && (r->Ok_0).1 == (inner->Ok_0).1 && call_ensures(
            verify,
            (&(inner->Ok_0).0, &(inner->Ok_0).1),
            true,
        ),
        r is Err && inner is Ok ==> call_ensures(verify, (&(inner->Ok_0).0, &(inner->Ok_0).1), false),
{
}

/// A typed settlement is authorized by the three signers, one after the other, of the
/// acknowledgement that the pinned key signed: each is asked for the signing job of the
/// very message, and each has to say that it authorized it.
pub proof fn typed_settlement_is_authorized_by_the_quorum<
    K: Fn(&Vec<u8>) -> bool,
    V: Fn(&VerifyingKey, &Vec<u8>, &Signature) -> bool,
>(
    before: Seq<Seq<Call>>,
    after: Seq<Seq<Call>>,
    ack: PretradeAcknowledgement,
    trusted: VerifyingKey,
    known: K,
    verify: V,
    settlement: Result<TypedSettlement, String>,
    error: Option<Seq<char>>,
)
    requires
        settlement_authorized(before, after, ack, trusted, known, verify, settlement, error),
    ensures
        error is None ==> {
            &&& ack.signer_public@ == trusted.bytes@
            &&& ack.refusal(known) is None
            &&& answers(verify, trusted, ack.body(), ack.signature@, true)
            &&& settlement is Ok
            &&& exists|outcomes: Seq<Result<Json, Seq<char>>>|
                #![trigger asked(
                    before,
                    signing_quorum(),
                    "authorize_typed"@,
                    typed_json(settlement->Ok_0, signing_job_of((settlement->Ok_0).message@)),
                    outcomes,
                    3,
                )]
                outcomes.len() == 3 && after == asked(
                    before,
                    signing_quorum(),
                    "authorize_typed"@,
                    typed_json(settlement->Ok_0, signing_job_of((settlement->Ok_0).message@)),
                    outcomes,
                    3,
                ) && forall|i: int|
                    0 <= i < 3 ==> (#[trigger] outcomes[i]) is Ok && (outcomes[i]->Ok_0).field("authorized"@) == Some(
                        Json::Bool(true),
                    )
        },
        ack.signer_public@ != trusted.bytes@ || ack.refusal(known) is Some || settlement is Err ==> error is Some
            && after == before,
{
    if error is None {
        let params = typed_json(settlement->Ok_0, signing_job_of((settlement->Ok_0).message@));
        let refusal = |o: Result<Json, Seq<char>>|
            demand_refusal(o, Demand::True("authorized"), "proof party did not authorize the typed settlement"@);
        assert(authorized_typed(before, after, settlement->Ok_0, error));
        let outcomes = choose|outcomes: Seq<Result<Json, Seq<char>>>|
            #![trigger asked(before, signing_quorum(), "authorize_typed"@, params, outcomes, outcomes.len())]
            after == asked(before, signing_quorum(), "authorize_typed"@, params, outcomes, outcomes.len()) && decided(
                outcomes,
                3,
                |o: Result<Json, Seq<char>>|
                    demand_refusal(
                        o,
                        Demand::True("authorized"),
                        "proof party did not authorize the typed settlement"@,
                    ),
                error,
            );
        assert(outcomes.len() == 3);
        assert(after == asked(before, signing_quorum(), "authorize_typed"@, params, outcomes, 3));
        assert forall|i: int| 0 <= i < 3 implies (#[trigger] outcomes[i]) is Ok && (outcomes[i]->Ok_0).field(
            "authorized"@,
        ) == Some(Json::Bool(true)) by {
            assert(refusal(outcomes[i]) is None);
        }
    }
}

} // verus!
