//! One threshold proof by the committee: evaluations by all, relations by all, a
//! sealed first round by the signing quorum, and its answers.
//!
//! The proof arithmetic is handed in; what is asked of whom, in which order, and
//! what is accepted is decided here.

use vstd::prelude::*;
use crate::bytes::same32;
use crate::coordinator::{
    all_parties, answer_opened_refusal, answer_wire_refusal, asked, collect_opened, collect_rounds, collect_wires,
    committee, decided, error_of, first_round_refusal, job_json, job_params, open_wire, opening_refusal, opens,
    rounds_answered, signing_parties, signing_quorum, told, wires_answered, Call, FirstRound, ProofPartyRpc,
    RoundNames, COMMITTEE_SIZE,
};
use crate::fields::{first, first_at};
use crate::group::Point;
use crate::json::{Json, Value};
use crate::proof_rounds::OpenedWire;
use crate::settlement::{
    challenge_json, challenge_params, evaluations_json, evaluations_params, values_said, zkpi_bind_json,
    zkpi_bind_params,
};

verus! {

/// What a proof's operations and messages are called.
#[derive(Clone, Copy, Debug)]
pub struct ProofNames<'a> {
    pub evaluate: &'a str,
    pub evaluation: &'a str,
    pub other_evaluation: &'a str,
    pub bind: &'a str,
    pub relation: &'a str,
    pub other_relation: &'a str,
    pub round1: &'a str,
    pub rounds: RoundNames<'a>,
    pub round2: &'a str,
    pub response: &'a str,
    pub other_response: &'a str,
}

/// The arithmetic of a proof. The first five open a wire of a kind; `statement`
/// and `relations` make statements of the public evaluations, `commitment` gives
/// what a statement commits to, `challenge` makes the wire of the challenge, and
/// `assemble` the proof of the answers.
#[derive(Debug)]
pub struct Arithmetic<F1, F2, F3, F4, F5, Fs, Fk, Fr, Fc, Fa> {
    pub evaluation: F1,
    pub relation: F2,
    pub seal: F3,
    pub round: F4,
    pub response: F5,
    pub statement: Fs,
    pub commitment: Fk,
    pub relations: Fr,
    pub challenge: Fc,
    pub assemble: Fa,
}

/// What a statement has to commit to, and what is said of another.
#[derive(Clone, Copy, Debug)]
pub struct Wanted<'a> {
    pub commitment: &'a Point,
    pub complaint: &'a str,
}

/// Whether the arithmetic can be done, and a wire opens in one way.
pub open spec fn able<
    St,
    Re,
    Pr,
    F1: Fn(&Vec<u8>) -> Result<OpenedWire, String>,
    F2: Fn(&Vec<u8>) -> Result<OpenedWire, String>,
    F3: Fn(&Vec<u8>) -> Result<OpenedWire, String>,
    F4: Fn(&Vec<u8>) -> Result<OpenedWire, String>,
    F5: Fn(&Vec<u8>) -> Result<OpenedWire, String>,
    Fs: Fn(&Vec<Vec<u8>>) -> Result<St, String>,
    Fk: Fn(&St) -> Point,
    Fr: Fn(&St, &Vec<Vec<u8>>) -> Result<Re, String>,
    Fc: Fn(&St, &Re, &Vec<FirstRound>) -> Result<Vec<u8>, String>,
    Fa: Fn(&St, &Re, &Vec<FirstRound>, &Vec<Vec<u8>>) -> Result<Pr, String>,
>(by: Arithmetic<F1, F2, F3, F4, F5, Fs, Fk, Fr, Fc, Fa>) -> bool {
    &&& opens(by.evaluation)
    &&& opens(by.relation)
    &&& opens(by.seal)
    &&& opens(by.round)
    &&& opens(by.response)
    &&& forall|w: &Vec<Vec<u8>>| call_requires(by.statement, (w,))
    &&& forall|s: &St| call_requires(by.commitment, (s,))
    &&& forall|s: &St, w: &Vec<Vec<u8>>| call_requires(by.relations, (s, w))
    &&& forall|s: &St, q: &Re, w: &Vec<FirstRound>| call_requires(by.challenge, (s, q, w))
    &&& forall|s: &St, q: &Re, w: &Vec<FirstRound>, a: &Vec<Vec<u8>>| call_requires(by.assemble, (s, q, w, a))
}

/// The answers that a proof was made of.
pub ghost struct Trace {
    pub evaluations: Seq<Result<Json, Seq<char>>>,
    pub relations: Seq<Result<Json, Seq<char>>>,
    pub rounds: Seq<Result<Json, Seq<char>>>,
    pub responses: Seq<Result<Json, Seq<char>>>,
    pub bind_params: Json,
    pub challenge: Seq<u8>,
}

/// The calls after the four steps of a proof.
pub open spec fn traced(
    before: Seq<Seq<Call>>,
    names: ProofNames<'_>,
    job: Seq<u8>,
    round1_params: Json,
    trace: Trace,
) -> Seq<Seq<Call>> {
    let one = asked(
        before,
        committee(),
        names.evaluate@,
        job_json(job),
        trace.evaluations,
        trace.evaluations.len(),
    );
    let two = asked(one, committee(), names.bind@, trace.bind_params, trace.relations, trace.relations.len());
    let three = asked(two, signing_quorum(), names.round1@, round1_params, trace.rounds, trace.rounds.len());
    asked(
        three,
        signing_quorum(),
        names.round2@,
        challenge_json(job, trace.challenge),
        trace.responses,
        trace.responses.len(),
    )
}

/// Whether all of a number of answers are accepted.
pub open spec fn all_accepted(
    outcomes: Seq<Result<Json, Seq<char>>>,
    count: nat,
    refusal: spec_fn(Result<Json, Seq<char>>) -> Option<Seq<char>>,
) -> bool {
    decided(outcomes, count, refusal, None)
}

/// Whether wires are all of a job and kind.
pub open spec fn all_open<F: Fn(&Vec<u8>) -> Result<OpenedWire, String>>(
    f: F,
    wires: Seq<Vec<u8>>,
    job: Seq<u8>,
    complaint: Seq<char>,
) -> Option<Seq<char>> {
    first(wires, |w: Vec<u8>| opening_refusal(f, w@, job, complaint))
}

/// Refuses the first wire of another job or kind.
pub fn open_all<F: Fn(&Vec<u8>) -> Result<OpenedWire, String>>(
    f: &F,
    wires: &Vec<Vec<u8>>,
    job: &[u8; 32],
    complaint: &str,
) -> (r: Result<(), String>)
    requires
        opens(*f),
    ensures
        error_of(r) == all_open(*f, wires@, job@, complaint@),
{
    let ghost check = |w: Vec<u8>| opening_refusal(*f, w@, job@, complaint@);
    let mut i: usize = 0;
    assert(wires@.take(0) =~= Seq::empty());
    while i < wires.len()
        invariant
            i <= wires@.len(),
            opens(*f),
            check == |w: Vec<u8>| opening_refusal(*f, w@, job@, complaint@),
            first(wires@.take(i as int), check) is None,
        decreases wires@.len() - i,
    {
        let checked = open_wire(f, &wires[i], job, complaint);
        proof {
            first_at(wires@, check, i as int);
        }
        if let Err(e) = checked {
            return Err(e);
        }
        i = i + 1;
    }
    assert(wires@.take(i as int) =~= wires@);
    Ok(())
}

/// What every party binds its witness to: the public evaluations, and for a
/// payment also those of the winning Maker's handle.
pub open spec fn bind_json(job: Seq<u8>, wires: Seq<Vec<u8>>, handles: Option<Seq<Json>>) -> Json {
    match handles {
        None => evaluations_json(job, wires),
        Some(values) => zkpi_bind_json(job, wires, values),
    }
}

/// The evaluations of a handle, where there are any.
pub open spec fn handles_said(handles: Option<&Vec<Value>>) -> Option<Seq<Json>> {
    match handles {
        None => None,
        Some(values) => Some(values_said(values@)),
    }
}

/// Whether a statement may be made of the public evaluations, which are all of the
/// job, and is accepted.
pub open spec fn statement_made<
    St,
    F1: Fn(&Vec<u8>) -> Result<OpenedWire, String>,
    Fs: Fn(&Vec<Vec<u8>>) -> Result<St, String>,
    Fk: Fn(&St) -> Point,
>(
    evaluation: F1,
    statement: Fs,
    commitment: Fk,
    wanted: Option<Wanted<'_>>,
    names: ProofNames<'_>,
    job: Seq<u8>,
    trace: Trace,
    evaluations: Vec<Vec<u8>>,
    made: St,
) -> bool {
    &&& wires_answered(trace.evaluations, evaluations@)
    &&& all_open(evaluation, evaluations@, job, names.other_evaluation@) is None
    &&& call_ensures(statement, (&evaluations,), Ok::<St, String>(made))
    &&& wanted matches Some(w) ==> exists|point: Point| #[trigger]
        call_ensures(commitment, (&made,), point) && point@ == w.commitment@
}

/// What the coordinator made of the answers: the statement of the evaluations,
/// what the relations bind it to, and the first rounds that were challenged.
pub ghost struct Steps<St, Re> {
    pub evaluations: Vec<Vec<u8>>,
    pub made: St,
    pub relations: Vec<Vec<u8>>,
    pub bound: Re,
    pub rounds: Vec<FirstRound>,
}

/// Whether the statement is bound to what every party answered.
pub open spec fn relations_bound<St, Re, Fr: Fn(&St, &Vec<Vec<u8>>) -> Result<Re, String>>(
    relations: Fr,
    trace: Trace,
    steps: Steps<St, Re>,
) -> bool {
    &&& wires_answered(trace.relations, steps.relations@)
    &&& call_ensures(relations, (&steps.made, &steps.relations), Ok::<Re, String>(steps.bound))
}

/// Whether every step of a proof waits for the one before it: relations are
/// asked for when every evaluation is in and of the job and the statement is
/// accepted, first rounds when every relation is and the statement is bound to
/// them, and a challenge is sent when every seal is. The parties bind what was
/// evaluated, and the challenge is that of the bound statement and the first rounds.
pub open spec fn in_order<
    St,
    Re,
    Pr,
    F1: Fn(&Vec<u8>) -> Result<OpenedWire, String>,
    F2: Fn(&Vec<u8>) -> Result<OpenedWire, String>,
    F3: Fn(&Vec<u8>) -> Result<OpenedWire, String>,
    F4: Fn(&Vec<u8>) -> Result<OpenedWire, String>,
    F5: Fn(&Vec<u8>) -> Result<OpenedWire, String>,
    Fs: Fn(&Vec<Vec<u8>>) -> Result<St, String>,
    Fk: Fn(&St) -> Point,
    Fr: Fn(&St, &Vec<Vec<u8>>) -> Result<Re, String>,
    Fc: Fn(&St, &Re, &Vec<FirstRound>) -> Result<Vec<u8>, String>,
    Fa: Fn(&St, &Re, &Vec<FirstRound>, &Vec<Vec<u8>>) -> Result<Pr, String>,
>(
    by: Arithmetic<F1, F2, F3, F4, F5, Fs, Fk, Fr, Fc, Fa>,
    wanted: Option<Wanted<'_>>,
    names: ProofNames<'_>,
    job: Seq<u8>,
    handles: Option<Seq<Json>>,
    trace: Trace,
    steps: Steps<St, Re>,
) -> bool {
    &&& trace.relations.len() > 0 ==> {
        &&& all_accepted(trace.evaluations, COMMITTEE_SIZE as nat, |o: Result<Json, Seq<char>>| answer_wire_refusal(o,
            names.evaluation@))
        &&& trace.bind_params == bind_json(job, steps.evaluations@, handles)
        &&& statement_made(
            by.evaluation,
            by.statement,
            by.commitment,
            wanted,
            names,
            job,
            trace,
            steps.evaluations,
            steps.made,
        )
    }
    &&& trace.rounds.len() > 0 ==> {
        &&& trace.relations.len() > 0
        &&& all_accepted(
            trace.relations,
            COMMITTEE_SIZE as nat,
            |o: Result<Json, Seq<char>>| answer_opened_refusal(o, names.relation@, by.relation, job,
                names.other_relation@),
        )
        &&& relations_bound(by.relations, trace, steps)
    }
    &&& trace.responses.len() > 0 ==> {
        &&& trace.rounds.len() > 0
        &&& all_accepted(trace.rounds, 3, |o: Result<Json, Seq<char>>| first_round_refusal(o, names.rounds, by.seal,
            by.round, job))
        &&& rounds_answered(trace.rounds, steps.rounds@)
        &&& exists|wire: Vec<u8>|
            wire@ == trace.challenge && #[trigger] call_ensures(
                by.challenge,
                (&steps.made, &steps.bound, &steps.rounds),
                Ok::<Vec<u8>, String>(wire),
            )
    }
}

/// Whether a proof was assembled of the bound statement, the first rounds and the
/// answers to their challenge.
pub open spec fn proof_done<
    St,
    Re,
    Pr,
    F1: Fn(&Vec<u8>) -> Result<OpenedWire, String>,
    F2: Fn(&Vec<u8>) -> Result<OpenedWire, String>,
    F3: Fn(&Vec<u8>) -> Result<OpenedWire, String>,
    F4: Fn(&Vec<u8>) -> Result<OpenedWire, String>,
    F5: Fn(&Vec<u8>) -> Result<OpenedWire, String>,
    Fs: Fn(&Vec<Vec<u8>>) -> Result<St, String>,
    Fk: Fn(&St) -> Point,
    Fr: Fn(&St, &Vec<Vec<u8>>) -> Result<Re, String>,
    Fc: Fn(&St, &Re, &Vec<FirstRound>) -> Result<Vec<u8>, String>,
    Fa: Fn(&St, &Re, &Vec<FirstRound>, &Vec<Vec<u8>>) -> Result<Pr, String>,
>(
    by: Arithmetic<F1, F2, F3, F4, F5, Fs, Fk, Fr, Fc, Fa>,
    names: ProofNames<'_>,
    job: Seq<u8>,
    trace: Trace,
    steps: Steps<St, Re>,
    proved: Pr,
) -> bool {
    &&& trace.responses.len() > 0
    &&& all_accepted(trace.responses, 3, |o: Result<Json, Seq<char>>| answer_opened_refusal(o, names.response@,
        by.response, job, names.other_response@))
    &&& exists|responses: Vec<Vec<u8>>|
        #![trigger call_ensures(by.assemble, (&steps.made, &steps.bound, &steps.rounds, &responses), Ok::<Pr,
            String>(proved))]
        wires_answered(trace.responses, responses@) && call_ensures(
            by.assemble,
            (&steps.made, &steps.bound, &steps.rounds, &responses),
            Ok::<Pr, String>(proved),
        )
}

/// Whether the evaluations stop a proof in these words: a party gives none, one is
/// of another job or kind, or no accepted statement is made of them.
pub open spec fn stopped_first<
    St,
    Re,
    Pr,
    F1: Fn(&Vec<u8>) -> Result<OpenedWire, String>,
    F2: Fn(&Vec<u8>) -> Result<OpenedWire, String>,
    F3: Fn(&Vec<u8>) -> Result<OpenedWire, String>,
    F4: Fn(&Vec<u8>) -> Result<OpenedWire, String>,
    F5: Fn(&Vec<u8>) -> Result<OpenedWire, String>,
    Fs: Fn(&Vec<Vec<u8>>) -> Result<St, String>,
    Fk: Fn(&St) -> Point,
    Fr: Fn(&St, &Vec<Vec<u8>>) -> Result<Re, String>,
    Fc: Fn(&St, &Re, &Vec<FirstRound>) -> Result<Vec<u8>, String>,
    Fa: Fn(&St, &Re, &Vec<FirstRound>, &Vec<Vec<u8>>) -> Result<Pr, String>,
>(
    by: Arithmetic<F1, F2, F3, F4, F5, Fs, Fk, Fr, Fc, Fa>,
    wanted: Option<Wanted<'_>>,
    names: ProofNames<'_>,
    job: Seq<u8>,
    trace: Trace,
    e: String,
) -> bool {
    ||| decided(trace.evaluations, COMMITTEE_SIZE as nat, |o: Result<Json, Seq<char>>| answer_wire_refusal(o,
        names.evaluation@), Some(e@))
    ||| exists|evaluations: Vec<Vec<u8>>| #[trigger]
        wires_answered(trace.evaluations, evaluations@) && {
            ||| all_open(by.evaluation, evaluations@, job, names.other_evaluation@) == Some(e@)
            ||| call_ensures(by.statement, (&evaluations,), Err::<St, String>(e))
            ||| exists|made: St, point: Point|
                call_ensures(by.statement, (&evaluations,), Ok::<St, String>(made)) && #[trigger] call_ensures(
                    by.commitment,
                    (&made,),
                    point,
                ) && wanted is Some && point@ != wanted->0.commitment@ && e@ == wanted->0.complaint@
        }
}

/// Whether the relations stop a proof in these words.
pub open spec fn stopped_second<
    St,
    Re,
    Pr,
    F1: Fn(&Vec<u8>) -> Result<OpenedWire, String>,
    F2: Fn(&Vec<u8>) -> Result<OpenedWire, String>,
    F3: Fn(&Vec<u8>) -> Result<OpenedWire, String>,
    F4: Fn(&Vec<u8>) -> Result<OpenedWire, String>,
    F5: Fn(&Vec<u8>) -> Result<OpenedWire, String>,
    Fs: Fn(&Vec<Vec<u8>>) -> Result<St, String>,
    Fk: Fn(&St) -> Point,
    Fr: Fn(&St, &Vec<Vec<u8>>) -> Result<Re, String>,
    Fc: Fn(&St, &Re, &Vec<FirstRound>) -> Result<Vec<u8>, String>,
    Fa: Fn(&St, &Re, &Vec<FirstRound>, &Vec<Vec<u8>>) -> Result<Pr, String>,
>(
    by: Arithmetic<F1, F2, F3, F4, F5, Fs, Fk, Fr, Fc, Fa>,
    names: ProofNames<'_>,
    job: Seq<u8>,
    trace: Trace,
    steps: Steps<St, Re>,
    e: String,
) -> bool {
    ||| decided(trace.relations, COMMITTEE_SIZE as nat, |o: Result<Json, Seq<char>>| answer_opened_refusal(o,
        names.relation@, by.relation, job, names.other_relation@), Some(e@))
    ||| {
        &&& wires_answered(trace.relations, steps.relations@)
        &&& call_ensures(by.relations, (&steps.made, &steps.relations), Err::<Re, String>(e))
    }
}

/// Whether the first rounds stop a proof in these words.
pub open spec fn stopped_third<
    St,
    Re,
    Pr,
    F1: Fn(&Vec<u8>) -> Result<OpenedWire, String>,
    F2: Fn(&Vec<u8>) -> Result<OpenedWire, String>,
    F3: Fn(&Vec<u8>) -> Result<OpenedWire, String>,
    F4: Fn(&Vec<u8>) -> Result<OpenedWire, String>,
    F5: Fn(&Vec<u8>) -> Result<OpenedWire, String>,
    Fs: Fn(&Vec<Vec<u8>>) -> Result<St, String>,
    Fk: Fn(&St) -> Point,
    Fr: Fn(&St, &Vec<Vec<u8>>) -> Result<Re, String>,
    Fc: Fn(&St, &Re, &Vec<FirstRound>) -> Result<Vec<u8>, String>,
    Fa: Fn(&St, &Re, &Vec<FirstRound>, &Vec<Vec<u8>>) -> Result<Pr, String>,
>(
    by: Arithmetic<F1, F2, F3, F4, F5, Fs, Fk, Fr, Fc, Fa>,
    names: ProofNames<'_>,
    job: Seq<u8>,
    trace: Trace,
    steps: Steps<St, Re>,
    e: String,
) -> bool {
    ||| decided(trace.rounds, 3, |o: Result<Json, Seq<char>>| first_round_refusal(o, names.rounds, by.seal, by.round,
        job), Some(e@))
    ||| {
        &&& rounds_answered(trace.rounds, steps.rounds@)
        &&& call_ensures(by.challenge, (&steps.made, &steps.bound, &steps.rounds), Err::<Vec<u8>, String>(e))
    }
}

/// Whether the answers to the challenge stop a proof in these words.
pub open spec fn stopped_fourth<
    St,
    Re,
    Pr,
    F1: Fn(&Vec<u8>) -> Result<OpenedWire, String>,
    F2: Fn(&Vec<u8>) -> Result<OpenedWire, String>,
    F3: Fn(&Vec<u8>) -> Result<OpenedWire, String>,
    F4: Fn(&Vec<u8>) -> Result<OpenedWire, String>,
    F5: Fn(&Vec<u8>) -> Result<OpenedWire, String>,
    Fs: Fn(&Vec<Vec<u8>>) -> Result<St, String>,
    Fk: Fn(&St) -> Point,
    Fr: Fn(&St, &Vec<Vec<u8>>) -> Result<Re, String>,
    Fc: Fn(&St, &Re, &Vec<FirstRound>) -> Result<Vec<u8>, String>,
    Fa: Fn(&St, &Re, &Vec<FirstRound>, &Vec<Vec<u8>>) -> Result<Pr, String>,
>(
    by: Arithmetic<F1, F2, F3, F4, F5, Fs, Fk, Fr, Fc, Fa>,
    names: ProofNames<'_>,
    job: Seq<u8>,
    trace: Trace,
    steps: Steps<St, Re>,
    e: String,
) -> bool {
    ||| decided(trace.responses, 3, |o: Result<Json, Seq<char>>| answer_opened_refusal(o, names.response@,
        by.response, job, names.other_response@), Some(e@))
    ||| exists|responses: Vec<Vec<u8>>|
        wires_answered(trace.responses, responses@) && #[trigger] call_ensures(
            by.assemble,
            (&steps.made, &steps.bound, &steps.rounds, &responses),
            Err::<Pr, String>(e),
        )
}

/// Whether a proof stops in these words. Nothing is asked behind the step that stops it.
pub open spec fn proof_stopped<
    St,
    Re,
    Pr,
    F1: Fn(&Vec<u8>) -> Result<OpenedWire, String>,
    F2: Fn(&Vec<u8>) -> Result<OpenedWire, String>,
    F3: Fn(&Vec<u8>) -> Result<OpenedWire, String>,
    F4: Fn(&Vec<u8>) -> Result<OpenedWire, String>,
    F5: Fn(&Vec<u8>) -> Result<OpenedWire, String>,
    Fs: Fn(&Vec<Vec<u8>>) -> Result<St, String>,
    Fk: Fn(&St) -> Point,
    Fr: Fn(&St, &Vec<Vec<u8>>) -> Result<Re, String>,
    Fc: Fn(&St, &Re, &Vec<FirstRound>) -> Result<Vec<u8>, String>,
    Fa: Fn(&St, &Re, &Vec<FirstRound>, &Vec<Vec<u8>>) -> Result<Pr, String>,
>(
    by: Arithmetic<F1, F2, F3, F4, F5, Fs, Fk, Fr, Fc, Fa>,
    wanted: Option<Wanted<'_>>,
    names: ProofNames<'_>,
    job: Seq<u8>,
    trace: Trace,
    steps: Steps<St, Re>,
    e: String,
) -> bool {
    ||| {
        &&& trace.relations.len() == 0 && trace.rounds.len() == 0 && trace.responses.len() == 0
        &&& stopped_first(by, wanted, names, job, trace, e)
    }
    ||| {
        &&& trace.relations.len() > 0 && trace.rounds.len() == 0 && trace.responses.len() == 0
        &&& stopped_second(by, names, job, trace, steps, e)
    }
    ||| {
        &&& trace.rounds.len() > 0 && trace.responses.len() == 0
        &&& stopped_third(by, names, job, trace, steps, e)
    }
    ||| {
        &&& trace.responses.len() > 0
        &&& stopped_fourth(by, names, job, trace, steps, e)
    }
}

/// What came of asking the committee for a proof.
pub open spec fn proof_outcome<
    St,
    Re,
    Pr,
    F1: Fn(&Vec<u8>) -> Result<OpenedWire, String>,
    F2: Fn(&Vec<u8>) -> Result<OpenedWire, String>,
    F3: Fn(&Vec<u8>) -> Result<OpenedWire, String>,
    F4: Fn(&Vec<u8>) -> Result<OpenedWire, String>,
    F5: Fn(&Vec<u8>) -> Result<OpenedWire, String>,
    Fs: Fn(&Vec<Vec<u8>>) -> Result<St, String>,
    Fk: Fn(&St) -> Point,
    Fr: Fn(&St, &Vec<Vec<u8>>) -> Result<Re, String>,
    Fc: Fn(&St, &Re, &Vec<FirstRound>) -> Result<Vec<u8>, String>,
    Fa: Fn(&St, &Re, &Vec<FirstRound>, &Vec<Vec<u8>>) -> Result<Pr, String>,
>(
    by: Arithmetic<F1, F2, F3, F4, F5, Fs, Fk, Fr, Fc, Fa>,
    wanted: Option<Wanted<'_>>,
    names: ProofNames<'_>,
    job: Seq<u8>,
    handles: Option<Seq<Json>>,
    trace: Trace,
    r: Result<(St, Pr), String>,
) -> bool {
    exists|steps: Steps<St, Re>| #[trigger]
        in_order(by, wanted, names, job, handles, trace, steps) && match r {
            Ok((made, proved)) => made == steps.made && proof_done(by, names, job, trace, steps, proved),
            Err(e) => proof_stopped(by, wanted, names, job, trace, steps, e),
        }
}

fn bind_params(job: &[u8; 32], wires: &Vec<Vec<u8>>, handles: Option<&Vec<Value>>) -> (params: Value)
    ensures
        params@ == bind_json(job@, wires@, handles_said(handles)),
{
    match handles {
        None => evaluations_params(job, wires),
        Some(values) => zkpi_bind_params(job, wires, values),
    }
}

/// Makes one threshold proof with the committee. Where something is wanted of the
/// statement, it is refused before anyone binds its witness to another.
pub fn prove_with_committee<
    T: ProofPartyRpc,
    St,
    Re,
    Pr,
    F1: Fn(&Vec<u8>) -> Result<OpenedWire, String>,
    F2: Fn(&Vec<u8>) -> Result<OpenedWire, String>,
    F3: Fn(&Vec<u8>) -> Result<OpenedWire, String>,
    F4: Fn(&Vec<u8>) -> Result<OpenedWire, String>,
    F5: Fn(&Vec<u8>) -> Result<OpenedWire, String>,
    Fs: Fn(&Vec<Vec<u8>>) -> Result<St, String>,
    Fk: Fn(&St) -> Point,
    Fr: Fn(&St, &Vec<Vec<u8>>) -> Result<Re, String>,
    Fc: Fn(&St, &Re, &Vec<FirstRound>) -> Result<Vec<u8>, String>,
    Fa: Fn(&St, &Re, &Vec<FirstRound>, &Vec<Vec<u8>>) -> Result<Pr, String>,
>(
    parties: &mut Vec<T>,
    names: ProofNames<'_>,
    job: &[u8; 32],
    round1_params: &Value,
    handles: Option<&Vec<Value>>,
    by: &Arithmetic<F1, F2, F3, F4, F5, Fs, Fk, Fr, Fc, Fa>,
    wanted: Option<Wanted<'_>>,
) -> (r: Result<(St, Pr), String>)
    requires
        old(parties)@.len() == COMMITTEE_SIZE,
        able(*by),
    ensures
        final(parties)@.len() == COMMITTEE_SIZE,
        exists|trace: Trace|
            #![trigger traced(told(old(parties)@), names, job@, round1_params@, trace)]
            told(final(parties)@) == traced(told(old(parties)@), names, job@, round1_params@, trace) && proof_outcome(
                *by,
                wanted,
                names,
                job@,
                handles_said(handles),
                trace,
                r,
            ),
{
    let everyone = all_parties();
    let quorum = signing_parties();
    let ghost before = told(parties@);
    let ghost none: Seq<Result<Json, Seq<char>>> = Seq::empty();
    let ghost mut trace = Trace {
        evaluations: none,
        relations: none,
        rounds: none,
        responses: none,
        bind_params: Json::Null,
        challenge: Seq::empty(),
    };
    let ghost mut steps: Steps<St, Re> = Steps {
        evaluations: arbitrary(),
        made: arbitrary(),
        relations: arbitrary(),
        bound: arbitrary(),
        rounds: arbitrary(),
    };
    let params = job_params(job);
    let first_step = collect_wires(parties, &everyone, names.evaluate, &params, names.evaluation);
    proof {
        let outcomes = choose|outcomes: Seq<Result<Json, Seq<char>>>|
            #![trigger asked(before, committee(), names.evaluate@, job_json(job@), outcomes, outcomes.len())]
            told(parties@) == asked(before, committee(), names.evaluate@, job_json(job@), outcomes, outcomes.len())
                && decided(
                outcomes,
                COMMITTEE_SIZE as nat,
                |o: Result<Json, Seq<char>>| answer_wire_refusal(o, names.evaluation@),
                error_of(first_step),
            ) && (first_step matches Ok(wires) ==> wires_answered(outcomes, wires@));
        trace = Trace { evaluations: outcomes, ..trace };
        assert(told(parties@) == traced(before, names, job@, round1_params@, trace));
        assert(in_order(*by, wanted, names, job@, handles_said(handles), trace, steps));
    }
    let evaluations = match first_step {
        Err(e) => {
            assert(stopped_first(*by, wanted, names, job@, trace, e));
            return Err(e);
        },
        Ok(wires) => wires,
    };
    assert(wires_answered(trace.evaluations, evaluations@));
    if let Err(e) = open_all(&by.evaluation, &evaluations, job, names.other_evaluation) {
        assert(stopped_first(*by, wanted, names, job@, trace, e));
        return Err(e);
    }
    let made = match (by.statement)(&evaluations) {
        Err(e) => {
            assert(stopped_first(*by, wanted, names, job@, trace, e));
            return Err(e);
        },
        Ok(made) => made,
    };
    assert(call_ensures(by.statement, (&evaluations,), Ok::<St, String>(made)));
    if let Some(w) = wanted {
        let point = (by.commitment)(&made);
        assert(call_ensures(by.commitment, (&made,), point));
        if !same32(&point.bytes, &w.commitment.bytes) {
            let complaint = w.complaint.to_owned();
            assert(stopped_first(*by, wanted, names, job@, trace, complaint));
            return Err(complaint);
        }
    }
    assert(call_ensures(by.statement, (&evaluations,), Ok::<St, String>(made)));
    assert(statement_made(by.evaluation, by.statement, by.commitment, wanted, names, job@, trace, evaluations, made));
    let binding = bind_params(job, &evaluations, handles);
    proof {
        steps = Steps { evaluations, made, ..steps };
    }
    let ghost one = told(parties@);
    let ghost opened = trace;
    let second_step = collect_opened(
        parties,
        &everyone,
        names.bind,
        &binding,
        names.relation,
        &by.relation,
        job,
        names.other_relation,
    );
    proof {
        let outcomes = choose|outcomes: Seq<Result<Json, Seq<char>>>|
            #![trigger asked(one, committee(), names.bind@, binding@, outcomes, outcomes.len())]
            told(parties@) == asked(one, committee(), names.bind@, binding@, outcomes, outcomes.len()) && decided(
                outcomes,
                COMMITTEE_SIZE as nat,
                |o: Result<Json, Seq<char>>| answer_opened_refusal(o, names.relation@, by.relation, job@,
                    names.other_relation@),
                error_of(second_step),
            ) && (second_step matches Ok(wires) ==> wires_answered(outcomes, wires@));
        trace = Trace { relations: outcomes, bind_params: binding@, ..trace };
        assert(told(parties@) == traced(before, names, job@, round1_params@, trace));
        assert(statement_made(by.evaluation, by.statement, by.commitment, wanted, names, job@, trace, evaluations,
            made));
        assert(in_order(*by, wanted, names, job@, handles_said(handles), trace, steps));
    }
    let relation_wires = match second_step {
        Err(e) => {
            assert(stopped_second(*by, names, job@, trace, steps, e));
            return Err(e);
        },
        Ok(wires) => wires,
    };
    proof {
        steps = Steps { relations: relation_wires, ..steps };
        assert(in_order(*by, wanted, names, job@, handles_said(handles), trace, steps));
    }
    let bound = match (by.relations)(&made, &relation_wires) {
        Err(e) => {
            assert(stopped_second(*by, names, job@, trace, steps, e));
            return Err(e);
        },
        Ok(bound) => bound,
    };
    proof {
        steps = Steps { bound, ..steps };
        assert(relations_bound(by.relations, trace, steps));
    }
    let ghost two = told(parties@);
    let third_step = collect_rounds(
        parties,
        &quorum,
        names.round1,
        round1_params,
        names.rounds,
        &by.seal,
        &by.round,
        job,
    );
    proof {
        let outcomes = choose|outcomes: Seq<Result<Json, Seq<char>>>|
            #![trigger asked(two, signing_quorum(), names.round1@, round1_params@, outcomes, outcomes.len())]
            told(parties@) == asked(two, signing_quorum(), names.round1@, round1_params@, outcomes, outcomes.len())
                && decided(
                outcomes,
                3,
                |o: Result<Json, Seq<char>>| first_round_refusal(o, names.rounds, by.seal, by.round, job@),
                error_of(third_step),
            ) && (third_step matches Ok(rounds) ==> rounds_answered(outcomes, rounds@));
        trace = Trace { rounds: outcomes, ..trace };
        assert(relations_bound(by.relations, trace, steps));
        assert(told(parties@) == traced(before, names, job@, round1_params@, trace));
        assert(statement_made(by.evaluation, by.statement, by.commitment, wanted, names, job@, trace, evaluations,
            made));
        assert(in_order(*by, wanted, names, job@, handles_said(handles), trace, steps));
    }
    let rounds = match third_step {
        Err(e) => {
            assert(stopped_third(*by, names, job@, trace, steps, e));
            return Err(e);
        },
        Ok(rounds) => rounds,
    };
    proof {
        steps = Steps { rounds, ..steps };
        assert(relations_bound(by.relations, trace, steps));
        assert(in_order(*by, wanted, names, job@, handles_said(handles), trace, steps));
    }
    let challenge_wire = match (by.challenge)(&made, &bound, &rounds) {
        Err(e) => {
            assert(stopped_third(*by, names, job@, trace, steps, e));
            return Err(e);
        },
        Ok(wire) => wire,
    };
    assert(call_ensures(by.challenge, (&made, &bound, &rounds), Ok::<Vec<u8>, String>(challenge_wire)));
    let answer_params = challenge_params(job, &challenge_wire);
    let ghost three = told(parties@);
    let fourth_step = collect_opened(
        parties,
        &quorum,
        names.round2,
        &answer_params,
        names.response,
        &by.response,
        job,
        names.other_response,
    );
    proof {
        let outcomes = choose|outcomes: Seq<Result<Json, Seq<char>>>|
            #![trigger asked(three, signing_quorum(), names.round2@, answer_params@, outcomes, outcomes.len())]
            told(parties@) == asked(three, signing_quorum(), names.round2@, answer_params@, outcomes, outcomes.len())
                && decided(
                outcomes,
                3,
                |o: Result<Json, Seq<char>>| answer_opened_refusal(o, names.response@, by.response, job@,
                    names.other_response@),
                error_of(fourth_step),
            ) && (fourth_step matches Ok(wires) ==> wires_answered(outcomes, wires@));
        trace = Trace { responses: outcomes, challenge: challenge_wire@, ..trace };
        assert(relations_bound(by.relations, trace, steps));
        assert(told(parties@) == traced(before, names, job@, round1_params@, trace));
        assert(statement_made(by.evaluation, by.statement, by.commitment, wanted, names, job@, trace, evaluations,
            made));
        assert(in_order(*by, wanted, names, job@, handles_said(handles), trace, steps));
    }
    let responses = match fourth_step {
        Err(e) => {
            assert(stopped_fourth(*by, names, job@, trace, steps, e));
            return Err(e);
        },
        Ok(wires) => wires,
    };
    match (by.assemble)(&made, &bound, &rounds, &responses) {
        Err(e) => {
            assert(stopped_fourth(*by, names, job@, trace, steps, e));
            Err(e)
        },
        Ok(proved) => {
            assert(call_ensures(by.assemble, (&made, &bound, &rounds, &responses), Ok::<Pr, String>(proved)));
            assert(proof_done(*by, names, job@, trace, steps, proved));
            Ok((made, proved))
        },
    }
}

/// A proof that the committee makes: of what, and how.
pub trait CommitteeProof<St, Pr> {
    /// Whether the proof's arithmetic can be done.
    spec fn ready(&self) -> bool;

    /// What may come of asking the committee for the proof.
    spec fn outcome(
        &self,
        wanted: Option<Wanted<'_>>,
        names: ProofNames<'_>,
        job: Seq<u8>,
        handles: Option<Seq<Json>>,
        trace: Trace,
        r: Result<(St, Pr), String>,
    ) -> bool;

    /// Whether a statement may commit to a point.
    spec fn commits(&self, made: St, point: Point) -> bool;

    /// Asks the committee for the proof.
    fn prove<T: ProofPartyRpc>(
        &self,
        parties: &mut Vec<T>,
        names: ProofNames<'_>,
        job: &[u8; 32],
        round1_params: &Value,
        handles: Option<&Vec<Value>>,
        wanted: Option<Wanted<'_>>,
    ) -> (r: Result<(St, Pr), String>)
        requires
            old(parties)@.len() == COMMITTEE_SIZE,
            self.ready(),
        ensures
            final(parties)@.len() == COMMITTEE_SIZE,
            exists|trace: Trace|
                #![trigger traced(told(old(parties)@), names, job@, round1_params@, trace)]
                told(final(parties)@) == traced(told(old(parties)@), names, job@, round1_params@, trace)
                    && self.outcome(wanted, names, job@, handles_said(handles), trace, r),
    ;

    /// What a statement commits to.
    fn committed(&self, made: &St) -> (point: Point)
        requires
            self.ready(),
        ensures
            self.commits(*made, point),
    ;
}

impl<
    St,
    Re,
    Pr,
    F1: Fn(&Vec<u8>) -> Result<OpenedWire, String>,
    F2: Fn(&Vec<u8>) -> Result<OpenedWire, String>,
    F3: Fn(&Vec<u8>) -> Result<OpenedWire, String>,
    F4: Fn(&Vec<u8>) -> Result<OpenedWire, String>,
    F5: Fn(&Vec<u8>) -> Result<OpenedWire, String>,
    Fs: Fn(&Vec<Vec<u8>>) -> Result<St, String>,
    Fk: Fn(&St) -> Point,
    Fr: Fn(&St, &Vec<Vec<u8>>) -> Result<Re, String>,
    Fc: Fn(&St, &Re, &Vec<FirstRound>) -> Result<Vec<u8>, String>,
    Fa: Fn(&St, &Re, &Vec<FirstRound>, &Vec<Vec<u8>>) -> Result<Pr, String>,
> CommitteeProof<St, Pr> for Arithmetic<F1, F2, F3, F4, F5, Fs, Fk, Fr, Fc, Fa> {
    open spec fn ready(&self) -> bool {
        able(*self)
    }

    open spec fn outcome(
        &self,
        wanted: Option<Wanted<'_>>,
        names: ProofNames<'_>,
        job: Seq<u8>,
        handles: Option<Seq<Json>>,
        trace: Trace,
        r: Result<(St, Pr), String>,
    ) -> bool {
        proof_outcome(*self, wanted, names, job, handles, trace, r)
    }

    open spec fn commits(&self, made: St, point: Point) -> bool {
        call_ensures(self.commitment, (&made,), point)
    }

    fn prove<T: ProofPartyRpc>(
        &self,
        parties: &mut Vec<T>,
        names: ProofNames<'_>,
        job: &[u8; 32],
        round1_params: &Value,
        handles: Option<&Vec<Value>>,
        wanted: Option<Wanted<'_>>,
    ) -> (r: Result<(St, Pr), String>) {
        prove_with_committee(parties, names, job, round1_params, handles, self, wanted)
    }

    fn committed(&self, made: &St) -> (point: Point) {
        (self.commitment)(made)
    }
}

} // verus!
