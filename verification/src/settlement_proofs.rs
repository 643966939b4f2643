//! The proofs that the committee makes of a settlement: the hidden price limit, the
//! delivery, and the remainder of the Maker's standing pool.

use vstd::prelude::*;
use crate::committee_proof::{traced, CommitteeProof, ProofNames, Trace, Wanted};
use crate::coordinator::{job_json, job_params, told, ProofPartyRpc, RoundNames, COMMITTEE_SIZE};
use crate::group::{Point, Scalar};
use crate::json::Value;
use crate::settlement::{is_minus_one, limit_round_json, limit_round_params, ProductSettlementRequest};

verus! {

/// Whether names are those of the proof of a payment.
pub open spec fn zkpi_named(names: ProofNames<'_>) -> bool {
    &&& names.evaluate@ == "zkpi_evaluations"@
    &&& names.evaluation@ == "zkPI evaluation"@
    &&& names.other_evaluation@ == "zkPI proof party returned another evaluation type"@
    &&& names.bind@ == "zkpi_bind"@
    &&& names.relation@ == "zkPI relation"@
    &&& names.other_relation@ == "zkPI proof party returned another relation type"@
    &&& names.round1@ == "zkpi_round1"@
    &&& names.round2@ == "zkpi_round2"@
    &&& names.response@ == "zkPI round two"@
    &&& names.other_response@ == "zkPI proof party returned another round-two message"@
    &&& names.rounds.no_seal@ == "proof party omitted zkPI round-one seal"@
    &&& names.rounds.seal@ == "zkPI round-one seal"@
    &&& names.rounds.other_seal@ == "zkPI proof party returned another round-one seal"@
    &&& names.rounds.no_round@ == "proof party omitted zkPI round one"@
    &&& names.rounds.round@ == "zkPI round one"@
    &&& names.rounds.other_round@ == "zkPI proof party returned another round-one message"@
    &&& names.rounds.seal_first == false
}

/// The names of the proof of a payment.
pub fn zkpi_names() -> (names: ProofNames<'static>)
    ensures
        zkpi_named(names),
{
    ProofNames {
        evaluate: "zkpi_evaluations",
        evaluation: "zkPI evaluation",
        other_evaluation: "zkPI proof party returned another evaluation type",
        bind: "zkpi_bind",
        relation: "zkPI relation",
        other_relation: "zkPI proof party returned another relation type",
        round1: "zkpi_round1",
        rounds: RoundNames {
            no_seal: "proof party omitted zkPI round-one seal",
            seal: "zkPI round-one seal",
            other_seal: "zkPI proof party returned another round-one seal",
            no_round: "proof party omitted zkPI round one",
            round: "zkPI round one",
            other_round: "zkPI proof party returned another round-one message",
            seal_first: false,
        },
        round2: "zkpi_round2",
        response: "zkPI round two",
        other_response: "zkPI proof party returned another round-two message",
    }
}

/// Whether names are those of the proof of a hidden limit.
pub open spec fn limit_named(names: ProofNames<'_>) -> bool {
    &&& names.evaluate@ == "limit_evaluations"@
    &&& names.evaluation@ == "hidden-limit evaluation"@
    &&& names.other_evaluation@ == "hidden-limit proof party returned another evaluation type"@
    &&& names.bind@ == "limit_bind"@
    &&& names.relation@ == "hidden-limit relation"@
    &&& names.other_relation@ == "hidden-limit proof party returned another relation type"@
    &&& names.round1@ == "limit_round1"@
    &&& names.round2@ == "limit_round2"@
    &&& names.response@ == "hidden-limit round two"@
    &&& names.other_response@ == "hidden-limit proof party returned another second round"@
    &&& names.rounds.no_seal@ == "proof party omitted hidden-limit seal"@
    &&& names.rounds.seal@ == "hidden-limit seal"@
    &&& names.rounds.other_seal@ == "hidden-limit proof party returned another seal"@
    &&& names.rounds.no_round@ == "proof party omitted hidden-limit round one"@
    &&& names.rounds.round@ == "hidden-limit round one"@
    &&& names.rounds.other_round@ == "hidden-limit proof party returned another first round"@
    &&& names.rounds.seal_first == true
}

/// The names of the proof of a hidden limit.
pub fn limit_names() -> (names: ProofNames<'static>)
    ensures
        limit_named(names),
{
    ProofNames {
        evaluate: "limit_evaluations",
        evaluation: "hidden-limit evaluation",
        other_evaluation: "hidden-limit proof party returned another evaluation type",
        bind: "limit_bind",
        relation: "hidden-limit relation",
        other_relation: "hidden-limit proof party returned another relation type",
        round1: "limit_round1",
        rounds: RoundNames {
            no_seal: "proof party omitted hidden-limit seal",
            seal: "hidden-limit seal",
            other_seal: "hidden-limit proof party returned another seal",
            no_round: "proof party omitted hidden-limit round one",
            round: "hidden-limit round one",
            other_round: "hidden-limit proof party returned another first round",
            seal_first: true,
        },
        round2: "limit_round2",
        response: "hidden-limit round two",
        other_response: "hidden-limit proof party returned another second round",
    }
}

/// Whether names are those of the proof of a delivery.
pub open spec fn dvp_named(names: ProofNames<'_>) -> bool {
    &&& names.evaluate@ == "dvp_evaluations"@
    &&& names.evaluation@ == "DvP evaluation"@
    &&& names.other_evaluation@ == "DvP proof party returned another evaluation type"@
    &&& names.bind@ == "dvp_bind"@
    &&& names.relation@ == "DvP relation"@
    &&& names.other_relation@ == "DvP proof party returned another relation type"@
    &&& names.round1@ == "dvp_round1"@
    &&& names.round2@ == "dvp_round2"@
    &&& names.response@ == "DvP round two"@
    &&& names.other_response@ == "DvP proof party returned another round-two message"@
    &&& names.rounds.no_seal@ == "proof party omitted DvP round-one seal"@
    &&& names.rounds.seal@ == "DvP round-one seal"@
    &&& names.rounds.other_seal@ == "DvP proof party returned another round-one seal"@
    &&& names.rounds.no_round@ == "proof party omitted DvP round one"@
    &&& names.rounds.round@ == "DvP round one"@
    &&& names.rounds.other_round@ == "DvP proof party returned another round-one message"@
    &&& names.rounds.seal_first == false
}

/// The names of the proof of a delivery.
pub fn dvp_names() -> (names: ProofNames<'static>)
    ensures
        dvp_named(names),
{
    ProofNames {
        evaluate: "dvp_evaluations",
        evaluation: "DvP evaluation",
        other_evaluation: "DvP proof party returned another evaluation type",
        bind: "dvp_bind",
        relation: "DvP relation",
        other_relation: "DvP proof party returned another relation type",
        round1: "dvp_round1",
        rounds: RoundNames {
            no_seal: "proof party omitted DvP round-one seal",
            seal: "DvP round-one seal",
            other_seal: "DvP proof party returned another round-one seal",
            no_round: "proof party omitted DvP round one",
            round: "DvP round one",
            other_round: "DvP proof party returned another round-one message",
            seal_first: false,
        },
        round2: "dvp_round2",
        response: "DvP round two",
        other_response: "DvP proof party returned another round-two message",
    }
}

/// Whether names are those of the proof of a pool's remainder.
pub open spec fn pool_named(names: ProofNames<'_>) -> bool {
    &&& names.evaluate@ == "pool_remainder_evaluations"@
    &&& names.evaluation@ == "standing-pool remainder evaluation"@
    &&& names.other_evaluation@ == "standing-pool proof party returned another evaluation type"@
    &&& names.bind@ == "pool_remainder_bind"@
    &&& names.relation@ == "standing-pool remainder relation"@
    &&& names.other_relation@ == "standing-pool proof party returned another relation type"@
    &&& names.round1@ == "pool_remainder_round1"@
    &&& names.round2@ == "pool_remainder_round2"@
    &&& names.response@ == "standing-pool remainder round two"@
    &&& names.other_response@ == "standing-pool proof party returned another second round"@
    &&& names.rounds.no_seal@ == "proof party omitted standing-pool remainder seal"@
    &&& names.rounds.seal@ == "standing-pool remainder seal"@
    &&& names.rounds.other_seal@ == "standing-pool proof party returned another seal"@
    &&& names.rounds.no_round@ == "proof party omitted standing-pool remainder round one"@
    &&& names.rounds.round@ == "standing-pool remainder round one"@
    &&& names.rounds.other_round@ == "standing-pool proof party returned another first round"@
    &&& names.rounds.seal_first == true
}

/// The names of the proof of a pool's remainder.
pub fn pool_names() -> (names: ProofNames<'static>)
    ensures
        pool_named(names),
{
    ProofNames {
        evaluate: "pool_remainder_evaluations",
        evaluation: "standing-pool remainder evaluation",
        other_evaluation: "standing-pool proof party returned another evaluation type",
        bind: "pool_remainder_bind",
        relation: "standing-pool remainder relation",
        other_relation: "standing-pool proof party returned another relation type",
        round1: "pool_remainder_round1",
        rounds: RoundNames {
            no_seal: "proof party omitted standing-pool remainder seal",
            seal: "standing-pool remainder seal",
            other_seal: "standing-pool proof party returned another seal",
            no_round: "proof party omitted standing-pool remainder round one",
            round: "standing-pool remainder round one",
            other_round: "standing-pool proof party returned another first round",
            seal_first: true,
        },
        round2: "pool_remainder_round2",
        response: "standing-pool remainder round two",
        other_response: "standing-pool proof party returned another second round",
    }
}

/// What came of a proof that has to stand before its verifier.
pub open spec fn verified<St, Pr, Fv: Fn(&St, &Pr) -> bool>(
    verify: Fv,
    complaint: Seq<char>,
    inner: Result<(St, Pr), String>,
    r: Result<(St, Pr), String>,
) -> bool {
    match inner {
        Err(e) => r == Err::<(St, Pr), String>(e),
        Ok((made, proved)) => match r {
            Ok(found) => found == (made, proved) && call_ensures(verify, (&made, &proved), true),
            Err(e) => e@ == complaint && call_ensures(verify, (&made, &proved), false),
        },
    }
}

/// What came of asking the committee for a proof that has to stand before its verifier.
pub open spec fn verified_outcome<
    St,
    Pr,
    A: CommitteeProof<St, Pr>,
    Fv: Fn(&St, &Pr) -> bool,
>(
    by: A,
    verify: Fv,
    complaint: Seq<char>,
    wanted: Option<Wanted<'_>>,
    names: ProofNames<'_>,
    job: Seq<u8>,
    trace: Trace,
    r: Result<(St, Pr), String>,
) -> bool {
    exists|inner: Result<(St, Pr), String>| #[trigger]
        by.outcome(wanted, names, job, None, trace, inner) && verified(verify, complaint, inner, r)
}

fn prove_verified<
    T: ProofPartyRpc,
    St,
    Pr,
    A: CommitteeProof<St, Pr>,
    Fv: Fn(&St, &Pr) -> bool,
>(
    parties: &mut Vec<T>,
    names: ProofNames<'_>,
    job: &[u8; 32],
    round1_params: &Value,
    by: &A,
    wanted: Option<Wanted<'_>>,
    verify: &Fv,
    complaint: &str,
) -> (r: Result<(St, Pr), String>)
    requires
        old(parties)@.len() == COMMITTEE_SIZE,
        by.ready(),
        forall|s: &St, p: &Pr| call_requires(*verify, (s, p)),
    ensures
        final(parties)@.len() == COMMITTEE_SIZE,
        exists|trace: Trace|
            #![trigger traced(told(old(parties)@), names, job@, round1_params@, trace)]
            told(final(parties)@) == traced(told(old(parties)@), names, job@, round1_params@, trace)
                && verified_outcome(*by, *verify, complaint@, wanted, names, job@, trace, r),
{
    let ghost before = told(parties@);
    let inner = by.prove(parties, names, job, round1_params, None, wanted);
    let ghost trace = choose|trace: Trace|
        #![trigger traced(before, names, job@, round1_params@, trace)]
        told(parties@) == traced(before, names, job@, round1_params@, trace) && by.outcome(
            wanted,
            names,
            job@,
            None,
            trace,
            inner,
        );
    assert(told(parties@) == traced(before, names, job@, round1_params@, trace));
    let ghost given = inner;
    assert(by.outcome(wanted, names, job@, None, trace, given));
    match inner {
        Err(e) => {
            assert(verified(*verify, complaint@, given, Err::<(St, Pr), String>(e)));
            Err(e)
        },
        Ok((made, proved)) => {
            if verify(&made, &proved) {
                let r = Ok((made, proved));
                assert(verified(*verify, complaint@, given, r));
                r
            } else {
                let refusal = complaint.to_owned();
                assert(verified(*verify, complaint@, given, Err::<(St, Pr), String>(refusal)));
                Err(refusal)
            }
        },
    }
}

/// Proves that the standing pool of the selected Maker stays non-negative behind
/// this exact delivery. The witness stays split across the committee; what comes
/// back is the statement and a proof that stands before `verify`.
pub fn prove_standing_pool_remainder<
    T: ProofPartyRpc,
    St,
    Pr,
    A: CommitteeProof<St, Pr>,
    Fv: Fn(&St, &Pr) -> bool,
>(
    parties: &mut Vec<T>,
    job: &[u8; 32],
    by: &A,
    verify: &Fv,
) -> (r: Result<(St, Pr), String>)
    requires
        old(parties)@.len() == COMMITTEE_SIZE,
        by.ready(),
        forall|s: &St, p: &Pr| call_requires(*verify, (s, p)),
    ensures
        final(parties)@.len() == COMMITTEE_SIZE,
        exists|names: ProofNames<'static>, trace: Trace|
            #![trigger traced(told(old(parties)@), names, job@, job_json(job@), trace)]
            pool_named(names) && told(final(parties)@) == traced(
                told(old(parties)@),
                names,
                job@,
                job_json(job@),
                trace,
            ) && verified_outcome(
                *by,
                *verify,
                "public verifier rejected the standing-pool remainder proof"@,
                None,
                names,
                job@,
                trace,
                r,
            ),
{
    let params = job_params(job);
    prove_verified(
        parties,
        pool_names(),
        job,
        &params,
        by,
        None,
        verify,
        "public verifier rejected the standing-pool remainder proof",
    )
}

/// Proves that the securities and the cash of a settlement match and leave both
/// reserves non-negative. The proofs stand before `verify`.
pub fn prove_delivery<
    T: ProofPartyRpc,
    St,
    Pr,
    A: CommitteeProof<St, Pr>,
    Fv: Fn(&St, &Pr) -> bool,
>(
    parties: &mut Vec<T>,
    job: &[u8; 32],
    by: &A,
    verify: &Fv,
) -> (r: Result<(St, Pr), String>)
    requires
        old(parties)@.len() == COMMITTEE_SIZE,
        by.ready(),
        forall|s: &St, p: &Pr| call_requires(*verify, (s, p)),
    ensures
        final(parties)@.len() == COMMITTEE_SIZE,
        exists|names: ProofNames<'static>, trace: Trace|
            #![trigger traced(told(old(parties)@), names, job@, job_json(job@), trace)]
            dvp_named(names) && told(final(parties)@) == traced(
                told(old(parties)@),
                names,
                job@,
                job_json(job@),
                trace,
            ) && verified_outcome(
                *by,
                *verify,
                "public DvP verifier rejected the node-local MPC handoff"@,
                None,
                names,
                job@,
                trace,
                r,
            ),
{
    let params = job_params(job);
    prove_verified(
        parties,
        dvp_names(),
        job,
        &params,
        by,
        None,
        verify,
        "public DvP verifier rejected the node-local MPC handoff",
    )
}

/// What came of a proof that its verifier may object to.
pub open spec fn unopposed<St, Pr, Fv: Fn(&St, &Pr) -> Result<(), String>>(
    verify: Fv,
    inner: Result<(St, Pr), String>,
    r: Result<(St, Pr), String>,
) -> bool {
    match inner {
        Err(e) => r == Err::<(St, Pr), String>(e),
        Ok((made, proved)) => match r {
            Ok(found) => found == (made, proved) && call_ensures(verify, (&made, &proved), Ok::<(), String>(())),
            Err(e) => call_ensures(verify, (&made, &proved), Err::<(), String>(e)),
        },
    }
}

/// What came of asking the committee for the proof of a hidden limit.
pub open spec fn limit_outcome<
    St,
    Pr,
    A: CommitteeProof<St, Pr>,
    Fv: Fn(&St, &Pr) -> Result<(), String>,
>(
    by: A,
    verify: Fv,
    wanted: Wanted<'_>,
    names: ProofNames<'_>,
    job: Seq<u8>,
    trace: Trace,
    r: Result<(St, Pr), String>,
) -> bool {
    exists|inner: Result<(St, Pr), String>| #[trigger]
        by.outcome(Some(wanted), names, job, None, trace, inner) && unopposed(verify, inner, r)
}

/// Whether a hidden limit is wanted: the difference of the signed limit and the price.
pub open spec fn limit_wanted(request: ProductSettlementRequest, price: Seq<u8>, wanted: Wanted<'_>) -> bool {
    &&& exists|minus_one: Scalar| #[trigger]
        is_minus_one(minus_one) && wanted.commitment@ == request.limit_difference(price, minus_one@)
    &&& request.limit_left(price, wanted.commitment@)
    &&& wanted.complaint@ == "MPC hidden-limit witness does not match quote and signed limit"@
}

/// Proves that the price of a payment keeps the hidden limit of the signed mandate:
/// the difference of the two is the committed one and is not negative. `context`
/// is what the proof is bound to; `verify` is the limit's own verifier.
pub fn prove_price_limit<
    T: ProofPartyRpc,
    St,
    Pr,
    A: CommitteeProof<St, Pr>,
    Fv: Fn(&St, &Pr) -> Result<(), String>,
>(
    parties: &mut Vec<T>,
    request: &ProductSettlementRequest,
    price: &Point,
    context: &[u8; 32],
    by: &A,
    verify: &Fv,
) -> (r: Result<(St, Pr), String>)
    requires
        old(parties)@.len() == COMMITTEE_SIZE,
        by.ready(),
        forall|s: &St, p: &Pr| call_requires(*verify, (s, p)),
    ensures
        final(parties)@.len() == COMMITTEE_SIZE,
        exists|names: ProofNames<'static>, wanted: Wanted<'_>, trace: Trace|
            #![trigger traced(
                told(old(parties)@),
                names,
                request.job_id@,
                limit_round_json(request.job_id@, context@),
                trace,
            ), limit_wanted(*request, price@, wanted)]
            limit_named(names) && limit_wanted(*request, price@, wanted) && told(final(parties)@) == traced(
                told(old(parties)@),
                names,
                request.job_id@,
                limit_round_json(request.job_id@, context@),
                trace,
            ) && limit_outcome(*by, *verify, wanted, names, request.job_id@, trace, r),
{
    let ghost before = told(parties@);
    let expected = request.limit_witness(price);
    let wanted = Wanted {
        commitment: &expected,
        complaint: "MPC hidden-limit witness does not match quote and signed limit",
    };
    assert(limit_wanted(*request, price@, wanted));
    let params = limit_round_params(&request.job_id, context);
    let names = limit_names();
    let inner = by.prove(parties, names, &request.job_id, &params, None, Some(wanted));
    let ghost given = inner;
    let ghost trace = choose|trace: Trace|
        #![trigger traced(before, names, request.job_id@, params@, trace)]
        told(parties@) == traced(before, names, request.job_id@, params@, trace) && by.outcome(
            Some(wanted),
            names,
            request.job_id@,
            None,
            trace,
            inner,
        );
    assert(told(parties@) == traced(before, names, request.job_id@, params@, trace));
    assert(by.outcome(Some(wanted), names, request.job_id@, None, trace, given));
    match inner {
        Err(e) => {
            assert(unopposed(*verify, given, Err::<(St, Pr), String>(e)));
            assert(limit_outcome(*by, *verify, wanted, names, request.job_id@, trace, Err::<(St, Pr), String>(e)));
            Err(e)
        },
        Ok((made, proved)) => {
            let verdict = verify(&made, &proved);
            assert(call_ensures(*verify, (&made, &proved), verdict));
            match verdict {
                Ok(unit) => {
                    assert(unit == ());
                    let r = Ok((made, proved));
                    assert(unopposed(*verify, given, r));
                    assert(limit_outcome(*by, *verify, wanted, names, request.job_id@, trace, r));
                    r
                },
                Err(e) => {
                    assert(unopposed(*verify, given, Err::<(St, Pr), String>(e)));
                    assert(limit_outcome(
                        *by,
                        *verify,
                        wanted,
                        names,
                        request.job_id@,
                        trace,
                        Err::<(St, Pr), String>(e),
                    ));
                    Err(e)
                },
            }
        },
    }
}

} // verus!
