//! The proof of a complete quote by the committee.

use vstd::prelude::*;
use crate::coordinator::{
    all_parties, answer_wire_refusal, answered, are_parties, ask_one, asked, asked_agrees, collect_wires, committee,
    decided, demand_all, demand_refusal, error_of, job_json, job_params, public_wire, signing_parties, signing_quorum,
    told, wire_of, wire_refusal, wires_answered, Call, Demand, ProofPartyRpc, COMMITTEE_SIZE,
};
use crate::complete_quote::{cross_quote, quote_bind_json, quote_bind_params, CompleteQuoteRequest};
use crate::digest::sha256;
use crate::fields::{either, first, first_at, unless};
use crate::json::{json_document, json_text, text_in, Json, Value};
use crate::oracle::{attempt, fault, tries};
use crate::order::{complete_quote_context, complete_quote_message};
use crate::proof_quote_rounds::{envelopes_said, quote_wire_check, quote_wire_refusal, read_quote_wire};
use crate::quote_codec::{can_check, checks, QuoteProof, QuoteVerificationBundle};
use crate::quote_laws::message_canonical;
use crate::quote_messages::{encode, envelope_json, unfit, Envelope, Message};
use crate::quote_wire::envelope_said;
use crate::settlement::{
    challenge_json, challenge_params, evaluations_json, evaluations_params, finalize_json, finalize_params,
};
use crate::text::{hex_encode, hex_text};

verus! {

/// Reads the messages of wires, all of a job and kind.
#[verifier::loop_isolation(false)]
pub fn read_quote_wires(raws: &Vec<Vec<u8>>, job: &[u8; 32], kind: &str, complaint: &str) -> (r: Result<
    Vec<Envelope>,
    String,
>)
    ensures
        ({
            let wires = raws@.map_values(|w: Vec<u8>| w@);
            let refusal = first(wires, quote_wire_check(job@, Some(kind@), complaint@));
            match r {
                Ok(envelopes) => refusal is None && envelopes_said(wires, envelopes@),
                Err(e) => refusal == Some(e@),
            }
        }),
{
    let ghost wires = raws@.map_values(|w: Vec<u8>| w@);
    let ghost check = quote_wire_check(job@, Some(kind@), complaint@);
    let mut envelopes: Vec<Envelope> = Vec::new();
    let mut i: usize = 0;
    assert(wires.take(0) =~= Seq::empty());
    while i < raws.len()
        invariant
            i <= raws@.len(),
            envelopes@.len() == i,
            first(wires.take(i as int), check) is None,
            forall|j: int|
                #![trigger envelopes@[j]]
                0 <= j < i ==> envelope_said(json_document(wires[j])->0, envelopes@[j]),
        decreases raws@.len() - i,
    {
        proof {
            first_at(wires, check, i as int);
        }
        match read_quote_wire(&raws[i], job, Some(kind), complaint) {
            Err(e) => {
                return Err(e);
            },
            Ok(envelope) => {
                envelopes.push(envelope);
            },
        }
        i = i + 1;
    }
    assert(wires.take(i as int) =~= wires);
    Ok(envelopes)
}

/// Whether the evidence of a complete quote is that of a request.
pub open spec fn bundle_of(request: CompleteQuoteRequest, bundle: QuoteVerificationBundle) -> bool {
    &&& bundle.context@ == sha256(complete_quote_message(request.job_id@, request.request_context@))
    &&& bundle.eligibility_bits == request.eligibility_bits - 2
    &&& bundle.span_bits == request.span_bits
    &&& bundle.public == request.public
}

/// The arithmetic of a quote's proof: `statement` and `relations` make statements of
/// the public evaluations, `challenge` makes the challenge of the sealed first
/// rounds, `assemble` the proof of the answers, and `check` is the circuit's own
/// verifier, which gives the digest of the proof.
#[derive(Debug)]
pub struct QuoteArithmetic<Fs, Fr, Fc, Fa, Fv> {
    pub statement: Fs,
    pub relations: Fr,
    pub challenge: Fc,
    pub assemble: Fa,
    pub check: Fv,
}

/// The first rounds of the signing quorum and their seals.
#[derive(Debug)]
pub struct QuoteRounds {
    pub seals: Vec<Envelope>,
    pub rounds: Vec<Envelope>,
}

/// Whether the arithmetic can be done. A challenge has a wire of its own.
pub open spec fn quote_able<
    St,
    Re,
    Fs: Fn(&CompleteQuoteRequest, &Vec<Envelope>) -> Result<St, String>,
    Fr: Fn(&St, &CompleteQuoteRequest, &Vec<Envelope>) -> Result<Re, String>,
    Fc: Fn(&St, &Re, &CompleteQuoteRequest, &[u8; 32], &QuoteRounds) -> Result<Message, String>,
    Fa: Fn(&St, &Re, &CompleteQuoteRequest, &[u8; 32], &QuoteRounds, &Vec<Envelope>) -> Result<QuoteProof, String>,
    Fv: Fn(&QuoteVerificationBundle) -> Result<[u8; 32], String>,
>(by: QuoteArithmetic<Fs, Fr, Fc, Fa, Fv>) -> bool {
    &&& forall|q: &CompleteQuoteRequest, e: &Vec<Envelope>| call_requires(by.statement, (q, e))
    &&& forall|s: &St, q: &CompleteQuoteRequest, e: &Vec<Envelope>| call_requires(by.relations, (s, q, e))
    &&& forall|s: &St, t: &Re, q: &CompleteQuoteRequest, c: &[u8; 32], w: &QuoteRounds|
        call_requires(by.challenge, (s, t, q, c, w))
    &&& forall|s: &St, t: &Re, q: &CompleteQuoteRequest, c: &[u8; 32], w: &QuoteRounds, m: Message| #[trigger]
        call_ensures(by.challenge, (s, t, q, c, w), Ok::<Message, String>(m)) ==> message_canonical(m)
    &&& forall|s: &St, t: &Re, q: &CompleteQuoteRequest, c: &[u8; 32], w: &QuoteRounds, e: &Vec<Envelope>|
        call_requires(by.assemble, (s, t, q, c, w, e))
    &&& can_check(by.check)
}

/// The wire of each answer.
pub open spec fn wires_in(outcomes: Seq<Result<Json, Seq<char>>>) -> Seq<Seq<u8>> {
    outcomes.map_values(|o: Result<Json, Seq<char>>| wire_of(Some(o->Ok_0)))
}

/// The wire that each answer carries under a name.
pub open spec fn wires_under(outcomes: Seq<Result<Json, Seq<char>>>, name: Seq<char>) -> Seq<Seq<u8>> {
    outcomes.map_values(|o: Result<Json, Seq<char>>| wire_of((o->Ok_0).field(name)))
}

/// The bytes of wires.
pub open spec fn wire_bytes(wires: Seq<Vec<u8>>) -> Seq<Seq<u8>> {
    wires.map_values(|w: Vec<u8>| w@)
}

/// Why an answer is no first round of a quote with its seal.
pub open spec fn quote_round_refusal(outcome: Result<Json, Seq<char>>, job: Seq<u8>) -> Option<Seq<char>> {
    match outcome {
        Err(e) => Some(e),
        Ok(value) => {
            let seal = value.field("seal"@);
            let round = value.field("round"@);
            either(
                either(
                    unless(seal is Some, "quote proof party omitted its round-one seal"@),
                    wire_refusal(seal, "quote round-one seal"@),
                ),
                either(
                    either(
                        unless(round is Some, "quote proof party omitted round one"@),
                        wire_refusal(round, "quote round one"@),
                    ),
                    either(
                        quote_wire_refusal(
                            wire_of(seal),
                            job,
                            Some("round1-seal"@),
                            "quote proof party returned another seal type"@,
                        ),
                        quote_wire_refusal(
                            wire_of(round),
                            job,
                            Some("round1"@),
                            "quote proof party returned another round-one type"@,
                        ),
                    ),
                ),
            )
        },
    }
}

/// Why an answer is no response to the challenge of a quote.
pub open spec fn quote_response_refusal(outcome: Result<Json, Seq<char>>, job: Seq<u8>) -> Option<Seq<char>> {
    match outcome {
        Err(e) => Some(e),
        Ok(value) => either(
            wire_refusal(Some(value), "quote round two"@),
            quote_wire_refusal(
                wire_of(Some(value)),
                job,
                Some("round2"@),
                "quote proof party returned another response type"@,
            ),
        ),
    }
}

fn read_quote_round(value: &Value, job: &[u8; 32]) -> (r: Result<(Vec<u8>, Envelope, Vec<u8>, Envelope), String>)
    ensures
        match r {
            Ok((seal_wire, seal, round_wire, round)) => {
                &&& quote_round_refusal(Ok(value@), job@) is None
                &&& seal_wire@ == wire_of(value@.field("seal"@))
                &&& round_wire@ == wire_of(value@.field("round"@))
                &&& envelope_said(json_document(seal_wire@)->0, seal)
                &&& envelope_said(json_document(round_wire@)->0, round)
            },
            Err(e) => quote_round_refusal(Ok(value@), job@) == Some(e@),
        },
{
    let seal_found = value.get("seal");
    if seal_found.is_none() {
        return Err("quote proof party omitted its round-one seal".to_owned());
    }
    let seal_wire = match public_wire(seal_found, "quote round-one seal") {
        Err(e) => {
            return Err(e);
        },
        Ok(wire) => wire,
    };
    let round_found = value.get("round");
    if round_found.is_none() {
        return Err("quote proof party omitted round one".to_owned());
    }
    let round_wire = match public_wire(round_found, "quote round one") {
        Err(e) => {
            return Err(e);
        },
        Ok(wire) => wire,
    };
    let seal = match read_quote_wire(
        &seal_wire,
        job,
        Some("round1-seal"),
        "quote proof party returned another seal type",
    ) {
        Err(e) => {
            return Err(e);
        },
        Ok(envelope) => envelope,
    };
    let round = match read_quote_wire(
        &round_wire,
        job,
        Some("round1"),
        "quote proof party returned another round-one type",
    ) {
        Err(e) => {
            return Err(e);
        },
        Ok(envelope) => envelope,
    };
    Ok((seal_wire, seal, round_wire, round))
}

/// Whether first rounds and their wires are those of the answers.
pub open spec fn quote_rounds_answered(
    outcomes: Seq<Result<Json, Seq<char>>>,
    seal_wires: Seq<Vec<u8>>,
    round_wires: Seq<Vec<u8>>,
    rounds: QuoteRounds,
) -> bool {
    &&& wire_bytes(seal_wires) == wires_under(outcomes, "seal"@)
    &&& wire_bytes(round_wires) == wires_under(outcomes, "round"@)
    &&& envelopes_said(wire_bytes(seal_wires), rounds.seals@)
    &&& envelopes_said(wire_bytes(round_wires), rounds.rounds@)
}

#[verifier::loop_isolation(false)]
fn collect_quote_rounds<T: ProofPartyRpc>(parties: &mut Vec<T>, job: &[u8; 32], params: &Value) -> (r: Result<
    (Vec<Vec<u8>>, Vec<Vec<u8>>, QuoteRounds),
    String,
>)
    requires
        old(parties)@.len() == COMMITTEE_SIZE,
    ensures
        final(parties)@.len() == COMMITTEE_SIZE,
        exists|outcomes: Seq<Result<Json, Seq<char>>>|
            #![trigger asked(
                told(old(parties)@),
                signing_quorum(),
                "quote_round1"@,
                params@,
                outcomes,
                outcomes.len(),
            )]
            told(final(parties)@) == asked(
                told(old(parties)@),
                signing_quorum(),
                "quote_round1"@,
                params@,
                outcomes,
                outcomes.len(),
            ) && decided(outcomes, 3, |o: Result<Json, Seq<char>>| quote_round_refusal(o, job@), error_of(r))
                && (r matches Ok((seals, rounds, found))
                ==> quote_rounds_answered(outcomes, seals@, rounds@, found)),
{
    let ghost start = told(parties@);
    let ghost check = |o: Result<Json, Seq<char>>| quote_round_refusal(o, job@);
    let targets = signing_parties();
    let ghost mut outcomes: Seq<Result<Json, Seq<char>>> = Seq::empty();
    let mut seal_wires: Vec<Vec<u8>> = Vec::new();
    let mut round_wires: Vec<Vec<u8>> = Vec::new();
    let mut seals: Vec<Envelope> = Vec::new();
    let mut rounds: Vec<Envelope> = Vec::new();
    let mut i: usize = 0;
    while i < 3
        invariant
            i <= 3,
            parties@.len() == COMMITTEE_SIZE,
            outcomes.len() == i,
            told(parties@) == asked(start, signing_quorum(), "quote_round1"@, params@, outcomes, i as nat),
            forall|j: int| 0 <= j < i ==> check(#[trigger] outcomes[j]) is None,
            wire_bytes(seal_wires@) == wires_under(outcomes, "seal"@),
            wire_bytes(round_wires@) == wires_under(outcomes, "round"@),
            envelopes_said(wire_bytes(seal_wires@), seals@),
            envelopes_said(wire_bytes(round_wires@), rounds@),
        decreases 3 - i,
    {
        let answer = ask_one(parties, targets[i], "quote_round1", params);
        let ghost earlier = outcomes;
        proof {
            let more = outcomes.push(answered(answer));
            asked_agrees(start, signing_quorum(), "quote_round1"@, params@, outcomes, more, i as nat);
            outcomes = more;
            assert(told(parties@) == asked(start, signing_quorum(), "quote_round1"@, params@, outcomes,
                outcomes.len()));
            assert(outcomes.last() == answered(answer));
        }
        match answer {
            Err(e) => {
                return Err(e);
            },
            Ok(value) => match read_quote_round(&value, job) {
                Err(e) => {
                    return Err(e);
                },
                Ok((seal_wire, seal, round_wire, round)) => {
                    let ghost a = seal_wires@;
                    let ghost b = round_wires@;
                    let ghost c = seals@;
                    let ghost d = rounds@;
                    seal_wires.push(seal_wire);
                    round_wires.push(round_wire);
                    seals.push(seal);
                    rounds.push(round);
                    proof {
                        assert(wire_bytes(seal_wires@) =~= wire_bytes(a).push(seal_wire@));
                        assert(wire_bytes(round_wires@) =~= wire_bytes(b).push(round_wire@));
                        assert(wires_under(outcomes, "seal"@) =~= wires_under(earlier, "seal"@).push(seal_wire@));
                        assert(wires_under(outcomes, "round"@) =~= wires_under(earlier, "round"@).push(round_wire@));
                        assert forall|j: int| 0 <= j < seals@.len() implies envelope_said(
                            json_document(wire_bytes(seal_wires@)[j])->0,
                            #[trigger] seals@[j],
                        ) by {
                            if j < c.len() {
                                assert(seals@[j] == c[j]);
                            }
                        }
                        assert forall|j: int| 0 <= j < rounds@.len() implies envelope_said(
                            json_document(wire_bytes(round_wires@)[j])->0,
                            #[trigger] rounds@[j],
                        ) by {
                            if j < d.len() {
                                assert(rounds@[j] == d[j]);
                            }
                        }
                    }
                },
            },
        }
        i = i + 1;
    }
    Ok((seal_wires, round_wires, QuoteRounds { seals, rounds }))
}

#[verifier::loop_isolation(false)]
fn collect_quote_responses<T: ProofPartyRpc>(parties: &mut Vec<T>, job: &[u8; 32], params: &Value) -> (r: Result<
    (Vec<Vec<u8>>, Vec<Envelope>),
    String,
>)
    requires
        old(parties)@.len() == COMMITTEE_SIZE,
    ensures
        final(parties)@.len() == COMMITTEE_SIZE,
        exists|outcomes: Seq<Result<Json, Seq<char>>>|
            #![trigger asked(
                told(old(parties)@),
                signing_quorum(),
                "quote_round2"@,
                params@,
                outcomes,
                outcomes.len(),
            )]
            told(final(parties)@) == asked(
                told(old(parties)@),
                signing_quorum(),
                "quote_round2"@,
                params@,
                outcomes,
                outcomes.len(),
            ) && decided(outcomes, 3, |o: Result<Json, Seq<char>>| quote_response_refusal(o, job@), error_of(r))
                && (r matches Ok((wires, responses))
                ==> wire_bytes(wires@) == wires_in(outcomes) && envelopes_said(wire_bytes(wires@), responses@)),
{
    let ghost start = told(parties@);
    let ghost check = |o: Result<Json, Seq<char>>| quote_response_refusal(o, job@);
    let targets = signing_parties();
    let ghost mut outcomes: Seq<Result<Json, Seq<char>>> = Seq::empty();
    let mut wires: Vec<Vec<u8>> = Vec::new();
    let mut responses: Vec<Envelope> = Vec::new();
    let mut i: usize = 0;
    while i < 3
        invariant
            i <= 3,
            parties@.len() == COMMITTEE_SIZE,
            outcomes.len() == i,
            told(parties@) == asked(start, signing_quorum(), "quote_round2"@, params@, outcomes, i as nat),
            forall|j: int| 0 <= j < i ==> check(#[trigger] outcomes[j]) is None,
            wire_bytes(wires@) == wires_in(outcomes),
            envelopes_said(wire_bytes(wires@), responses@),
        decreases 3 - i,
    {
        let answer = ask_one(parties, targets[i], "quote_round2", params);
        let ghost earlier = outcomes;
        proof {
            let more = outcomes.push(answered(answer));
            asked_agrees(start, signing_quorum(), "quote_round2"@, params@, outcomes, more, i as nat);
            outcomes = more;
            assert(told(parties@) == asked(start, signing_quorum(), "quote_round2"@, params@, outcomes,
                outcomes.len()));
            assert(outcomes.last() == answered(answer));
        }
        match answer {
            Err(e) => {
                return Err(e);
            },
            Ok(value) => {
                let wire = match public_wire(Some(&value), "quote round two") {
                    Err(e) => {
                        return Err(e);
                    },
                    Ok(wire) => wire,
                };
                let response = match read_quote_wire(
                    &wire,
                    job,
                    Some("round2"),
                    "quote proof party returned another response type",
                ) {
                    Err(e) => {
                        return Err(e);
                    },
                    Ok(response) => response,
                };
                let ghost a = wires@;
                let ghost b = responses@;
                wires.push(wire);
                responses.push(response);
                proof {
                    assert(wire_bytes(wires@) =~= wire_bytes(a).push(wire@));
                    assert(wires_in(outcomes) =~= wires_in(earlier).push(wire@));
                    assert forall|j: int| 0 <= j < responses@.len() implies envelope_said(
                        json_document(wire_bytes(wires@)[j])->0,
                        #[trigger] responses@[j],
                    ) by {
                        if j < b.len() {
                            assert(responses@[j] == b[j]);
                        }
                    }
                }
            },
        }
        i = i + 1;
    }
    Ok((wires, responses))
}

/// The answers that the proof of a quote was made of.
pub ghost struct QuoteTrace {
    pub evaluations: Seq<Result<Json, Seq<char>>>,
    pub relations: Seq<Result<Json, Seq<char>>>,
    pub bounds: Seq<Result<Json, Seq<char>>>,
    pub rounds: Seq<Result<Json, Seq<char>>>,
    pub responses: Seq<Result<Json, Seq<char>>>,
    pub finals: Seq<Result<Json, Seq<char>>>,
    pub bind_params: Json,
    pub relation_params: Json,
    pub challenge: Seq<u8>,
    pub final_params: Json,
}

/// A proof that nobody was asked for.
pub open spec fn unasked() -> QuoteTrace {
    QuoteTrace {
        evaluations: Seq::empty(),
        relations: Seq::empty(),
        bounds: Seq::empty(),
        rounds: Seq::empty(),
        responses: Seq::empty(),
        finals: Seq::empty(),
        bind_params: Json::Null,
        relation_params: Json::Null,
        challenge: Seq::empty(),
        final_params: Json::Null,
    }
}

/// The calls after the six steps of a quote's proof.
pub open spec fn quote_traced(before: Seq<Seq<Call>>, job: Seq<u8>, t: QuoteTrace) -> Seq<Seq<Call>> {
    let one = asked(before, committee(), "quote_evaluations"@, job_json(job), t.evaluations, t.evaluations.len());
    let two = asked(one, committee(), "quote_bind"@, t.bind_params, t.relations, t.relations.len());
    let three = asked(two, committee(), "quote_relation_bind"@, t.relation_params, t.bounds, t.bounds.len());
    let four = asked(three, signing_quorum(), "quote_round1"@, job_json(job), t.rounds, t.rounds.len());
    let five = asked(
        four,
        signing_quorum(),
        "quote_round2"@,
        challenge_json(job, t.challenge),
        t.responses,
        t.responses.len(),
    );
    asked(five, committee(), "quote_finalize"@, t.final_params, t.finals, t.finals.len())
}

/// The context that a quote's proof is bound to.
pub open spec fn context_of(request: CompleteQuoteRequest) -> Seq<u8> {
    sha256(complete_quote_message(request.job_id@, request.request_context@))
}

/// Why the wires of a step are not all of the job and kind.
pub open spec fn step_refusal(
    outcomes: Seq<Result<Json, Seq<char>>>,
    job: Seq<u8>,
    kind: Seq<char>,
    complaint: Seq<char>,
) -> Option<Seq<char>> {
    first(wires_in(outcomes), quote_wire_check(job, Some(kind), complaint))
}

/// Whether a statement may be made of the public evaluations.
pub open spec fn quote_stated<
    St,
    Re,
    Fs: Fn(&CompleteQuoteRequest, &Vec<Envelope>) -> Result<St, String>,
    Fr: Fn(&St, &CompleteQuoteRequest, &Vec<Envelope>) -> Result<Re, String>,
    Fc: Fn(&St, &Re, &CompleteQuoteRequest, &[u8; 32], &QuoteRounds) -> Result<Message, String>,
    Fa: Fn(&St, &Re, &CompleteQuoteRequest, &[u8; 32], &QuoteRounds, &Vec<Envelope>) -> Result<QuoteProof, String>,
    Fv: Fn(&QuoteVerificationBundle) -> Result<[u8; 32], String>,
>(by: QuoteArithmetic<Fs, Fr, Fc, Fa, Fv>, request: CompleteQuoteRequest, evaluated: Seq<Result<Json, Seq<char>>>,
    outcome: Result<St, String>) -> bool {
    &&& decided(evaluated, COMMITTEE_SIZE as nat, |o: Result<Json, Seq<char>>| answer_wire_refusal(o,
        "quote evaluation"@), None)
    &&& step_refusal(
        evaluated,
        request.job_id@,
        "evaluations"@,
        "quote proof party returned another evaluation type"@,
    ) is None
    &&& exists|evaluations: Vec<Envelope>|
        envelopes_said(wires_in(evaluated), evaluations@) && #[trigger] call_ensures(
            by.statement,
            (&request, &evaluations),
            outcome,
        )
}

/// Whether relation statements may be made of the relations.
pub open spec fn quote_related<
    St,
    Re,
    Fs: Fn(&CompleteQuoteRequest, &Vec<Envelope>) -> Result<St, String>,
    Fr: Fn(&St, &CompleteQuoteRequest, &Vec<Envelope>) -> Result<Re, String>,
    Fc: Fn(&St, &Re, &CompleteQuoteRequest, &[u8; 32], &QuoteRounds) -> Result<Message, String>,
    Fa: Fn(&St, &Re, &CompleteQuoteRequest, &[u8; 32], &QuoteRounds, &Vec<Envelope>) -> Result<QuoteProof, String>,
    Fv: Fn(&QuoteVerificationBundle) -> Result<[u8; 32], String>,
>(
    by: QuoteArithmetic<Fs, Fr, Fc, Fa, Fv>,
    request: CompleteQuoteRequest,
    related: Seq<Result<Json, Seq<char>>>,
    made: St,
    outcome: Result<Re, String>,
) -> bool {
    &&& decided(related, COMMITTEE_SIZE as nat, |o: Result<Json, Seq<char>>| answer_wire_refusal(o,
        "quote relation evaluation"@), None)
    &&& step_refusal(
        related,
        request.job_id@,
        "relations"@,
        "quote proof party returned another relation type"@,
    ) is None
    &&& exists|relations: Vec<Envelope>|
        envelopes_said(wires_in(related), relations@) && #[trigger] call_ensures(
            by.relations,
            (&made, &request, &relations),
            outcome,
        )
}

/// Whether a challenge may be made of the first rounds.
pub open spec fn quote_challenged<
    St,
    Re,
    Fs: Fn(&CompleteQuoteRequest, &Vec<Envelope>) -> Result<St, String>,
    Fr: Fn(&St, &CompleteQuoteRequest, &Vec<Envelope>) -> Result<Re, String>,
    Fc: Fn(&St, &Re, &CompleteQuoteRequest, &[u8; 32], &QuoteRounds) -> Result<Message, String>,
    Fa: Fn(&St, &Re, &CompleteQuoteRequest, &[u8; 32], &QuoteRounds, &Vec<Envelope>) -> Result<QuoteProof, String>,
    Fv: Fn(&QuoteVerificationBundle) -> Result<[u8; 32], String>,
>(
    by: QuoteArithmetic<Fs, Fr, Fc, Fa, Fv>,
    request: CompleteQuoteRequest,
    t: QuoteTrace,
    made: St,
    bound: Re,
    outcome: Result<Message, String>,
) -> bool {
    let job = request.job_id@;
    &&& decided(t.rounds, 3, |o: Result<Json, Seq<char>>| quote_round_refusal(o, job), None)
    &&& exists|context: [u8; 32], rounds: QuoteRounds|
        context@ == context_of(request) && envelopes_said(wires_under(t.rounds, "seal"@), rounds.seals@)
            && envelopes_said(wires_under(t.rounds, "round"@), rounds.rounds@) && #[trigger] call_ensures(
            by.challenge,
            (&made, &bound, &request, &context, &rounds),
            outcome,
        )
}

/// The wire of a challenge: what the other side reads of it, written again.
pub open spec fn challenge_wired(job: [u8; 32], sent: Message, wire: Result<Seq<u8>, Seq<char>>) -> bool {
    match wire {
        Err(e) => {
            ||| unfit(sent) == Some(e)
            ||| exists|read: Message| #[trigger]
                crossed(job, sent, read) && match read {
                    Message::Challenge(_) => unfit(read) == Some(e),
                    _ => e == "quote wire changed the challenge type"@,
                }
        },
        Ok(bytes) => exists|read: Message| #[trigger]
            crossed(job, sent, read) && read is Challenge && unfit(read) is None && bytes == json_text(
                envelope_json((Envelope { job_id: job, message: read })),
            ),
    }
}

/// Whether a message is read for another on the other side of its wire.
pub open spec fn crossed(job: [u8; 32], sent: Message, read: Message) -> bool {
    unfit(sent) is None && envelope_said(
        envelope_json((Envelope { job_id: job, message: sent })),
        (Envelope { job_id: job, message: read }),
    )
}

fn wire_challenge(job: [u8; 32], sent: Message) -> (r: Result<Vec<u8>, String>)
    requires
        message_canonical(sent),
    ensures
        challenge_wired(
            job,
            sent,
            match r {
                Ok(bytes) => Ok(bytes@),
                Err(e) => Err(e@),
            },
        ),
{
    let read = match cross_quote(job, sent) {
        Err(e) => {
            return Err(e);
        },
        Ok(read) => read,
    };
    assert(crossed(job, sent, read));
    match &read {
        Message::Challenge(_) => {},
        _ => {
            return Err("quote wire changed the challenge type".to_owned());
        },
    }
    encode(&Envelope { job_id: job, message: read })
}

/// Whether a proof may be assembled of the answers.
pub open spec fn quote_assembled<
    St,
    Re,
    Fs: Fn(&CompleteQuoteRequest, &Vec<Envelope>) -> Result<St, String>,
    Fr: Fn(&St, &CompleteQuoteRequest, &Vec<Envelope>) -> Result<Re, String>,
    Fc: Fn(&St, &Re, &CompleteQuoteRequest, &[u8; 32], &QuoteRounds) -> Result<Message, String>,
    Fa: Fn(&St, &Re, &CompleteQuoteRequest, &[u8; 32], &QuoteRounds, &Vec<Envelope>) -> Result<QuoteProof, String>,
    Fv: Fn(&QuoteVerificationBundle) -> Result<[u8; 32], String>,
>(
    by: QuoteArithmetic<Fs, Fr, Fc, Fa, Fv>,
    request: CompleteQuoteRequest,
    t: QuoteTrace,
    made: St,
    bound: Re,
    outcome: Result<QuoteProof, String>,
) -> bool {
    let job = request.job_id@;
    &&& decided(t.responses, 3, |o: Result<Json, Seq<char>>| quote_response_refusal(o, job), None)
    &&& exists|context: [u8; 32], rounds: QuoteRounds, responses: Vec<Envelope>|
        context@ == context_of(request) && envelopes_said(wires_under(t.rounds, "seal"@), rounds.seals@)
            && envelopes_said(wires_under(t.rounds, "round"@), rounds.rounds@) && envelopes_said(
            wires_in(t.responses),
            responses@,
        ) && #[trigger] call_ensures(
            by.assemble,
            (&made, &bound, &request, &context, &rounds, &responses),
            outcome,
        )
}

/// What a quote's proof comes to before its verifier.
pub open spec fn quote_checked<Fv: Fn(&QuoteVerificationBundle) -> Result<[u8; 32], String>>(
    check: Fv,
    bundle: QuoteVerificationBundle,
    outcome: Result<Seq<u8>, Seq<char>>,
) -> bool {
    if !bundle.registry_ok() {
        outcome == Err::<Seq<u8>, Seq<char>>("quote registry size is outside the settlement bound"@)
    } else {
        checks(check, bundle, outcome)
    }
}

/// The refusal of a party that takes another proof than the one of a digest.
pub open spec fn final_refusal(digest: Seq<u8>) -> spec_fn(Result<Json, Seq<char>>) -> Option<Seq<char>> {
    |o: Result<Json, Seq<char>>|
        match o {
            Err(e) => Some(e),
            Ok(value) => unless(
                text_in(value.field("quote_digest"@)) == Some(hex_text(digest)),
                "proof parties finalized different complete quote proofs"@,
            ),
        }
}

/// Whether the parties bind what was evaluated: the public evaluations, the
/// request, and the context.
pub open spec fn binds_evaluations(request: CompleteQuoteRequest, t: QuoteTrace) -> bool {
    exists|wires: Seq<Vec<u8>>|
        wire_bytes(wires) == wires_in(t.evaluations) && t.bind_params == #[trigger] quote_bind_json(
            request,
            wires,
            context_of(request),
        )
}

/// Whether the parties bind the relations of the whole committee.
pub open spec fn binds_relations(request: CompleteQuoteRequest, t: QuoteTrace) -> bool {
    exists|wires: Seq<Vec<u8>>|
        wire_bytes(wires) == wires_in(t.relations) && t.relation_params == #[trigger] evaluations_json(
            request.job_id@,
            wires,
        )
}

/// Whether the parties finalize what the signing quorum answered.
pub open spec fn finalizes_answers(request: CompleteQuoteRequest, t: QuoteTrace) -> bool {
    exists|rounds: Seq<Vec<u8>>, seals: Seq<Vec<u8>>, responses: Seq<Vec<u8>>|
        wire_bytes(rounds) == wires_under(t.rounds, "round"@) && wire_bytes(seals) == wires_under(t.rounds, "seal"@)
            && wire_bytes(responses) == wires_in(t.responses) && t.final_params == #[trigger] finalize_json(
            request.job_id@,
            rounds,
            seals,
            responses,
        )
}

/// What came of the proof of a quote up to its evaluations.
pub open spec fn quote_outcome<
    St,
    Re,
    Fs: Fn(&CompleteQuoteRequest, &Vec<Envelope>) -> Result<St, String>,
    Fr: Fn(&St, &CompleteQuoteRequest, &Vec<Envelope>) -> Result<Re, String>,
    Fc: Fn(&St, &Re, &CompleteQuoteRequest, &[u8; 32], &QuoteRounds) -> Result<Message, String>,
    Fa: Fn(&St, &Re, &CompleteQuoteRequest, &[u8; 32], &QuoteRounds, &Vec<Envelope>) -> Result<QuoteProof, String>,
    Fv: Fn(&QuoteVerificationBundle) -> Result<[u8; 32], String>,
>(
    by: QuoteArithmetic<Fs, Fr, Fc, Fa, Fv>,
    request: CompleteQuoteRequest,
    t: QuoteTrace,
    r: Result<QuoteVerificationBundle, String>,
) -> bool {
    ||| {
        &&& t == (QuoteTrace { evaluations: t.evaluations, ..unasked() })
        &&& r matches Err(e) && {
            ||| decided(t.evaluations, COMMITTEE_SIZE as nat, |o: Result<Json, Seq<char>>| answer_wire_refusal(o,
                "quote evaluation"@), Some(e@))
            ||| decided(t.evaluations, COMMITTEE_SIZE as nat, |o: Result<Json, Seq<char>>| answer_wire_refusal(o,
                "quote evaluation"@), None) && step_refusal(
                t.evaluations,
                request.job_id@,
                "evaluations"@,
                "quote proof party returned another evaluation type"@,
            ) == Some(e@)
            ||| quote_stated(by, request, t.evaluations, Err::<St, String>(e))
        }
    }
    ||| exists|made: St| #[trigger]
        quote_stated(by, request, t.evaluations, Ok::<St, String>(made)) && binds_evaluations(request, t)
            && quote_outcome_second(
            by,
            request,
            t,
            made,
            r,
        )
}

/// What came of the proof of a quote from its relations on.
pub open spec fn quote_outcome_second<
    St,
    Re,
    Fs: Fn(&CompleteQuoteRequest, &Vec<Envelope>) -> Result<St, String>,
    Fr: Fn(&St, &CompleteQuoteRequest, &Vec<Envelope>) -> Result<Re, String>,
    Fc: Fn(&St, &Re, &CompleteQuoteRequest, &[u8; 32], &QuoteRounds) -> Result<Message, String>,
    Fa: Fn(&St, &Re, &CompleteQuoteRequest, &[u8; 32], &QuoteRounds, &Vec<Envelope>) -> Result<QuoteProof, String>,
    Fv: Fn(&QuoteVerificationBundle) -> Result<[u8; 32], String>,
>(
    by: QuoteArithmetic<Fs, Fr, Fc, Fa, Fv>,
    request: CompleteQuoteRequest,
    t: QuoteTrace,
    made: St,
    r: Result<QuoteVerificationBundle, String>,
) -> bool {
    ||| {
        &&& t.bounds.len() == 0 && t.rounds.len() == 0 && t.responses.len() == 0 && t.finals.len() == 0
        &&& r matches Err(e) && {
            ||| decided(t.relations, COMMITTEE_SIZE as nat, |o: Result<Json, Seq<char>>| answer_wire_refusal(o,
                "quote relation evaluation"@), Some(e@))
            ||| decided(t.relations, COMMITTEE_SIZE as nat, |o: Result<Json, Seq<char>>| answer_wire_refusal(o,
                "quote relation evaluation"@), None) && step_refusal(
                t.relations,
                request.job_id@,
                "relations"@,
                "quote proof party returned another relation type"@,
            ) == Some(e@)
            ||| quote_related(by, request, t.relations, made, Err::<Re, String>(e))
        }
    }
    ||| exists|bound: Re| #[trigger]
        quote_related(by, request, t.relations, made, Ok::<Re, String>(bound)) && binds_relations(request, t)
            && quote_outcome_third(by, request, t, made, bound, r)
}

/// What came of the proof of a quote from its bound relations on.
pub open spec fn quote_outcome_third<
    St,
    Re,
    Fs: Fn(&CompleteQuoteRequest, &Vec<Envelope>) -> Result<St, String>,
    Fr: Fn(&St, &CompleteQuoteRequest, &Vec<Envelope>) -> Result<Re, String>,
    Fc: Fn(&St, &Re, &CompleteQuoteRequest, &[u8; 32], &QuoteRounds) -> Result<Message, String>,
    Fa: Fn(&St, &Re, &CompleteQuoteRequest, &[u8; 32], &QuoteRounds, &Vec<Envelope>) -> Result<QuoteProof, String>,
    Fv: Fn(&QuoteVerificationBundle) -> Result<[u8; 32], String>,
>(
    by: QuoteArithmetic<Fs, Fr, Fc, Fa, Fv>,
    request: CompleteQuoteRequest,
    t: QuoteTrace,
    made: St,
    bound: Re,
    r: Result<QuoteVerificationBundle, String>,
) -> bool {
    let job = request.job_id@;
    let bind_check = |o: Result<Json, Seq<char>>| demand_refusal(o, Demand::True("bound"),
        "quote proof party did not bind its relation statement"@);
    ||| {
        &&& t.rounds.len() == 0 && t.responses.len() == 0 && t.finals.len() == 0
        &&& r matches Err(e) && decided(t.bounds, COMMITTEE_SIZE as nat, bind_check, Some(e@))
    }
    ||| {
        &&& decided(t.bounds, COMMITTEE_SIZE as nat, bind_check, None)
        &&& t.responses.len() == 0 && t.finals.len() == 0
        &&& r matches Err(e) && {
            ||| decided(t.rounds, 3, |o: Result<Json, Seq<char>>| quote_round_refusal(o, job), Some(e@))
            ||| quote_challenged(by, request, t, made, bound, Err::<Message, String>(e))
            ||| exists|sent: Message| #[trigger]
                quote_challenged(by, request, t, made, bound, Ok::<Message, String>(sent)) && challenge_wired(
                    request.job_id,
                    sent,
                    Err(e@),
                )
        }
    }
    ||| {
        &&& decided(t.bounds, COMMITTEE_SIZE as nat, bind_check, None)
        &&& exists|sent: Message| #[trigger]
            quote_challenged(by, request, t, made, bound, Ok::<Message, String>(sent)) && challenge_wired(
                request.job_id,
                sent,
                Ok(t.challenge),
            )
        &&& quote_outcome_last(by, request, t, made, bound, r)
    }
}

/// What came of the proof of a quote from the answers to its challenge on.
pub open spec fn quote_outcome_last<
    St,
    Re,
    Fs: Fn(&CompleteQuoteRequest, &Vec<Envelope>) -> Result<St, String>,
    Fr: Fn(&St, &CompleteQuoteRequest, &Vec<Envelope>) -> Result<Re, String>,
    Fc: Fn(&St, &Re, &CompleteQuoteRequest, &[u8; 32], &QuoteRounds) -> Result<Message, String>,
    Fa: Fn(&St, &Re, &CompleteQuoteRequest, &[u8; 32], &QuoteRounds, &Vec<Envelope>) -> Result<QuoteProof, String>,
    Fv: Fn(&QuoteVerificationBundle) -> Result<[u8; 32], String>,
>(
    by: QuoteArithmetic<Fs, Fr, Fc, Fa, Fv>,
    request: CompleteQuoteRequest,
    t: QuoteTrace,
    made: St,
    bound: Re,
    r: Result<QuoteVerificationBundle, String>,
) -> bool {
    let job = request.job_id@;
    ||| {
        &&& t.finals.len() == 0
        &&& r matches Err(e) && {
            ||| decided(t.responses, 3, |o: Result<Json, Seq<char>>| quote_response_refusal(o, job), Some(e@))
            ||| quote_assembled(by, request, t, made, bound, Err::<QuoteProof, String>(e))
            ||| exists|bundle: QuoteVerificationBundle| #[trigger]
                bundle_of(request, bundle) && quote_assembled(
                    by,
                    request,
                    t,
                    made,
                    bound,
                    Ok::<QuoteProof, String>(bundle.proof),
                ) && quote_checked(by.check, bundle, Err(e@))
        }
    }
    ||| exists|bundle: QuoteVerificationBundle, digest: [u8; 32]|
        bundle_of(request, bundle) && quote_assembled(
            by,
            request,
            t,
            made,
            bound,
            Ok::<QuoteProof, String>(bundle.proof),
        ) && #[trigger] quote_checked(by.check, bundle, Ok(digest@)) && finalizes_answers(request, t) && decided(
            t.finals,
            COMMITTEE_SIZE as nat,
            final_refusal(digest@),
            error_of(r),
        ) && (r matches Ok(b) ==> b == bundle)
}

/// A step of the proof of a quote, with what it gave.
fn state_quote<
    T: ProofPartyRpc,
    St,
    Re,
    Fs: Fn(&CompleteQuoteRequest, &Vec<Envelope>) -> Result<St, String>,
    Fr: Fn(&St, &CompleteQuoteRequest, &Vec<Envelope>) -> Result<Re, String>,
    Fc: Fn(&St, &Re, &CompleteQuoteRequest, &[u8; 32], &QuoteRounds) -> Result<Message, String>,
    Fa: Fn(&St, &Re, &CompleteQuoteRequest, &[u8; 32], &QuoteRounds, &Vec<Envelope>) -> Result<QuoteProof, String>,
    Fv: Fn(&QuoteVerificationBundle) -> Result<[u8; 32], String>,
>(parties: &mut Vec<T>, request: &CompleteQuoteRequest, by: &QuoteArithmetic<Fs, Fr, Fc, Fa, Fv>) -> (r: (
    Result<(St, Vec<Vec<u8>>), String>,
    Ghost<Seq<Result<Json, Seq<char>>>>,
))
    requires
        old(parties)@.len() == COMMITTEE_SIZE,
        quote_able(*by),
    ensures
        final(parties)@.len() == COMMITTEE_SIZE,
        told(final(parties)@) == asked(
            told(old(parties)@),
            committee(),
            "quote_evaluations"@,
            job_json(request.job_id@),
            r.1@,
            r.1@.len(),
        ),
        match r.0 {
            Ok((made, wires)) => {
                &&& quote_stated(*by, *request, r.1@, Ok::<St, String>(made))
                &&& wire_bytes(wires@) == wires_in(r.1@)
            },
            Err(e) => {
                ||| decided(r.1@, COMMITTEE_SIZE as nat, |o: Result<Json, Seq<char>>| answer_wire_refusal(o,
                    "quote evaluation"@), Some(e@))
                ||| decided(r.1@, COMMITTEE_SIZE as nat, |o: Result<Json, Seq<char>>| answer_wire_refusal(o,
                    "quote evaluation"@), None) && step_refusal(
                    r.1@,
                    request.job_id@,
                    "evaluations"@,
                    "quote proof party returned another evaluation type"@,
                ) == Some(e@)
                ||| quote_stated(*by, *request, r.1@, Err::<St, String>(e))
            },
        },
{
    let ghost before = told(parties@);
    let everyone = all_parties();
    let params = job_params(&request.job_id);
    let collected = collect_wires(parties, &everyone, "quote_evaluations", &params, "quote evaluation");
    let ghost outcomes = choose|outcomes: Seq<Result<Json, Seq<char>>>|
        #![trigger asked(before, committee(), "quote_evaluations"@, job_json(request.job_id@), outcomes,
            outcomes.len())]
        told(parties@) == asked(
            before,
            committee(),
            "quote_evaluations"@,
            job_json(request.job_id@),
            outcomes,
            outcomes.len(),
        ) && decided(outcomes, COMMITTEE_SIZE as nat, |o: Result<Json, Seq<char>>| answer_wire_refusal(o,
            "quote evaluation"@), error_of(collected)) && (collected matches Ok(
            wires,
        ) ==> wires_answered(outcomes, wires@));
    let wires = match collected {
        Err(e) => {
            return (Err(e), Ghost(outcomes));
        },
        Ok(wires) => wires,
    };
    assert(wire_bytes(wires@) =~= wires_in(outcomes));
    let evaluations = match read_quote_wires(
        &wires,
        &request.job_id,
        "evaluations",
        "quote proof party returned another evaluation type",
    ) {
        Err(e) => {
            return (Err(e), Ghost(outcomes));
        },
        Ok(evaluations) => evaluations,
    };
    let outcome = (by.statement)(request, &evaluations);
    assert(call_ensures(by.statement, (request, &evaluations), outcome));
    match outcome {
        Err(e) => (Err(e), Ghost(outcomes)),
        Ok(made) => (Ok((made, wires)), Ghost(outcomes)),
    }
}

fn relate_quote<
    T: ProofPartyRpc,
    St,
    Re,
    Fs: Fn(&CompleteQuoteRequest, &Vec<Envelope>) -> Result<St, String>,
    Fr: Fn(&St, &CompleteQuoteRequest, &Vec<Envelope>) -> Result<Re, String>,
    Fc: Fn(&St, &Re, &CompleteQuoteRequest, &[u8; 32], &QuoteRounds) -> Result<Message, String>,
    Fa: Fn(&St, &Re, &CompleteQuoteRequest, &[u8; 32], &QuoteRounds, &Vec<Envelope>) -> Result<QuoteProof, String>,
    Fv: Fn(&QuoteVerificationBundle) -> Result<[u8; 32], String>,
>(
    parties: &mut Vec<T>,
    request: &CompleteQuoteRequest,
    by: &QuoteArithmetic<Fs, Fr, Fc, Fa, Fv>,
    made: &St,
    params: &Value,
) -> (r: (Result<(Re, Vec<Vec<u8>>), String>, Ghost<Seq<Result<Json, Seq<char>>>>))
    requires
        old(parties)@.len() == COMMITTEE_SIZE,
        quote_able(*by),
    ensures
        final(parties)@.len() == COMMITTEE_SIZE,
        told(final(parties)@) == asked(
            told(old(parties)@),
            committee(),
            "quote_bind"@,
            params@,
            r.1@,
            r.1@.len(),
        ),
        match r.0 {
            Ok((bound, wires)) => {
                &&& quote_related(*by, *request, r.1@, *made, Ok::<Re, String>(bound))
                &&& wire_bytes(wires@) == wires_in(r.1@)
            },
            Err(e) => {
                ||| decided(r.1@, COMMITTEE_SIZE as nat, |o: Result<Json, Seq<char>>| answer_wire_refusal(o,
                    "quote relation evaluation"@), Some(e@))
                ||| decided(r.1@, COMMITTEE_SIZE as nat, |o: Result<Json, Seq<char>>| answer_wire_refusal(o,
                    "quote relation evaluation"@), None) && step_refusal(
                    r.1@,
                    request.job_id@,
                    "relations"@,
                    "quote proof party returned another relation type"@,
                ) == Some(e@)
                ||| quote_related(*by, *request, r.1@, *made, Err::<Re, String>(e))
            },
        },
{
    let ghost before = told(parties@);
    let everyone = all_parties();
    let collected = collect_wires(parties, &everyone, "quote_bind", params, "quote relation evaluation");
    let ghost outcomes = choose|outcomes: Seq<Result<Json, Seq<char>>>|
        #![trigger asked(before, committee(), "quote_bind"@, params@, outcomes, outcomes.len())]
        told(parties@) == asked(before, committee(), "quote_bind"@, params@, outcomes, outcomes.len()) && decided(
            outcomes,
            COMMITTEE_SIZE as nat,
            |o: Result<Json, Seq<char>>| answer_wire_refusal(o, "quote relation evaluation"@),
            error_of(collected),
        ) && (collected matches Ok(wires) ==> wires_answered(outcomes, wires@));
    let wires = match collected {
        Err(e) => {
            return (Err(e), Ghost(outcomes));
        },
        Ok(wires) => wires,
    };
    assert(wire_bytes(wires@) =~= wires_in(outcomes));
    let relations = match read_quote_wires(
        &wires,
        &request.job_id,
        "relations",
        "quote proof party returned another relation type",
    ) {
        Err(e) => {
            return (Err(e), Ghost(outcomes));
        },
        Ok(relations) => relations,
    };
    let outcome = (by.relations)(made, request, &relations);
    assert(call_ensures(by.relations, (made, request, &relations), outcome));
    match outcome {
        Err(e) => (Err(e), Ghost(outcomes)),
        Ok(bound) => (Ok((bound, wires)), Ghost(outcomes)),
    }
}

/// Proves with the committee that a quote is complete and minimal, verifies the
/// proof, and has every party take the same proof. `circuit` tells whether the
/// circuit of a request can be built.
pub fn prove_complete_quote<
    T: ProofPartyRpc,
    St,
    Re,
    Fq: Fn(&CompleteQuoteRequest) -> Result<(), String>,
    Fs: Fn(&CompleteQuoteRequest, &Vec<Envelope>) -> Result<St, String>,
    Fr: Fn(&St, &CompleteQuoteRequest, &Vec<Envelope>) -> Result<Re, String>,
    Fc: Fn(&St, &Re, &CompleteQuoteRequest, &[u8; 32], &QuoteRounds) -> Result<Message, String>,
    Fa: Fn(&St, &Re, &CompleteQuoteRequest, &[u8; 32], &QuoteRounds, &Vec<Envelope>) -> Result<QuoteProof, String>,
    Fv: Fn(&QuoteVerificationBundle) -> Result<[u8; 32], String>,
>(
    parties: &mut Vec<T>,
    request: CompleteQuoteRequest,
    circuit: &Fq,
    by: &QuoteArithmetic<Fs, Fr, Fc, Fa, Fv>,
) -> (r: Result<QuoteVerificationBundle, String>)
    requires
        tries(*circuit),
        quote_able(*by),
    ensures
        if !request.bounded() {
            &&& r matches Err(e) && e@ == "complete quote request is outside its fixed bounds"@
            &&& told(final(parties)@) == told(old(parties)@)
        } else if old(parties)@.len() != COMMITTEE_SIZE {
            &&& r matches Err(e) && e@ == "complete quote proof requires exactly seven parties"@
            &&& told(final(parties)@) == told(old(parties)@)
        } else if fault(*circuit, request) is Some {
            &&& r matches Err(e) && Some(e@) == fault(*circuit, request)
            &&& told(final(parties)@) == told(old(parties)@)
        } else {
            exists|t: QuoteTrace|
                #![trigger quote_traced(told(old(parties)@), request.job_id@, t)]
                told(final(parties)@) == quote_traced(told(old(parties)@), request.job_id@, t) && quote_outcome(
                    *by,
                    request,
                    t,
                    r,
                )
        },
{
    if let Err(e) = request.validate() {
        return Err(e);
    }
    if parties.len() != COMMITTEE_SIZE {
        return Err("complete quote proof requires exactly seven parties".to_owned());
    }
    if let Err(e) = attempt(circuit, &request) {
        return Err(e);
    }
    let ghost before = told(parties@);
    let ghost asked_request = request;
    let ghost mut t = unasked();
    let job = request.job_id;
    let everyone = all_parties();
    let context = complete_quote_context(request.job_id, request.request_context);
    let (stated, Ghost(evaluations)) = state_quote(parties, &request, by);
    proof {
        t = QuoteTrace { evaluations, ..t };
        assert(told(parties@) == quote_traced(before, job@, t));
    }
    let (made, evaluation_wires) = match stated {
        Err(e) => {
            proof {
                assert(quote_outcome(*by, request, t, Err::<QuoteVerificationBundle, String>(e)));
            }
            return Err(e);
        },
        Ok(stated) => stated,
    };
    let bind = quote_bind_params(&request, &evaluation_wires, &context);
    let (related, Ghost(relations)) = relate_quote(parties, &request, by, &made, &bind);
    proof {
        t = QuoteTrace { relations, bind_params: bind@, ..t };
        assert(told(parties@) == quote_traced(before, job@, t));
        assert(quote_stated(*by, request, t.evaluations, Ok::<St, String>(made)));
        assert(bind@ == quote_bind_json(request, evaluation_wires@, context_of(request)));
        assert(binds_evaluations(request, t));
    }
    let (bound, relation_wires) = match related {
        Err(e) => {
            proof {
                assert(quote_outcome_second(*by, request, t, made, Err::<QuoteVerificationBundle, String>(e)));
            }
            return Err(e);
        },
        Ok(related) => related,
    };
    let relation_bind = evaluations_params(&job, &relation_wires);
    let ghost two = told(parties@);
    let bound_by = demand_all(
        parties,
        &everyone,
        "quote_relation_bind",
        &relation_bind,
        Demand::True("bound"),
        "quote proof party did not bind its relation statement",
    );
    proof {
        let bounds = choose|outcomes: Seq<Result<Json, Seq<char>>>|
            #![trigger asked(two, committee(), "quote_relation_bind"@, relation_bind@, outcomes, outcomes.len())]
            told(parties@) == asked(
                two,
                committee(),
                "quote_relation_bind"@,
                relation_bind@,
                outcomes,
                outcomes.len(),
            ) && decided(outcomes, COMMITTEE_SIZE as nat, |o: Result<Json, Seq<char>>| demand_refusal(o,
                Demand::True("bound"), "quote proof party did not bind its relation statement"@), error_of(bound_by));
        t = QuoteTrace { bounds, relation_params: relation_bind@, ..t };
        assert(told(parties@) == quote_traced(before, job@, t));
        assert(quote_stated(*by, request, t.evaluations, Ok::<St, String>(made)));
        assert(binds_evaluations(request, t)) by {
            assert(t.bind_params == quote_bind_json(request, evaluation_wires@, context_of(request)));
        }
        assert(quote_related(*by, request, t.relations, made, Ok::<Re, String>(bound)));
        assert(relation_bind@ == evaluations_json(job@, relation_wires@));
        assert(binds_relations(request, t));
    }
    if let Err(e) = bound_by {
        assert(quote_outcome_third(*by, request, t, made, bound, Err::<QuoteVerificationBundle, String>(e)));
        assert(quote_outcome_second(*by, request, t, made, Err::<QuoteVerificationBundle, String>(e)));
        return Err(e);
    }
    let named = job_params(&job);
    let ghost three = told(parties@);
    let collected = collect_quote_rounds(parties, &job, &named);
    proof {
        let rounds = choose|outcomes: Seq<Result<Json, Seq<char>>>|
            #![trigger asked(three, signing_quorum(), "quote_round1"@, named@, outcomes, outcomes.len())]
            told(parties@) == asked(three, signing_quorum(), "quote_round1"@, named@, outcomes, outcomes.len())
                && decided(outcomes, 3, |o: Result<Json, Seq<char>>| quote_round_refusal(o, job@),
                    error_of(collected)) && (collected matches Ok(
                (seals, firsts, found),
            ) ==> quote_rounds_answered(outcomes, seals@, firsts@, found));
        t = QuoteTrace { rounds, ..t };
        assert(told(parties@) == quote_traced(before, job@, t));
        assert(quote_stated(*by, request, t.evaluations, Ok::<St, String>(made)));
        assert(binds_evaluations(request, t)) by {
            assert(t.bind_params == quote_bind_json(request, evaluation_wires@, context_of(request)));
        }
        assert(quote_related(*by, request, t.relations, made, Ok::<Re, String>(bound)));
        assert(binds_relations(request, t)) by {
            assert(t.relation_params == evaluations_json(job@, relation_wires@));
        }
    }
    let (seal_wires, round_wires, firsts) = match collected {
        Err(e) => {
            assert(quote_outcome_third(*by, request, t, made, bound, Err::<QuoteVerificationBundle, String>(e)));
            assert(quote_outcome_second(*by, request, t, made, Err::<QuoteVerificationBundle, String>(e)));
            return Err(e);
        },
        Ok(collected) => collected,
    };
    let challenged = (by.challenge)(&made, &bound, &request, &context, &firsts);
    assert(call_ensures(by.challenge, (&made, &bound, &request, &context, &firsts), challenged));
    assert(quote_challenged(*by, request, t, made, bound, challenged));
    let sent = match challenged {
        Err(e) => {
            assert(quote_outcome_third(*by, request, t, made, bound, Err::<QuoteVerificationBundle, String>(e)));
            assert(quote_outcome_second(*by, request, t, made, Err::<QuoteVerificationBundle, String>(e)));
            return Err(e);
        },
        Ok(sent) => sent,
    };
    let ghost message = sent;
    assert(quote_challenged(*by, request, t, made, bound, Ok::<Message, String>(message)));
    let challenge_wire = match wire_challenge(job, sent) {
        Err(e) => {
            assert(challenge_wired(request.job_id, message, Err(e@)));
            assert(quote_outcome_third(*by, request, t, made, bound, Err::<QuoteVerificationBundle, String>(e)));
            assert(quote_outcome_second(*by, request, t, made, Err::<QuoteVerificationBundle, String>(e)));
            return Err(e);
        },
        Ok(wire) => wire,
    };
    let answer = challenge_params(&job, &challenge_wire);
    let ghost four = told(parties@);
    let responded = collect_quote_responses(parties, &job, &answer);
    let ghost rounds_told = t.rounds;
    proof {
        let responses = choose|outcomes: Seq<Result<Json, Seq<char>>>|
            #![trigger asked(four, signing_quorum(), "quote_round2"@, answer@, outcomes, outcomes.len())]
            told(parties@) == asked(four, signing_quorum(), "quote_round2"@, answer@, outcomes, outcomes.len())
                && decided(outcomes, 3, |o: Result<Json, Seq<char>>| quote_response_refusal(o, job@),
                    error_of(responded)) && (responded matches Ok((wires, found))
                ==> wire_bytes(wires@) == wires_in(outcomes) && envelopes_said(wire_bytes(wires@), found@));
        t = QuoteTrace { responses, challenge: challenge_wire@, ..t };
        assert(told(parties@) == quote_traced(before, job@, t));
        assert(quote_stated(*by, request, t.evaluations, Ok::<St, String>(made)));
        assert(binds_evaluations(request, t)) by {
            assert(t.bind_params == quote_bind_json(request, evaluation_wires@, context_of(request)));
        }
        assert(quote_related(*by, request, t.relations, made, Ok::<Re, String>(bound)));
        assert(binds_relations(request, t)) by {
            assert(t.relation_params == evaluations_json(job@, relation_wires@));
        }
        assert(quote_challenged(*by, request, t, made, bound, Ok::<Message, String>(message))) by {
            assert(call_ensures(by.challenge, (&made, &bound, &request, &context, &firsts), Ok::<Message,
                String>(message)));
        }
        assert(challenge_wired(request.job_id, message, Ok(t.challenge)));
    }
    let (response_wires, responses) = match responded {
        Err(e) => {
            proof {
                assert(quote_outcome_last(*by, request, t, made, bound, Err::<QuoteVerificationBundle, String>(e)));
                assert(quote_outcome_third(*by, request, t, made, bound, Err::<QuoteVerificationBundle, String>(e)));
                assert(quote_outcome_second(*by, request, t, made, Err::<QuoteVerificationBundle, String>(e)));
            }
            return Err(e);
        },
        Ok(responded) => responded,
    };
    let assembled = (by.assemble)(&made, &bound, &request, &context, &firsts, &responses);
    assert(call_ensures(by.assemble, (&made, &bound, &request, &context, &firsts, &responses), assembled));
    assert(quote_assembled(*by, request, t, made, bound, assembled));
    let proved = match assembled {
        Err(e) => {
            proof {
                assert(quote_outcome_last(*by, request, t, made, bound, Err::<QuoteVerificationBundle, String>(e)));
                assert(quote_outcome_third(*by, request, t, made, bound, Err::<QuoteVerificationBundle, String>(e)));
                assert(quote_outcome_second(*by, request, t, made, Err::<QuoteVerificationBundle, String>(e)));
            }
            return Err(e);
        },
        Ok(proved) => proved,
    };
    let eligibility_bits: usize = request.eligibility_bits - 2;
    let span_bits: usize = request.span_bits;
    let bundle = QuoteVerificationBundle { context, eligibility_bits, span_bits, public: request.public,
        proof: proved };
    proof {
        assert(bundle_of(asked_request, bundle));
        assert(quote_assembled(*by, asked_request, t, made, bound, Ok::<QuoteProof, String>(bundle.proof)));
    }
    let digest = match bundle.verify(&by.check) {
        Err(e) => {
            proof {
                assert(quote_checked(by.check, bundle, Err(e@)));
                assert(quote_outcome_last(*by, asked_request, t, made, bound, Err::<QuoteVerificationBundle,
                    String>(e)));
                assert(quote_outcome_third(*by, asked_request, t, made, bound, Err::<QuoteVerificationBundle,
                    String>(e)));
                assert(quote_outcome_second(*by, asked_request, t, made, Err::<QuoteVerificationBundle, String>(e)));
            }
            return Err(e);
        },
        Ok(digest) => digest,
    };
    assert(quote_checked(by.check, bundle, Ok(digest@)));
    let expected = hex_encode(digest.as_slice());
    let last = finalize_params(&job, &round_wires, &seal_wires, &response_wires);
    let ghost five = told(parties@);
    let demand = Demand::Text("quote_digest", expected.as_str());
    let taken = demand_all(
        parties,
        &everyone,
        "quote_finalize",
        &last,
        demand,
        "proof parties finalized different complete quote proofs",
    );
    let r = match taken {
        Err(e) => Err(e),
        Ok(_) => Ok(bundle),
    };
    proof {
        let finals = choose|outcomes: Seq<Result<Json, Seq<char>>>|
            #![trigger asked(five, committee(), "quote_finalize"@, last@, outcomes, outcomes.len())]
            told(parties@) == asked(five, committee(), "quote_finalize"@, last@, outcomes, outcomes.len()) && decided(
                outcomes,
                COMMITTEE_SIZE as nat,
                |o: Result<Json, Seq<char>>|
                    demand_refusal(o, demand, "proof parties finalized different complete quote proofs"@),
                error_of(taken),
            );
        t = QuoteTrace { finals, final_params: last@, ..t };
        assert(told(parties@) == quote_traced(before, job@, t));
        assert(quote_stated(*by, asked_request, t.evaluations, Ok::<St, String>(made)));
        assert(binds_evaluations(asked_request, t)) by {
            assert(t.bind_params == quote_bind_json(asked_request, evaluation_wires@, context_of(asked_request)));
        }
        assert(quote_related(*by, asked_request, t.relations, made, Ok::<Re, String>(bound)));
        assert(binds_relations(asked_request, t)) by {
            assert(t.relation_params == evaluations_json(job@, relation_wires@));
        }
        assert(quote_challenged(*by, asked_request, t, made, bound, Ok::<Message, String>(message))) by {
            assert(call_ensures(
                by.challenge,
                (&made, &bound, &asked_request, &context, &firsts),
                Ok::<Message, String>(message),
            ));
        }
        assert(quote_assembled(*by, asked_request, t, made, bound, Ok::<QuoteProof, String>(bundle.proof))) by {
            assert(call_ensures(
                by.assemble,
                (&made, &bound, &asked_request, &context, &firsts, &responses),
                Ok::<QuoteProof, String>(bundle.proof),
            ));
        }
        assert(finalizes_answers(asked_request, t)) by {
            assert(t.final_params == finalize_json(job@, round_wires@, seal_wires@, response_wires@));
        }
        let check = final_refusal(digest@);
        let other = |o: Result<Json, Seq<char>>|
            demand_refusal(o, demand, "proof parties finalized different complete quote proofs"@);
        assert forall|i: int| 0 <= i < finals.len() implies check(#[trigger] finals[i]) == other(finals[i]) by {
        }
        assert(decided(t.finals, COMMITTEE_SIZE as nat, final_refusal(digest@), error_of(r)));
        assert(quote_outcome_last(*by, asked_request, t, made, bound, r));
        assert(quote_outcome_third(*by, asked_request, t, made, bound, r));
        assert(quote_outcome_second(*by, asked_request, t, made, r));
        assert(quote_outcome(*by, asked_request, t, r));
    }
    r
}

/// A quote that was proved was taken by every party, with one digest.
pub proof fn proved_quote_is_taken_by_all<
    St,
    Re,
    Fs: Fn(&CompleteQuoteRequest, &Vec<Envelope>) -> Result<St, String>,
    Fr: Fn(&St, &CompleteQuoteRequest, &Vec<Envelope>) -> Result<Re, String>,
    Fc: Fn(&St, &Re, &CompleteQuoteRequest, &[u8; 32], &QuoteRounds) -> Result<Message, String>,
    Fa: Fn(&St, &Re, &CompleteQuoteRequest, &[u8; 32], &QuoteRounds, &Vec<Envelope>) -> Result<QuoteProof, String>,
    Fv: Fn(&QuoteVerificationBundle) -> Result<[u8; 32], String>,
>(
    by: QuoteArithmetic<Fs, Fr, Fc, Fa, Fv>,
    request: CompleteQuoteRequest,
    before: Seq<Seq<Call>>,
    t: QuoteTrace,
    bundle: QuoteVerificationBundle,
)
    requires
        before.len() == COMMITTEE_SIZE,
        quote_outcome(by, request, t, Ok::<QuoteVerificationBundle, String>(bundle)),
    ensures
        bundle_of(request, bundle),
        exists|digest: [u8; 32]| #[trigger]
            quote_checked(by.check, bundle, Ok(digest@)) && finalized_alike(
                quote_traced(before, request.job_id@, t),
                digest@,
            ),
{
    let made = choose|made: St| #[trigger]
        quote_stated(by, request, t.evaluations, Ok::<St, String>(made)) && binds_evaluations(request, t)
            && quote_outcome_second(
            by,
            request,
            t,
            made,
            Ok::<QuoteVerificationBundle, String>(bundle),
        );
    let bound = choose|bound: Re| #[trigger]
        quote_related(by, request, t.relations, made, Ok::<Re, String>(bound)) && binds_relations(request, t)
            && quote_outcome_third(by, request, t, made, bound, Ok::<QuoteVerificationBundle, String>(bundle));
    assert(quote_outcome_last(by, request, t, made, bound, Ok::<QuoteVerificationBundle, String>(bundle)));
    let (found, digest) = choose|found: QuoteVerificationBundle, digest: [u8; 32]|
        bundle_of(request, found) && quote_assembled(
            by,
            request,
            t,
            made,
            bound,
            Ok::<QuoteProof, String>(found.proof),
        ) && #[trigger] quote_checked(by.check, found, Ok(digest@)) && finalizes_answers(request, t) && decided(
            t.finals,
            COMMITTEE_SIZE as nat,
            final_refusal(digest@),
            None,
        ) && found == bundle;
    assert(quote_checked(by.check, bundle, Ok(digest@)));
    let five = quote_traced(before, request.job_id@, QuoteTrace { finals: Seq::empty(), ..t });
    let done = quote_traced(before, request.job_id@, t);
    quote_traced_len(before, request.job_id@, QuoteTrace { finals: Seq::empty(), ..t });
    assert(done == asked(five, committee(), "quote_finalize"@, t.final_params, t.finals, t.finals.len()));
    let check = final_refusal(digest@);
    asked_last(five, "quote_finalize"@, t.final_params, t.finals, COMMITTEE_SIZE as nat, 0);
    assert forall|i: int| 0 <= i < COMMITTEE_SIZE implies finalized_at(#[trigger] done[i], digest@) by {
        asked_last(five, "quote_finalize"@, t.final_params, t.finals, COMMITTEE_SIZE as nat, i);
        assert(check(t.finals[i]) is None);
    }
}

proof fn asked_len(
    before: Seq<Seq<Call>>,
    targets: Seq<usize>,
    method: Seq<char>,
    params: Json,
    outcomes: Seq<Result<Json, Seq<char>>>,
    count: nat,
)
    requires
        count <= targets.len(),
        are_parties(targets, before.len()),
    ensures
        asked(before, targets, method, params, outcomes, count).len() == before.len(),
    decreases count,
{
    if count > 0 {
        asked_len(before, targets, method, params, outcomes, (count - 1) as nat);
    }
}

proof fn quote_traced_len(before: Seq<Seq<Call>>, job: Seq<u8>, t: QuoteTrace)
    requires
        before.len() == COMMITTEE_SIZE,
        t.evaluations.len() <= COMMITTEE_SIZE,
        t.relations.len() <= COMMITTEE_SIZE,
        t.bounds.len() <= COMMITTEE_SIZE,
        t.rounds.len() <= 3,
        t.responses.len() <= 3,
        t.finals.len() <= COMMITTEE_SIZE,
    ensures
        quote_traced(before, job, t).len() == before.len(),
{
    let one = asked(before, committee(), "quote_evaluations"@, job_json(job), t.evaluations, t.evaluations.len());
    let two = asked(one, committee(), "quote_bind"@, t.bind_params, t.relations, t.relations.len());
    let three = asked(two, committee(), "quote_relation_bind"@, t.relation_params, t.bounds, t.bounds.len());
    let four = asked(three, signing_quorum(), "quote_round1"@, job_json(job), t.rounds, t.rounds.len());
    let challenge = challenge_json(job, t.challenge);
    let five = asked(four, signing_quorum(), "quote_round2"@, challenge, t.responses, t.responses.len());
    asked_len(before, committee(), "quote_evaluations"@, job_json(job), t.evaluations, t.evaluations.len());
    asked_len(one, committee(), "quote_bind"@, t.bind_params, t.relations, t.relations.len());
    asked_len(two, committee(), "quote_relation_bind"@, t.relation_params, t.bounds, t.bounds.len());
    asked_len(three, signing_quorum(), "quote_round1"@, job_json(job), t.rounds, t.rounds.len());
    asked_len(four, signing_quorum(), "quote_round2"@, challenge, t.responses, t.responses.len());
    asked_len(five, committee(), "quote_finalize"@, t.final_params, t.finals, t.finals.len());
}

/// Whether the last call to a party had it take a quote's proof of a digest.
pub open spec fn finalized_at(calls: Seq<Call>, digest: Seq<u8>) -> bool {
    &&& calls.len() > 0
    &&& calls.last().method == "quote_finalize"@
    &&& calls.last().outcome is Ok
    &&& text_in((calls.last().outcome->Ok_0).field("quote_digest"@)) == Some(hex_text(digest))
}

/// Whether every party took the proof of the same digest.
pub open spec fn finalized_alike(calls: Seq<Seq<Call>>, digest: Seq<u8>) -> bool {
    &&& calls.len() == COMMITTEE_SIZE
    &&& forall|i: int| 0 <= i < COMMITTEE_SIZE ==> finalized_at(#[trigger] calls[i], digest)
}

/// The last call to a member after the whole committee was asked.
proof fn asked_last(
    before: Seq<Seq<Call>>,
    method: Seq<char>,
    params: Json,
    outcomes: Seq<Result<Json, Seq<char>>>,
    count: nat,
    at: int,
)
    requires
        before.len() == COMMITTEE_SIZE,
        count <= COMMITTEE_SIZE,
        outcomes.len() >= count,
        0 <= at < COMMITTEE_SIZE,
    ensures
        asked(before, committee(), method, params, outcomes, count).len() == COMMITTEE_SIZE,
        at < count ==> ({
            let calls = asked(before, committee(), method, params, outcomes, count)[at];
            calls.len() > 0 && calls.last() == (Call { method, params, outcome: outcomes[at] })
        }),
    decreases count,
{
    if count > 0 {
        asked_last(before, method, params, outcomes, (count - 1) as nat, at);
    }
}

} // verus!
