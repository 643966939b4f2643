//! Asking a committee of proof parties, one after the other.
//!
//! The coordinator relays commitments and public proof messages. It never
//! receives a share, a pricing-policy opening, a quote, a reserve opening, or a
//! share of a signing key.

use vstd::prelude::*;
use crate::fields::{either, hex_json, unless};
use crate::json::{as_text, said, text_in, Json, Value};
use crate::proof_rounds::{opened_refusal, OpenedWire};
use crate::quote_messages::{array, entries_said, hex_value, object, object_json};
use crate::text::{about, base64_bytes, base64_decode, base64_encode, base64_text, same_text};

verus! {

/// How many proof parties a committee has.
pub const COMMITTEE_SIZE: usize = 7;

/// The degree of the polynomials that the committee shares secrets with.
pub const SHAMIR_THRESHOLD: usize = 2;

/// The longest public wire.
pub const MAX_PUBLIC_WIRE_BYTES: usize = 1048576;

/// One call to a proof party and what came of it.
pub ghost struct Call {
    pub method: Seq<char>,
    pub params: Json,
    pub outcome: Result<Json, Seq<char>>,
}

/// A proof party that can be called.
pub trait ProofPartyRpc {
    /// The calls that were made so far.
    open spec fn calls(&self) -> Seq<Call> {
        arbitrary()
    }

    /// Calls the party.
    fn call(&mut self, method: &str, params: Value) -> (r: Result<Value, String>)
        ensures
            final(self).calls() == old(self).calls().push(
                (Call { method: method@, params: params@, outcome: answered(r) }),
            ),
    ;
}

/// What an answer says.
pub open spec fn answered(r: Result<Value, String>) -> Result<Json, Seq<char>> {
    match r {
        Ok(value) => Ok(value@),
        Err(e) => Err(e@),
    }
}

/// The calls that were made to each party.
pub open spec fn told<T: ProofPartyRpc>(parties: Seq<T>) -> Seq<Seq<Call>> {
    parties.map_values(|p: T| p.calls())
}

/// The calls after asking the first `count` of the targets the same.
pub open spec fn asked(
    before: Seq<Seq<Call>>,
    targets: Seq<usize>,
    method: Seq<char>,
    params: Json,
    outcomes: Seq<Result<Json, Seq<char>>>,
    count: nat,
) -> Seq<Seq<Call>>
    decreases count,
{
    if count == 0 {
        before
    } else {
        let prior = asked(before, targets, method, params, outcomes, (count - 1) as nat);
        let at = targets[count - 1] as int;
        prior.update(at, prior[at].push(Call { method, params, outcome: outcomes[count - 1] }))
    }
}

/// Whether targets are parties.
pub open spec fn are_parties(targets: Seq<usize>, parties: nat) -> bool {
    forall|i: int| 0 <= i < targets.len() ==> #[trigger] targets[i] < parties
}

/// Asks one party.
pub fn ask_one<T: ProofPartyRpc>(parties: &mut Vec<T>, at: usize, method: &str, params: &Value) -> (r: Result<
    Value,
    String,
>)
    requires
        at < old(parties)@.len(),
    ensures
        final(parties)@.len() == old(parties)@.len(),
        told(final(parties)@) == told(old(parties)@).update(
            at as int,
            told(old(parties)@)[at as int].push((Call { method: method@, params: params@, outcome: answered(r) })),
        ),
{
    let sent = params.copy();
    let ghost before = parties@;
    let r = parties[at].call(method, sent);
    proof {
        assert(told(parties@) =~= told(before).update(
            at as int,
            told(before)[at as int].push(Call { method: method@, params: params@, outcome: answered(r) }),
        ));
    }
    r
}

/// Asking more does not change what the first answers were.
pub proof fn asked_agrees(
    before: Seq<Seq<Call>>,
    targets: Seq<usize>,
    method: Seq<char>,
    params: Json,
    a: Seq<Result<Json, Seq<char>>>,
    b: Seq<Result<Json, Seq<char>>>,
    count: nat,
)
    requires
        count <= a.len(),
        count <= b.len(),
        forall|i: int| 0 <= i < count ==> #[trigger] a[i] == b[i],
    ensures
        asked(before, targets, method, params, a, count) == asked(before, targets, method, params, b, count),
    decreases count,
{
    if count > 0 {
        asked_agrees(before, targets, method, params, a, b, (count - 1) as nat);
        assert(a[count - 1] == b[count - 1]);
    }
}

/// Why an answer carries no public wire.
pub open spec fn wire_refusal(value: Option<Json>, name: Seq<char>) -> Option<Seq<char>> {
    match text_in(value) {
        None => Some("proof-party "@ + name + " is not a public wire"@),
        Some(text) => match base64_bytes(text) {
            None => Some("proof-party "@ + name + " is not valid base64"@),
            Some(raw) => unless(
                0 < raw.len() <= MAX_PUBLIC_WIRE_BYTES,
                "proof-party "@ + name + " exceeds its fixed bound"@,
            ),
        },
    }
}

/// The public wire of an answer.
pub open spec fn wire_of(value: Option<Json>) -> Seq<u8> {
    base64_bytes(text_in(value)->0)->0
}

/// Reads the public wire of an answer.
pub fn public_wire(value: Option<&Value>, name: &str) -> (r: Result<Vec<u8>, String>)
    ensures
        match r {
            Ok(raw) => wire_refusal(said(value), name@) is None && raw@ == wire_of(said(value)),
            Err(e) => wire_refusal(said(value), name@) == Some(e@),
        },
{
    let named = about("proof-party ", name);
    match as_text(value) {
        None => Err(about(named.as_str(), " is not a public wire")),
        Some(text) => match base64_decode(text) {
            None => Err(about(named.as_str(), " is not valid base64")),
            Some(raw) => if raw.len() == 0 || raw.len() > MAX_PUBLIC_WIRE_BYTES {
                Err(about(named.as_str(), " exceeds its fixed bound"))
            } else {
                Ok(raw)
            },
        },
    }
}

/// What decides on an answer: a refusal, or none.
pub open spec fn decided(
    outcomes: Seq<Result<Json, Seq<char>>>,
    targets: nat,
    refusal: spec_fn(Result<Json, Seq<char>>) -> Option<Seq<char>>,
    error: Option<Seq<char>>,
) -> bool {
    match error {
        None => {
            &&& outcomes.len() == targets
            &&& forall|i: int| 0 <= i < outcomes.len() ==> refusal(#[trigger] outcomes[i]) is None
        },
        Some(e) => {
            &&& 0 < outcomes.len() <= targets
            &&& forall|i: int| 0 <= i < outcomes.len() - 1 ==> refusal(#[trigger] outcomes[i]) is None
            &&& refusal(outcomes.last()) == Some(e)
        },
    }
}

/// The refusal of an answer that should be a public wire.
pub open spec fn answer_wire_refusal(outcome: Result<Json, Seq<char>>, name: Seq<char>) -> Option<Seq<char>> {
    match outcome {
        Err(e) => Some(e),
        Ok(value) => wire_refusal(Some(value), name),
    }
}

/// The text of an error, where there is one.
pub open spec fn error_of<T>(r: Result<T, String>) -> Option<Seq<char>> {
    match r {
        Ok(_) => None,
        Err(e) => Some(e@),
    }
}

/// Whether wires are those of the answers.
pub open spec fn wires_answered(outcomes: Seq<Result<Json, Seq<char>>>, wires: Seq<Vec<u8>>) -> bool {
    &&& wires.len() == outcomes.len()
    &&& forall|i: int|
        #![trigger wires[i]]
        0 <= i < wires.len() ==> outcomes[i] is Ok && wires[i]@ == wire_of(Some(outcomes[i]->Ok_0))
}

/// Asks the targets in turn for a public wire, up to the first that gives none.
#[verifier::loop_isolation(false)]
pub fn collect_wires<T: ProofPartyRpc>(
    parties: &mut Vec<T>,
    targets: &Vec<usize>,
    method: &str,
    params: &Value,
    name: &str,
) -> (r: Result<Vec<Vec<u8>>, String>)
    requires
        are_parties(targets@, old(parties)@.len()),
    ensures
        final(parties)@.len() == old(parties)@.len(),
        exists|outcomes: Seq<Result<Json, Seq<char>>>|
            #![trigger asked(told(old(parties)@), targets@, method@, params@, outcomes, outcomes.len())]
            told(final(parties)@) == asked(told(old(parties)@), targets@, method@, params@, outcomes, outcomes.len())
                && decided(
                outcomes,
                targets@.len(),
                |o: Result<Json, Seq<char>>| answer_wire_refusal(o, name@),
                error_of(r),
            ) && (r matches Ok(wires) ==> wires_answered(outcomes, wires@)),
{
    let ghost start = told(parties@);
    let ghost check = |o: Result<Json, Seq<char>>| answer_wire_refusal(o, name@);
    let ghost mut outcomes: Seq<Result<Json, Seq<char>>> = Seq::empty();
    let mut wires: Vec<Vec<u8>> = Vec::new();
    let mut i: usize = 0;
    while i < targets.len()
        invariant
            i <= targets@.len(),
            parties@.len() == old(parties)@.len(),
            outcomes.len() == i,
            told(parties@) == asked(start, targets@, method@, params@, outcomes, i as nat),
            forall|j: int| 0 <= j < i ==> check(#[trigger] outcomes[j]) is None,
            wires_answered(outcomes, wires@),
        decreases targets@.len() - i,
    {
        let answer = ask_one(parties, targets[i], method, params);
        proof {
            let more = outcomes.push(answered(answer));
            asked_agrees(start, targets@, method@, params@, outcomes, more, i as nat);
            outcomes = more;
            assert(told(parties@) == asked(start, targets@, method@, params@, outcomes, outcomes.len()));
            assert(outcomes.last() == answered(answer));
        }
        match answer {
            Err(e) => {
                return Err(e);
            },
            Ok(value) => match public_wire(Some(&value), name) {
                Err(e) => {
                    return Err(e);
                },
                Ok(wire) => {
                    wires.push(wire);
                },
            },
        }
        i = i + 1;
    }
    Ok(wires)
}

/// Whether any wire can be opened, and each in one way.
pub open spec fn opens<F: Fn(&Vec<u8>) -> Result<OpenedWire, String>>(f: F) -> bool {
    &&& forall|b: &Vec<u8>| call_requires(f, (b,))
    &&& forall|a: &Vec<u8>, b: &Vec<u8>, x: Result<OpenedWire, String>, y: Result<OpenedWire, String>|
        a@ == b@ && #[trigger] call_ensures(f, (a,), x) && #[trigger] call_ensures(f, (b,), y) ==> same_opened(x, y)
}

/// Whether two openings came out the same.
pub open spec fn same_opened(x: Result<OpenedWire, String>, y: Result<OpenedWire, String>) -> bool {
    match x {
        Ok(a) => y == Ok::<OpenedWire, String>(a),
        Err(e) => y is Err && (y->Err_0)@ == e@,
    }
}

/// Whether opening a wire may come out so.
pub open spec fn opens_as<F: Fn(&Vec<u8>) -> Result<OpenedWire, String>>(
    f: F,
    raw: Seq<u8>,
    outcome: Result<OpenedWire, String>,
) -> bool {
    exists|b: &Vec<u8>| b@ == raw && #[trigger] call_ensures(f, (b,), outcome)
}

/// Why a wire is not one of a job and kind.
pub open spec fn opening_refusal<F: Fn(&Vec<u8>) -> Result<OpenedWire, String>>(
    f: F,
    raw: Seq<u8>,
    job: Seq<u8>,
    complaint: Seq<char>,
) -> Option<Seq<char>> {
    opened_refusal(choose|outcome: Result<OpenedWire, String>| opens_as(f, raw, outcome), job, complaint)
}

/// Opens a wire and refuses one of another job or kind.
pub fn open_wire<F: Fn(&Vec<u8>) -> Result<OpenedWire, String>>(
    f: &F,
    raw: &Vec<u8>,
    job: &[u8; 32],
    complaint: &str,
) -> (r: Result<(), String>)
    requires
        opens(*f),
    ensures
        error_of(r) == opening_refusal(*f, raw@, job@, complaint@),
{
    let outcome = f(raw);
    proof {
        assert(call_ensures(*f, (raw,), outcome));
        assert(opens_as(*f, raw@, outcome));
        let chosen = choose|outcome: Result<OpenedWire, String>| opens_as(*f, raw@, outcome);
        assert(opens_as(*f, raw@, chosen));
        let b = choose|b: &Vec<u8>| b@ == raw@ && #[trigger] call_ensures(*f, (b,), chosen);
        assert(call_ensures(*f, (b,), chosen));
        assert(same_opened(outcome, chosen));
    }
    crate::proof_rounds::check_opened(&outcome, job, complaint)
}

/// The refusal of an answer that should be a public wire of a job and kind.
pub open spec fn answer_opened_refusal<F: Fn(&Vec<u8>) -> Result<OpenedWire, String>>(
    outcome: Result<Json, Seq<char>>,
    name: Seq<char>,
    f: F,
    job: Seq<u8>,
    complaint: Seq<char>,
) -> Option<Seq<char>> {
    either(
        answer_wire_refusal(outcome, name),
        opening_refusal(f, wire_of(Some(outcome->Ok_0)), job, complaint),
    )
}

/// Asks the targets in turn for a public wire of a job and kind, up to the first
/// that gives none.
#[verifier::loop_isolation(false)]
pub fn collect_opened<T: ProofPartyRpc, F: Fn(&Vec<u8>) -> Result<OpenedWire, String>>(
    parties: &mut Vec<T>,
    targets: &Vec<usize>,
    method: &str,
    params: &Value,
    name: &str,
    f: &F,
    job: &[u8; 32],
    complaint: &str,
) -> (r: Result<Vec<Vec<u8>>, String>)
    requires
        are_parties(targets@, old(parties)@.len()),
        opens(*f),
    ensures
        final(parties)@.len() == old(parties)@.len(),
        exists|outcomes: Seq<Result<Json, Seq<char>>>|
            #![trigger asked(told(old(parties)@), targets@, method@, params@, outcomes, outcomes.len())]
            told(final(parties)@) == asked(told(old(parties)@), targets@, method@, params@, outcomes, outcomes.len())
                && decided(
                outcomes,
                targets@.len(),
                |o: Result<Json, Seq<char>>| answer_opened_refusal(o, name@, *f, job@, complaint@),
                error_of(r),
            ) && (r matches Ok(wires) ==> wires_answered(outcomes, wires@)),
{
    let ghost start = told(parties@);
    let ghost check = |o: Result<Json, Seq<char>>| answer_opened_refusal(o, name@, *f, job@, complaint@);
    let ghost mut outcomes: Seq<Result<Json, Seq<char>>> = Seq::empty();
    let mut wires: Vec<Vec<u8>> = Vec::new();
    let mut i: usize = 0;
    while i < targets.len()
        invariant
            i <= targets@.len(),
            parties@.len() == old(parties)@.len(),
            outcomes.len() == i,
            told(parties@) == asked(start, targets@, method@, params@, outcomes, i as nat),
            forall|j: int| 0 <= j < i ==> check(#[trigger] outcomes[j]) is None,
            wires_answered(outcomes, wires@),
        decreases targets@.len() - i,
    {
        let answer = ask_one(parties, targets[i], method, params);
        proof {
            let more = outcomes.push(answered(answer));
            asked_agrees(start, targets@, method@, params@, outcomes, more, i as nat);
            outcomes = more;
            assert(told(parties@) == asked(start, targets@, method@, params@, outcomes, outcomes.len()));
            assert(outcomes.last() == answered(answer));
        }
        match answer {
            Err(e) => {
                return Err(e);
            },
            Ok(value) => match public_wire(Some(&value), name) {
                Err(e) => {
                    return Err(e);
                },
                Ok(wire) => {
                    if let Err(e) = open_wire(f, &wire, job, complaint) {
                        return Err(e);
                    }
                    wires.push(wire);
                },
            },
        }
        i = i + 1;
    }
    Ok(wires)
}

/// What a first round is called in errors.
#[derive(Clone, Copy, Debug)]
pub struct RoundNames<'a> {
    pub no_seal: &'a str,
    pub seal: &'a str,
    pub other_seal: &'a str,
    pub no_round: &'a str,
    pub round: &'a str,
    pub other_round: &'a str,
    /// Whether the seal is opened before the round is looked for.
    pub seal_first: bool,
}

/// The two wires of a first round.
#[derive(Debug)]
pub struct FirstRound {
    pub seal: Vec<u8>,
    pub round: Vec<u8>,
}

/// The refusal of an answer that should be a first round of a job.
pub open spec fn first_round_refusal<
    F: Fn(&Vec<u8>) -> Result<OpenedWire, String>,
    G: Fn(&Vec<u8>) -> Result<OpenedWire, String>,
>(
    outcome: Result<Json, Seq<char>>,
    names: RoundNames<'_>,
    seal: F,
    round: G,
    job: Seq<u8>,
) -> Option<Seq<char>> {
    match outcome {
        Err(e) => Some(e),
        Ok(value) => {
            let seal_read = either(
                unless(value.field("seal"@) is Some, names.no_seal@),
                wire_refusal(value.field("seal"@), names.seal@),
            );
            let round_read = either(
                unless(value.field("round"@) is Some, names.no_round@),
                wire_refusal(value.field("round"@), names.round@),
            );
            let seal_opened = opening_refusal(seal, wire_of(value.field("seal"@)), job, names.other_seal@);
            let round_opened = opening_refusal(round, wire_of(value.field("round"@)), job, names.other_round@);
            if names.seal_first {
                either(seal_read, either(seal_opened, either(round_read, round_opened)))
            } else {
                either(seal_read, either(round_read, either(seal_opened, round_opened)))
            }
        },
    }
}

/// Whether first rounds are those of the answers.
pub open spec fn rounds_answered(outcomes: Seq<Result<Json, Seq<char>>>, rounds: Seq<FirstRound>) -> bool {
    &&& rounds.len() == outcomes.len()
    &&& forall|i: int|
        #![trigger rounds[i]]
        0 <= i < rounds.len() ==> outcomes[i] is Ok && rounds[i].seal@ == wire_of((outcomes[i]->Ok_0).field("seal"@))
            && rounds[i].round@ == wire_of((outcomes[i]->Ok_0).field("round"@))
}

fn read_first_round<
    F: Fn(&Vec<u8>) -> Result<OpenedWire, String>,
    G: Fn(&Vec<u8>) -> Result<OpenedWire, String>,
>(value: &Value, names: RoundNames<'_>, seal: &F, round: &G, job: &[u8; 32]) -> (r: Result<FirstRound, String>)
    requires
        opens(*seal),
        opens(*round),
    ensures
        error_of(r) == first_round_refusal(Ok(value@), names, *seal, *round, job@),
        r matches Ok(read) ==> read.seal@ == wire_of(value@.field("seal"@)) && read.round@ == wire_of(
            value@.field("round"@),
        ),
{
    let found = value.get("seal");
    if found.is_none() {
        return Err(names.no_seal.to_owned());
    }
    let seal_wire = match public_wire(found, names.seal) {
        Err(e) => {
            return Err(e);
        },
        Ok(wire) => wire,
    };
    if names.seal_first {
        if let Err(e) = open_wire(seal, &seal_wire, job, names.other_seal) {
            return Err(e);
        }
    }
    let second = value.get("round");
    if second.is_none() {
        return Err(names.no_round.to_owned());
    }
    let round_wire = match public_wire(second, names.round) {
        Err(e) => {
            return Err(e);
        },
        Ok(wire) => wire,
    };
    if !names.seal_first {
        if let Err(e) = open_wire(seal, &seal_wire, job, names.other_seal) {
            return Err(e);
        }
    }
    if let Err(e) = open_wire(round, &round_wire, job, names.other_round) {
        return Err(e);
    }
    Ok(FirstRound { seal: seal_wire, round: round_wire })
}

/// Asks the targets in turn for a first round of a job, up to the first that
/// gives none: no challenge is made before every seal is in.
#[verifier::loop_isolation(false)]
pub fn collect_rounds<
    T: ProofPartyRpc,
    F: Fn(&Vec<u8>) -> Result<OpenedWire, String>,
    G: Fn(&Vec<u8>) -> Result<OpenedWire, String>,
>(
    parties: &mut Vec<T>,
    targets: &Vec<usize>,
    method: &str,
    params: &Value,
    names: RoundNames<'_>,
    seal: &F,
    round: &G,
    job: &[u8; 32],
) -> (r: Result<Vec<FirstRound>, String>)
    requires
        are_parties(targets@, old(parties)@.len()),
        opens(*seal),
        opens(*round),
    ensures
        final(parties)@.len() == old(parties)@.len(),
        exists|outcomes: Seq<Result<Json, Seq<char>>>|
            #![trigger asked(told(old(parties)@), targets@, method@, params@, outcomes, outcomes.len())]
            told(final(parties)@) == asked(told(old(parties)@), targets@, method@, params@, outcomes, outcomes.len())
                && decided(
                outcomes,
                targets@.len(),
                |o: Result<Json, Seq<char>>| first_round_refusal(o, names, *seal, *round, job@),
                error_of(r),
            ) && (r matches Ok(rounds) ==> rounds_answered(outcomes, rounds@)),
{
    let ghost start = told(parties@);
    let ghost check = |o: Result<Json, Seq<char>>| first_round_refusal(o, names, *seal, *round, job@);
    let ghost mut outcomes: Seq<Result<Json, Seq<char>>> = Seq::empty();
    let mut rounds: Vec<FirstRound> = Vec::new();
    let mut i: usize = 0;
    while i < targets.len()
        invariant
            i <= targets@.len(),
            parties@.len() == old(parties)@.len(),
            outcomes.len() == i,
            told(parties@) == asked(start, targets@, method@, params@, outcomes, i as nat),
            forall|j: int| 0 <= j < i ==> check(#[trigger] outcomes[j]) is None,
            rounds_answered(outcomes, rounds@),
        decreases targets@.len() - i,
    {
        let answer = ask_one(parties, targets[i], method, params);
        proof {
            let more = outcomes.push(answered(answer));
            asked_agrees(start, targets@, method@, params@, outcomes, more, i as nat);
            outcomes = more;
            assert(told(parties@) == asked(start, targets@, method@, params@, outcomes, outcomes.len()));
            assert(outcomes.last() == answered(answer));
        }
        match answer {
            Err(e) => {
                return Err(e);
            },
            Ok(value) => match read_first_round(&value, names, seal, round, job) {
                Err(e) => {
                    return Err(e);
                },
                Ok(read) => {
                    rounds.push(read);
                },
            },
        }
        i = i + 1;
    }
    Ok(rounds)
}

/// What an answer must say.
#[derive(Clone, Copy, Debug)]
pub enum Demand<'a> {
    /// Anything: the answer only has to come.
    Answer,
    /// A member that is true.
    True(&'a str),
    /// A member that is a text.
    Text(&'a str, &'a str),
}

/// Whether an answer meets a demand.
pub open spec fn meets(value: Json, demand: Demand<'_>) -> bool {
    match demand {
        Demand::Answer => true,
        Demand::True(name) => value.field(name@) == Some(Json::Bool(true)),
        Demand::Text(name, text) => text_in(value.field(name@)) == Some(text@),
    }
}

fn check_demand(value: &Value, demand: Demand<'_>) -> (r: bool)
    ensures
        r == meets(value@, demand),
{
    match demand {
        Demand::Answer => true,
        Demand::True(name) => match value.get(name) {
            Some(Value::Bool(b)) => *b,
            _ => false,
        },
        Demand::Text(name, text) => match as_text(value.get(name)) {
            Some(found) => same_text(found, text),
            None => false,
        },
    }
}

/// The refusal of an answer that does not meet a demand.
pub open spec fn demand_refusal(outcome: Result<Json, Seq<char>>, demand: Demand<'_>, complaint: Seq<char>) -> Option<
    Seq<char>,
> {
    match outcome {
        Err(e) => Some(e),
        Ok(value) => unless(meets(value, demand), complaint),
    }
}

/// Asks the targets in turn, up to the first whose answer does not meet a demand.
#[verifier::loop_isolation(false)]
pub fn demand_all<T: ProofPartyRpc>(
    parties: &mut Vec<T>,
    targets: &Vec<usize>,
    method: &str,
    params: &Value,
    demand: Demand<'_>,
    complaint: &str,
) -> (r: Result<(), String>)
    requires
        are_parties(targets@, old(parties)@.len()),
    ensures
        final(parties)@.len() == old(parties)@.len(),
        exists|outcomes: Seq<Result<Json, Seq<char>>>|
            #![trigger asked(told(old(parties)@), targets@, method@, params@, outcomes, outcomes.len())]
            told(final(parties)@) == asked(told(old(parties)@), targets@, method@, params@, outcomes, outcomes.len())
                && decided(
                outcomes,
                targets@.len(),
                |o: Result<Json, Seq<char>>| demand_refusal(o, demand, complaint@),
                error_of(r),
            ),
{
    let ghost start = told(parties@);
    let ghost check = |o: Result<Json, Seq<char>>| demand_refusal(o, demand, complaint@);
    let ghost mut outcomes: Seq<Result<Json, Seq<char>>> = Seq::empty();
    let mut i: usize = 0;
    while i < targets.len()
        invariant
            i <= targets@.len(),
            parties@.len() == old(parties)@.len(),
            outcomes.len() == i,
            told(parties@) == asked(start, targets@, method@, params@, outcomes, i as nat),
            forall|j: int| 0 <= j < i ==> check(#[trigger] outcomes[j]) is None,
        decreases targets@.len() - i,
    {
        let answer = ask_one(parties, targets[i], method, params);
        proof {
            let more = outcomes.push(answered(answer));
            asked_agrees(start, targets@, method@, params@, outcomes, more, i as nat);
            outcomes = more;
            assert(told(parties@) == asked(start, targets@, method@, params@, outcomes, outcomes.len()));
            assert(outcomes.last() == answered(answer));
        }
        match answer {
            Err(e) => {
                return Err(e);
            },
            Ok(value) => {
                if !check_demand(&value, demand) {
                    return Err(complaint.to_owned());
                }
            },
        }
        i = i + 1;
    }
    Ok(())
}

/// Whether a party, counted from zero, signs.
pub open spec fn signs_at(at: int) -> bool {
    at == 0 || at == 3 || at == 6
}

/// The parties that sign, counted from zero.
pub open spec fn signing_quorum() -> Seq<usize> {
    seq![0usize, 3usize, 6usize]
}

/// The parties that sign, counted from zero: the first, the fourth and the seventh.
pub fn signing_parties() -> (targets: Vec<usize>)
    ensures
        targets@ == signing_quorum(),
        are_parties(targets@, COMMITTEE_SIZE as nat),
{
    let targets: Vec<usize> = vec![0, 3, 6];
    assert(targets@ =~= signing_quorum());
    targets
}

/// The whole committee, counted from zero.
pub open spec fn committee() -> Seq<usize> {
    Seq::new(COMMITTEE_SIZE as nat, |i: int| i as usize)
}

/// The whole committee, counted from zero.
pub fn all_parties() -> (targets: Vec<usize>)
    ensures
        targets@ == committee(),
        are_parties(targets@, COMMITTEE_SIZE as nat),
{
    let targets: Vec<usize> = vec![0, 1, 2, 3, 4, 5, 6];
    assert(targets@ =~= committee());
    targets
}

/// The parameters that name only a job.
pub open spec fn job_json(job_id: Seq<u8>) -> Json {
    object_json(seq![("job_id"@, hex_json(job_id))])
}

/// The parameters that name only a job.
pub fn job_params(job_id: &[u8; 32]) -> (params: Value)
    ensures
        params@ == job_json(job_id@),
{
    let entries: Vec<(String, Value)> = vec![("job_id".to_owned(), hex_value(job_id))];
    assert(entries_said(entries@) =~= seq![("job_id"@, hex_json(job_id@))]);
    object(entries)
}

/// A list of wires.
pub open spec fn wires_json(wires: Seq<Vec<u8>>) -> Json {
    Json::Array(wires.map_values(|w: Vec<u8>| Json::Text(base64_text(w@))))
}

/// A list of wires.
pub fn wire_array(wires: &Vec<Vec<u8>>) -> (value: Value)
    ensures
        value@ == wires_json(wires@),
{
    let mut values: Vec<Value> = Vec::new();
    let mut i: usize = 0;
    while i < wires.len()
        invariant
            i <= wires@.len(),
            values@.len() == i,
            forall|j: int| 0 <= j < i ==> (#[trigger] values@[j])@ == Json::Text(base64_text(wires@[j]@)),
        decreases wires@.len() - i,
    {
        values.push(Value::Text(base64_encode(wires[i].as_slice())));
        i = i + 1;
    }
    assert(values@.map_values(|v: Value| v@) =~= wires_json(wires@)->Array_0);
    array(values)
}

/// What a party is asked to complete a job: the ones that sign complete it, the
/// others close it as observers.
pub open spec fn completion_method(at: int) -> Seq<char> {
    if signs_at(at) {
        "complete"@
    } else {
        "complete_observer"@
    }
}

/// Why a party's answer does not complete a job.
pub open spec fn completion_refusal(at: int, outcome: Result<Json, Seq<char>>) -> Option<Seq<char>> {
    match outcome {
        Err(e) => Some(e),
        Ok(value) => if signs_at(at) {
            unless(
                value.field("completed"@) == Some(Json::Bool(true)),
                "signing proof party did not durably complete the product proof"@,
            )
        } else {
            unless(
                value.field("observer_completed"@) == Some(Json::Bool(true)),
                "observer proof party did not durably close the product proof"@,
            )
        },
    }
}

/// The calls after asking the first `count` parties to complete a job.
pub open spec fn completions(
    before: Seq<Seq<Call>>,
    job_id: Seq<u8>,
    outcomes: Seq<Result<Json, Seq<char>>>,
    count: nat,
) -> Seq<Seq<Call>> {
    Seq::new(
        before.len(),
        |i: int|
            if i < count {
                before[i].push(
                    Call { method: completion_method(i), params: job_json(job_id), outcome: outcomes[i] },
                )
            } else {
                before[i]
            },
    )
}

/// What completing a product proof does: each of seven parties is told in turn, up to the
/// first that does not say that it closed the job.
pub open spec fn product_completed(
    before: Seq<Seq<Call>>,
    after: Seq<Seq<Call>>,
    job: Seq<u8>,
    r: Result<(), String>,
) -> bool {
    if before.len() != COMMITTEE_SIZE {
        &&& r matches Err(e) && e@ == "product proof completion requires exactly seven parties"@
        &&& after == before
    } else {
        exists|outcomes: Seq<Result<Json, Seq<char>>>|
            #![trigger completions(before, job, outcomes, outcomes.len())]
            after == completions(before, job, outcomes, outcomes.len()) && (forall|
                i: int,
            |
                0 <= i < outcomes.len() - 1 ==> completion_refusal(i, #[trigger] outcomes[i]) is None) && match r {
                Ok(_) => outcomes.len() == COMMITTEE_SIZE && completion_refusal(
                    outcomes.len() - 1,
                    outcomes.last(),
                ) is None,
                Err(e) => 0 < outcomes.len() <= COMMITTEE_SIZE && completion_refusal(
                    outcomes.len() - 1,
                    outcomes.last(),
                ) == Some(e@),
            }
    }
}

/// Durably closes one active proof job, after every authorization that depends
/// on its node-local commitments was issued. Only the signing quorum completes
/// it; every other party closes it as an observer.
#[verifier::loop_isolation(false)]
pub fn complete_product_proof<T: ProofPartyRpc>(parties: &mut Vec<T>, job_id: [u8; 32]) -> (r: Result<(), String>)
    ensures
        product_completed(told(old(parties)@), told(final(parties)@), job_id@, r),
{
    if parties.len() != COMMITTEE_SIZE {
        return Err("product proof completion requires exactly seven parties".to_owned());
    }
    let params = job_params(&job_id);
    let ghost start = told(parties@);
    let ghost mut outcomes: Seq<Result<Json, Seq<char>>> = Seq::empty();
    assert(start =~= completions(start, job_id@, outcomes, 0));
    let mut i: usize = 0;
    while i < COMMITTEE_SIZE
        invariant
            i <= COMMITTEE_SIZE,
            parties@.len() == COMMITTEE_SIZE,
            start.len() == COMMITTEE_SIZE,
            outcomes.len() == i,
            told(parties@) == completions(start, job_id@, outcomes, i as nat),
            forall|j: int| 0 <= j < i ==> completion_refusal(j, #[trigger] outcomes[j]) is None,
        decreases COMMITTEE_SIZE - i,
    {
        let signer = i == 0 || i == 3 || i == 6;
        let method = if signer {
            "complete"
        } else {
            "complete_observer"
        };
        let ghost before = told(parties@);
        let answer = ask_one(parties, i, method, &params);
        proof {
            let more = outcomes.push(answered(answer));
            assert(told(parties@) =~= completions(start, job_id@, more, (i + 1) as nat));
            outcomes = more;
            assert(told(parties@) == completions(start, job_id@, outcomes, outcomes.len()));
            assert(outcomes.last() == answered(answer));
        }
        let value = match answer {
            Err(e) => {
                return Err(e);
            },
            Ok(value) => value,
        };
        let demand = if signer {
            Demand::True("completed")
        } else {
            Demand::True("observer_completed")
        };
        if !check_demand(&value, demand) {
            if signer {
                return Err("signing proof party did not durably complete the product proof".to_owned());
            }
            return Err("observer proof party did not durably close the product proof".to_owned());
        }
        i = i + 1;
    }
    Ok(())
}

} // verus!
