//! A job from its loading to its end: which phase accepts which request, what each phase
//! changes, and what it leaves as it was.

use vstd::prelude::*;
use crate::coordinator::opening_refusal;
use crate::fields::{first, hex_in};
use crate::group::Point;
use crate::json::{array_in, json_document, text_in, unsigned_in, Json, Value};
use crate::oracle::fault;
use crate::party_laws::{names32, names_wire};
use crate::proof_authorize::{quote_binding_said, reserve_payment_said, QuoteBinding, ReservePayment};
use crate::proof_config::ProofPartyConfig;
use crate::proof_lifecycle::{takes, JobNodes};
use crate::proof_params::{
    context_refusal, members_refusal as statement_members_refusal, quote_public_refusal, registry_refusal,
    wires_refusal, QuoteStatement,
};
use crate::proof_quote_rounds::{
    kinds_said, members_refusal, quote_bind_request_refusal, quote_wire_check, quote_wire_refusal,
    quote_wires_refusal, wires_in, QuoteBindRequest, StatedQuote,
};
use crate::proof_rounds::{delivered_job, DvpCommitments, OpenedWire};
use crate::proof_settle::{with_action, ApplicationControlAuthorization, ApplicationStatementAuthorization};
use crate::proof_state::{signing_job_of, ProofParty};
use crate::quote_wire::decode_refusal;
use crate::text::{base64_bytes, hex_bytes};

verus! {

/// The job that a request names.
pub open spec fn asked_job(params: Json) -> Seq<u8> {
    hex_bytes(text_in(params.field("job_id"@))->0)
}

/// A node evaluates exactly for a loaded job whose witness was not bound yet; a delivery
/// only after the payment's statements, and a complete quote only on a circuit that fits.
pub proof fn evaluations_are_given_exactly<N, B, S, C: Fn(&ProofPartyConfig) -> Result<(), String>>(
    state: ProofParty<N, B, S>,
    params: Json,
    circuit: C,
)
    ensures
        ({
            let id = asked_job(params);
            let job = state.jobs.at(id);
            let loaded = names32(params.field("job_id"@)) && state.jobs.has(id);
            &&& state.job_refusal(params) is None <==> loaded
            &&& state.zkpi_evaluations_refusal(params) is None <==> loaded && job.zkpi.node is Some
            &&& state.limit_evaluations_refusal(params) is None <==> loaded && job.limit.node is Some
            &&& state.pool_remainder_evaluations_refusal(params) is None <==> loaded && job.pool_remainder.node is Some
            &&& state.dvp_evaluations_refusal(params) is None <==> loaded && job.zkpi_statements is Some
                && job.dvp.node is Some
            &&& state.quote_evaluations_refusal(params, circuit) is None <==> loaded && fault(circuit, state.config)
                is None && job.quote.node is Some
        }),
{
}

/// A first round is asked for of a loaded job; that of a limit under a context, that of a
/// delivery only where a quantity was committed to.
pub proof fn first_rounds_are_made_exactly<N, B, S, C: Fn(&ProofPartyConfig) -> Result<(), String>>(
    state: ProofParty<N, B, S>,
    params: Json,
    circuit: C,
)
    ensures
        ({
            let id = asked_job(params);
            let job = state.jobs.at(id);
            let loaded = names32(params.field("job_id"@)) && state.jobs.has(id);
            &&& state.zkpi_round1_refusal(params) is None <==> loaded
            &&& state.limit_round1_refusal(params) is None <==> loaded && names32(params.field("context"@))
            &&& state.pool_remainder_round1_refusal(params) is None <==> loaded
            &&& state.dvp_round1_refusal(params) is None <==> loaded && (job.dvp.secret is Some
                || job.quantity_commitment is Some)
            &&& state.quote_round1_refusal(params, circuit) is None <==> loaded && fault(circuit, state.config) is None
                && (job.quote.secret is Some || (job.quote_relations is Some && (job.quote.bound is None
                || job.quote_public is Some)))
        }),
{
}

/// A challenge is answered exactly where it opens as one of the loaded job and of the
/// proof it is asked for.
pub proof fn challenges_are_answered_exactly<
    N,
    B,
    S,
    O: Fn(&Vec<u8>) -> Result<OpenedWire, String>,
    C: Fn(&ProofPartyConfig) -> Result<(), String>,
>(state: ProofParty<N, B, S>, params: Json, open: O, circuit: C)
    ensures
        ({
            let id = asked_job(params);
            let wire = base64_bytes(text_in(params.field("challenge"@))->0)->0;
            let loaded = names32(params.field("job_id"@)) && state.jobs.has(id);
            let carried = names_wire(params.field("challenge"@));
            &&& state.zkpi_round2_refusal(params, open) is None <==> loaded && carried && opening_refusal(
                open,
                wire,
                id,
                "zkPI response received another job or message type"@,
            ) is None
            &&& state.limit_round2_refusal(params, open) is None <==> loaded && carried && opening_refusal(
                open,
                wire,
                id,
                "hidden-limit response received another job or message type"@,
            ) is None
            &&& state.pool_remainder_round2_refusal(params, open) is None <==> loaded && carried && opening_refusal(
                open,
                wire,
                id,
                "standing-pool remainder response received another job or message type"@,
            ) is None
            &&& state.dvp_round2_refusal(params, open) is None <==> loaded && carried && opening_refusal(
                open,
                wire,
                id,
                "DvP response received another job or message type"@,
            ) is None
            &&& state.quote_round2_refusal(params, circuit) is None <==> loaded && carried && quote_wire_refusal(
                wire,
                id,
                Some("challenge"@),
                "quote response received another job or message type"@,
            ) is None && fault(circuit, state.config) is None
        }),
{
}

/// A limit is bound in its own job alone, and binding it leaves the rest of the job.
pub proof fn bound_limit_changes_the_limit_alone<
    N,
    B,
    S,
    R,
    St,
    F: FnOnce(N, &St) -> Result<(B, R), String>,
>(
    before: ProofParty<N, B, S>,
    params: Value,
    made: Result<St, String>,
    act: F,
    after: ProofParty<N, B, S>,
    r: Result<R, String>,
)
    requires
        before.limit_bound(params, made, act, after, r),
    ensures
        made is Err || !before.jobs.has(hex_in(params@.field("job_id"@))) ==> r is Err && after == before,
        r is Ok ==> {
            let id = hex_in(params@.field("job_id"@));
            &&& after.jobs.has(id)
            &&& after.jobs.at(id).limit.bound is Some && after.jobs.at(id).limit.node is None
            &&& after.jobs.at(id).zkpi == before.jobs.at(id).zkpi
            &&& after.jobs.at(id).dvp == before.jobs.at(id).dvp
            &&& after.jobs.at(id).quote == before.jobs.at(id).quote
            &&& after.jobs.at(id).pool_remainder == before.jobs.at(id).pool_remainder
            &&& after.jobs.at(id).expected_quote_digest == before.jobs.at(id).expected_quote_digest
            &&& after.state_generation == before.state_generation
        },
{
}

/// A remainder is bound in its own job alone; the job keeps what the statement commits to,
/// and only where binding succeeded.
pub proof fn bound_remainder_keeps_its_commitment<
    N,
    B,
    S,
    R,
    St,
    F: FnOnce(N, &St) -> Result<(B, R), String>,
>(
    before: ProofParty<N, B, S>,
    params: Value,
    made: Result<(St, Point), String>,
    act: F,
    after: ProofParty<N, B, S>,
    r: Result<R, String>,
)
    requires
        before.pool_remainder_bound(params, made, act, after, r),
    ensures
        made is Err || !before.jobs.has(hex_in(params@.field("job_id"@))) ==> r is Err && after == before,
        r is Ok ==> {
            let id = hex_in(params@.field("job_id"@));
            &&& after.jobs.at(id).pool_remainder_commitment == Some((made->Ok_0).1)
            &&& after.jobs.at(id).pool_remainder.bound is Some
            &&& after.jobs.at(id).zkpi == before.jobs.at(id).zkpi
            &&& after.jobs.at(id).limit == before.jobs.at(id).limit
            &&& after.jobs.at(id).dvp == before.jobs.at(id).dvp
        },
        r is Err && made is Ok && before.jobs.has(hex_in(params@.field("job_id"@))) ==> after.jobs.at(
            hex_in(params@.field("job_id"@)),
        ).pool_remainder_commitment == before.jobs.at(hex_in(params@.field("job_id"@))).pool_remainder_commitment,
{
}

/// A delivery is stated of the payment that the job has bound, with the commitments of its
/// evaluations and the threshold of the committee; without a payment it is not.
pub proof fn delivery_is_of_the_bound_payment<
    N,
    B,
    S,
    R,
    St,
    G: Fn(&(Point, Point), &DvpCommitments, &Vec<Vec<u8>>, usize) -> Result<St, String>,
    F: FnOnce(N, &St) -> Result<(B, R), String>,
>(
    before: ProofParty<N, B, S>,
    params: Value,
    wires: Vec<Vec<u8>>,
    made: Result<DvpCommitments, String>,
    stating: G,
    act: F,
    after: ProofParty<N, B, S>,
    r: Result<R, String>,
)
    requires
        before.dvp_bound(params, wires, made, stating, act, after, r),
    ensures
        made is Err || !before.jobs.has(hex_in(params@.field("job_id"@))) ==> r is Err && after == before,
        r is Ok ==> {
            let id = hex_in(params@.field("job_id"@));
            let job = before.jobs.at(id);
            &&& job.zkpi_statements is Some
            &&& delivered_job(job, made->Ok_0, after.jobs.at(id))
            &&& after.jobs.at(id).dvp.bound is Some
            &&& exists|statement: St| #[trigger]
                call_ensures(
                    stating,
                    (&(job.zkpi_statements->0), &(made->Ok_0), &wires, before.config.threshold),
                    Ok::<St, String>(statement),
                )
        },
{
    if r is Ok {
        let id = hex_in(params@.field("job_id"@));
        let payment = before.jobs.at(id).zkpi_statements->0;
        let stated = choose|stated: Result<St, String>| #[trigger]
            call_ensures(stating, (&payment, &(made->Ok_0), &wires, before.config.threshold), stated)
                && before.delivery_bound(params, made->Ok_0, stated, act, after, r);
        assert(stated == Ok::<St, String>(stated->Ok_0));
    }
}

proof fn first_is_none<T>(values: Seq<T>, check: spec_fn(T) -> Option<Seq<char>>)
    ensures
        first(values, check) is None <==> forall|i: int| 0 <= i < values.len() ==> check(#[trigger] values[i]) is None,
    decreases values.len(),
{
    if values.len() > 0 {
        let fewer = values.drop_last();
        first_is_none(fewer, check);
        assert(forall|i: int| 0 <= i < fewer.len() ==> fewer[i] == #[trigger] values[i]);
        if first(values, check) is None {
            assert forall|i: int| 0 <= i < values.len() implies check(#[trigger] values[i]) is None by {
                if i < fewer.len() {
                    assert(check(fewer[i]) is None);
                }
            }
        } else if forall|i: int| 0 <= i < values.len() ==> check(#[trigger] values[i]) is None {
            assert forall|i: int| 0 <= i < fewer.len() implies check(#[trigger] fewer[i]) is None by {
                assert(check(values[i]) is None);
            }
            assert(check(values[values.len() - 1]) is None);
        }
    }
}

/// Quote messages are taken exactly where they are a list of bounded wires, each a message
/// of the job, and of the kind that is asked for where one is.
pub proof fn quote_wires_are_taken_exactly(
    params: Json,
    name: Seq<char>,
    job: Seq<u8>,
    kind: Option<Seq<char>>,
    complaint: Seq<char>,
)
    ensures
        quote_wires_refusal(params, name, job, kind, complaint) is None <==> {
            let values = array_in(params.field(name))->0;
            &&& wires_refusal(params, name) is None
            &&& forall|i: int|
                #![trigger values[i]]
                0 <= i < values.len() ==> {
                    let raw = base64_bytes(text_in(Some(values[i]))->0)->0;
                    &&& decode_refusal(raw) is None
                    &&& hex_in((json_document(raw)->0).field("job"@)) == job
                    &&& kind is Some ==> text_in((json_document(raw)->0).field("kind"@)) == kind
                }
        },
        quote_bind_request_refusal(params) is None <==> names32(params.field("job_id"@)) && quote_wires_refusal(
            params,
            "evaluations"@,
            asked_job(params),
            Some("evaluations"@),
            "quote bind received another job or message type"@,
        ) is None && quote_public_refusal(params) is None,
{
    let values = array_in(params.field(name))->0;
    let wires = wires_in(params, name);
    let check = quote_wire_check(job, kind, complaint);
    first_is_none(wires, check);
    assert forall|i: int| #![trigger values[i]] 0 <= i < values.len() implies (check(wires[i]) is None <==> {
        let raw = base64_bytes(text_in(Some(values[i]))->0)->0;
        &&& decode_refusal(raw) is None
        &&& hex_in((json_document(raw)->0).field("job"@)) == job
        &&& kind is Some ==> text_in((json_document(raw)->0).field("kind"@)) == kind
    }) by {
        assert(wires[i] == base64_bytes(text_in(Some(values[i]))->0)->0);
    }
    if first(wires, check) is None {
        assert forall|i: int| #![trigger values[i]] 0 <= i < values.len() implies check(wires[i]) is None by {}
    } else {
        let i = choose|i: int| 0 <= i < wires.len() && check(#[trigger] wires[i]) is Some;
        let value = values[i];
    }
}

/// A public statement is read exactly where it is an object with a registry, a direction
/// of a byte, an asset of thirty-two bits, its members, a winner with a value, and a
/// context.
pub proof fn public_statement_is_read_exactly(params: Json)
    ensures
        quote_public_refusal(params) is None ==> {
            let body = params.field("public"@)->0;
            &&& params.field("public"@) is Some && body is Object
            &&& registry_refusal(body) is None
            &&& unsigned_in(body.field("direction"@)) is Some && unsigned_in(body.field("direction"@))->0 <= 0xff
            &&& unsigned_in(body.field("asset"@)) is Some && unsigned_in(body.field("asset"@))->0 <= 0xffff_ffff
            &&& statement_members_refusal(body) is None
            &&& unsigned_in(body.field("winner_index"@)) is Some
            &&& unsigned_in(body.field("winner_value"@)) is Some
            &&& context_refusal(params) is None
        },
{
}

/// A quote is bound only where its statement was made, its winner is registered and its
/// job is loaded; the winner's policy digest is that of the very statement.
pub proof fn bound_quote_is_of_a_registered_winner<
    N,
    B,
    S,
    R,
    St,
    P: Fn(&QuoteStatement) -> [u8; 32],
    F: FnOnce(N, &StatedQuote<St>) -> Result<(B, R), String>,
>(
    before: ProofParty<N, B, S>,
    request: QuoteBindRequest,
    made: Result<St, String>,
    policy: P,
    act: F,
    after: ProofParty<N, B, S>,
    r: Result<R, String>,
)
    requires
        before.quote_bind_outcome(request, made, policy, act, after, r),
    ensures
        r is Ok ==> {
            &&& made is Ok
            &&& request.statement.winner_index < request.statement.public.registry@.len()
            &&& before.jobs.has(request.id@)
            &&& exists|digest: [u8; 32]| #[trigger]
                call_ensures(policy, (&request.statement,), digest) && before.quote_bound(
                    (StatedQuote { statement: made->Ok_0, request }),
                    digest,
                    act,
                    after,
                    r,
                )
        },
        made is Err || request.statement.winner_index >= request.statement.public.registry@.len()
            || !before.jobs.has(request.id@) ==> r is Err && after == before,
{
}

/// The relations of a quote are bound only after its base statement and its public one, on
/// a circuit that fits, and by messages of the job.
pub proof fn quote_relations_follow_the_statement<N, B, S, C: Fn(&ProofPartyConfig) -> Result<(), String>>(
    state: ProofParty<N, B, S>,
    params: Json,
    circuit: C,
)
    ensures
        state.quote_relation_refusal(params, circuit) is None <==> {
            let job = state.jobs.at(asked_job(params));
            &&& names32(params.field("job_id"@))
            &&& quote_wires_refusal(
                params,
                "evaluations"@,
                asked_job(params),
                Some("relations"@),
                "quote relation bind received another job or message type"@,
            ) is None
            &&& fault(circuit, state.config) is None
            &&& state.jobs.has(asked_job(params))
            &&& job.quote.bound is Some && job.quote_public is Some
        },
{
}

/// A quote is made final once, of a bound statement, its relations and its public part, on
/// a circuit that fits.
pub proof fn quote_is_final_once<N, B, S, C: Fn(&ProofPartyConfig) -> Result<(), String>>(
    state: ProofParty<N, B, S>,
    id: Seq<u8>,
    circuit: C,
)
    ensures
        state.finalize_refusal(id, circuit) is None <==> {
            &&& fault(circuit, state.config) is None
            &&& state.jobs.has(id)
            &&& !state.jobs.at(id).quote_verified
            &&& state.jobs.at(id).quote_public is Some
            &&& state.jobs.at(id).quote.bound is Some
            &&& state.jobs.at(id).quote_relations is Some
        },
{
}

/// What makes a quote final are first rounds, seals and answers, each of its kind and of
/// the job, and a quorum of the committee.
pub proof fn quote_is_final_of_its_rounds<N, B, S>(state: ProofParty<N, B, S>, params: Json)
    ensures
        state.finalize_request_refusal(params) is None <==> {
            let id = asked_job(params);
            &&& names32(params.field("job_id"@))
            &&& quote_wires_refusal(params, "rounds"@, id, None, "rounds"@ + " contains another quote job"@) is None
            &&& kinds_said(params, "rounds"@, "round1"@)
            &&& quote_wires_refusal(params, "seals"@, id, None, "seals"@ + " contains another quote job"@) is None
            &&& kinds_said(params, "seals"@, "round1-seal"@)
            &&& quote_wires_refusal(params, "responses"@, id, None, "responses"@ + " contains another quote job"@)
                is None
            &&& kinds_said(params, "responses"@, "round2"@)
            &&& members_refusal(params, state.config.n_parties as nat) is None
        },
{
}

/// A binding to a quote is read under the kind that the request names: a packed key as it
/// stands, or a digest of thirty-two bytes.
pub proof fn quote_binding_is_read_under_its_kind(params: Json, binding: QuoteBinding)
    requires
        quote_binding_said(params, binding),
    ensures
        binding matches QuoteBinding::LegacyPackedKey(key) ==> text_in(params.field("quote_kind"@)) == Some(
            "legacy"@,
        ) && unsigned_in(params.field("quote_key"@)) == Some(key as nat),
        binding matches QuoteBinding::ProofDigest(digest) ==> text_in(params.field("quote_kind"@)) == Some("proof"@)
            && digest@ == hex_bytes(text_in(params.field("quote_digest"@))->0),
{
}

/// A reserve payment is read member by member.
pub proof fn reserve_payment_is_read_as_written(params: Json, payment: ReservePayment)
    requires
        reserve_payment_said(params, payment),
    ensures
        payment.amount_commitment@ == hex_bytes(text_in(params.field("amount_commitment"@))->0),
        payment.price_commitment@ == hex_bytes(text_in(params.field("price_commitment"@))->0),
        payment.asset_commitment@ == hex_bytes(text_in(params.field("asset_commitment"@))->0),
        payment.payer_handle@ == hex_bytes(text_in(params.field("payer_handle"@))->0),
        payment.payee_handle@ == hex_bytes(text_in(params.field("payee_handle"@))->0),
        unsigned_in(params.field("deadline"@)) == Some(payment.deadline as nat),
        payment.nonce@ == hex_bytes(text_in(params.field("nonce"@))->0),
        quote_binding_said(params, payment.quote_binding),
{
}

/// A reserve payment is authorized only for the message that its own fields make.
pub proof fn reserve_payment_signs_its_own_fields<
    N,
    B,
    S,
    W: Fn(&ProofParty<N, B, S>, u64) -> Result<(), String>,
>(
    before: ProofParty<N, B, S>,
    payment: ReservePayment,
    expected: Seq<u8>,
    write: W,
    after: ProofParty<N, B, S>,
    outcome: Result<(), Seq<char>>,
)
    requires
        before.reserve_authorized(payment, expected, write, after, outcome),
    ensures
        payment.signing.message@ != expected ==> outcome is Err && after == before,
        outcome is Ok ==> payment.signing.message@ == expected && before.authorizes(
            payment.signing.signing_job@,
            expected,
            write,
            after,
            outcome,
        ),
{
}

/// A job is loaded only of a file within its bound, and only of a handoff of this very
/// party; it is told only when the state that holds it is on disk.
pub proof fn loaded_job_is_durable<
    N,
    B,
    S,
    G: FnOnce(&ProofPartyConfig, &str, &Vec<u8>) -> Result<JobNodes<N>, String>,
    W: Fn(&ProofParty<N, B, S>, u64) -> Result<(), String>,
>(
    before: ProofParty<N, B, S>,
    params: Json,
    raw: Result<Vec<u8>, String>,
    take: G,
    write: W,
    after: ProofParty<N, B, S>,
    r: Result<(), String>,
)
    requires
        before.load_read(params, raw, take, write, after, r),
    ensures
        raw is Err ==> r is Err && after == before,
        r is Ok ==> {
            let id = asked_job(params);
            &&& raw is Ok && (raw->Ok_0)@.len() <= 0x400_0000
            &&& after.jobs.has(id) && after.reserved.has(id)
            &&& after.state_generation == before.state_generation + 1
            &&& exists|nodes: JobNodes<N>| #[trigger]
                takes(
                    take,
                    before.config,
                    text_in(params.field("persistence"@))->0,
                    raw->Ok_0,
                    Ok::<JobNodes<N>, String>(nodes),
                ) && nodes.of_party(before.config.node + 1, before.config.complete_quote_proof) && before.fresh_job(
                    after.jobs.at(id),
                    hex_bytes(text_in(params.field("quote_digest"@))->0),
                    (raw->Ok_0)@,
                    nodes,
                )
        },
{
    if r is Ok {
        let bytes = raw->Ok_0;
        let taken = choose|taken: Result<JobNodes<N>, String>| #[trigger]
            takes(take, before.config, text_in(params.field("persistence"@))->0, bytes, taken) && before.load_taken(
                params,
                bytes@,
                taken,
                write,
                after,
                r,
            );
        assert(taken == Ok::<JobNodes<N>, String>(taken->Ok_0));
    }
}

/// A statement of the application is bound to its proof before the message that states it
/// is authorized, and neither happens where it may not be.
pub proof fn statement_is_bound_before_it_is_signed<
    N,
    B,
    S,
    W: Fn(&ProofParty<N, B, S>, u64) -> Result<(), String>,
>(
    before: ProofParty<N, B, S>,
    id: Seq<u8>,
    authorized: ApplicationStatementAuthorization,
    write: W,
    after: ProofParty<N, B, S>,
    outcome: Result<(), Seq<char>>,
)
    requires
        before.statement_bound(id, authorized, write, after, outcome),
    ensures
        before.statement_refusal(id, authorized) is Some ==> outcome is Err && after == before,
        before.statement_refusal(id, authorized) is None ==> exists|middle: ProofParty<N, B, S>| #[trigger]
            middle.authorizes(signing_job_of(authorized.message@), authorized.message@, write, after, outcome)
                && middle.completed_evidence.has(id) && middle.completed_evidence.at(id).application_action_digest
                == Some(authorized.action_digest) && middle.completed_evidence.at(id).payment_digest
                == before.completed_evidence.at(id).payment_digest && middle.jobs == before.jobs,
{
    if before.statement_refusal(id, authorized) is None {
        let middle = choose|middle: ProofParty<N, B, S>| #[trigger]
            before.evidence_changed(
                id,
                with_action(before.completed_evidence.at(id), authorized.action_digest),
                middle,
            ) && middle.authorizes(
                signing_job_of(authorized.message@),
                authorized.message@,
                write,
                after,
                outcome,
            );
        assert(middle.authorizes(
            signing_job_of(authorized.message@),
            authorized.message@,
            write,
            after,
            outcome,
        ));
    }
}

/// A control of the application is kept before its message is authorized, and neither
/// happens where it may not be.
pub proof fn control_is_kept_before_it_is_signed<
    N,
    B,
    S,
    W: Fn(&ProofParty<N, B, S>, u64) -> Result<(), String>,
>(
    before: ProofParty<N, B, S>,
    authorized: ApplicationControlAuthorization,
    write: W,
    after: ProofParty<N, B, S>,
    outcome: Result<(), Seq<char>>,
)
    requires
        before.control_bound(authorized, write, after, outcome),
    ensures
        before.control_refusal(authorized) is Some ==> outcome is Err && after == before,
        before.control_refusal(authorized) is None ==> exists|middle: ProofParty<N, B, S>| #[trigger]
            middle.authorizes(signing_job_of(authorized.message@), authorized.message@, write, after, outcome)
                && before.controlled(authorized, middle),
{
    if before.control_refusal(authorized) is None {
        let middle = choose|middle: ProofParty<N, B, S>| #[trigger]
            before.controlled(authorized, middle) && middle.authorizes(
                signing_job_of(authorized.message@),
                authorized.message@,
                write,
                after,
                outcome,
            );
        assert(middle.authorizes(
            signing_job_of(authorized.message@),
            authorized.message@,
            write,
            after,
            outcome,
        ));
    }
}

/// A publication is used once it is signed, and nothing else changes.
pub proof fn publication_is_used_once<N, B, S>(
    before: ProofParty<N, B, S>,
    operation_id: Seq<u8>,
    after: ProofParty<N, B, S>,
)
    requires
        before.published(operation_id, after),
    ensures
        after.publication_consumed.has(operation_id),
        forall|other: Seq<u8>|
            other != operation_id ==> #[trigger] after.publication_consumed.has(other)
                == before.publication_consumed.has(other),
        after.jobs == before.jobs,
        after.frost_key == before.frost_key,
        after.completed_evidence == before.completed_evidence,
        after.state_generation == before.state_generation,
{
}

} // verus!
