//! What holds of the rounds of a proof: each witness is bound once, to the statement of the
//! whole committee, and each secret answers once.

use vstd::prelude::*;
use crate::bytes::zero32;
use crate::committee_proof::all_open;
use crate::coordinator::opening_refusal;
use crate::fields::{first, hex_in};
use crate::group::Point;
use crate::json::{array_in, signed_in, text_in, unsigned_in, Json, Value};
use crate::party_laws::{names_point, names_wire};
use crate::proof_config::RecipientOpeningKey;
use crate::proof_params::{
    element_check, element_refusal, policy_said, statement_said, wire_in, wires_refusal, QuoteStatement,
};
use crate::proof_quote_rounds::{enrolled, enrolled_key, is_member, members_refusal, OpeningClaim, StatedQuote};
use crate::proof_rounds::{
    committee_handles_refusal, delivered_job, evaluated, handle_is, handle_party, handle_refusal, handles_refusal,
    opened_refusal, DvpCommitments, HandleEvaluation, OpenedWire,
};
use crate::proof_state::{ProofJob, ProofParty};
use crate::rounds::{bind_done, round1_done, round2_done, Rounds};
use crate::sharing::{point_sum, point_times};

verus! {

/// A witness is bound once: after it was bound, or failed to be, binding fails again, and
/// binding neither makes nor uses a secret.
pub proof fn witness_is_bound_once<N, B, S, R, Q, F: FnOnce(N, &Q) -> Result<(B, R), String>>(
    before: Rounds<N, B, S>,
    name: Seq<char>,
    asked: Q,
    act: F,
    middle: Rounds<N, B, S>,
    outcome: Result<R, String>,
    other: Q,
    again: F,
    after: Rounds<N, B, S>,
    second: Result<R, String>,
)
    requires
        bind_done(before, name, asked, act, middle, outcome),
        bind_done(middle, name, other, again, after, second),
    ensures
        outcome is Ok ==> before.node is Some && middle.bound is Some && call_ensures(
            act,
            (before.node->0, &asked),
            Ok::<(B, R), String>((middle.bound->0, outcome->Ok_0)),
        ),
        outcome is Err ==> middle.bound == before.bound,
        middle.node is None,
        middle.secret == before.secret,
        second is Err,
        after.bound == middle.bound,
{
}

/// A first round is made of the bound witness, once until it is answered, and keeps the secret
/// that its answer needs.
pub proof fn first_round_is_made_once<N, B, S, R, Q, F: FnOnce(&B, &Q) -> Result<(S, R), String>>(
    before: Rounds<N, B, S>,
    name: Seq<char>,
    asked: Q,
    act: F,
    middle: Rounds<N, B, S>,
    reply: R,
    other: Q,
    again: F,
    after: Rounds<N, B, S>,
    second: Result<R, String>,
)
    requires
        round1_done(before, name, asked, act, middle, Ok(reply)),
        round1_done(middle, name, other, again, after, second),
    ensures
        before.secret is None,
        before.bound is Some,
        middle.secret is Some,
        call_ensures(act, (&(before.bound->0), &asked), Ok::<(S, R), String>((middle.secret->0, reply))),
        middle.bound == before.bound,
        second is Err,
        after == middle,
{
    assert(after.node == middle.node);
}

/// A challenge is answered with the secret of the first round, which is gone whether or not
/// the answer succeeded: there is no second answer.
pub proof fn secret_answers_once<N, B, S, R, Q, F: FnOnce(&B, S, &Q) -> Result<R, String>>(
    before: Rounds<N, B, S>,
    name: Seq<char>,
    asked: Q,
    act: F,
    middle: Rounds<N, B, S>,
    outcome: Result<R, String>,
    other: Q,
    again: F,
    after: Rounds<N, B, S>,
    second: Result<R, String>,
)
    requires
        round2_done(before, name, asked, act, middle, outcome),
        round2_done(middle, name, other, again, after, second),
    ensures
        outcome is Ok ==> before.secret is Some && before.bound is Some && call_ensures(
            act,
            (&(before.bound->0), before.secret->0, &asked),
            outcome,
        ),
        middle.secret is None,
        middle.bound == before.bound,
        second is Err,
{
}

/// Evaluations are taken from the request as it carries them, and only when every one of them
/// opens as one of the job.
pub proof fn evaluations_are_all_of_the_job<
    X,
    O: Fn(&Vec<u8>) -> Result<OpenedWire, String>,
    M: Fn(&Vec<Vec<u8>>, usize) -> Result<X, String>,
>(
    params: Json,
    job: Seq<u8>,
    complaint: Seq<char>,
    open: O,
    make: M,
    threshold: usize,
    wires: Vec<Vec<u8>>,
    made: X,
    at: int,
)
    requires
        evaluated(params, job, complaint, open, make, threshold, wires, Ok(made)),
        0 <= at < wires@.len(),
    ensures
        wires@.len() == (array_in(params.field("evaluations"@))->0).len(),
        wires@[at]@ == wire_in(Some((array_in(params.field("evaluations"@))->0)[at])),
        opening_refusal(open, wires@[at]@, job, complaint) is None,
        call_ensures(make, (&wires, threshold), Ok::<X, String>(made)),
{
    none_objected(open, wires@, job, complaint, at);
}

proof fn none_objected<O: Fn(&Vec<u8>) -> Result<OpenedWire, String>>(
    open: O,
    wires: Seq<Vec<u8>>,
    job: Seq<u8>,
    complaint: Seq<char>,
    at: int,
)
    requires
        all_open(open, wires, job, complaint) is None,
        0 <= at < wires.len(),
    ensures
        opening_refusal(open, wires[at]@, job, complaint) is None,
    decreases wires.len(),
{
    let check = |w: Vec<u8>| opening_refusal(open, w@, job, complaint);
    if at < wires.len() - 1 {
        assert(all_open(open, wires.drop_last(), job, complaint) is None);
        none_objected(open, wires.drop_last(), job, complaint, at);
    }
}

/// A wire is taken exactly if it opens, names the job and is of the kind that is expected.
pub proof fn wire_is_of_the_job_and_kind(opened: Result<OpenedWire, String>, job: Seq<u8>, complaint: Seq<char>)
    ensures
        opened_refusal(opened, job, complaint) is None <==> opened is Ok && (opened->Ok_0).job_id@ == job
            && (opened->Ok_0).expected,
{
}

/// Wires are taken exactly as a list of one or more, each within its bound.
pub proof fn wires_are_a_bounded_list(params: Json, name: Seq<char>, at: int)
    requires
        wires_refusal(params, name) is None,
    ensures
        array_in(params.field(name)) is Some,
        0 < (array_in(params.field(name))->0).len() <= 64,
        0 <= at < (array_in(params.field(name))->0).len() ==> names_wire(Some((array_in(params.field(name))->0)[at])),
{
    let values = array_in(params.field(name))->0;
    if 0 <= at < values.len() {
        element_in_bound(values, name, at);
    }
}

proof fn element_in_bound(values: Seq<Json>, name: Seq<char>, at: int)
    requires
        first(values, element_check(name)) is None,
        0 <= at < values.len(),
    ensures
        names_wire(Some(values[at])),
    decreases values.len(),
{
    if at < values.len() - 1 {
        element_in_bound(values.drop_last(), name, at);
    } else {
        assert(element_refusal(values[at], name) is None);
    }
}

/// The evaluations of the winning Maker's handle come from every party of the committee,
/// once each, as canonical points.
pub proof fn handle_is_evaluated_by_all(params: Json, parties: nat, i: int, j: int)
    requires
        committee_handles_refusal(params, parties) is None,
    ensures
        array_in(params.field("maker_handle_evaluations"@)) is Some,
        ({
            let entries = array_in(params.field("maker_handle_evaluations"@))->0;
            &&& entries.len() == parties
            &&& 0 <= i < parties ==> {
                &&& unsigned_in(entries[i].field("party"@)) is Some
                &&& 1 <= unsigned_in(entries[i].field("party"@))->0 <= parties
                &&& names_point(entries[i].field("point"@))
            }
            &&& 0 <= i < j < parties ==> unsigned_in(entries[i].field("party"@)) != unsigned_in(
                entries[j].field("party"@),
            )
        }),
{
    let entries = array_in(params.field("maker_handle_evaluations"@))->0;
    if 0 <= i < parties {
        handle_in_place(entries, parties, entries.len(), i);
    }
    if 0 <= i < j < parties {
        handle_in_place(entries, parties, entries.len(), j);
        assert(handle_party(entries[i]) != handle_party(entries[j]));
    }
}

proof fn handle_in_place(entries: Seq<Json>, parties: nat, count: nat, at: int)
    requires
        handles_refusal(entries, parties, count) is None,
        0 <= at < count <= entries.len(),
    ensures
        handle_refusal(entries, at, parties) is None,
    decreases count,
{
    if at < count - 1 {
        handle_in_place(entries, parties, (count - 1) as nat, at);
    }
}

/// A payment's witness is bound only with a winning Maker that is somebody, and only if this
/// node's own evaluation of the handle is among the ones that were sent.
pub proof fn handle_is_bound_with_the_own_evaluation<N, B, S>(
    party: ProofParty<N, B, S>,
    id: Seq<u8>,
    values: Seq<HandleEvaluation>,
    selected: Result<Option<Point>, String>,
    g: Point,
)
    ensures
        party.zkpi_bind_refusal(id, values, selected, g) is None <==> {
            &&& selected is Ok
            &&& selected->Ok_0 is Some
            &&& (selected->Ok_0->0)@ != zero32()
            &&& party.jobs.has(id)
            &&& exists|i: int|
                0 <= i < values.len() && (#[trigger] values[i]).party == party.config.node + 1 && values[i].point@
                    == point_times(g@, party.jobs.at(id).maker_handle_share@)
        },
{
    let own = point_times(g@, party.jobs.at(id).maker_handle_share@);
    if handle_is(values, (party.config.node + 1) as nat, own) {
        let i = choose|i: int|
            0 <= i < values.len() && (#[trigger] values[i]).party == (party.config.node + 1) as nat && values[i].point@
                == own;
        assert(values[i].party == party.config.node + 1);
    }
}

/// A job whose payment is bound keeps the committed amount and price and the winning Maker.
pub proof fn bound_payment_is_kept<N, B, S, R, St, F: FnOnce(N, &St) -> Result<(B, R), String>>(
    party: ProofParty<N, B, S>,
    params: Value,
    statement: St,
    commitments: (Point, Point),
    values: Seq<HandleEvaluation>,
    selected: Result<Option<Point>, String>,
    g: Point,
    act: F,
    later: ProofParty<N, B, S>,
    reply: R,
)
    requires
        party.handle_bound(params, statement, commitments, values, selected, g, act, later, Ok(reply)),
    ensures
        ({
            let id = hex_in(params@.field("job_id"@));
            let before = party.jobs.at(id);
            let after = later.jobs.at(id);
            &&& after.zkpi_statements == Some(commitments)
            &&& after.selected_maker_handle == selected->Ok_0
            &&& after.zkpi.bound is Some && after.zkpi.node is None
            &&& after.dvp == before.dvp && after.limit == before.limit && after.quote == before.quote
            &&& after.pool_remainder == before.pool_remainder
            &&& after.expected_quote_digest == before.expected_quote_digest
            &&& after.authorized_payment_digest == before.authorized_payment_digest
        }),
{
}

/// A job whose delivery is bound has the payment's amount as its quantity, the committed cash
/// and remainders, and reserves what is delivered with what remains of the same side.
pub proof fn delivery_reserves_what_it_moves<N, B, S>(
    job: ProofJob<N, B, S>,
    commitments: DvpCommitments,
    after: ProofJob<N, B, S>,
)
    requires
        delivered_job(job, commitments, after),
    ensures
        after.quantity_commitment == Some((job.zkpi_statements->0).0),
        after.cash_commitment == Some(commitments.cash),
        after.securities_remainder == Some(commitments.securities_remainder),
        after.cash_remainder == Some(commitments.cash_remainder),
        after.securities_reserve is Some,
        (after.securities_reserve->0)@ == point_sum(
            (after.quantity_commitment->0)@,
            (after.securities_remainder->0)@,
        ),
        after.cash_reserve is Some,
        (after.cash_reserve->0)@ == point_sum((after.cash_commitment->0)@, (after.cash_remainder->0)@),
        after.zkpi == job.zkpi && after.limit == job.limit && after.quote == job.quote,
        after.pool_remainder == job.pool_remainder,
        after.authorized_payment_digest == job.authorized_payment_digest,
        after.opening_shares == job.opening_shares,
{
}

/// A quote that is bound keeps its public statement and the digest of the winner's policy.
pub proof fn bound_quote_keeps_its_statement<
    N,
    B,
    S,
    R,
    St,
    F: FnOnce(N, &StatedQuote<St>) -> Result<(B, R), String>,
>(
    party: ProofParty<N, B, S>,
    stated: StatedQuote<St>,
    digest: [u8; 32],
    act: F,
    later: ProofParty<N, B, S>,
    reply: R,
)
    requires
        party.quote_bound(stated, digest, act, later, Ok(reply)),
    ensures
        ({
            let before = party.jobs.at(stated.request.id@);
            let after = later.jobs.at(stated.request.id@);
            &&& after.quote_public == Some(stated.request.statement)
            &&& after.winning_policy_digest == Some(digest)
            &&& after.quote.bound is Some && after.quote.node is None
            &&& after.quote_relations == before.quote_relations
            &&& after.quote_verified == before.quote_verified
            &&& after.zkpi == before.zkpi && after.dvp == before.dvp
        }),
{
}

/// A quorum is read exactly as a list of parties of the committee.
pub proof fn quorum_is_of_the_committee(params: Json, parties: nat)
    ensures
        members_refusal(params, parties) is None <==> {
            let values = array_in(params.field("quorum"@));
            &&& values is Some
            &&& forall|i: int|
                0 <= i < (values->0).len() ==> unsigned_in(Some(#[trigger] (values->0)[i])) is Some && 1
                    <= unsigned_in(Some((values->0)[i]))->0 <= parties
        },
{
    if let Some(values) = array_in(params.field("quorum"@)) {
        if members_refusal(params, parties) is None {
            assert forall|i: int| 0 <= i < values.len() implies unsigned_in(Some(#[trigger] values[i])) is Some && 1
                <= unsigned_in(Some(values[i]))->0 <= parties by {
                assert(is_member(values[i], parties));
            }
        }
    }
}

/// The key that an opening is encrypted to is the first that was enrolled for its recipient.
pub proof fn opening_is_for_the_enrolled_key(
    recipients: Seq<RecipientOpeningKey>,
    view: Seq<u8>,
    key: Seq<u8>,
    at: int,
)
    requires
        enrolled_key(recipients, view, key),
        0 <= at < recipients.len(),
        recipients[at].view@ == view,
        forall|i: int| 0 <= i < at ==> (#[trigger] recipients[i]).view@ != view,
    ensures
        key == recipients[at].public@,
        enrolled(recipients, view),
{
    let i = choose|i: int|
        0 <= i < recipients.len() && (#[trigger] recipients[i]).view@ == view && recipients[i].public@ == key && forall|
            j: int,
        |
            0 <= j < i ==> (#[trigger] recipients[j]).view@ != view;
    if i < at {
        assert(recipients[i].view@ != view);
    } else if at < i {
        assert(recipients[at].view@ != view);
    }
}

/// What is encrypted for a claim is this node's share, of the leg and job that were asked for,
/// to the recipient that was asked for under its enrolled key.
pub proof fn claim_is_the_nodes_own_share<N, B, S, X>(
    party: ProofParty<N, B, S>,
    params: Json,
    share: X,
    claim: OpeningClaim<X>,
)
    requires
        party.claim_said(params, share, claim),
    ensures
        claim.id@ == hex_in(params.field("job_id"@)),
        claim.party == party.config.node + 1,
        claim.share == share,
        claim.recipient_view@ == hex_in(params.field("recipient_view"@)),
        enrolled_key(party.config.recipient_opening_keys@, claim.recipient_view@, claim.recipient_public@),
        text_in(params.field("leg"@))->0 == claim.leg.name(),
{
}

/// The public statement of a quote is read field by field as the request writes it.
pub proof fn quote_statement_is_read_as_written(params: Json, statement: QuoteStatement, at: int)
    requires
        statement_said(params, statement),
    ensures
        ({
            let body = params.field("public"@)->0;
            let public = statement.public;
            let registry = array_in(body.field("registry"@))->0;
            &&& public.registry@.len() == registry.len()
            &&& unsigned_in(body.field("direction"@)) == Some(public.direction as nat)
            &&& unsigned_in(body.field("asset"@)) == Some(public.asset as nat)
            &&& public.qty_commitment@ == hex_in(body.field("qty_commitment"@))
            &&& signed_in(body.field("now"@)) == Some(public.now as int)
            &&& signed_in(body.field("sentinel"@)) == Some(public.sentinel as int)
            &&& signed_in(body.field("n_slots"@)) == Some(public.n_slots as int)
            &&& signed_in(body.field("reference_price"@)) == Some(public.reference_price as int)
            &&& public.registry_digest@ == hex_in(body.field("registry_digest"@))
            &&& public.market_digest@ == hex_in(body.field("market_digest"@))
            &&& unsigned_in(body.field("slot"@)) == Some(public.slot as nat)
            &&& unsigned_in(body.field("winner_index"@)) == Some(statement.winner_index as nat)
            &&& unsigned_in(body.field("winner_value"@)) == Some(statement.winner_value as nat)
            &&& statement.context@ == wire_in(params.field("quote_context"@))
            &&& 0 <= at < registry.len() ==> {
                let policy = public.registry@[at];
                let entry = registry[at];
                &&& unsigned_in(entry.field("maker_asset"@)) == Some(policy.maker_asset as nat)
                &&& policy.ask_level@ == hex_in(entry.field("ask_level"@))
                &&& policy.spread@ == hex_in(entry.field("spread"@))
                &&& policy.slope@ == hex_in(entry.field("slope"@))
                &&& policy.invcoef@ == hex_in(entry.field("invcoef"@))
                &&& policy.inv@ == hex_in(entry.field("inv"@))
                &&& policy.maxqty@ == hex_in(entry.field("maxqty"@))
                &&& policy.expiry@ == hex_in(entry.field("expiry"@))
                &&& policy.active@ == hex_in(entry.field("active"@))
                &&& policy.use_ref@ == hex_in(entry.field("use_ref"@))
            }
        }),
{
    let registry = array_in((params.field("public"@)->0).field("registry"@))->0;
    if 0 <= at < registry.len() {
        assert(policy_said(registry[at], statement.public.registry@[at]));
    }
}

} // verus!
