//! The public proof rounds of a job on one node.
//!
//! Each round takes what was read off the wires and the proof arithmetic to do,
//! and says what becomes of the job.

use vstd::prelude::*;
use crate::bytes::{is_zero32, same32, zero32};
use crate::fields::{either, hex_in, unless};
use crate::group::Point;
use crate::json::{array_in, as_array, as_unsigned, unsigned_in, Json, Value};
use crate::committee_proof::{all_open, open_all};
use crate::coordinator::{open_wire, opening_refusal, opens};
use crate::oracle::{attempt, fault, tries};
use crate::proof_config::ProofPartyConfig;
use crate::proof_mandate::{refused, told};
use crate::proof_params::{
    canonical_point_refusal, decode_wires, hex32, hex32_refusal, job_id, job_id_refusal, one_wire, one_wire_refusal,
    point, wire_in, wires_refusal,
};
use crate::proof_settle::job_change_keeps_lifecycle;
use crate::proof_state::{ProofJob, ProofParty};
use crate::rounds::{bind_done, round1_done, round2_done};
use crate::sharing::{add_points, multiply_point, point_sum, point_times};

verus! {

/// What was read off a wire: the job it names and whether it is of the kind that
/// the round takes.
#[derive(Clone, Copy, Debug)]
pub struct OpenedWire {
    pub job_id: [u8; 32],
    pub expected: bool,
}

/// Why a wire is not one of a round.
pub open spec fn opened_refusal(opened: Result<OpenedWire, String>, job: Seq<u8>, complaint: Seq<char>) -> Option<
    Seq<char>,
> {
    match opened {
        Err(e) => Some(e@),
        Ok(wire) => unless(wire.job_id@ == job && wire.expected, complaint),
    }
}

/// Refuses a wire of another job or kind.
pub fn check_opened(opened: &Result<OpenedWire, String>, job: &[u8; 32], complaint: &str) -> (r: Result<(), String>)
    ensures
        match r {
            Ok(_) => opened_refusal(*opened, job@, complaint@) is None,
            Err(e) => opened_refusal(*opened, job@, complaint@) == Some(e@),
        },
{
    match opened {
        Err(e) => Err(told(e)),
        Ok(wire) => if same32(&wire.job_id, job) && wire.expected {
            Ok(())
        } else {
            Err(complaint.to_owned())
        },
    }
}

/// Why a request to bind a witness is refused before its wires are opened.
pub open spec fn bind_request_refusal(params: Json) -> Option<Seq<char>> {
    either(job_id_refusal(params), wires_refusal(params, "evaluations"@))
}

/// What comes of the evaluations that a request carries: the refusal of the first that
/// is of another job or kind, or what `make` makes of them at a threshold.
pub open spec fn evaluated<
    X,
    O: Fn(&Vec<u8>) -> Result<OpenedWire, String>,
    M: Fn(&Vec<Vec<u8>>, usize) -> Result<X, String>,
>(
    params: Json,
    job: Seq<u8>,
    complaint: Seq<char>,
    open: O,
    make: M,
    threshold: usize,
    wires: Vec<Vec<u8>>,
    made: Result<X, String>,
) -> bool {
    let values = array_in(params.field("evaluations"@))->0;
    &&& wires@.len() == values.len()
    &&& forall|i: int| 0 <= i < wires@.len() ==> (#[trigger] wires@[i])@ == wire_in(Some(values[i]))
    &&& match all_open(open, wires@, job, complaint) {
        Some(e) => made matches Err(f) && f@ == e,
        None => call_ensures(make, (&wires, threshold), made),
    }
}

fn evaluate<
    X,
    O: Fn(&Vec<u8>) -> Result<OpenedWire, String>,
    M: Fn(&Vec<Vec<u8>>, usize) -> Result<X, String>,
>(wires: &Vec<Vec<u8>>, job: &[u8; 32], complaint: &str, open: &O, make: &M, threshold: usize) -> (made: Result<
    X,
    String,
>)
    requires
        opens(*open),
        forall|w: &Vec<Vec<u8>>, t: usize| call_requires(*make, (w, t)),
    ensures
        match all_open(*open, wires@, job@, complaint@) {
            Some(e) => made matches Err(f) && f@ == e,
            None => call_ensures(*make, (wires, threshold), made),
        },
{
    match open_all(open, wires, job, complaint) {
        Err(e) => Err(e),
        Ok(_) => make(wires, threshold),
    }
}

/// A committee member's evaluation of the winning Maker's handle.
#[derive(Clone, Copy, Debug)]
pub struct HandleEvaluation {
    pub party: usize,
    pub point: Point,
}

/// The party that an entry names.
pub open spec fn handle_party(entry: Json) -> Option<nat> {
    match unsigned_in(entry.field("party"@)) {
        Some(n) => if n <= usize::MAX {
            Some(n)
        } else {
            None
        },
        None => None,
    }
}

/// Whether an entry names the party of an earlier one.
pub open spec fn handle_repeated(entries: Seq<Json>, at: int) -> bool {
    exists|j: int| 0 <= j < at && handle_party(#[trigger] entries[j]) == handle_party(entries[at])
}

/// Why the entry at a place is no evaluation of a committee of `parties`.
pub open spec fn handle_refusal(entries: Seq<Json>, at: int, parties: nat) -> Option<Seq<char>> {
    let party = handle_party(entries[at]);
    let complaint = "winning Maker handle has a missing or duplicate committee party"@;
    either(unless(party is Some, "winning Maker handle has an invalid party identifier"@),
    either(unless(1 <= party->0 <= parties, complaint),
    either(canonical_point_refusal(entries[at].field("point"@), "maker handle evaluation"@),
    unless(!handle_repeated(entries, at), complaint))))
}

/// Why the first `count` entries are no evaluations of distinct members.
pub open spec fn handles_refusal(entries: Seq<Json>, parties: nat, count: nat) -> Option<Seq<char>>
    decreases count,
{
    if count == 0 || count > entries.len() {
        None
    } else {
        either(
            handles_refusal(entries, parties, (count - 1) as nat),
            handle_refusal(entries, count - 1, parties),
        )
    }
}

/// The first refusal among the entries is that of all of them.
proof fn handles_refused(entries: Seq<Json>, parties: nat, at: nat, count: nat)
    requires
        at <= count <= entries.len(),
        handles_refusal(entries, parties, at) is Some,
    ensures
        handles_refusal(entries, parties, count) == handles_refusal(entries, parties, at),
    decreases count,
{
    if at < count {
        handles_refused(entries, parties, at, (count - 1) as nat);
    }
}

/// Whether an evaluation is the one of an entry.
pub open spec fn handle_said(entry: Json, value: HandleEvaluation) -> bool {
    &&& handle_party(entry) == Some(value.party as nat)
    &&& value.point@ == hex_in(entry.field("point"@))
}

/// Whether evaluations are those of entries, in their order.
pub open spec fn handles_said(entries: Seq<Json>, values: Seq<HandleEvaluation>) -> bool {
    &&& values.len() == entries.len()
    &&& forall|i: int| #![trigger values[i]] 0 <= i < values.len() ==> handle_said(entries[i], values[i])
}

/// Why a request does not carry the whole committee's evaluations of the
/// winning Maker's handle.
pub open spec fn committee_handles_refusal(params: Json, parties: nat) -> Option<Seq<char>> {
    match array_in(params.field("maker_handle_evaluations"@)) {
        None => Some("maker_handle_evaluations must be the fixed committee array"@),
        Some(entries) => either(
            unless(entries.len() == parties, "winning Maker handle omitted a configured proof party"@),
            handles_refusal(entries, parties, entries.len()),
        ),
    }
}

/// Reads the committee's evaluations of the winning Maker's handle, one of each member.
#[verifier::loop_isolation(false)]
pub fn committee_handles(params: &Value, parties: usize) -> (r: Result<Vec<HandleEvaluation>, String>)
    ensures
        match r {
            Ok(values) => {
                &&& committee_handles_refusal(params@, parties as nat) is None
                &&& handles_said(array_in(params@.field("maker_handle_evaluations"@))->0, values@)
            },
            Err(e) => committee_handles_refusal(params@, parties as nat) == Some(e@),
        },
{
    let entries = match as_array(params.get("maker_handle_evaluations")) {
        None => {
            return Err("maker_handle_evaluations must be the fixed committee array".to_owned());
        },
        Some(value) => value,
    };
    if entries.len() != parties {
        return Err("winning Maker handle omitted a configured proof party".to_owned());
    }
    let ghost all = array_in(params@.field("maker_handle_evaluations"@))->0;
    let mut values: Vec<HandleEvaluation> = Vec::new();
    let mut i: usize = 0;
    while i < entries.len()
        invariant
            i <= entries@.len(),
            values@.len() == i,
            handles_refusal(all, parties as nat, i as nat) is None,
            forall|j: int| #![trigger values@[j]] 0 <= j < i ==> handle_said(all[j], values@[j]),
        decreases entries@.len() - i,
    {
        let ghost told_at = handle_refusal(all, i as int, parties as nat);
        proof {
            assert(all[i as int] == entries@[i as int]@);
            if told_at is Some {
                assert(handles_refusal(all, parties as nat, (i + 1) as nat) == told_at);
                handles_refused(all, parties as nat, (i + 1) as nat, all.len());
            }
        }
        let party: usize = match as_unsigned(entries[i].get("party")) {
            None => {
                return Err("winning Maker handle has an invalid party identifier".to_owned());
            },
            Some(wide) => {
                if wide > usize::MAX as u64 {
                    return Err("winning Maker handle has an invalid party identifier".to_owned());
                }
                wide as usize
            },
        };
        if party < 1 || party > parties {
            return Err("winning Maker handle has a missing or duplicate committee party".to_owned());
        }
        let value = match point(entries[i].get("point"), "maker handle evaluation") {
            Err(e) => {
                return Err(e);
            },
            Ok(value) => value,
        };
        let mut j: usize = 0;
        while j < i
            invariant
                j <= i,
                forall|k: int| 0 <= k < j ==> (#[trigger] values@[k]).party != party,
            decreases i - j,
        {
            if values[j].party == party {
                proof {
                    assert(handle_said(all[j as int], values@[j as int]));
                    assert(handle_party(all[j as int]) == handle_party(all[i as int]));
                    assert(handle_repeated(all, i as int));
                }
                return Err("winning Maker handle has a missing or duplicate committee party".to_owned());
            }
            j = j + 1;
        }
        proof {
            if handle_repeated(all, i as int) {
                let k = choose|k: int| 0 <= k < i && handle_party(#[trigger] all[k]) == handle_party(all[i as int]);
                assert(handle_said(all[k], values@[k]));
            }
        }
        values.push(HandleEvaluation { party, point: value });
        i = i + 1;
    }
    Ok(values)
}

/// Whether a member's evaluation is a given point.
pub open spec fn handle_is(values: Seq<HandleEvaluation>, party: nat, point: Seq<u8>) -> bool {
    exists|i: int| 0 <= i < values.len() && (#[trigger] values[i]).party == party && values[i].point@ == point
}

fn check_handle(values: &Vec<HandleEvaluation>, party: usize, point: &Point) -> (r: bool)
    ensures
        r == handle_is(values@, party as nat, point@),
{
    let mut i: usize = 0;
    while i < values.len()
        invariant
            i <= values@.len(),
            forall|j: int| 0 <= j < i ==> !((#[trigger] values@[j]).party == party && values@[j].point@ == point@),
        decreases values@.len() - i,
    {
        if values[i].party == party && same32(&values[i].point.bytes, &point.bytes) {
            return true;
        }
        i = i + 1;
    }
    false
}

/// The commitments that a settlement's delivery is proved for.
#[derive(Clone, Copy, Debug)]
pub struct DvpCommitments {
    pub cash: Point,
    pub securities_remainder: Point,
    pub cash_remainder: Point,
}

/// What a job comes to when its delivery is bound.
pub open spec fn delivered_job<N, B, S>(
    job: ProofJob<N, B, S>,
    commitments: DvpCommitments,
    after: ProofJob<N, B, S>,
) -> bool {
    let quantity = (job.zkpi_statements->0).0;
    &&& after == (ProofJob {
        dvp: after.dvp,
        quantity_commitment: Some(quantity),
        cash_commitment: Some(commitments.cash),
        securities_remainder: Some(commitments.securities_remainder),
        cash_remainder: Some(commitments.cash_remainder),
        securities_reserve: after.securities_reserve,
        cash_reserve: after.cash_reserve,
        ..job
    })
    &&& after.securities_reserve is Some
    &&& (after.securities_reserve->0)@ == point_sum(quantity@, commitments.securities_remainder@)
    &&& after.cash_reserve is Some
    &&& (after.cash_reserve->0)@ == point_sum(commitments.cash@, commitments.cash_remainder@)
}

impl<N, B, S> ProofParty<N, B, S> {
    /// Why a request is not of a job that this node holds.
    pub open spec fn job_refusal(self, params: Json) -> Option<Seq<char>> {
        either(
            job_id_refusal(params),
            unless(self.jobs.has(hex_in(params.field("job_id"@))), "proof job is not loaded on this node"@),
        )
    }

    /// This node's evaluation of the winning Maker's handle over the generator `g`.
    pub fn maker_handle_evaluation(&self, params: &Value, g: &Point) -> (r: Result<Point, String>)
        requires
            self.ordered(),
        ensures
            match r {
                Ok(value) => {
                    &&& self.job_refusal(params@) is None
                    &&& value@ == point_times(g@, self.jobs.at(hex_in(params@.field("job_id"@))).maker_handle_share@)
                },
                Err(e) => self.job_refusal(params@) == Some(e@),
            },
    {
        let id = match job_id(params) {
            Err(e) => {
                return Err(e);
            },
            Ok(value) => value,
        };
        let job = match self.jobs.get(&id) {
            None => {
                return Err("proof job is not loaded on this node".to_owned());
            },
            Some(value) => value,
        };
        Ok(multiply_point(g, &job.maker_handle_share))
    }

    /// Why this node gives out no zkPI evaluations for a request.
    pub open spec fn zkpi_evaluations_refusal(self, params: Json) -> Option<Seq<char>> {
        let id = hex_in(params.field("job_id"@));
        either(job_id_refusal(params),
        either(unless(self.jobs.has(id), "proof job is not loaded on this node"@),
        unless(self.jobs.at(id).zkpi.node is Some, "zkPI"@ + " evaluation phase is closed"@)))
    }

    /// The job and the witness whose zkPI evaluations may be given out.
    pub fn zkpi_evaluations(&self, params: &Value) -> (r: Result<([u8; 32], &N), String>)
        requires
            self.ordered(),
        ensures
            match r {
                Ok((id, node)) => {
                    &&& self.zkpi_evaluations_refusal(params@) is None
                    &&& id@ == hex_in(params@.field("job_id"@))
                    &&& self.jobs.at(id@).zkpi.node == Some(*node)
                },
                Err(e) => self.zkpi_evaluations_refusal(params@) == Some(e@),
            },
    {
        let id = match job_id(params) {
            Err(e) => {
                return Err(e);
            },
            Ok(value) => value,
        };
        let job = match self.jobs.get(&id) {
            None => {
                return Err("proof job is not loaded on this node".to_owned());
            },
            Some(value) => value,
        };
        match job.zkpi.open_node("zkPI") {
            Err(e) => Err(e),
            Ok(node) => Ok((id, node)),
        }
    }

    /// Why this node gives out no hidden-limit evaluations for a request.
    pub open spec fn limit_evaluations_refusal(self, params: Json) -> Option<Seq<char>> {
        let id = hex_in(params.field("job_id"@));
        either(job_id_refusal(params),
        either(unless(self.jobs.has(id), "proof job is not loaded on this node"@),
        unless(self.jobs.at(id).limit.node is Some, "hidden-limit"@ + " evaluation phase is closed"@)))
    }

    /// The job and the witness whose hidden-limit evaluations may be given out.
    pub fn limit_evaluations(&self, params: &Value) -> (r: Result<([u8; 32], &N), String>)
        requires
            self.ordered(),
        ensures
            match r {
                Ok((id, node)) => {
                    &&& self.limit_evaluations_refusal(params@) is None
                    &&& id@ == hex_in(params@.field("job_id"@))
                    &&& self.jobs.at(id@).limit.node == Some(*node)
                },
                Err(e) => self.limit_evaluations_refusal(params@) == Some(e@),
            },
    {
        let id = match job_id(params) {
            Err(e) => {
                return Err(e);
            },
            Ok(value) => value,
        };
        let job = match self.jobs.get(&id) {
            None => {
                return Err("proof job is not loaded on this node".to_owned());
            },
            Some(value) => value,
        };
        match job.limit.open_node("hidden-limit") {
            Err(e) => Err(e),
            Ok(node) => Ok((id, node)),
        }
    }

    /// Why this node gives out no standing-pool remainder evaluations for a request.
    pub open spec fn pool_remainder_evaluations_refusal(self, params: Json) -> Option<Seq<char>> {
        let id = hex_in(params.field("job_id"@));
        either(job_id_refusal(params),
        either(unless(self.jobs.has(id), "proof job is not loaded on this node"@),
        unless(self.jobs.at(id).pool_remainder.node is Some,
            "standing-pool remainder"@ + " evaluation phase is closed"@)))
    }

    /// The job and the witness whose standing-pool remainder evaluations may be given out.
    pub fn pool_remainder_evaluations(&self, params: &Value) -> (r: Result<([u8; 32], &N), String>)
        requires
            self.ordered(),
        ensures
            match r {
                Ok((id, node)) => {
                    &&& self.pool_remainder_evaluations_refusal(params@) is None
                    &&& id@ == hex_in(params@.field("job_id"@))
                    &&& self.jobs.at(id@).pool_remainder.node == Some(*node)
                },
                Err(e) => self.pool_remainder_evaluations_refusal(params@) == Some(e@),
            },
    {
        let id = match job_id(params) {
            Err(e) => {
                return Err(e);
            },
            Ok(value) => value,
        };
        let job = match self.jobs.get(&id) {
            None => {
                return Err("proof job is not loaded on this node".to_owned());
            },
            Some(value) => value,
        };
        match job.pool_remainder.open_node("standing-pool remainder") {
            Err(e) => Err(e),
            Ok(node) => Ok((id, node)),
        }
    }

    /// Why this node gives out no DvP evaluations for a request.
    pub open spec fn dvp_evaluations_refusal(self, params: Json) -> Option<Seq<char>> {
        let id = hex_in(params.field("job_id"@));
        either(job_id_refusal(params),
        either(unless(self.jobs.has(id), "proof job is not loaded on this node"@),
        either(unless(self.jobs.at(id).zkpi_statements is Some, "zkPI statements are not ready"@),
        unless(self.jobs.at(id).dvp.node is Some, "DvP"@ + " evaluation phase is closed"@))))
    }

    /// The job, the witness whose evaluations may be given out, and the quantity that it delivers.
    pub fn dvp_evaluations(&self, params: &Value) -> (r: Result<([u8; 32], &N, Point), String>)
        requires
            self.ordered(),
        ensures
            match r {
                Ok((id, node, quantity)) => {
                    &&& self.dvp_evaluations_refusal(params@) is None
                    &&& id@ == hex_in(params@.field("job_id"@))
                    &&& self.jobs.at(id@).dvp.node == Some(*node)
                    &&& quantity == (self.jobs.at(id@).zkpi_statements->0).0
                },
                Err(e) => self.dvp_evaluations_refusal(params@) == Some(e@),
            },
    {
        let id = match job_id(params) {
            Err(e) => {
                return Err(e);
            },
            Ok(value) => value,
        };
        let job = match self.jobs.get(&id) {
            None => {
                return Err("proof job is not loaded on this node".to_owned());
            },
            Some(value) => value,
        };
        let statements = match job.zkpi_statements {
            None => {
                return Err("zkPI statements are not ready".to_owned());
            },
            Some(value) => value,
        };
        match job.dvp.open_node("DvP") {
            Err(e) => Err(e),
            Ok(node) => Ok((id, node, statements.0)),
        }
    }

    /// Why this node gives out no complete quote evaluations for a request.
    pub open spec fn quote_evaluations_refusal<C: Fn(&ProofPartyConfig) -> Result<(), String>>(
        self,
        params: Json,
        circuit: C,
    ) -> Option<Seq<char>> {
        let id = hex_in(params.field("job_id"@));
        either(job_id_refusal(params),
        either(fault(circuit, self.config),
        either(unless(self.jobs.has(id), "proof job is not loaded on this node"@),
        unless(self.jobs.at(id).quote.node is Some, "complete quote"@ + " evaluation phase is closed"@))))
    }

    /// The job and the witness whose complete quote evaluations may be given out.
    pub fn quote_evaluations<C: Fn(&ProofPartyConfig) -> Result<(), String>>(
        &self,
        params: &Value,
        circuit: &C,
    ) -> (r: Result<([u8; 32], &N), String>)
        requires
            tries(*circuit),
            self.ordered(),
        ensures
            match r {
                Ok((id, node)) => {
                    &&& self.quote_evaluations_refusal(params@, *circuit) is None
                    &&& id@ == hex_in(params@.field("job_id"@))
                    &&& self.jobs.at(id@).quote.node == Some(*node)
                },
                Err(e) => self.quote_evaluations_refusal(params@, *circuit) == Some(e@),
            },
    {
        let id = match job_id(params) {
            Err(e) => {
                return Err(e);
            },
            Ok(value) => value,
        };
        if let Err(e) = attempt(circuit, &self.config) {
            return Err(e);
        }
        let job = match self.jobs.get(&id) {
            None => {
                return Err("proof job is not loaded on this node".to_owned());
            },
            Some(value) => value,
        };
        match job.quote.open_node("complete quote") {
            Err(e) => Err(e),
            Ok(node) => Ok((id, node)),
        }
    }

    /// What binding the hidden-limit witness does, where `made` came of the
    /// evaluations.
    pub open spec fn limit_bound<R, St, F: FnOnce(N, &St) -> Result<(B, R), String>>(
        self,
        params: Value,
        made: Result<St, String>,
        act: F,
        later: ProofParty<N, B, S>,
        r: Result<R, String>,
    ) -> bool {
        let id = hex_in(params@.field("job_id"@));
        match made {
            Err(e) => r == Err::<R, String>(e) && later == self,
            Ok(found) => if !self.jobs.has(id) {
                &&& r matches Err(e) && e@ == "proof job is not loaded on this node"@
                &&& later == self
            } else {
                let job = self.jobs.at(id);
                let after = later.jobs.at(id);
                &&& self.job_changed(id, after, later)
                &&& bind_done(job.limit, "hidden-limit"@, found, act, after.limit, r)
                &&& after == (ProofJob { limit: after.limit, ..job })
            },
        }
    }

    /// Binds the hidden-limit witness to the statement that `make` makes of the
    /// committee's evaluations, at the threshold of the configuration. `open` reads
    /// what a wire is.
    pub fn limit_bind<
        R,
        St,
        O: Fn(&Vec<u8>) -> Result<OpenedWire, String>,
        M: Fn(&Vec<Vec<u8>>, usize) -> Result<St, String>,
        F: FnOnce(N, &St) -> Result<(B, R), String>,
    >(&mut self, params: &Value, open: &O, make: &M, act: F) -> (r: Result<R, String>)
        requires
            old(self).consistent(),
            opens(*open),
            forall|w: &Vec<Vec<u8>>, t: usize| call_requires(*make, (w, t)),
            forall|node: N, made: &St| call_requires(act, (node, made)),
        ensures
            final(self).consistent(),
            old(self).keeps_used(*final(self)),
            match bind_request_refusal(params@) {
                Some(e) => {
                    &&& r matches Err(f) && f@ == e
                    &&& *final(self) == *old(self)
                },
                None => exists|wires: Vec<Vec<u8>>, made: Result<St, String>| #[trigger]
                    evaluated(
                        params@,
                        hex_in(params@.field("job_id"@)),
                        "hidden-limit bind received another job or message type"@,
                        *open,
                        *make,
                        old(self).config.threshold,
                        wires,
                        made,
                    ) && old(self).limit_bound(*params, made, act, *final(self), r),
            },
    {
        let id = match job_id(params) {
            Err(e) => {
                return Err(e);
            },
            Ok(value) => value,
        };
        let wires = match decode_wires(params, "evaluations") {
            Err(e) => {
                return Err(e);
            },
            Ok(value) => value,
        };
        let complaint = "hidden-limit bind received another job or message type";
        let made = evaluate(&wires, &id, complaint, open, make, self.config.threshold);
        assert(evaluated(params@, id@, complaint@, *open, *make, self.config.threshold, wires, made));
        let ghost given = made;
        let found = match made {
            Err(e) => {
                let r = Err(e);
                assert(old(self).limit_bound(*params, given, act, *self, r));
                return r;
            },
            Ok(found) => found,
        };
        let ghost before = *self;
        let outcome = match self.jobs.get_mut(&id) {
            None => {
                let r = Err("proof job is not loaded on this node".to_owned());
                assert(old(self).limit_bound(*params, given, act, *self, r));
                return r;
            },
            Some(job) => {
                let outcome = job.limit.bind("hidden-limit", &found, act);
                outcome
            },
        };
        proof {
            job_change_keeps_lifecycle(before, *self, id@);
        }
        assert(old(self).limit_bound(*params, given, act, *self, outcome));
        outcome
    }

    /// What binding the standing-pool remainder witness does, where `made` came of the
    /// evaluations.
    pub open spec fn pool_remainder_bound<R, St, F: FnOnce(N, &St) -> Result<(B, R), String>>(
        self,
        params: Value,
        made: Result<(St, Point), String>,
        act: F,
        later: ProofParty<N, B, S>,
        r: Result<R, String>,
    ) -> bool {
        let id = hex_in(params@.field("job_id"@));
        match made {
            Err(e) => r == Err::<R, String>(e) && later == self,
            Ok((statement, commitment)) => if !self.jobs.has(id) {
                &&& r matches Err(e) && e@ == "proof job is not loaded on this node"@
                &&& later == self
            } else {
                let job = self.jobs.at(id);
                let after = later.jobs.at(id);
                &&& self.job_changed(id, after, later)
                &&& bind_done(
                    job.pool_remainder,
                    "standing-pool remainder"@,
                    statement,
                    act,
                    after.pool_remainder,
                    r,
                )
                &&& after == if r is Ok {
                    ProofJob {
                        pool_remainder: after.pool_remainder,
                        pool_remainder_commitment: Some(commitment),
                        ..job
                    }
                } else {
                    ProofJob { pool_remainder: after.pool_remainder, ..job }
                }
            },
        }
    }

    /// Binds the standing-pool remainder witness to the statement that `make` makes of the
    /// committee's evaluations, at the threshold of the configuration, and keeps what it
    /// commits to. `open` reads what a wire is.
    pub fn pool_remainder_bind<
        R,
        St,
        O: Fn(&Vec<u8>) -> Result<OpenedWire, String>,
        M: Fn(&Vec<Vec<u8>>, usize) -> Result<(St, Point), String>,
        F: FnOnce(N, &St) -> Result<(B, R), String>,
    >(&mut self, params: &Value, open: &O, make: &M, act: F) -> (r: Result<R, String>)
        requires
            old(self).consistent(),
            opens(*open),
            forall|w: &Vec<Vec<u8>>, t: usize| call_requires(*make, (w, t)),
            forall|node: N, made: &St| call_requires(act, (node, made)),
        ensures
            final(self).consistent(),
            old(self).keeps_used(*final(self)),
            match bind_request_refusal(params@) {
                Some(e) => {
                    &&& r matches Err(f) && f@ == e
                    &&& *final(self) == *old(self)
                },
                None => exists|wires: Vec<Vec<u8>>, made: Result<(St, Point), String>| #[trigger]
                    evaluated(
                        params@,
                        hex_in(params@.field("job_id"@)),
                        "standing-pool remainder bind received another job or message type"@,
                        *open,
                        *make,
                        old(self).config.threshold,
                        wires,
                        made,
                    ) && old(self).pool_remainder_bound(*params, made, act, *final(self), r),
            },
    {
        let id = match job_id(params) {
            Err(e) => {
                return Err(e);
            },
            Ok(value) => value,
        };
        let wires = match decode_wires(params, "evaluations") {
            Err(e) => {
                return Err(e);
            },
            Ok(value) => value,
        };
        let complaint = "standing-pool remainder bind received another job or message type";
        let made = evaluate(&wires, &id, complaint, open, make, self.config.threshold);
        assert(evaluated(params@, id@, complaint@, *open, *make, self.config.threshold, wires, made));
        let ghost given = made;
        let (statement, commitment) = match made {
            Err(e) => {
                let r = Err(e);
                assert(old(self).pool_remainder_bound(*params, given, act, *self, r));
                return r;
            },
            Ok(found) => found,
        };
        let ghost before = *self;
        let outcome = match self.jobs.get_mut(&id) {
            None => {
                let r = Err("proof job is not loaded on this node".to_owned());
                assert(old(self).pool_remainder_bound(*params, given, act, *self, r));
                return r;
            },
            Some(job) => {
                let outcome = job.pool_remainder.bind("standing-pool remainder", &statement, act);
                if outcome.is_ok() {
                    job.pool_remainder_commitment = Some(commitment);
                }
                outcome
            },
        };
        proof {
            job_change_keeps_lifecycle(before, *self, id@);
        }
        assert(old(self).pool_remainder_bound(*params, given, act, *self, outcome));
        outcome
    }

    /// Why a payment's binding is refused behind its statements, where `selected` is
    /// the constant of the handle's evaluations and `g` the generator that they are over.
    pub open spec fn zkpi_bind_refusal(
        self,
        id: Seq<u8>,
        values: Seq<HandleEvaluation>,
        selected: Result<Option<Point>, String>,
        g: Point,
    ) -> Option<Seq<char>> {
        either(refused(selected),
        either(unless(selected->Ok_0 is Some, "winning Maker handle coefficient ladder is empty"@),
        either(unless((selected->Ok_0->0)@ != zero32(), "winning Maker handle is the identity point"@),
        either(unless(self.jobs.has(id), "proof job is not loaded on this node"@),
        unless(handle_is(values, (self.config.node + 1) as nat, point_times(g@, self.jobs.at(id).maker_handle_share@)),
            "coordinator changed this node's Maker handle evaluation"@)))))
    }

    /// What binding the payment witness does to a job, where `selected` came of the
    /// evaluations of the handle.
    pub open spec fn handle_bound<R, St, F: FnOnce(N, &St) -> Result<(B, R), String>>(
        self,
        params: Value,
        statement: St,
        commitments: (Point, Point),
        values: Seq<HandleEvaluation>,
        selected: Result<Option<Point>, String>,
        g: Point,
        act: F,
        later: ProofParty<N, B, S>,
        r: Result<R, String>,
    ) -> bool {
        let id = hex_in(params@.field("job_id"@));
        match self.zkpi_bind_refusal(id, values, selected, g) {
            Some(e) => {
                &&& r matches Err(f) && f@ == e
                &&& later == self
            },
            None => {
                let job = self.jobs.at(id);
                let after = later.jobs.at(id);
                &&& self.job_changed(id, after, later)
                &&& bind_done(job.zkpi, "zkPI"@, statement, act, after.zkpi, r)
                &&& after == if r is Ok {
                    ProofJob {
                        zkpi: after.zkpi,
                        selected_maker_handle: selected->Ok_0,
                        zkpi_statements: Some(commitments),
                        ..job
                    }
                } else {
                    ProofJob { zkpi: after.zkpi, ..job }
                }
            },
        }
    }

    /// What binding the payment witness does, where `made` came of the evaluations:
    /// the handles of the whole committee are read, and `select` gives their constant.
    pub open spec fn zkpi_bound<
        R,
        St,
        H: Fn(&Vec<HandleEvaluation>, usize) -> Result<Option<Point>, String>,
        F: FnOnce(N, &St) -> Result<(B, R), String>,
    >(
        self,
        params: Value,
        made: Result<(St, (Point, Point)), String>,
        select: H,
        g: Point,
        act: F,
        later: ProofParty<N, B, S>,
        r: Result<R, String>,
    ) -> bool {
        match made {
            Err(e) => r == Err::<R, String>(e) && later == self,
            Ok((statement, commitments)) => match committee_handles_refusal(params@, self.config.n_parties as nat) {
                Some(e) => {
                    &&& r matches Err(f) && f@ == e
                    &&& later == self
                },
                None => exists|values: Vec<HandleEvaluation>, selected: Result<Option<Point>, String>|
                    handles_said(array_in(params@.field("maker_handle_evaluations"@))->0, values@)
                        && #[trigger] call_ensures(select, (&values, self.config.threshold), selected)
                        && self.handle_bound(params, statement, commitments, values@, selected, g, act, later, r),
            },
        }
    }

    fn bind_handle<R, St, F: FnOnce(N, &St) -> Result<(B, R), String>>(
        &mut self,
        params: &Value,
        id: &[u8; 32],
        statement: St,
        commitments: (Point, Point),
        values: &Vec<HandleEvaluation>,
        selected: &Result<Option<Point>, String>,
        g: &Point,
        act: F,
    ) -> (r: Result<R, String>)
        requires
            old(self).consistent(),
            id@ == hex_in(params@.field("job_id"@)),
            forall|node: N, made: &St| call_requires(act, (node, made)),
        ensures
            final(self).consistent(),
            old(self).keeps_used(*final(self)),
            old(self).handle_bound(*params, statement, commitments, values@, *selected, *g, act, *final(self), r),
    {
        let handle = match selected {
            Err(e) => {
                return Err(told(e));
            },
            Ok(None) => {
                return Err("winning Maker handle coefficient ladder is empty".to_owned());
            },
            Ok(Some(handle)) => *handle,
        };
        if is_zero32(&handle.bytes) {
            return Err("winning Maker handle is the identity point".to_owned());
        }
        let own = match self.jobs.get(id) {
            None => {
                return Err("proof job is not loaded on this node".to_owned());
            },
            Some(job) => multiply_point(g, &job.maker_handle_share),
        };
        if !check_handle(values, self.config.node as usize + 1, &own) {
            return Err("coordinator changed this node's Maker handle evaluation".to_owned());
        }
        let ghost before = *self;
        let outcome = match self.jobs.get_mut(id) {
            None => {
                return Err("proof job is not loaded on this node".to_owned());
            },
            Some(job) => {
                let outcome = job.zkpi.bind("zkPI", &statement, act);
                if outcome.is_ok() {
                    job.selected_maker_handle = Some(handle);
                    job.zkpi_statements = Some(commitments);
                }
                outcome
            },
        };
        proof {
            job_change_keeps_lifecycle(before, *self, id@);
        }
        outcome
    }

    /// Binds the payment witness to its statements, which `make` makes of the
    /// committee's evaluations, and to the winning Maker's handle, which `select`
    /// makes of its own; this node's evaluation of that must be the one it gave out.
    pub fn zkpi_bind<
        R,
        St,
        O: Fn(&Vec<u8>) -> Result<OpenedWire, String>,
        M: Fn(&Vec<Vec<u8>>, usize) -> Result<(St, (Point, Point)), String>,
        H: Fn(&Vec<HandleEvaluation>, usize) -> Result<Option<Point>, String>,
        F: FnOnce(N, &St) -> Result<(B, R), String>,
    >(&mut self, params: &Value, open: &O, make: &M, select: &H, g: &Point, act: F) -> (r: Result<R, String>)
        requires
            old(self).consistent(),
            opens(*open),
            forall|w: &Vec<Vec<u8>>, t: usize| call_requires(*make, (w, t)),
            forall|v: &Vec<HandleEvaluation>, t: usize| call_requires(*select, (v, t)),
            forall|node: N, made: &St| call_requires(act, (node, made)),
        ensures
            final(self).consistent(),
            old(self).keeps_used(*final(self)),
            match bind_request_refusal(params@) {
                Some(e) => {
                    &&& r matches Err(f) && f@ == e
                    &&& *final(self) == *old(self)
                },
                None => exists|wires: Vec<Vec<u8>>, made: Result<(St, (Point, Point)), String>| #[trigger]
                    evaluated(
                        params@,
                        hex_in(params@.field("job_id"@)),
                        "zkPI bind received another job or message type"@,
                        *open,
                        *make,
                        old(self).config.threshold,
                        wires,
                        made,
                    ) && old(self).zkpi_bound(*params, made, *select, *g, act, *final(self), r),
            },
    {
        let id = match job_id(params) {
            Err(e) => {
                return Err(e);
            },
            Ok(value) => value,
        };
        let wires = match decode_wires(params, "evaluations") {
            Err(e) => {
                return Err(e);
            },
            Ok(value) => value,
        };
        let complaint = "zkPI bind received another job or message type";
        let made = evaluate(&wires, &id, complaint, open, make, self.config.threshold);
        assert(evaluated(params@, id@, complaint@, *open, *make, self.config.threshold, wires, made));
        let ghost given = made;
        let (statement, commitments) = match made {
            Err(e) => {
                let r = Err(e);
                assert(old(self).zkpi_bound(*params, given, *select, *g, act, *self, r));
                return r;
            },
            Ok(found) => found,
        };
        let values = match committee_handles(params, self.config.n_parties) {
            Err(e) => {
                let r = Err(e);
                assert(old(self).zkpi_bound(*params, given, *select, *g, act, *self, r));
                return r;
            },
            Ok(values) => values,
        };
        let selected = select(&values, self.config.threshold);
        assert(call_ensures(*select, (&values, old(self).config.threshold), selected));
        let r = self.bind_handle(params, &id, statement, commitments, &values, &selected, g, act);
        assert(old(self).zkpi_bound(*params, given, *select, *g, act, *self, r));
        r
    }

    /// What binding the delivery witness does to a job, where `stated` is the
    /// statement that was made about its payment.
    pub open spec fn delivery_bound<R, St, F: FnOnce(N, &St) -> Result<(B, R), String>>(
        self,
        params: Value,
        found: DvpCommitments,
        stated: Result<St, String>,
        act: F,
        later: ProofParty<N, B, S>,
        r: Result<R, String>,
    ) -> bool {
        let id = hex_in(params@.field("job_id"@));
        match stated {
            Err(e) => r == Err::<R, String>(e) && later == self,
            Ok(statement) => {
                let job = self.jobs.at(id);
                let after = later.jobs.at(id);
                &&& self.job_changed(id, after, later)
                &&& bind_done(job.dvp, "DvP"@, statement, act, after.dvp, r)
                &&& if r is Ok {
                    delivered_job(job, found, after)
                } else {
                    after == (ProofJob { dvp: after.dvp, ..job })
                }
            },
        }
    }

    /// What binding the delivery witness does, where `made` came of the evaluations:
    /// `state` makes a statement of the job's payment and the commitments.
    pub open spec fn dvp_bound<
        R,
        St,
        G: Fn(&(Point, Point), &DvpCommitments, &Vec<Vec<u8>>, usize) -> Result<St, String>,
        F: FnOnce(N, &St) -> Result<(B, R), String>,
    >(
        self,
        params: Value,
        wires: Vec<Vec<u8>>,
        made: Result<DvpCommitments, String>,
        state: G,
        act: F,
        later: ProofParty<N, B, S>,
        r: Result<R, String>,
    ) -> bool {
        let id = hex_in(params@.field("job_id"@));
        match made {
            Err(e) => r == Err::<R, String>(e) && later == self,
            Ok(found) => if !self.jobs.has(id) {
                &&& r matches Err(e) && e@ == "proof job is not loaded on this node"@
                &&& later == self
            } else {
                match self.jobs.at(id).zkpi_statements {
                    None => {
                        &&& r matches Err(e) && e@ == "zkPI statements are not ready"@
                        &&& later == self
                    },
                    Some(payment) => exists|stated: Result<St, String>| #[trigger]
                        call_ensures(state, (&payment, &found, &wires, self.config.threshold), stated)
                            && self.delivery_bound(params, found, stated, act, later, r),
                }
            },
        }
    }

    /// Binds the delivery witness. The reserves that it consumes are what is
    /// delivered and what remains, together. `make` gives the constants of the
    /// committee's evaluations, and `state` makes of them and the payment the statement
    /// that the witness is bound to.
    pub fn dvp_bind<
        R,
        St,
        O: Fn(&Vec<u8>) -> Result<OpenedWire, String>,
        M: Fn(&Vec<Vec<u8>>, usize) -> Result<DvpCommitments, String>,
        G: Fn(&(Point, Point), &DvpCommitments, &Vec<Vec<u8>>, usize) -> Result<St, String>,
        F: FnOnce(N, &St) -> Result<(B, R), String>,
    >(&mut self, params: &Value, open: &O, make: &M, state: &G, act: F) -> (r: Result<R, String>)
        requires
            old(self).consistent(),
            opens(*open),
            forall|w: &Vec<Vec<u8>>, t: usize| call_requires(*make, (w, t)),
            forall|p: &(Point, Point), c: &DvpCommitments, w: &Vec<Vec<u8>>, t: usize|
                call_requires(*state, (p, c, w, t)),
            forall|node: N, made: &St| call_requires(act, (node, made)),
        ensures
            final(self).consistent(),
            old(self).keeps_used(*final(self)),
            match bind_request_refusal(params@) {
                Some(e) => {
                    &&& r matches Err(f) && f@ == e
                    &&& *final(self) == *old(self)
                },
                None => exists|wires: Vec<Vec<u8>>, made: Result<DvpCommitments, String>| #[trigger]
                    evaluated(
                        params@,
                        hex_in(params@.field("job_id"@)),
                        "DvP bind received another job or message type"@,
                        *open,
                        *make,
                        old(self).config.threshold,
                        wires,
                        made,
                    ) && old(self).dvp_bound(*params, wires, made, *state, act, *final(self), r),
            },
    {
        let id = match job_id(params) {
            Err(e) => {
                return Err(e);
            },
            Ok(value) => value,
        };
        let wires = match decode_wires(params, "evaluations") {
            Err(e) => {
                return Err(e);
            },
            Ok(value) => value,
        };
        let complaint = "DvP bind received another job or message type";
        let made = evaluate(&wires, &id, complaint, open, make, self.config.threshold);
        assert(evaluated(params@, id@, complaint@, *open, *make, self.config.threshold, wires, made));
        let ghost given = made;
        let found = match made {
            Err(e) => {
                let r = Err(e);
                assert(old(self).dvp_bound(*params, wires, given, *state, act, *self, r));
                return r;
            },
            Ok(found) => found,
        };
        let payment = match self.jobs.get(&id) {
            None => {
                let r = Err("proof job is not loaded on this node".to_owned());
                assert(old(self).dvp_bound(*params, wires, given, *state, act, *self, r));
                return r;
            },
            Some(job) => match job.zkpi_statements {
                None => {
                    let r = Err("zkPI statements are not ready".to_owned());
                    assert(old(self).dvp_bound(*params, wires, given, *state, act, *self, r));
                    return r;
                },
                Some(payment) => payment,
            },
        };
        let stated = state(&payment, &found, &wires, self.config.threshold);
        let ghost told_of = stated;
        assert(call_ensures(*state, (&payment, &found, &wires, old(self).config.threshold), told_of));
        let statement = match stated {
            Err(e) => {
                let r = Err(e);
                assert(old(self).delivery_bound(*params, found, told_of, act, *self, r));
                assert(old(self).dvp_bound(*params, wires, given, *state, act, *self, r));
                return r;
            },
            Ok(statement) => statement,
        };
        let quantity = payment.0;
        let securities_reserve = add_points(&quantity, &found.securities_remainder);
        let cash_reserve = add_points(&found.cash, &found.cash_remainder);
        let ghost before = *self;
        let outcome = match self.jobs.get_mut(&id) {
            None => {
                return Err("proof job is not loaded on this node".to_owned());
            },
            Some(job) => {
                let outcome = job.dvp.bind("DvP", &statement, act);
                if outcome.is_ok() {
                    job.quantity_commitment = Some(quantity);
                    job.cash_commitment = Some(found.cash);
                    job.securities_remainder = Some(found.securities_remainder);
                    job.cash_remainder = Some(found.cash_remainder);
                    job.securities_reserve = Some(securities_reserve);
                    job.cash_reserve = Some(cash_reserve);
                }
                outcome
            },
        };
        proof {
            job_change_keeps_lifecycle(before, *self, id@);
        }
        assert(old(self).delivery_bound(*params, found, told_of, act, *self, outcome));
        assert(old(self).dvp_bound(*params, wires, given, *state, act, *self, outcome));
        outcome
    }

    /// Why this node makes no zkPI first round for a request.
    pub open spec fn zkpi_round1_refusal(self, params: Json) -> Option<Seq<char>> {
        let id = hex_in(params.field("job_id"@));
        either(job_id_refusal(params),
        unless(self.jobs.has(id), "proof job is not loaded on this node"@))
    }

    /// Makes the zkPI first round, once until it is answered.
    pub fn zkpi_round1<R, F: FnOnce(&B, &Value) -> Result<(S, R), String>>(
        &mut self,
        params: &Value,
        act: F,
    ) -> (r: Result<R, String>)
        requires
            old(self).consistent(),
            forall|bound: &B, asked: &Value| call_requires(act, (bound, asked)),
        ensures
            final(self).consistent(),
            old(self).keeps_used(*final(self)),
            match old(self).zkpi_round1_refusal(params@) {
                Some(e) => {
                    &&& r matches Err(f) && f@ == e
                    &&& *final(self) == *old(self)
                },
                None => {
                    let id = hex_in(params@.field("job_id"@));
                    let job = old(self).jobs.at(id);
                    let after = final(self).jobs.at(id);
                    &&& old(self).job_changed(id, after, *final(self))
                    &&& round1_done(job.zkpi, "zkPI"@, *params, act, after.zkpi, r)
                    &&& after == (ProofJob { zkpi: after.zkpi, ..job })
                },
            },
    {
        let id = match job_id(params) {
            Err(e) => {
                return Err(e);
            },
            Ok(value) => value,
        };
        let ghost before = *self;
        let outcome = match self.jobs.get_mut(&id) {
            None => {
                return Err("proof job is not loaded on this node".to_owned());
            },
            Some(job) => {
                let outcome = job.zkpi.round1("zkPI", params, act);
                outcome
            },
        };
        proof {
            job_change_keeps_lifecycle(before, *self, id@);
        }
        outcome
    }

    /// Why this node makes no hidden-limit first round for a request.
    pub open spec fn limit_round1_refusal(self, params: Json) -> Option<Seq<char>> {
        let id = hex_in(params.field("job_id"@));
        either(job_id_refusal(params),
        either(hex32_refusal(params.field("context"@), "context"@),
        unless(self.jobs.has(id), "proof job is not loaded on this node"@)))
    }

    /// Makes the hidden-limit first round in the context of the request, once until it
    /// is answered.
    pub fn limit_round1<R, F: FnOnce(&B, &[u8; 32]) -> Result<(S, R), String>>(
        &mut self,
        params: &Value,
        act: F,
    ) -> (r: Result<R, String>)
        requires
            old(self).consistent(),
            forall|bound: &B, asked: &[u8; 32]| call_requires(act, (bound, asked)),
        ensures
            final(self).consistent(),
            old(self).keeps_used(*final(self)),
            match old(self).limit_round1_refusal(params@) {
                Some(e) => {
                    &&& r matches Err(f) && f@ == e
                    &&& *final(self) == *old(self)
                },
                None => {
                    let id = hex_in(params@.field("job_id"@));
                    let job = old(self).jobs.at(id);
                    let after = final(self).jobs.at(id);
                    &&& old(self).job_changed(id, after, *final(self))
                    &&& exists|context: [u8; 32]|
                        context@ == hex_in(params@.field("context"@)) && #[trigger] round1_done(
                            job.limit,
                            "hidden-limit"@,
                            context,
                            act,
                            after.limit,
                            r,
                        )
                    &&& after == (ProofJob { limit: after.limit, ..job })
                },
            },
    {
        let id = match job_id(params) {
            Err(e) => {
                return Err(e);
            },
            Ok(value) => value,
        };
        let context = match hex32(params.get("context"), "context") {
            Err(e) => {
                return Err(e);
            },
            Ok(value) => value,
        };
        let ghost before = *self;
        let outcome = match self.jobs.get_mut(&id) {
            None => {
                return Err("proof job is not loaded on this node".to_owned());
            },
            Some(job) => {
                let outcome = job.limit.round1("hidden-limit", &context, act);
                outcome
            },
        };
        proof {
            job_change_keeps_lifecycle(before, *self, id@);
            assert(round1_done(
                before.jobs.at(id@).limit,
                "hidden-limit"@,
                context,
                act,
                self.jobs.at(id@).limit,
                outcome,
            ));
        }
        outcome
    }

    /// Why this node makes no standing-pool remainder first round for a request.
    pub open spec fn pool_remainder_round1_refusal(self, params: Json) -> Option<Seq<char>> {
        let id = hex_in(params.field("job_id"@));
        either(job_id_refusal(params),
        unless(self.jobs.has(id), "proof job is not loaded on this node"@))
    }

    /// Makes the standing-pool remainder first round, once until it is answered.
    pub fn pool_remainder_round1<R, F: FnOnce(&B, &Value) -> Result<(S, R), String>>(
        &mut self,
        params: &Value,
        act: F,
    ) -> (r: Result<
        R,
        String,
    >)
        requires
            old(self).consistent(),
            forall|bound: &B, asked: &Value| call_requires(act, (bound, asked)),
        ensures
            final(self).consistent(),
            old(self).keeps_used(*final(self)),
            match old(self).pool_remainder_round1_refusal(params@) {
                Some(e) => {
                    &&& r matches Err(f) && f@ == e
                    &&& *final(self) == *old(self)
                },
                None => {
                    let id = hex_in(params@.field("job_id"@));
                    let job = old(self).jobs.at(id);
                    let after = final(self).jobs.at(id);
                    &&& old(self).job_changed(id, after, *final(self))
                    &&& round1_done(
                        job.pool_remainder,
                        "standing-pool remainder"@,
                        *params,
                        act,
                        after.pool_remainder,
                        r,
                    )
                    &&& after == (ProofJob { pool_remainder: after.pool_remainder, ..job })
                },
            },
    {
        let id = match job_id(params) {
            Err(e) => {
                return Err(e);
            },
            Ok(value) => value,
        };
        let ghost before = *self;
        let outcome = match self.jobs.get_mut(&id) {
            None => {
                return Err("proof job is not loaded on this node".to_owned());
            },
            Some(job) => {
                let outcome = job.pool_remainder.round1("standing-pool remainder", params, act);
                outcome
            },
        };
        proof {
            job_change_keeps_lifecycle(before, *self, id@);
        }
        outcome
    }

    /// Why this node makes no DvP first round for a request.
    pub open spec fn dvp_round1_refusal(self, params: Json) -> Option<Seq<char>> {
        let id = hex_in(params.field("job_id"@));
        either(job_id_refusal(params),
        either(unless(self.jobs.has(id), "proof job is not loaded on this node"@),
        unless(self.jobs.at(id).dvp.secret is Some || self.jobs.at(id).quantity_commitment is Some,
            "DvP quantity commitment is absent"@)))
    }

    /// Makes the DvP first round for the committed quantity of the job, once until it is
    /// answered.
    pub fn dvp_round1<R, F: FnOnce(&B, &Option<Point>) -> Result<(S, R), String>>(
        &mut self,
        params: &Value,
        act: F,
    ) -> (r: Result<R, String>)
        requires
            old(self).consistent(),
            forall|bound: &B, asked: &Option<Point>| call_requires(act, (bound, asked)),
        ensures
            final(self).consistent(),
            old(self).keeps_used(*final(self)),
            match old(self).dvp_round1_refusal(params@) {
                Some(e) => {
                    &&& r matches Err(f) && f@ == e
                    &&& *final(self) == *old(self)
                },
                None => {
                    let id = hex_in(params@.field("job_id"@));
                    let job = old(self).jobs.at(id);
                    let after = final(self).jobs.at(id);
                    &&& old(self).job_changed(id, after, *final(self))
                    &&& round1_done(job.dvp, "DvP"@, job.quantity_commitment, act, after.dvp, r)
                    &&& after == (ProofJob { dvp: after.dvp, ..job })
                },
            },
    {
        let id = match job_id(params) {
            Err(e) => {
                return Err(e);
            },
            Ok(value) => value,
        };
        match self.jobs.get(&id) {
            None => {
                return Err("proof job is not loaded on this node".to_owned());
            },
            Some(job) => {
                if job.dvp.secret.is_none() && job.quantity_commitment.is_none() {
                    return Err("DvP quantity commitment is absent".to_owned());
                }
            },
        }
        let ghost before = *self;
        let outcome = match self.jobs.get_mut(&id) {
            None => {
                return Err("proof job is not loaded on this node".to_owned());
            },
            Some(job) => {
                let quantity = job.quantity_commitment;
                let outcome = job.dvp.round1("DvP", &quantity, act);
                outcome
            },
        };
        proof {
            job_change_keeps_lifecycle(before, *self, id@);
        }
        outcome
    }

    /// Why this node answers no zkPI challenge for a request.
    pub open spec fn zkpi_round2_refusal<O: Fn(&Vec<u8>) -> Result<OpenedWire, String>>(
        self,
        params: Json,
        open: O,
    ) -> Option<Seq<char>> {
        let id = hex_in(params.field("job_id"@));
        either(job_id_refusal(params),
        either(one_wire_refusal(params, "challenge"@),
        either(opening_refusal(open, wire_in(params.field("challenge"@)), id,
            "zkPI response received another job or message type"@),
        unless(self.jobs.has(id), "proof job is not loaded on this node"@))))
    }

    /// Answers the zkPI challenge with the secret of the first round, which is gone afterwards.
    pub fn zkpi_round2<
        R,
        O: Fn(&Vec<u8>) -> Result<OpenedWire, String>,
        F: FnOnce(&B, S, &Vec<u8>) -> Result<R, String>,
    >(&mut self, params: &Value, open: &O, act: F) -> (r: Result<R, String>)
        requires
            opens(*open),
            old(self).consistent(),
            forall|bound: &B, secret: S, challenge: &Vec<u8>| call_requires(act, (bound, secret, challenge)),
        ensures
            final(self).consistent(),
            old(self).keeps_used(*final(self)),
            match old(self).zkpi_round2_refusal(params@, *open) {
                Some(e) => {
                    &&& r matches Err(f) && f@ == e
                    &&& *final(self) == *old(self)
                },
                None => {
                    let id = hex_in(params@.field("job_id"@));
                    let job = old(self).jobs.at(id);
                    let after = final(self).jobs.at(id);
                    &&& old(self).job_changed(id, after, *final(self))
                    &&& exists|challenge: Vec<u8>|
                        challenge@ == wire_in(params@.field("challenge"@)) && #[trigger] round2_done(
                            job.zkpi,
                            "zkPI"@,
                            challenge,
                            act,
                            after.zkpi,
                            r,
                        )
                    &&& after == (ProofJob { zkpi: after.zkpi, ..job })
                },
            },
    {
        let id = match job_id(params) {
            Err(e) => {
                return Err(e);
            },
            Ok(value) => value,
        };
        let raw = match one_wire(params, "challenge") {
            Err(e) => {
                return Err(e);
            },
            Ok(value) => value,
        };
        if let Err(e) = open_wire(open, &raw, &id, "zkPI response received another job or message type") {
            return Err(e);
        }
        let ghost before = *self;
        let outcome = match self.jobs.get_mut(&id) {
            None => {
                return Err("proof job is not loaded on this node".to_owned());
            },
            Some(job) => {
                let outcome = job.zkpi.round2("zkPI", &raw, act);
                assert(round2_done(before.jobs.at(id@).zkpi, "zkPI"@, raw, act, job.zkpi, outcome));
                outcome
            },
        };
        proof {
            job_change_keeps_lifecycle(before, *self, id@);
        }
        outcome
    }

    /// Why this node answers no hidden-limit challenge for a request.
    pub open spec fn limit_round2_refusal<O: Fn(&Vec<u8>) -> Result<OpenedWire, String>>(
        self,
        params: Json,
        open: O,
    ) -> Option<Seq<char>> {
        let id = hex_in(params.field("job_id"@));
        either(job_id_refusal(params),
        either(one_wire_refusal(params, "challenge"@),
        either(opening_refusal(open, wire_in(params.field("challenge"@)), id,
            "hidden-limit response received another job or message type"@),
        unless(self.jobs.has(id), "proof job is not loaded on this node"@))))
    }

    /// Answers the hidden-limit challenge with the secret of the first round, which is gone afterwards.
    pub fn limit_round2<
        R,
        O: Fn(&Vec<u8>) -> Result<OpenedWire, String>,
        F: FnOnce(&B, S, &Vec<u8>) -> Result<R, String>,
    >(&mut self, params: &Value, open: &O, act: F) -> (r: Result<R, String>)
        requires
            opens(*open),
            old(self).consistent(),
            forall|bound: &B, secret: S, challenge: &Vec<u8>| call_requires(act, (bound, secret, challenge)),
        ensures
            final(self).consistent(),
            old(self).keeps_used(*final(self)),
            match old(self).limit_round2_refusal(params@, *open) {
                Some(e) => {
                    &&& r matches Err(f) && f@ == e
                    &&& *final(self) == *old(self)
                },
                None => {
                    let id = hex_in(params@.field("job_id"@));
                    let job = old(self).jobs.at(id);
                    let after = final(self).jobs.at(id);
                    &&& old(self).job_changed(id, after, *final(self))
                    &&& exists|challenge: Vec<u8>|
                        challenge@ == wire_in(params@.field("challenge"@)) && #[trigger] round2_done(
                            job.limit,
                            "hidden-limit"@,
                            challenge,
                            act,
                            after.limit,
                            r,
                        )
                    &&& after == (ProofJob { limit: after.limit, ..job })
                },
            },
    {
        let id = match job_id(params) {
            Err(e) => {
                return Err(e);
            },
            Ok(value) => value,
        };
        let raw = match one_wire(params, "challenge") {
            Err(e) => {
                return Err(e);
            },
            Ok(value) => value,
        };
        if let Err(e) = open_wire(open, &raw, &id, "hidden-limit response received another job or message type") {
            return Err(e);
        }
        let ghost before = *self;
        let outcome = match self.jobs.get_mut(&id) {
            None => {
                return Err("proof job is not loaded on this node".to_owned());
            },
            Some(job) => {
                let outcome = job.limit.round2("hidden-limit", &raw, act);
                assert(round2_done(before.jobs.at(id@).limit, "hidden-limit"@, raw, act, job.limit, outcome));
                outcome
            },
        };
        proof {
            job_change_keeps_lifecycle(before, *self, id@);
        }
        outcome
    }

    /// Why this node answers no standing-pool remainder challenge for a request.
    pub open spec fn pool_remainder_round2_refusal<O: Fn(&Vec<u8>) -> Result<OpenedWire, String>>(
        self,
        params: Json,
        open: O,
    ) -> Option<Seq<char>> {
        let id = hex_in(params.field("job_id"@));
        either(job_id_refusal(params),
        either(one_wire_refusal(params, "challenge"@),
        either(opening_refusal(open, wire_in(params.field("challenge"@)), id,
            "standing-pool remainder response received another job or message type"@),
        unless(self.jobs.has(id), "proof job is not loaded on this node"@))))
    }

    /// Answers the standing-pool remainder challenge with the secret of the first round, which is gone afterwards.
    pub fn pool_remainder_round2<
        R,
        O: Fn(&Vec<u8>) -> Result<OpenedWire, String>,
        F: FnOnce(&B, S, &Vec<u8>) -> Result<R, String>,
    >(&mut self, params: &Value, open: &O, act: F) -> (r: Result<R, String>)
        requires
            opens(*open),
            old(self).consistent(),
            forall|bound: &B, secret: S, challenge: &Vec<u8>| call_requires(act, (bound, secret, challenge)),
        ensures
            final(self).consistent(),
            old(self).keeps_used(*final(self)),
            match old(self).pool_remainder_round2_refusal(params@, *open) {
                Some(e) => {
                    &&& r matches Err(f) && f@ == e
                    &&& *final(self) == *old(self)
                },
                None => {
                    let id = hex_in(params@.field("job_id"@));
                    let job = old(self).jobs.at(id);
                    let after = final(self).jobs.at(id);
                    &&& old(self).job_changed(id, after, *final(self))
                    &&& exists|challenge: Vec<u8>|
                        challenge@ == wire_in(params@.field("challenge"@)) && #[trigger] round2_done(
                            job.pool_remainder,
                            "standing-pool remainder"@,
                            challenge,
                            act,
                            after.pool_remainder,
                            r,
                        )
                    &&& after == if r is Ok {
                        ProofJob { pool_remainder: after.pool_remainder, pool_remainder_response_issued: true, ..job }
                    } else {
                        ProofJob { pool_remainder: after.pool_remainder, ..job }
                    }
                },
            },
    {
        let id = match job_id(params) {
            Err(e) => {
                return Err(e);
            },
            Ok(value) => value,
        };
        let raw = match one_wire(params, "challenge") {
            Err(e) => {
                return Err(e);
            },
            Ok(value) => value,
        };
        if let Err(e) = open_wire(open, &raw, &id,
            "standing-pool remainder response received another job or message type") {
            return Err(e);
        }
        let ghost before = *self;
        let outcome = match self.jobs.get_mut(&id) {
            None => {
                return Err("proof job is not loaded on this node".to_owned());
            },
            Some(job) => {
                let outcome = job.pool_remainder.round2("standing-pool remainder", &raw, act);
                assert(round2_done(
                    before.jobs.at(id@).pool_remainder,
                    "standing-pool remainder"@,
                    raw,
                    act,
                    job.pool_remainder,
                    outcome,
                ));
                if outcome.is_ok() {
                    job.pool_remainder_response_issued = true;
                }
                outcome
            },
        };
        proof {
            job_change_keeps_lifecycle(before, *self, id@);
        }
        outcome
    }

    /// Why this node answers no DvP challenge for a request.
    pub open spec fn dvp_round2_refusal<O: Fn(&Vec<u8>) -> Result<OpenedWire, String>>(
        self,
        params: Json,
        open: O,
    ) -> Option<Seq<char>> {
        let id = hex_in(params.field("job_id"@));
        either(job_id_refusal(params),
        either(one_wire_refusal(params, "challenge"@),
        either(opening_refusal(open, wire_in(params.field("challenge"@)), id,
            "DvP response received another job or message type"@),
        unless(self.jobs.has(id), "proof job is not loaded on this node"@))))
    }

    /// Answers the DvP challenge with the secret of the first round, which is gone afterwards.
    pub fn dvp_round2<
        R,
        O: Fn(&Vec<u8>) -> Result<OpenedWire, String>,
        F: FnOnce(&B, S, &Vec<u8>) -> Result<R, String>,
    >(&mut self, params: &Value, open: &O, act: F) -> (r: Result<R, String>)
        requires
            opens(*open),
            old(self).consistent(),
            forall|bound: &B, secret: S, challenge: &Vec<u8>| call_requires(act, (bound, secret, challenge)),
        ensures
            final(self).consistent(),
            old(self).keeps_used(*final(self)),
            match old(self).dvp_round2_refusal(params@, *open) {
                Some(e) => {
                    &&& r matches Err(f) && f@ == e
                    &&& *final(self) == *old(self)
                },
                None => {
                    let id = hex_in(params@.field("job_id"@));
                    let job = old(self).jobs.at(id);
                    let after = final(self).jobs.at(id);
                    &&& old(self).job_changed(id, after, *final(self))
                    &&& exists|challenge: Vec<u8>|
                        challenge@ == wire_in(params@.field("challenge"@)) && #[trigger] round2_done(
                            job.dvp,
                            "DvP"@,
                            challenge,
                            act,
                            after.dvp,
                            r,
                        )
                    &&& after == if r is Ok {
                        ProofJob { dvp: after.dvp, dvp_response_issued: true, ..job }
                    } else {
                        ProofJob { dvp: after.dvp, ..job }
                    }
                },
            },
    {
        let id = match job_id(params) {
            Err(e) => {
                return Err(e);
            },
            Ok(value) => value,
        };
        let raw = match one_wire(params, "challenge") {
            Err(e) => {
                return Err(e);
            },
            Ok(value) => value,
        };
        if let Err(e) = open_wire(open, &raw, &id, "DvP response received another job or message type") {
            return Err(e);
        }
        let ghost before = *self;
        let outcome = match self.jobs.get_mut(&id) {
            None => {
                return Err("proof job is not loaded on this node".to_owned());
            },
            Some(job) => {
                let outcome = job.dvp.round2("DvP", &raw, act);
                assert(round2_done(before.jobs.at(id@).dvp, "DvP"@, raw, act, job.dvp, outcome));
                if outcome.is_ok() {
                    job.dvp_response_issued = true;
                }
                outcome
            },
        };
        proof {
            job_change_keeps_lifecycle(before, *self, id@);
        }
        outcome
    }
}

} // verus!
