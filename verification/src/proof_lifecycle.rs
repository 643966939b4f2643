//! Operations on the lifecycle of a proof party: loading and completing jobs,
//! committing and signing once, and authorizing application messages.

use vstd::prelude::*;
use crate::bytes::{is_zero32, text_bytes, zero32};
use crate::digest::{hash, sha256};
use crate::fields::{either, hex_in};
use crate::group::{Point, Scalar};
use crate::json::{as_text, text_in, Json, Value};
use crate::paths::is_absolute;
use crate::proof_config::ProofPartyConfig;
use crate::proof_params::{hex32, hex32_refusal, job_id, job_id_refusal};
use crate::proof_state::{
    can_write, outcome_of, written, CompletedProof, OpeningShares, ProofJob, ProofParty, MAX_COMPLETED_EVIDENCE,
    MAX_JOBS,
};
use crate::rounds::Rounds;

verus! {

/// The largest persistence file that a proof is made from.
pub const MAX_PERSISTENCE_BYTES: usize = 67108864;

/// A part of a handoff, and the party that it names.
#[derive(Debug)]
pub struct PartyNode<N> {
    pub party: usize,
    pub node: N,
}

/// What a node reads out of its own persistence file.
#[derive(Debug)]
pub struct JobNodes<N> {
    pub zkpi: PartyNode<N>,
    pub limit: PartyNode<N>,
    pub pool_remainder: PartyNode<N>,
    pub dvp: PartyNode<N>,
    pub quote: Option<PartyNode<N>>,
    pub maker_handle_share: Scalar,
}

impl<N> JobNodes<N> {
    /// Whether every part of the handoff names one party, and there is a quote where one
    /// is wanted and nowhere else.
    pub open spec fn of_party(self, party: int, quoted: bool) -> bool {
        &&& self.zkpi.party == party
        &&& self.limit.party == party
        &&& self.pool_remainder.party == party
        &&& self.dvp.party == party
        &&& (self.quote is Some) == quoted
        &&& self.quote matches Some(quote) ==> quote.party == party
    }

    fn is_of(&self, party: usize, quoted: bool) -> (r: bool)
        ensures
            r == self.of_party(party as int, quoted),
    {
        let quote_is_of: bool = match &self.quote {
            None => !quoted,
            Some(quote) => quoted && quote.party == party,
        };
        self.zkpi.party == party && self.limit.party == party && self.pool_remainder.party == party && self.dvp.party
            == party && quote_is_of
    }
}

/// Why a path to a node's persistence is refused.
pub open spec fn persistence_refusal(path: Seq<u8>) -> Option<Seq<char>> {
    if path.len() == 0 || is_absolute(path) || crate::paths::climbs(path) {
        Some("persistence path must be a safe relative path"@)
    } else {
        None
    }
}

/// What reading a node's persistence may give.
pub open spec fn reads<F: FnOnce(&str) -> Result<Vec<u8>, String>>(
    read: F,
    path: Seq<char>,
    outcome: Result<Vec<u8>, String>,
) -> bool {
    exists|p: &str| p@ == path && #[trigger] call_ensures(read, (p,), outcome)
}

/// What taking the handoff out of a node's persistence may give.
pub open spec fn takes<N, F: FnOnce(&ProofPartyConfig, &str, &Vec<u8>) -> Result<JobNodes<N>, String>>(
    take: F,
    config: ProofPartyConfig,
    path: Seq<char>,
    raw: Vec<u8>,
    outcome: Result<JobNodes<N>, String>,
) -> bool {
    exists|p: &str| p@ == path && #[trigger] call_ensures(take, (&config, p, &raw), outcome)
}

impl<N, B, S> ProofParty<N, B, S> {
    /// Why a request to load a job is refused before the persistence is opened.
    pub open spec fn load_refusal(self, params: Json) -> Option<Seq<char>> {
        let id = hex_in(params.field("job_id"@));
        either(
            job_id_refusal(params),
            either(
                hex32_refusal(params.field("quote_digest"@), "quote_digest"@),
                if hex_in(params.field("quote_digest"@)) == zero32() {
                    Some("proof job quote digest cannot be zero"@)
                } else if self.completed.has(id) || self.reserved.has(id) || self.jobs.has(id) {
                    Some("proof job identifier was already used on this node"@)
                } else if self.jobs.count() >= MAX_JOBS {
                    Some("proof party has reached its active-job bound"@)
                } else {
                    match text_in(params.field("persistence"@)) {
                        None => Some("persistence must be a relative path"@),
                        Some(path) => persistence_refusal(text_bytes(path)),
                    }
                },
            ),
        )
    }

    /// Whether a job is one that was just loaded.
    pub open spec fn fresh_job(
        self,
        job: ProofJob<N, B, S>,
        quote_digest: Seq<u8>,
        persistence: Seq<u8>,
        nodes: JobNodes<N>,
    ) -> bool {
        &&& job.expected_quote_digest@ == quote_digest
        &&& job.persistence_digest@ == sha256(persistence)
        &&& job.authorized_payment_digest is None
        &&& job.authorized_taker_handle is None
        &&& job.maker_is_payer is None
        &&& job.maker_handle_share == nodes.maker_handle_share
        &&& job.selected_maker_handle is None
        &&& job.quote.node == (match nodes.quote { Some(quote) => Some(quote.node), None => None })
        &&& job.quote.bound is None && job.quote.secret is None
        &&& job.quote_public is None
        &&& job.quote_relations is None
        &&& job.winning_policy_digest is None
        &&& job.quote_verified == !self.config.complete_quote_proof
        &&& job.zkpi.node == Some(nodes.zkpi.node) && job.zkpi.bound is None && job.zkpi.secret is None
        &&& job.zkpi_statements is None
        &&& job.limit.node == Some(nodes.limit.node) && job.limit.bound is None && job.limit.secret is None
        &&& job.pool_remainder.node == Some(nodes.pool_remainder.node) && job.pool_remainder.bound is None
            && job.pool_remainder.secret is None
        &&& job.pool_remainder_commitment is None
        &&& !job.pool_remainder_response_issued
        &&& job.dvp.node == Some(nodes.dvp.node) && job.dvp.bound is None && job.dvp.secret is None
        &&& job.quantity_commitment is None
        &&& job.cash_commitment is None
        &&& job.securities_remainder is None
        &&& job.cash_remainder is None
        &&& job.securities_reserve is None
        &&& job.cash_reserve is None
        &&& !job.dvp_response_issued
        &&& job.opening_shares.securities_delivery is None
        &&& job.opening_shares.securities_refund is None
        &&& job.opening_shares.cash_delivery is None
        &&& job.opening_shares.cash_refund is None
    }

    /// The state with a job loaded.
    pub open spec fn loaded(
        self,
        id: Seq<u8>,
        quote_digest: Seq<u8>,
        persistence: Seq<u8>,
        nodes: JobNodes<N>,
        after: ProofParty<N, B, S>,
    ) -> bool {
        &&& after == (ProofParty { jobs: after.jobs, reserved: after.reserved, ..self })
        &&& after.jobs.has(id)
        &&& self.fresh_job(after.jobs.at(id), quote_digest, persistence, nodes)
        &&& after.jobs.same_but(self.jobs, id)
        &&& after.reserved.has(id)
        &&& after.reserved.same_but(self.reserved, id)
    }

    /// What loading a job comes to, where the handoff was taken out of the persistence.
    pub open spec fn load_taken<W: Fn(&ProofParty<N, B, S>, u64) -> Result<(), String>>(
        self,
        params: Json,
        raw: Seq<u8>,
        taken: Result<JobNodes<N>, String>,
        write: W,
        later: ProofParty<N, B, S>,
        r: Result<(), String>,
    ) -> bool {
        match taken {
            Err(e) => r == Err::<(), String>(e) && later == self,
            Ok(nodes) => if !nodes.of_party(self.config.node + 1, self.config.complete_quote_proof) {
                &&& r matches Err(e) && e@ == "persistence handoff belongs to another proof party"@
                &&& later == self
            } else {
                exists|middle: ProofParty<N, B, S>|
                    middle.consistent() && #[trigger] self.loaded(
                        hex_in(params.field("job_id"@)),
                        hex_in(params.field("quote_digest"@)),
                        raw,
                        nodes,
                        middle,
                    ) && written(write, middle, later, outcome_of(r))
            },
        }
    }

    /// What loading a job comes to, where the persistence was read.
    pub open spec fn load_read<
        G: FnOnce(&ProofPartyConfig, &str, &Vec<u8>) -> Result<JobNodes<N>, String>,
        W: Fn(&ProofParty<N, B, S>, u64) -> Result<(), String>,
    >(
        self,
        params: Json,
        raw: Result<Vec<u8>, String>,
        take: G,
        write: W,
        later: ProofParty<N, B, S>,
        r: Result<(), String>,
    ) -> bool {
        match raw {
            Err(e) => r == Err::<(), String>(e) && later == self,
            Ok(bytes) => if bytes@.len() > MAX_PERSISTENCE_BYTES {
                &&& r matches Err(e) && e@ == "node-local persistence exceeds its proof bound"@
                &&& later == self
            } else {
                exists|taken: Result<JobNodes<N>, String>| #[trigger]
                    takes(take, self.config, text_in(params.field("persistence"@))->0, bytes, taken)
                        && self.load_taken(params, bytes@, taken, write, later, r)
            },
        }
    }

    /// Loads a job from the node's own persistence, which `read` reads and out of which
    /// `take` takes the handoff, and reserves its identifier before any evaluation can
    /// leave the node.
    pub fn load<
        F: FnOnce(&str) -> Result<Vec<u8>, String>,
        G: FnOnce(&ProofPartyConfig, &str, &Vec<u8>) -> Result<JobNodes<N>, String>,
        W: Fn(&ProofParty<N, B, S>, u64) -> Result<(), String>,
    >(&mut self, params: &Value, read: F, take: G, write: &W) -> (r: Result<(), String>)
        requires
            old(self).consistent(),
            can_write(*write),
            forall|p: &str| call_requires(read, (p,)),
            forall|c: &ProofPartyConfig, p: &str, b: &Vec<u8>| call_requires(take, (c, p, b)),
        ensures
            final(self).consistent(),
            old(self).keeps_used(*final(self)),
            match old(self).load_refusal(params@) {
                Some(e) => {
                    &&& r matches Err(f) && f@ == e
                    &&& *final(self) == *old(self)
                },
                None => exists|raw: Result<Vec<u8>, String>| #[trigger]
                    reads(read, text_in(params@.field("persistence"@))->0, raw) && old(self).load_read(
                        params@,
                        raw,
                        take,
                        *write,
                        *final(self),
                        r,
                    ),
            },
    {
        let id = match job_id(params) {
            Err(e) => {
                return Err(e);
            },
            Ok(id) => id,
        };
        let expected_quote_digest = match hex32(params.get("quote_digest"), "quote_digest") {
            Err(e) => {
                return Err(e);
            },
            Ok(digest) => digest,
        };
        if is_zero32(&expected_quote_digest) {
            return Err("proof job quote digest cannot be zero".to_owned());
        }
        if self.completed.contains(&id) || self.reserved.contains(&id) || self.jobs.contains(&id) {
            return Err("proof job identifier was already used on this node".to_owned());
        }
        if self.jobs.len() >= MAX_JOBS {
            return Err("proof party has reached its active-job bound".to_owned());
        }
        let path = match as_text(params.get("persistence")) {
            None => {
                return Err("persistence must be a relative path".to_owned());
            },
            Some(path) => path,
        };
        if !crate::paths::safe_below(path) {
            return Err("persistence path must be a safe relative path".to_owned());
        }
        let raw = read(path);
        let ghost given_raw = raw;
        assert(call_ensures(read, (path,), given_raw));
        assert(reads(read, path@, given_raw));
        let persistence = match raw {
            Err(e) => {
                let r = Err(e);
                assert(old(self).load_read(params@, given_raw, take, *write, *self, r));
                return r;
            },
            Ok(bytes) => bytes,
        };
        if persistence.len() > MAX_PERSISTENCE_BYTES {
            let r = Err("node-local persistence exceeds its proof bound".to_owned());
            assert(old(self).load_read(params@, given_raw, take, *write, *self, r));
            return r;
        }
        let persistence_digest = hash(persistence.as_slice());
        let taken = take(&self.config, path, &persistence);
        let ghost given_taken = taken;
        assert(call_ensures(take, (&old(self).config, path, &persistence), given_taken));
        assert(takes(take, old(self).config, path@, persistence, given_taken));
        let nodes = match taken {
            Err(e) => {
                let r = Err(e);
                assert(old(self).load_taken(params@, persistence@, given_taken, *write, *self, r));
                assert(old(self).load_read(params@, given_raw, take, *write, *self, r));
                return r;
            },
            Ok(nodes) => nodes,
        };
        if !nodes.is_of(self.config.node as usize + 1, self.config.complete_quote_proof) {
            let r = Err("persistence handoff belongs to another proof party".to_owned());
            assert(old(self).load_taken(params@, persistence@, given_taken, *write, *self, r));
            assert(old(self).load_read(params@, given_raw, take, *write, *self, r));
            return r;
        }
        let ghost given = nodes;
        let JobNodes { zkpi, limit, pool_remainder, dvp, quote, maker_handle_share } = nodes;
        let quote_node = match quote {
            None => None,
            Some(quote) => Some(quote.node),
        };
        let job = ProofJob {
            expected_quote_digest,
            persistence_digest,
            authorized_payment_digest: None,
            authorized_taker_handle: None,
            maker_is_payer: None,
            maker_handle_share,
            selected_maker_handle: None,
            quote: Rounds { node: quote_node, bound: None, secret: None },
            quote_public: None,
            quote_relations: None,
            winning_policy_digest: None,
            quote_verified: !self.config.complete_quote_proof,
            zkpi: Rounds::new(zkpi.node),
            zkpi_statements: None,
            limit: Rounds::new(limit.node),
            pool_remainder: Rounds::new(pool_remainder.node),
            pool_remainder_commitment: None,
            pool_remainder_response_issued: false,
            dvp: Rounds::new(dvp.node),
            quantity_commitment: None,
            cash_commitment: None,
            securities_remainder: None,
            cash_remainder: None,
            securities_reserve: None,
            cash_reserve: None,
            dvp_response_issued: false,
            opening_shares: OpeningShares::new(),
        };
        self.jobs.insert(id, job);
        self.reserved.insert(id, ());
        let ghost middle = *self;
        proof {
            let before = *old(self);
            assert forall|k: Seq<u8>| #[trigger] middle.jobs.has(k) implies middle.reserved.has(k) by {
                if k != id@ {
                    assert(middle.jobs.has(k) == before.jobs.has(k));
                    assert(middle.reserved.has(k) == before.reserved.has(k));
                }
            }
            assert forall|k: Seq<u8>| !(#[trigger] middle.reserved.has(k) && #[trigger] middle.completed.has(k)) by {
                if k != id@ {
                    assert(middle.reserved.has(k) == before.reserved.has(k));
                }
            }
            assert(middle.consistent());
            assert(before.loaded(id@, expected_quote_digest@, persistence@, given, middle));
        }
        let r = self.persist(write);
        assert(old(self).load_taken(params@, persistence@, given_taken, *write, *self, r));
        assert(old(self).load_read(params@, given_raw, take, *write, *self, r));
        r
    }

    /// Why a request to complete a job is refused.
    pub open spec fn complete_refusal(self, params: Json) -> Option<Seq<char>> {
        let id = hex_in(params.field("job_id"@));
        either(
            job_id_refusal(params),
            if self.completed_evidence.count() >= MAX_COMPLETED_EVIDENCE && !self.completed_evidence.has(id) {
                Some("completed proof evidence has reached its retention bound"@)
            } else if !self.jobs.has(id) {
                Some("proof job is not active"@)
            } else if self.jobs.at(id).unanswered() {
                Some("proof job still has an unanswered first round"@)
            } else if !self.jobs.at(id).signed() {
                Some("proof job cannot complete before zkPI, DvP, and standing-pool remainder proofs"@)
            } else {
                None
            },
        )
    }

    /// What is retained of a job that completes.
    pub open spec fn evidence_of(job: ProofJob<N, B, S>, proof: CompletedProof) -> bool {
        &&& Some(proof.payment_digest) == job.authorized_payment_digest
        &&& proof.quote_digest == job.expected_quote_digest
        &&& proof.winning_policy_digest == job.winning_policy_digest
        &&& proof.typed_message_digest is None
        &&& point_option(job.selected_maker_handle, proof.maker_handle)
        &&& point_option(job.authorized_taker_handle, proof.taker_handle)
        &&& proof.maker_is_payer == job.maker_is_payer
        &&& point_option(job.securities_reserve, proof.securities_reserve)
        &&& point_option(job.cash_reserve, proof.cash_reserve)
        &&& proof.opening_shares == job.opening_shares
        &&& proof.application_action_digest is None
    }

    /// The state with a job completed.
    pub open spec fn job_completed(self, id: Seq<u8>, after: ProofParty<N, B, S>) -> bool {
        &&& after == (ProofParty {
            jobs: after.jobs,
            reserved: after.reserved,
            completed: after.completed,
            completed_evidence: after.completed_evidence,
            ..self
        })
        &&& !after.jobs.has(id) && after.jobs.same_but(self.jobs, id)
        &&& !after.reserved.has(id) && after.reserved.same_but(self.reserved, id)
        &&& after.completed.has(id) && after.completed.same_but(self.completed, id)
    }

    /// Completes a job that this node has proved and signed.
    pub fn complete<W: Fn(&ProofParty<N, B, S>, u64) -> Result<(), String>>(
        &mut self,
        params: &Value,
        write: &W,
    ) -> (r: Result<(), String>)
        requires
            old(self).consistent(),
            can_write(*write),
        ensures
            final(self).consistent(),
            old(self).keeps_used(*final(self)),
            match old(self).complete_refusal(params@) {
                Some(e) => {
                    &&& r matches Err(f) && f@ == e
                    &&& *final(self) == *old(self)
                },
                None => {
                    let id = hex_in(params@.field("job_id"@));
                    exists|middle: ProofParty<N, B, S>| #[trigger]
                        old(self).job_completed(id, middle) && middle.completed_evidence.has(id) && Self::evidence_of(
                            old(self).jobs.at(id),
                            middle.completed_evidence.at(id),
                        ) && middle.completed_evidence.same_but(old(self).completed_evidence, id) && written(
                            *write,
                            middle,
                            *final(self),
                            outcome_of(r),
                        )
                },
            },
    {
        let id = match job_id(params) {
            Err(e) => {
                return Err(e);
            },
            Ok(id) => id,
        };
        if self.completed_evidence.len() >= MAX_COMPLETED_EVIDENCE && !self.completed_evidence.contains(&id) {
            return Err("completed proof evidence has reached its retention bound".to_owned());
        }
        let payment_digest = match self.jobs.get(&id) {
            None => {
                return Err("proof job is not active".to_owned());
            },
            Some(job) => {
                if job.is_unanswered() {
                    return Err("proof job still has an unanswered first round".to_owned());
                }
                match job.authorized_payment_digest {
                    Some(digest) => {
                        if !job.dvp_response_issued || !job.pool_remainder_response_issued {
                            return Err(
                                "proof job cannot complete before zkPI, DvP, and standing-pool remainder proofs".to_owned(),
                            );
                        }
                        digest
                    },
                    None => {
                        return Err(
                            "proof job cannot complete before zkPI, DvP, and standing-pool remainder proofs".to_owned(),
                        );
                    },
                }
            },
        };
        let job = match self.jobs.remove(&id) {
            None => {
                assert(false);
                return Err("proof job is not active".to_owned());
            },
            Some(job) => job,
        };
        let _ = self.reserved.remove(&id);
        self.completed.insert(id, ());
        let ghost taken = job;
        let proof_kept = CompletedProof {
            payment_digest,
            quote_digest: job.expected_quote_digest,
            winning_policy_digest: job.winning_policy_digest,
            typed_message_digest: None,
            maker_handle: encoding(&job.selected_maker_handle),
            taker_handle: encoding(&job.authorized_taker_handle),
            maker_is_payer: job.maker_is_payer,
            securities_reserve: encoding(&job.securities_reserve),
            cash_reserve: encoding(&job.cash_reserve),
            opening_shares: job.opening_shares,
            application_action_digest: None,
        };
        self.completed_evidence.insert(id, proof_kept);
        let ghost middle = *self;
        proof {
            let before = *old(self);
            completion_keeps_lifecycle(before, middle, id@);
            assert(before.job_completed(id@, middle));
        }
        self.persist(write)
    }

    /// Why a request to close a job as an observer is refused.
    pub open spec fn observer_refusal(self, params: Json) -> Option<Seq<char>> {
        let id = hex_in(params.field("job_id"@));
        either(
            job_id_refusal(params),
            if self.completed.has(id) {
                None
            } else if !self.jobs.has(id) {
                Some("observer proof job is not active"@)
            } else if self.jobs.at(id).unanswered() {
                Some("observer proof job still has an unanswered first round"@)
            } else if self.jobs.at(id).authorized_payment_digest is Some || self.jobs.at(id).dvp_response_issued
                || self.jobs.at(id).pool_remainder_response_issued {
                Some("a signing proof job cannot be closed through the observer path"@)
            } else if !self.jobs.at(id).observed() {
                Some("observer proof job did not participate in every public proof phase"@)
            } else {
                None
            },
        )
    }

    /// What closing a job as an observer does: it is completed durably and leaves no evidence;
    /// one that was completed before stays so.
    pub open spec fn observed<W: Fn(&ProofParty<N, B, S>, u64) -> Result<(), String>>(
        self,
        params: Json,
        write: W,
        later: ProofParty<N, B, S>,
        r: Result<bool, String>,
    ) -> bool {
        match self.observer_refusal(params) {
            Some(e) => {
                &&& r matches Err(f) && f@ == e
                &&& later == self
            },
            None => {
                let id = hex_in(params.field("job_id"@));
                if self.completed.has(id) {
                    &&& r matches Ok(already) && already
                    &&& later == self
                } else {
                    &&& r matches Ok(already) ==> !already
                    &&& exists|middle: ProofParty<N, B, S>| #[trigger]
                        self.job_completed(id, middle) && middle.completed_evidence == self.completed_evidence
                            && written(write, middle, later, outcome_of(r))
                }
            },
        }
    }

    /// Closes the job of a node that contributed evaluations and verified the
    /// quote but consumed no one-use nonce. Only the signing quorum can satisfy
    /// [`ProofParty::complete`]; observers close through this separate operation
    /// so that their durable job identifiers cannot be reused. Says whether the
    /// job was completed already.
    pub fn complete_observer<W: Fn(&ProofParty<N, B, S>, u64) -> Result<(), String>>(
        &mut self,
        params: &Value,
        write: &W,
    ) -> (r: Result<bool, String>)
        requires
            old(self).consistent(),
            can_write(*write),
        ensures
            final(self).consistent(),
            old(self).keeps_used(*final(self)),
            old(self).observed(params@, *write, *final(self), r),
    {
        let id = match job_id(params) {
            Err(e) => {
                return Err(e);
            },
            Ok(id) => id,
        };
        if self.completed.contains(&id) {
            return Ok(true);
        }
        match self.jobs.get(&id) {
            None => {
                return Err("observer proof job is not active".to_owned());
            },
            Some(job) => {
                if job.is_unanswered() {
                    return Err("observer proof job still has an unanswered first round".to_owned());
                }
                if job.authorized_payment_digest.is_some() || job.dvp_response_issued
                    || job.pool_remainder_response_issued {
                    return Err("a signing proof job cannot be closed through the observer path".to_owned());
                }
                if !job.quote_verified || job.zkpi.bound.is_none() || job.zkpi_statements.is_none()
                    || job.limit.bound.is_none() || job.dvp.bound.is_none() || job.pool_remainder.bound.is_none() {
                    return Err("observer proof job did not participate in every public proof phase".to_owned());
                }
            },
        }
        let _ = self.jobs.remove(&id);
        let _ = self.reserved.remove(&id);
        self.completed.insert(id, ());
        let ghost middle = *self;
        proof {
            let before = *old(self);
            completion_keeps_lifecycle(before, middle, id@);
            assert(before.job_completed(id@, middle));
        }
        match self.persist(write) {
            Err(e) => Err(e),
            Ok(_) => Ok(false),
        }
    }
}

/// Whether an encoding is the one of a point that may be absent.
pub open spec fn point_option(point: Option<Point>, bytes: Option<[u8; 32]>) -> bool {
    match point {
        Some(p) => bytes == Some(p.bytes),
        None => bytes is None,
    }
}

fn encoding(point: &Option<Point>) -> (bytes: Option<[u8; 32]>)
    ensures
        point_option(*point, bytes),
{
    match point {
        Some(p) => Some(p.bytes),
        None => None,
    }
}

/// Completing a job keeps the lifecycle consistent.
proof fn completion_keeps_lifecycle<N, B, S>(before: ProofParty<N, B, S>, after: ProofParty<N, B, S>, id: Seq<u8>)
    requires
        before.consistent(),
        after == (ProofParty {
            jobs: after.jobs,
            reserved: after.reserved,
            completed: after.completed,
            completed_evidence: after.completed_evidence,
            ..before
        }),
        after.jobs.sorted(),
        after.reserved.sorted(),
        after.completed.sorted(),
        after.completed_evidence.sorted(),
        !after.jobs.has(id),
        after.jobs.same_but(before.jobs, id),
        after.jobs.count() <= before.jobs.count(),
        !after.reserved.has(id),
        after.reserved.same_but(before.reserved, id),
        after.completed.has(id),
        after.completed.same_but(before.completed, id),
        after.completed_evidence.same_but(before.completed_evidence, id),
        after.completed_evidence.count() <= MAX_COMPLETED_EVIDENCE,
    ensures
        after.consistent(),
{
    assert forall|k: Seq<u8>| !(#[trigger] after.reserved.has(k) && #[trigger] after.completed.has(k)) by {
        if k != id {
            assert(after.reserved.has(k) == before.reserved.has(k));
            assert(after.completed.has(k) == before.completed.has(k));
        }
    }
    assert forall|k: Seq<u8>| #[trigger] after.jobs.has(k) implies after.reserved.has(k) by {
        assert(after.jobs.has(k) == before.jobs.has(k));
        assert(after.reserved.has(k) == before.reserved.has(k));
    }
    assert forall|k: Seq<u8>| #[trigger] after.completed_evidence.has(k) implies after.completed.has(k) by {
        if k != id {
            assert(after.completed_evidence.has(k) == before.completed_evidence.has(k));
            assert(after.completed.has(k) == before.completed.has(k));
        }
    }
}

} // verus!
