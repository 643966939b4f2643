//! The durable lifecycle of a proof party: jobs, evidence, and one-use signing.
//!
//! A coordinator may send public exponent evaluations, statements and
//! challenges. It cannot request a scalar share or a first-round nonce: neither
//! has a request or a reply.

use vstd::prelude::*;
use crate::application_crypto::SigningKey;
use crate::bytes::{put, same32, text_bytes, zero32};
use crate::digest::{hash, sha256};
use crate::digest_map::{DigestMap, DigestSet};
use crate::group::{Point, Scalar};
use crate::proof_config::ProofPartyConfig;
use crate::proof_dkg::{PendingDkgRound1, PendingDkgRound2, QuorumPolicy};
use crate::proof_params::QuoteStatement;
use crate::proof_peers::PendingPeers;
use crate::rounds::Rounds;
use crate::text::about;

verus! {

/// The most jobs that a party works on at a time.
pub const MAX_JOBS: usize = 64;

/// The most completed proofs, and the most control operations, that a party retains.
pub const MAX_COMPLETED_EVIDENCE: usize = 4096;

/// The encrypted openings that a node has given out for a job, one for each leg.
#[derive(Debug)]
pub struct OpeningShares {
    pub securities_delivery: Option<Vec<u8>>,
    pub securities_refund: Option<Vec<u8>>,
    pub cash_delivery: Option<Vec<u8>>,
    pub cash_refund: Option<Vec<u8>>,
}

impl OpeningShares {
    /// Whether all four legs were given out.
    pub open spec fn complete(self) -> bool {
        &&& self.securities_delivery is Some
        &&& self.securities_refund is Some
        &&& self.cash_delivery is Some
        &&& self.cash_refund is Some
    }

    /// No leg given out.
    pub fn new() -> (shares: OpeningShares)
        ensures
            shares.securities_delivery is None,
            shares.securities_refund is None,
            shares.cash_delivery is None,
            shares.cash_refund is None,
    {
        OpeningShares { securities_delivery: None, securities_refund: None, cash_delivery: None, cash_refund: None }
    }

    /// Whether all four legs were given out.
    pub fn is_complete(&self) -> (r: bool)
        ensures
            r == self.complete(),
    {
        self.securities_delivery.is_some() && self.securities_refund.is_some() && self.cash_delivery.is_some()
            && self.cash_refund.is_some()
    }
}

/// One proof job on this node. `N`, `B` and `S` are what the node holds of each
/// proof before it is bound, after it is bound, and between its two rounds.
#[derive(Debug)]
pub struct ProofJob<N, B, S> {
    pub expected_quote_digest: [u8; 32],
    pub persistence_digest: [u8; 32],
    pub authorized_payment_digest: Option<[u8; 64]>,
    pub authorized_taker_handle: Option<Point>,
    pub maker_is_payer: Option<bool>,
    pub maker_handle_share: Scalar,
    pub selected_maker_handle: Option<Point>,
    pub quote: Rounds<N, B, S>,
    /// The public statement that the quote was bound to, with its context.
    pub quote_public: Option<QuoteStatement>,
    /// What the committee's relations made of the bound quote.
    pub quote_relations: Option<B>,
    pub winning_policy_digest: Option<[u8; 32]>,
    pub quote_verified: bool,
    pub zkpi: Rounds<N, B, S>,
    /// The committed amount and price of the payment.
    pub zkpi_statements: Option<(Point, Point)>,
    pub limit: Rounds<N, B, S>,
    pub pool_remainder: Rounds<N, B, S>,
    pub pool_remainder_commitment: Option<Point>,
    pub pool_remainder_response_issued: bool,
    pub dvp: Rounds<N, B, S>,
    pub quantity_commitment: Option<Point>,
    pub cash_commitment: Option<Point>,
    pub securities_remainder: Option<Point>,
    pub cash_remainder: Option<Point>,
    pub securities_reserve: Option<Point>,
    pub cash_reserve: Option<Point>,
    /// Set only after this node has consumed its one-use nonce and issued the
    /// public response. A standing-pool allocation cannot be authorized from
    /// evaluations alone.
    pub dvp_response_issued: bool,
    pub opening_shares: OpeningShares,
}

impl<N, B, S> ProofJob<N, B, S> {
    /// Whether a first round of the job was not answered yet.
    pub open spec fn unanswered(self) -> bool {
        ||| self.zkpi.secret is Some
        ||| self.limit.secret is Some
        ||| self.pool_remainder.secret is Some
        ||| self.dvp.secret is Some
        ||| self.quote.secret is Some
    }

    /// Whether a first round of the job was not answered yet.
    pub fn is_unanswered(&self) -> (r: bool)
        ensures
            r == self.unanswered(),
    {
        self.zkpi.secret.is_some() || self.limit.secret.is_some() || self.pool_remainder.secret.is_some()
            || self.dvp.secret.is_some() || self.quote.secret.is_some()
    }

    /// Whether the node has signed and answered all that a settlement needs.
    pub open spec fn signed(self) -> bool {
        &&& self.authorized_payment_digest is Some
        &&& self.dvp_response_issued
        &&& self.pool_remainder_response_issued
    }

    /// Whether the node has taken part in every public phase.
    pub open spec fn observed(self) -> bool {
        &&& self.quote_verified
        &&& self.zkpi.bound is Some
        &&& self.zkpi_statements is Some
        &&& self.limit.bound is Some
        &&& self.dvp.bound is Some
        &&& self.pool_remainder.bound is Some
    }
}

/// What a node retains of a completed proof.
#[derive(Debug)]
pub struct CompletedProof {
    pub payment_digest: [u8; 64],
    pub quote_digest: [u8; 32],
    pub winning_policy_digest: Option<[u8; 32]>,
    pub typed_message_digest: Option<[u8; 32]>,
    pub maker_handle: Option<[u8; 32]>,
    pub taker_handle: Option<[u8; 32]>,
    pub maker_is_payer: Option<bool>,
    pub securities_reserve: Option<[u8; 32]>,
    pub cash_reserve: Option<[u8; 32]>,
    pub opening_shares: OpeningShares,
    pub application_action_digest: Option<[u8; 32]>,
}

/// The group key that the node shares, once the committee has made one.
#[derive(Debug)]
pub struct FrostKey {
    pub session: [u8; 32],
    pub key_package: Vec<u8>,
    pub public_package: Vec<u8>,
    pub finalize_digest: Option<[u8; 32]>,
}

/// The nonces of a signing job that was committed to, and the digest of its message.
#[derive(Debug)]
pub struct FrostNonces<S> {
    pub message_digest: [u8; 32],
    pub nonces: S,
}

/// A proof party.
#[derive(Debug)]
pub struct ProofParty<N, B, S> {
    pub config: ProofPartyConfig,
    /// The key that signs what applications rely on.
    pub application_identity: SigningKey,
    /// The public half of the key that authenticates the node to its peers.
    pub identity_public: [u8; 32],
    pub jobs: DigestMap<ProofJob<N, B, S>>,
    /// Jobs whose evaluations may have left the node and that are not completed.
    pub reserved: DigestSet,
    pub completed: DigestSet,
    pub completed_evidence: DigestMap<CompletedProof>,
    pub application_controls: DigestMap<[u8; 32]>,
    pub frost_key: Option<FrostKey>,
    /// The post-quantum committee that approves beside the group key.
    pub pq_committee: Option<QuorumPolicy>,
    /// The post-quantum identity attestations that the node made, by the digest of their text.
    pub pq_identity_cache: DigestMap<Vec<u8>>,
    pub pending_peers: Option<PendingPeers>,
    pub peers: Option<PendingPeers>,
    pub dkg_round1: Option<PendingDkgRound1>,
    pub dkg_round2: Option<PendingDkgRound2>,
    /// Signing jobs whose nonces this process holds.
    pub frost_nonces: DigestMap<FrostNonces<S>>,
    /// Signing jobs whose commitment may have left the node.
    pub frost_reserved: DigestSet,
    pub frost_consumed: DigestSet,
    /// Signing jobs that may commit, with the digest of the message.
    pub frost_authorized: DigestMap<[u8; 32]>,
    pub publication_consumed: DigestSet,
    pub state_generation: u64,
    pub state_healthy: bool,
}

/// Whether no key is in both maps.
pub open spec fn apart<V, W>(a: DigestMap<V>, b: DigestMap<W>) -> bool {
    forall|k: Seq<u8>| !(#[trigger] a.has(k) && #[trigger] b.has(k))
}

/// Whether every key of one map is in the other.
pub open spec fn within<V, W>(a: DigestMap<V>, b: DigestMap<W>) -> bool {
    forall|k: Seq<u8>| #[trigger] a.has(k) ==> b.has(k)
}

/// The signing job of a message.
pub open spec fn signing_job_of(message: Seq<u8>) -> Seq<u8> {
    sha256(text_bytes("QOMM:FROST:SIGNING-JOB:v1"@) + message)
}

/// The signing job of a message.
pub fn signing_job(message: &[u8]) -> (job: [u8; 32])
    ensures
        job@ == signing_job_of(message@),
{
    let mut text: Vec<u8> = Vec::new();
    put(&mut text, "QOMM:FROST:SIGNING-JOB:v1".as_bytes());
    put(&mut text, message);
    assert(text@ =~= text_bytes("QOMM:FROST:SIGNING-JOB:v1"@) + message@);
    hash(text.as_slice())
}

/// Whether the state can be written by `write` whatever it is.
pub open spec fn can_write<N, B, S, W: Fn(&ProofParty<N, B, S>, u64) -> Result<(), String>>(write: W) -> bool {
    forall|p: &ProofParty<N, B, S>, g: u64| call_requires(write, (p, g))
}

/// Whether writing the state may have failed with an error.
pub open spec fn write_failed<N, B, S, W: Fn(&ProofParty<N, B, S>, u64) -> Result<(), String>>(
    write: W,
    party: ProofParty<N, B, S>,
    generation: u64,
    error: Seq<char>,
) -> bool {
    exists|f: String|
        error == "proof-party durable state failed; node is fail-closed: "@ + f@ && #[trigger] call_ensures(
            write,
            (&party, generation),
            Err::<(), String>(f),
        )
}

/// What writing the state did.
pub open spec fn written<N, B, S, W: Fn(&ProofParty<N, B, S>, u64) -> Result<(), String>>(
    write: W,
    before: ProofParty<N, B, S>,
    after: ProofParty<N, B, S>,
    outcome: Result<(), Seq<char>>,
) -> bool {
    &&& after == (ProofParty {
        state_generation: after.state_generation,
        state_healthy: after.state_healthy,
        ..before
    })
    &&& if before.state_generation == u64::MAX {
        &&& outcome == Err::<(), Seq<char>>("proof-party state generation overflow"@)
        &&& after == before
    } else {
        match outcome {
            Ok(_) => {
                &&& call_ensures(write, (&before, (before.state_generation + 1) as u64), Ok::<(), String>(()))
                &&& after.state_generation == before.state_generation + 1
                &&& after.state_healthy == before.state_healthy
            },
            Err(e) => {
                &&& write_failed(write, before, (before.state_generation + 1) as u64, e)
                &&& after.state_generation == before.state_generation
                &&& !after.state_healthy
            },
        }
    }
}

/// The text of an outcome.
pub open spec fn outcome_of<T>(r: Result<T, String>) -> Result<(), Seq<char>> {
    match r {
        Ok(_) => Ok(()),
        Err(e) => Err(e@),
    }
}

impl<N, B, S> ProofParty<N, B, S> {
    /// The maps are in order.
    pub open spec fn ordered(self) -> bool {
        &&& self.jobs.sorted()
        &&& self.reserved.sorted()
        &&& self.completed.sorted()
        &&& self.completed_evidence.sorted()
        &&& self.application_controls.sorted()
        &&& self.frost_nonces.sorted()
        &&& self.frost_reserved.sorted()
        &&& self.frost_consumed.sorted()
        &&& self.frost_authorized.sorted()
        &&& self.publication_consumed.sorted()
        &&& self.pq_identity_cache.sorted()
    }

    /// What holds of the lifecycle in every state: a job is reserved or
    /// completed, never both; evidence is of completed jobs only; a signing job
    /// is authorized, reserved or consumed, never two of them; a nonce is held
    /// for reserved signing jobs only; and what is retained is bounded.
    pub open spec fn consistent(self) -> bool {
        &&& self.ordered()
        &&& apart(self.reserved, self.completed)
        &&& within(self.jobs, self.reserved)
        &&& within(self.completed_evidence, self.completed)
        &&& apart(self.frost_reserved, self.frost_consumed)
        &&& apart(self.frost_authorized, self.frost_reserved)
        &&& apart(self.frost_authorized, self.frost_consumed)
        &&& within(self.frost_nonces, self.frost_reserved)
        &&& self.jobs.count() <= MAX_JOBS
        &&& self.completed_evidence.count() <= MAX_COMPLETED_EVIDENCE
        &&& self.application_controls.count() <= MAX_COMPLETED_EVIDENCE
        &&& self.bound_controls()
        &&& self.staged()
    }

    /// No control operation, and no action of one, is empty.
    pub open spec fn bound_controls(self) -> bool {
        forall|k: Seq<u8>| #[trigger]
            self.application_controls.has(k) ==> k != zero32() && self.application_controls.at(k)@ != zero32()
    }

    /// The group key, the rounds that lead to it and the committee beside it: a
    /// key has left its rounds and peers behind, there is one round at a time, a
    /// round has confirmed peers, and a key has its committee.
    pub open spec fn staged(self) -> bool {
        &&& self.frost_key is Some ==> self.peers is None && self.pending_peers is None && self.dkg_round1 is None
            && self.dkg_round2 is None
        &&& self.dkg_round1 is None || self.dkg_round2 is None
        &&& self.dkg_round1 is Some || self.dkg_round2 is Some ==> self.peers is Some
        &&& (self.pq_committee is Some) == (self.frost_key is Some)
    }

    /// Whether what was used up stays so: no consumed signing job, completed proof
    /// or signed publication is given back.
    pub open spec fn keeps_used(self, after: ProofParty<N, B, S>) -> bool {
        &&& within(self.frost_consumed, after.frost_consumed)
        &&& within(self.completed, after.completed)
        &&& within(self.publication_consumed, after.publication_consumed)
    }

    /// Writes the state under the next generation. A write that fails closes the node.
    pub fn persist<W: Fn(&ProofParty<N, B, S>, u64) -> Result<(), String>>(&mut self, write: &W) -> (r: Result<
        (),
        String,
    >)
        requires
            can_write(*write),
        ensures
            written(*write, *old(self), *final(self), outcome_of(r)),
            old(self).consistent() ==> final(self).consistent(),
            old(self).keeps_used(*final(self)),
    {
        if self.state_generation == u64::MAX {
            return Err("proof-party state generation overflow".to_owned());
        }
        let generation: u64 = self.state_generation + 1;
        match write(&*self, generation) {
            Err(e) => {
                let message = about("proof-party durable state failed; node is fail-closed: ", e.as_str());
                assert(write_failed(*write, *old(self), generation, message@)) by {
                    assert(call_ensures(*write, (old(self), generation), Err::<(), String>(e)));
                }
                self.state_healthy = false;
                Err(message)
            },
            Ok(unit) => {
                assert(call_ensures(*write, (old(self), generation), Ok::<(), String>(unit)));
                self.state_generation = generation;
                Ok(unit)
            },
        }
    }

    /// Whether a signing job was never committed to and is the one of its message.
    pub open spec fn signable(self, signing_job: Seq<u8>, message: Seq<u8>) -> bool {
        &&& signing_job == signing_job_of(message)
        &&& self.unused(signing_job)
    }

    /// Whether a signing job was never committed to.
    pub open spec fn unused(self, signing_job: Seq<u8>) -> bool {
        &&& !self.frost_reserved.has(signing_job)
        &&& !self.frost_consumed.has(signing_job)
        &&& !self.frost_nonces.has(signing_job)
    }

    /// Whether a signing job was never committed to.
    pub fn is_unused(&self, signing_job: &[u8; 32]) -> (r: bool)
        requires
            self.ordered(),
        ensures
            r == self.unused(signing_job@),
    {
        !self.frost_reserved.contains(signing_job) && !self.frost_consumed.contains(signing_job)
            && !self.frost_nonces.contains(signing_job)
    }

    /// The state with a signing job authorized.
    pub open spec fn authorized(self, signing_job: Seq<u8>, message: Seq<u8>, after: ProofParty<N, B, S>) -> bool {
        &&& after == (ProofParty { frost_authorized: after.frost_authorized, ..self })
        &&& after.frost_authorized.sorted()
        &&& after.frost_authorized.has(signing_job)
        &&& after.frost_authorized.at(signing_job)@ == sha256(message)
        &&& after.frost_authorized.same_but(self.frost_authorized, signing_job)
    }

    /// What authorizing a signing job does: an invalid or used one changes
    /// nothing, one that was authorized for another message is refused, and any
    /// other may commit once the state is written.
    pub open spec fn authorizes<W: Fn(&ProofParty<N, B, S>, u64) -> Result<(), String>>(
        self,
        signing_job: Seq<u8>,
        message: Seq<u8>,
        write: W,
        after: ProofParty<N, B, S>,
        outcome: Result<(), Seq<char>>,
    ) -> bool {
        if !self.signable(signing_job, message) {
            &&& outcome == Err::<(), Seq<char>>("FROST authorization names an invalid or used signing job"@)
            &&& after == self
        } else if self.frost_authorized.has(signing_job) && self.frost_authorized.at(signing_job)@ != sha256(message) {
            &&& outcome == Err::<(), Seq<char>>("FROST signing authorization was changed"@)
            &&& self.authorized(signing_job, message, after)
        } else {
            exists|middle: ProofParty<N, B, S>| #[trigger]
                self.authorized(signing_job, message, middle) && written(write, middle, after, outcome)
        }
    }

    /// Allows one signing job to commit, durably.
    pub fn authorize_frost<W: Fn(&ProofParty<N, B, S>, u64) -> Result<(), String>>(
        &mut self,
        signing_job_id: [u8; 32],
        message: &[u8],
        write: &W,
    ) -> (r: Result<(), String>)
        requires
            old(self).consistent(),
            can_write(*write),
        ensures
            final(self).consistent(),
            old(self).keeps_used(*final(self)),
            old(self).authorizes(signing_job_id@, message@, *write, *final(self), outcome_of(r)),
    {
        let expected = signing_job(message);
        if !same32(&signing_job_id, &expected) || !self.is_unused(&signing_job_id) {
            return Err("FROST authorization names an invalid or used signing job".to_owned());
        }
        let digest = hash(message);
        let changed = match self.frost_authorized.get(&signing_job_id) {
            Some(prior) => !same32(prior, &digest),
            None => false,
        };
        self.frost_authorized.insert(signing_job_id, digest);
        proof {
            lifecycle_kept_by_authorization(*old(self), *self, signing_job_id@);
        }
        if changed {
            return Err("FROST signing authorization was changed".to_owned());
        }
        let ghost middle = *self;
        assert(old(self).authorized(signing_job_id@, message@, middle));
        self.persist(write)
    }
}

/// Authorizing an unused signing job keeps the lifecycle consistent.
proof fn lifecycle_kept_by_authorization<N, B, S>(
    before: ProofParty<N, B, S>,
    after: ProofParty<N, B, S>,
    signing_job: Seq<u8>,
)
    requires
        before.consistent(),
        before.unused(signing_job),
        after == (ProofParty { frost_authorized: after.frost_authorized, ..before }),
        after.frost_authorized.sorted(),
        after.frost_authorized.same_but(before.frost_authorized, signing_job),
    ensures
        after.consistent(),
{
    assert forall|k: Seq<u8>| !(#[trigger] after.frost_authorized.has(k) && #[trigger] after.frost_reserved.has(k)) by {
        if k != signing_job {
            assert(after.frost_authorized.has(k) == before.frost_authorized.has(k));
        }
    }
    assert forall|k: Seq<u8>| !(#[trigger] after.frost_authorized.has(k) && #[trigger] after.frost_consumed.has(k)) by {
        if k != signing_job {
            assert(after.frost_authorized.has(k) == before.frost_authorized.has(k));
        }
    }
}

} // verus!
