//! What a node finds in the wires of a request: decoded payments and contexts,
//! and what the verifier of each proof and signature says of them.

use vstd::prelude::*;
use crate::fields::{either, hex_in};
use crate::group::Point;
use crate::json::{Json, Value};
use crate::proof_authorize::{
    scan_refusal, PoolAllocationFacts, PqApproval, StandingPoolAllocationBinding, TypedReserveFacts, PAYMENT_HORIZON,
};
use crate::proof_codec::{
    decode_dvp_proofs, decode_threshold_range, scan_dvp, scan_range, DvpProofs, ProductProof, ThresholdRangeProof,
};
use crate::proof_dkg::QuorumPolicy;
use crate::proof_mandate::{
    ExecutionContext, MakerPolicyMandate, MandateTools, Payment, ReserveMandate, TakerExecutionMandate,
};
use crate::proof_params::{job_id, job_id_refusal, one_wire, one_wire_refusal, wire_in};
use crate::proof_settle::TypedFacts;
use crate::proof_state::{FrostKey, ProofJob, ProofParty};

verus! {

/// What decodes a payment and its context.
pub struct WireTools<P, C, D> {
    /// Decodes a payment.
    pub payment: P,
    /// Decodes a context, for the payment of a wire.
    pub context: C,
    /// Gives the digest that the payment and the context of two wires are signed under.
    pub digest: D,
}

/// Whether a wire is decoded as this payment, or as none.
pub open spec fn payment_read<P: Fn(&Vec<u8>) -> Option<Payment>>(
    read: P,
    wire: Seq<u8>,
    payment: Option<Payment>,
) -> bool {
    exists|w: &Vec<u8>| w@ == wire && #[trigger] call_ensures(read, (w,), payment)
}

/// Whether a wire is decoded as this context of a payment's wire, or as none.
pub open spec fn context_read<C: Fn(&Vec<u8>, &Vec<u8>) -> Option<ExecutionContext>>(
    read: C,
    wire: Seq<u8>,
    payment: Seq<u8>,
    context: Option<ExecutionContext>,
) -> bool {
    exists|c: &Vec<u8>, p: &Vec<u8>| c@ == wire && p@ == payment && #[trigger] call_ensures(read, (c, p), context)
}

/// Whether a payment's wire and a context's wire are signed under this digest.
pub open spec fn digest_told<D: Fn(&Vec<u8>, &Vec<u8>) -> Result<Vec<u8>, String>>(
    digest: D,
    payment: Seq<u8>,
    context: Seq<u8>,
    told: Result<Vec<u8>, String>,
) -> bool {
    exists|p: &Vec<u8>, c: &Vec<u8>| p@ == payment && c@ == context && #[trigger] call_ensures(digest, (p, c), told)
}

impl<
    P: Fn(&Vec<u8>) -> Option<Payment>,
    C: Fn(&Vec<u8>, &Vec<u8>) -> Option<ExecutionContext>,
    D: Fn(&Vec<u8>, &Vec<u8>) -> Result<Vec<u8>, String>,
> WireTools<P, C, D> {
    /// Whether any wires can be decoded.
    pub open spec fn ready(self) -> bool {
        &&& forall|w: &Vec<u8>| call_requires(self.payment, (w,))
        &&& forall|c: &Vec<u8>, p: &Vec<u8>| call_requires(self.context, (c, p))
        &&& forall|p: &Vec<u8>, c: &Vec<u8>| call_requires(self.digest, (p, c))
    }

    /// Whether this is what the payment and the context of a request come to. The
    /// digest is that of the two wires.
    pub open spec fn found(
        self,
        params: Json,
        payment: Option<Payment>,
        context: Option<ExecutionContext>,
        expected: Result<Vec<u8>, String>,
    ) -> bool {
        let payment_wire = wire_in(params.field("payment"@));
        let context_wire = wire_in(params.field("context"@));
        &&& one_wire_refusal(params, "payment"@) is None ==> payment_read(self.payment, payment_wire, payment)
        &&& one_wire_refusal(params, "payment"@) is None && one_wire_refusal(params, "context"@) is None
            && payment is Some ==> {
            &&& context_read(self.context, context_wire, payment_wire, context)
            &&& context is Some ==> digest_told(self.digest, payment_wire, context_wire, expected)
        }
    }

    /// Decodes the payment and the context of a request.
    pub fn find(&self, params: &Value) -> (r: (Option<Payment>, Option<ExecutionContext>, Result<Vec<u8>, String>))
        requires
            self.ready(),
        ensures
            self.found(params@, r.0, r.1, r.2),
    {
        let payment_wire = match one_wire(params, "payment") {
            Err(e) => {
                return (None, None, Err(e));
            },
            Ok(wire) => wire,
        };
        let payment = (self.payment)(&payment_wire);
        assert(call_ensures(self.payment, (&payment_wire,), payment));
        if payment.is_none() {
            return (payment, None, Ok(Vec::new()));
        }
        let context_wire = match one_wire(params, "context") {
            Err(e) => {
                return (payment, None, Err(e));
            },
            Ok(wire) => wire,
        };
        let context = (self.context)(&context_wire, &payment_wire);
        assert(call_ensures(self.context, (&context_wire, &payment_wire), context));
        if context.is_none() {
            return (payment, context, Ok(Vec::new()));
        }
        let expected = (self.digest)(&payment_wire, &context_wire);
        assert(call_ensures(self.digest, (&payment_wire, &context_wire), expected));
        (payment, context, expected)
    }
}

/// Whether any group key can be asked for its signature over a digest.
pub open spec fn checks_payments<G: Fn(&Vec<u8>, &[u8; 64], &Vec<u8>) -> bool>(signed: G) -> bool {
    forall|k: &Vec<u8>, d: &[u8; 64], s: &Vec<u8>| call_requires(signed, (k, d, s))
}

/// Whether this is what the signature over a payment's digest, under the group key,
/// comes to.
pub open spec fn payment_signed<G: Fn(&Vec<u8>, &[u8; 64], &Vec<u8>) -> bool>(
    signed: G,
    key: Option<FrostKey>,
    payment: Option<Payment>,
    answer: bool,
) -> bool {
    match (key, payment) {
        (Some(key), Some(payment)) => call_ensures(
            signed,
            (&key.public_package, &payment.digest, &payment.signature),
            answer,
        ),
        _ => !answer,
    }
}

fn check_payment<G: Fn(&Vec<u8>, &[u8; 64], &Vec<u8>) -> bool>(
    signed: &G,
    key: &Option<FrostKey>,
    payment: &Option<Payment>,
) -> (answer: bool)
    requires
        checks_payments(*signed),
    ensures
        payment_signed(*signed, *key, *payment, answer),
{
    match (key, payment) {
        (Some(key), Some(payment)) => signed(&key.public_package, &payment.digest, &payment.signature),
        _ => false,
    }
}

/// The bounds within which a venue accepts a payment.
#[derive(Clone, Copy, Debug, PartialEq, Eq, Structural)]
pub struct VenueBounds {
    pub amount_bits: usize,
    pub price_bits: usize,
    /// The longest time until a deadline, in seconds.
    pub max_horizon: u64,
}

/// What verifies the payment of a settlement under the committee's keys.
pub struct VenueTools<A, V> {
    /// Says whether the committee fits the group key.
    pub accept: A,
    /// Verifies the payment of a wire, its threshold ranges among the rest, under the
    /// group key and the committee, within bounds, at a time.
    pub verify: V,
}

/// Whether the payment of a wire came out so.
pub open spec fn payment_tried<V: Fn(&Vec<u8>, &Vec<u8>, &QuorumPolicy, VenueBounds, u64) -> Result<(), String>>(
    verify: V,
    wire: Seq<u8>,
    public: Vec<u8>,
    committee: QuorumPolicy,
    bounds: VenueBounds,
    now: u64,
    verdict: Result<(), String>,
) -> bool {
    exists|w: &Vec<u8>|
        w@ == wire && #[trigger] call_ensures(verify, (w, &public, &committee, bounds, now), verdict)
}

impl<
    A: Fn(&Vec<u8>, &QuorumPolicy) -> Result<(), String>,
    V: Fn(&Vec<u8>, &Vec<u8>, &QuorumPolicy, VenueBounds, u64) -> Result<(), String>,
> VenueTools<A, V> {
    /// Whether any payment can be verified.
    pub open spec fn ready(self) -> bool {
        &&& forall|k: &Vec<u8>, q: &QuorumPolicy| call_requires(self.accept, (k, q))
        &&& forall|w: &Vec<u8>, k: &Vec<u8>, q: &QuorumPolicy, b: VenueBounds, now: u64|
            call_requires(self.verify, (w, k, q, b, now))
    }
}

/// What the allocation out of a standing pool is verified with.
pub struct PoolTools<I, K, L, A, U, R, H, F> {
    /// Reads an allocation and the message that encodes it.
    pub binding: I,
    /// Gives the identifier of the pool of a mandate with a digest.
    pub pool_id: K,
    /// Gives the digest of the delegation of a pool under a mandate in an epoch.
    pub delegation: L,
    /// Says whether the committee approved a digest at a time.
    pub approve: A,
    /// Verifies that a quantity times a price is an amount of cash.
    pub product: U,
    /// Verifies that a remainder is in range.
    pub range: R,
    /// Gives the digest of the delivery proofs of a payment's wire, with the cash and
    /// the two remainders.
    pub package: H,
    /// Gives the digest of a range proof.
    pub range_digest: F,
}

/// The remainder that a range proof speaks of.
#[derive(Clone, Copy, Debug, PartialEq, Eq, Structural)]
pub enum Remainder {
    Securities,
    Cash,
    Pool,
}

/// Whether the delivery proofs have this digest.
pub open spec fn package_told<H: Fn(&Vec<u8>, &Point, &Point, &Point, &DvpProofs) -> [u8; 32]>(
    package: H,
    payment: Seq<u8>,
    cash: Point,
    securities_remainder: Point,
    cash_remainder: Point,
    proofs: DvpProofs,
    digest: [u8; 32],
) -> bool {
    exists|p: &Vec<u8>|
        p@ == payment && #[trigger] call_ensures(
            package,
            (p, &cash, &securities_remainder, &cash_remainder, &proofs),
            digest,
        )
}

/// Whether an allocation is read from a document so.
pub open spec fn binding_read<I: Fn(&Value) -> Result<StandingPoolAllocationBinding, String>>(
    read: I,
    document: Json,
    binding: Result<StandingPoolAllocationBinding, String>,
) -> bool {
    exists|v: &Value| v@ == document && #[trigger] call_ensures(read, (v,), binding)
}

/// Whether a job holds the points that the proofs of an allocation speak of.
pub open spec fn pool_points<N, B, S>(job: ProofJob<N, B, S>) -> bool {
    &&& job.quantity_commitment is Some
    &&& job.cash_commitment is Some
    &&& job.securities_remainder is Some
    &&& job.cash_remainder is Some
    &&& job.pool_remainder_commitment is Some
}

impl<
    I: Fn(&Value) -> Result<StandingPoolAllocationBinding, String>,
    K: Fn(&MakerPolicyMandate, &[u8; 32]) -> Result<[u8; 32], String>,
    L: Fn(&[u8; 32], &MakerPolicyMandate, u64) -> Result<[u8; 32], String>,
    A: Fn(&QuorumPolicy, &Vec<u8>, &[u8; 64], u64) -> Result<(), String>,
    U: Fn(&Point, &[u8; 32], &Point, &ProductProof) -> bool,
    R: Fn(Remainder, &Point, &ThresholdRangeProof) -> bool,
    H: Fn(&Vec<u8>, &Point, &Point, &Point, &DvpProofs) -> [u8; 32],
    F: Fn(&ThresholdRangeProof) -> [u8; 32],
> PoolTools<I, K, L, A, U, R, H, F> {
    /// Whether any allocation can be verified.
    pub open spec fn ready(self) -> bool {
        &&& forall|v: &Value| call_requires(self.binding, (v,))
        &&& forall|m: &MakerPolicyMandate, d: &[u8; 32]| call_requires(self.pool_id, (m, d))
        &&& forall|p: &[u8; 32], m: &MakerPolicyMandate, e: u64| call_requires(self.delegation, (p, m, e))
        &&& forall|q: &QuorumPolicy, a: &Vec<u8>, d: &[u8; 64], now: u64| call_requires(self.approve, (q, a, d, now))
        &&& forall|a: &Point, b: &[u8; 32], c: &Point, p: &ProductProof| call_requires(self.product, (a, b, c, p))
        &&& forall|x: Remainder, a: &Point, p: &ThresholdRangeProof| call_requires(self.range, (x, a, p))
        &&& forall|w: &Vec<u8>, a: &Point, b: &Point, c: &Point, p: &DvpProofs|
            call_requires(self.package, (w, a, b, c, p))
        &&& forall|p: &ThresholdRangeProof| call_requires(self.range_digest, (p,))
    }

    /// Whether a pool and its delegation are told so, of a mandate and the pool and
    /// epoch that an allocation names.
    pub open spec fn names(
        self,
        maker: MakerPolicyMandate,
        binding: StandingPoolAllocationBinding,
        pool_id: Result<[u8; 32], String>,
        delegation: Result<[u8; 32], String>,
    ) -> bool {
        &&& maker.digest matches Ok(digest) ==> call_ensures(self.pool_id, (&maker, &digest), pool_id)
        &&& call_ensures(self.delegation, (&binding.pool_id, &maker, binding.committee_epoch), delegation)
    }

    /// Whether the committee's approval of a payment comes to this at a time.
    pub open spec fn approved(
        self,
        committee: Option<QuorumPolicy>,
        payment: Payment,
        now: u64,
        approval: PqApproval,
    ) -> bool {
        match (committee, payment.pq_approval) {
            (None, _) => approval is NoCommittee,
            (Some(_), None) => approval is Missing,
            (Some(committee), Some(given)) => match approval {
                PqApproval::Valid => call_ensures(self.approve, (&committee, &given, &payment.digest, now), Ok(())),
                PqApproval::Refused(e) => call_ensures(
                    self.approve,
                    (&committee, &given, &payment.digest, now),
                    Err(e),
                ),
                _ => false,
            },
        }
    }

    /// Whether the delivery proofs come to this: the product of the job's quantity and
    /// the payment's price is its cash, and both its remainders are in range.
    pub open spec fn delivers<N, B, S>(
        self,
        job: ProofJob<N, B, S>,
        payment: Payment,
        proofs: DvpProofs,
        valid: bool,
    ) -> bool {
        exists|product: bool, securities: bool, cash: bool|
            valid == (product && securities && cash) && #[trigger] call_ensures(
                self.product,
                (
                    &(job.quantity_commitment->0),
                    &payment.price_commitment,
                    &(job.cash_commitment->0),
                    &proofs.product,
                ),
                product,
            ) && #[trigger] call_ensures(
                self.range,
                (Remainder::Securities, &(job.securities_remainder->0), &proofs.securities_remainder),
                securities,
            ) && #[trigger] call_ensures(
                self.range,
                (Remainder::Cash, &(job.cash_remainder->0), &proofs.cash_remainder),
                cash,
            )
    }

    /// Whether what the proofs of a request are found to be, for a job with all its
    /// points, is told in the facts.
    pub open spec fn weighs<N, B, S>(
        self,
        job: ProofJob<N, B, S>,
        payment_wire: Seq<u8>,
        payment: Payment,
        proofs: DvpProofs,
        range: ThresholdRangeProof,
        facts: PoolAllocationFacts,
    ) -> bool {
        &&& self.delivers(job, payment, proofs, facts.dvp_valid)
        &&& package_told(
            self.package,
            payment_wire,
            job.cash_commitment->0,
            job.securities_remainder->0,
            job.cash_remainder->0,
            proofs,
            facts.dvp_package_digest,
        )
        &&& call_ensures(self.range_digest, (&range,), facts.range_digest)
        &&& call_ensures(
            self.range,
            (Remainder::Pool, &(job.pool_remainder_commitment->0), &range),
            facts.range_valid,
        )
    }

    /// Weighs the proofs of an allocation against the job's points.
    fn weigh<N, B, S>(
        &self,
        job: &ProofJob<N, B, S>,
        wire: &Vec<u8>,
        proofs: &DvpProofs,
        range: &ThresholdRangeProof,
        facts: &mut PoolAllocationFacts,
    )
        requires
            self.ready(),
        ensures
            *final(facts) == (PoolAllocationFacts {
                dvp_valid: final(facts).dvp_valid,
                dvp_package_digest: final(facts).dvp_package_digest,
                range_digest: final(facts).range_digest,
                range_valid: final(facts).range_valid,
                ..*old(facts)
            }),
            pool_points(*job) && old(facts).payment is Some ==> self.weighs(
                *job,
                wire@,
                old(facts).payment->0,
                *proofs,
                *range,
                *final(facts),
            ),
    {
        if let (Some(quantity), Some(cash), Some(securities_rest), Some(cash_rest), Some(pool_rest)) = (
            &job.quantity_commitment,
            &job.cash_commitment,
            &job.securities_remainder,
            &job.cash_remainder,
            &job.pool_remainder_commitment,
        ) {
            if let Some(payment) = &facts.payment {
                let product = (self.product)(quantity, &payment.price_commitment, cash, &proofs.product);
                let securities = (self.range)(Remainder::Securities, securities_rest, &proofs.securities_remainder);
                let paid = (self.range)(Remainder::Cash, cash_rest, &proofs.cash_remainder);
                assert(call_ensures(
                    self.product,
                    (quantity, &payment.price_commitment, cash, &proofs.product),
                    product,
                ));
                let digest = (self.package)(wire, cash, securities_rest, cash_rest, proofs);
                assert(call_ensures(self.package, (wire, cash, securities_rest, cash_rest, proofs), digest));
                facts.dvp_valid = product && securities && paid;
                facts.dvp_package_digest = digest;
                facts.range_digest = (self.range_digest)(range);
                facts.range_valid = (self.range)(Remainder::Pool, pool_rest, range);
            }
        }
    }

    fn approval(&self, committee: &Option<QuorumPolicy>, payment: &Payment, now: u64) -> (approval: PqApproval)
        requires
            self.ready(),
        ensures
            self.approved(*committee, *payment, now, approval),
    {
        let committee = match committee {
            None => {
                return PqApproval::NoCommittee;
            },
            Some(committee) => committee,
        };
        let given = match &payment.pq_approval {
            None => {
                return PqApproval::Missing;
            },
            Some(given) => given,
        };
        let said = (self.approve)(committee, given, &payment.digest, now);
        let ghost answer = said;
        match said {
            Ok(_) => {
                assert(answer->Ok_0 == ());
                PqApproval::Valid
            },
            Err(e) => PqApproval::Refused(e),
        }
    }
}

/// Whether these are the delivery proofs of a wire.
pub open spec fn proofs_said(wire: Seq<u8>, proofs: DvpProofs) -> bool {
    proofs.wire() == wire && proofs.bounded() && proofs.canonical()
}

/// Whether this is the range proof of a wire.
pub open spec fn range_said(wire: Seq<u8>, range: ThresholdRangeProof) -> bool {
    range.wire() == wire && range.bounded() && range.canonical()
}

/// Why a request carries no proofs of an allocation.
pub open spec fn pool_proofs_refusal(params: Json) -> Option<Seq<char>> {
    either(one_wire_refusal(params, "dvp_proofs"@),
    either(scan_refusal(scan_dvp(wire_in(params.field("dvp_proofs"@)))),
    either(one_wire_refusal(params, "pool_remainder_range"@),
    scan_refusal(scan_range(wire_in(params.field("pool_remainder_range"@)))))))
}

/// Reads the proofs of an allocation.
pub fn pool_proofs(params: &Value) -> (r: Result<(DvpProofs, ThresholdRangeProof), String>)
    ensures
        match r {
            Ok((proofs, range)) => {
                &&& pool_proofs_refusal(params@) is None
                &&& proofs_said(wire_in(params@.field("dvp_proofs"@)), proofs)
                &&& range_said(wire_in(params@.field("pool_remainder_range"@)), range)
            },
            Err(e) => pool_proofs_refusal(params@) == Some(e@),
        },
{
    let dvp_wire = match one_wire(params, "dvp_proofs") {
        Err(e) => {
            return Err(e);
        },
        Ok(value) => value,
    };
    let proofs = match decode_dvp_proofs(dvp_wire.as_slice()) {
        Err(e) => {
            return Err(e);
        },
        Ok(value) => value,
    };
    let range_wire = match one_wire(params, "pool_remainder_range") {
        Err(e) => {
            return Err(e);
        },
        Ok(value) => value,
    };
    match decode_threshold_range(range_wire.as_slice()) {
        Err(e) => Err(e),
        Ok(range) => Ok((proofs, range)),
    }
}

impl<N, B, S> ProofParty<N, B, S> {
    /// Whether this is what a request for a reserve's context comes to.
    pub open spec fn reserve_looked<
        G: Fn(&Vec<u8>) -> Result<(), String>,
        M: Fn(&Vec<u8>, &Vec<u8>, Option<u64>) -> Result<MakerPolicyMandate, String>,
        T: Fn(&Vec<u8>, &Vec<u8>, Option<u64>) -> Result<TakerExecutionMandate, String>,
        P: Fn(&Vec<u8>) -> Option<Payment>,
        C: Fn(&Vec<u8>, &Vec<u8>) -> Option<ExecutionContext>,
        D: Fn(&Vec<u8>, &Vec<u8>) -> Result<Vec<u8>, String>,
        E: Fn(&Vec<u8>, &[u8; 64], &Vec<u8>) -> bool,
    >(
        self,
        params: Json,
        now: Option<u64>,
        mandates: MandateTools<G, M, T>,
        wires: WireTools<P, C, D>,
        signed: E,
        facts: TypedReserveFacts,
    ) -> bool {
        &&& facts.now == now
        &&& mandates.reads(params, now, facts.mandate)
        &&& wires.found(params, facts.payment, facts.context, facts.expected)
        &&& payment_signed(signed, self.frost_key, facts.payment, facts.payment_signed)
    }

    /// Decodes and verifies what a request for a reserve's context carries.
    pub fn look_at_reserve<
        G: Fn(&Vec<u8>) -> Result<(), String>,
        M: Fn(&Vec<u8>, &Vec<u8>, Option<u64>) -> Result<MakerPolicyMandate, String>,
        T: Fn(&Vec<u8>, &Vec<u8>, Option<u64>) -> Result<TakerExecutionMandate, String>,
        P: Fn(&Vec<u8>) -> Option<Payment>,
        C: Fn(&Vec<u8>, &Vec<u8>) -> Option<ExecutionContext>,
        D: Fn(&Vec<u8>, &Vec<u8>) -> Result<Vec<u8>, String>,
        E: Fn(&Vec<u8>, &[u8; 64], &Vec<u8>) -> bool,
    >(
        &self,
        params: &Value,
        now: Option<u64>,
        mandates: &MandateTools<G, M, T>,
        wires: &WireTools<P, C, D>,
        signed: &E,
    ) -> (facts: TypedReserveFacts)
        requires
            mandates.ready(),
            wires.ready(),
            checks_payments(*signed),
        ensures
            self.reserve_looked(params@, now, *mandates, *wires, *signed, facts),
    {
        let mandate = mandates.read(params, now);
        let (payment, context, expected) = wires.find(params);
        let payment_signed = check_payment(signed, &self.frost_key, &payment);
        TypedReserveFacts { mandate, payment, payment_signed, context, now, expected }
    }

    /// The bounds within which this node's venue accepts a payment.
    pub open spec fn bounds(self) -> VenueBounds {
        VenueBounds {
            amount_bits: self.config.amount_bits,
            price_bits: self.config.price_bits,
            max_horizon: PAYMENT_HORIZON,
        }
    }

    /// Whether this is what a request for a settlement comes to.
    pub open spec fn settlement_looked<
        P: Fn(&Vec<u8>) -> Option<Payment>,
        C: Fn(&Vec<u8>, &Vec<u8>) -> Option<ExecutionContext>,
        D: Fn(&Vec<u8>, &Vec<u8>) -> Result<Vec<u8>, String>,
        A: Fn(&Vec<u8>, &QuorumPolicy) -> Result<(), String>,
        V: Fn(&Vec<u8>, &Vec<u8>, &QuorumPolicy, VenueBounds, u64) -> Result<(), String>,
    >(
        self,
        params: Json,
        now: Option<u64>,
        wires: WireTools<P, C, D>,
        venue: VenueTools<A, V>,
        facts: TypedFacts,
    ) -> bool {
        &&& facts.now == now
        &&& wires.found(params, facts.payment, facts.context, facts.expected)
        &&& one_wire_refusal(params, "payment"@) is None && self.frost_key is Some && self.pq_committee is Some
            && now is Some ==> {
            &&& call_ensures(
                venue.accept,
                (&(self.frost_key->0).public_package, &(self.pq_committee->0)),
                facts.committee_accepted,
            )
            &&& facts.committee_accepted is Ok ==> payment_tried(
                venue.verify,
                wire_in(params.field("payment"@)),
                (self.frost_key->0).public_package,
                self.pq_committee->0,
                self.bounds(),
                now->0,
                facts.payment_verified,
            )
        }
    }

    /// Decodes and verifies what a request for a settlement carries.
    pub fn look_at_settlement<
        P: Fn(&Vec<u8>) -> Option<Payment>,
        C: Fn(&Vec<u8>, &Vec<u8>) -> Option<ExecutionContext>,
        D: Fn(&Vec<u8>, &Vec<u8>) -> Result<Vec<u8>, String>,
        A: Fn(&Vec<u8>, &QuorumPolicy) -> Result<(), String>,
        V: Fn(&Vec<u8>, &Vec<u8>, &QuorumPolicy, VenueBounds, u64) -> Result<(), String>,
    >(
        &self,
        params: &Value,
        now: Option<u64>,
        wires: &WireTools<P, C, D>,
        venue: &VenueTools<A, V>,
    ) -> (facts: TypedFacts)
        requires
            wires.ready(),
            venue.ready(),
        ensures
            self.settlement_looked(params@, now, *wires, *venue, facts),
    {
        let (payment, context, expected) = wires.find(params);
        let mut committee_accepted: Result<(), String> = Ok(());
        let mut payment_verified: Result<(), String> = Ok(());
        if let Ok(wire) = one_wire(params, "payment") {
            if let Some(key) = &self.frost_key {
                if let Some(committee) = &self.pq_committee {
                    if let Some(time) = now {
                        let bounds = VenueBounds {
                            amount_bits: self.config.amount_bits,
                            price_bits: self.config.price_bits,
                            max_horizon: PAYMENT_HORIZON,
                        };
                        committee_accepted = (venue.accept)(&key.public_package, committee);
                        if committee_accepted.is_ok() {
                            payment_verified = (venue.verify)(&wire, &key.public_package, committee, bounds, time);
                            assert(call_ensures(
                                venue.verify,
                                (&wire, &key.public_package, committee, bounds, time),
                                payment_verified,
                            ));
                        }
                    }
                }
            }
        }
        TypedFacts { payment, context, now, committee_accepted, payment_verified, expected }
    }

    /// Whether this is what a request for the allocation of a pool comes to.
    pub open spec fn pool_looked<
        G: Fn(&Vec<u8>) -> Result<(), String>,
        M: Fn(&Vec<u8>, &Vec<u8>, Option<u64>) -> Result<MakerPolicyMandate, String>,
        T: Fn(&Vec<u8>, &Vec<u8>, Option<u64>) -> Result<TakerExecutionMandate, String>,
        P: Fn(&Vec<u8>) -> Option<Payment>,
        E: Fn(&Vec<u8>, &[u8; 64], &Vec<u8>) -> bool,
        I: Fn(&Value) -> Result<StandingPoolAllocationBinding, String>,
        K: Fn(&MakerPolicyMandate, &[u8; 32]) -> Result<[u8; 32], String>,
        L: Fn(&[u8; 32], &MakerPolicyMandate, u64) -> Result<[u8; 32], String>,
        A: Fn(&QuorumPolicy, &Vec<u8>, &[u8; 64], u64) -> Result<(), String>,
        U: Fn(&Point, &[u8; 32], &Point, &ProductProof) -> bool,
        R: Fn(Remainder, &Point, &ThresholdRangeProof) -> bool,
        H: Fn(&Vec<u8>, &Point, &Point, &Point, &DvpProofs) -> [u8; 32],
        F: Fn(&ThresholdRangeProof) -> [u8; 32],
    >(
        self,
        params: Json,
        now: Option<u64>,
        mandates: MandateTools<G, M, T>,
        read: P,
        signed: E,
        by: PoolTools<I, K, L, A, U, R, H, F>,
        facts: PoolAllocationFacts,
    ) -> bool {
        let id = hex_in(params.field("job_id"@));
        let wire = wire_in(params.field("payment"@));
        &&& facts.now == now
        &&& params.field("allocation_binding"@) matches Some(document) ==> binding_read(
            by.binding,
            document,
            facts.binding,
        )
        &&& mandates.reads(params, now, facts.mandate)
        &&& one_wire_refusal(params, "payment"@) is None ==> payment_read(read, wire, facts.payment)
        &&& payment_signed(signed, self.frost_key, facts.payment, facts.payment_signed)
        &&& params.field("allocation_binding"@) is Some && facts.binding is Ok && facts.mandate is Ok
            && facts.mandate->Ok_0 is Maker ==> by.names(
            facts.mandate->Ok_0->Maker_0,
            facts.binding->Ok_0,
            facts.pool_id,
            facts.delegation_digest,
        )
        &&& one_wire_refusal(params, "payment"@) is None && facts.payment is Some && now is Some ==> by.approved(
            self.pq_committee,
            facts.payment->0,
            now->0,
            facts.approval,
        )
        &&& job_id_refusal(params) is None && self.jobs.has(id) && pool_points(self.jobs.at(id)) && one_wire_refusal(
            params,
            "payment"@,
        ) is None && facts.payment is Some && pool_proofs_refusal(params) is None ==> exists|
            proofs: DvpProofs,
            range: ThresholdRangeProof,
        |
            proofs_said(wire_in(params.field("dvp_proofs"@)), proofs) && range_said(
                wire_in(params.field("pool_remainder_range"@)),
                range,
            ) && #[trigger] by.weighs(self.jobs.at(id), wire, facts.payment->0, proofs, range, facts)
    }

    /// Decodes and verifies what a request for the allocation of a pool carries.
    pub fn look_at_pool<
        G: Fn(&Vec<u8>) -> Result<(), String>,
        M: Fn(&Vec<u8>, &Vec<u8>, Option<u64>) -> Result<MakerPolicyMandate, String>,
        T: Fn(&Vec<u8>, &Vec<u8>, Option<u64>) -> Result<TakerExecutionMandate, String>,
        P: Fn(&Vec<u8>) -> Option<Payment>,
        E: Fn(&Vec<u8>, &[u8; 64], &Vec<u8>) -> bool,
        I: Fn(&Value) -> Result<StandingPoolAllocationBinding, String>,
        K: Fn(&MakerPolicyMandate, &[u8; 32]) -> Result<[u8; 32], String>,
        L: Fn(&[u8; 32], &MakerPolicyMandate, u64) -> Result<[u8; 32], String>,
        A: Fn(&QuorumPolicy, &Vec<u8>, &[u8; 64], u64) -> Result<(), String>,
        U: Fn(&Point, &[u8; 32], &Point, &ProductProof) -> bool,
        R: Fn(Remainder, &Point, &ThresholdRangeProof) -> bool,
        H: Fn(&Vec<u8>, &Point, &Point, &Point, &DvpProofs) -> [u8; 32],
        F: Fn(&ThresholdRangeProof) -> [u8; 32],
    >(
        &self,
        params: &Value,
        now: Option<u64>,
        mandates: &MandateTools<G, M, T>,
        read: &P,
        signed: &E,
        by: &PoolTools<I, K, L, A, U, R, H, F>,
    ) -> (facts: PoolAllocationFacts)
        requires
            self.ordered(),
            mandates.ready(),
            forall|w: &Vec<u8>| call_requires(*read, (w,)),
            checks_payments(*signed),
            by.ready(),
        ensures
            self.pool_looked(params@, now, *mandates, *read, *signed, *by, facts),
    {
        let binding = match params.get("allocation_binding") {
            None => Err(String::new()),
            Some(document) => {
                let binding = (by.binding)(document);
                assert(call_ensures(by.binding, (document,), binding));
                assert(binding_read(by.binding, document@, binding));
                binding
            },
        };
        let mandate = mandates.read(params, now);
        let wire = one_wire(params, "payment");
        let payment = match &wire {
            Err(_) => None,
            Ok(wire) => {
                let payment = read(wire);
                assert(call_ensures(*read, (wire,), payment));
                payment
            },
        };
        let payment_signed = check_payment(signed, &self.frost_key, &payment);
        let mut pool_id: Result<[u8; 32], String> = Err(String::new());
        let mut delegation_digest: Result<[u8; 32], String> = Err(String::new());
        if let Ok(allocation) = &binding {
            if let Ok(ReserveMandate::Maker(maker)) = &mandate {
                if let Ok(digest) = &maker.digest {
                    pool_id = (by.pool_id)(maker, digest);
                }
                delegation_digest = (by.delegation)(&allocation.pool_id, maker, allocation.committee_epoch);
                assert(by.names(*maker, *allocation, pool_id, delegation_digest));
            }
        }
        let mut approval = PqApproval::Missing;
        if let Some(payment) = &payment {
            if let Some(time) = now {
                approval = by.approval(&self.pq_committee, payment, time);
            }
        }
        let mut facts = PoolAllocationFacts {
            binding,
            mandate,
            payment,
            payment_signed,
            approval,
            now,
            pool_id,
            delegation_digest,
            dvp_valid: false,
            dvp_package_digest: [0u8; 32],
            range_digest: [0u8; 32],
            range_valid: false,
        };
        let id = match job_id(params) {
            Err(_) => {
                return facts;
            },
            Ok(id) => id,
        };
        let (proofs, range) = match pool_proofs(params) {
            Err(_) => {
                return facts;
            },
            Ok(found) => found,
        };
        if let Some(job) = self.jobs.get(&id) {
            if let Ok(wire) = &wire {
                by.weigh(job, wire, &proofs, &range, &mut facts);
            }
        }
        facts
    }
}

} // verus!
