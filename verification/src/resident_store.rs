//! Advancing the secret-share state of one resident node.

use vstd::prelude::*;
use crate::bytes::{be_bytes, copied, is_zero32, put, put_be, same32, text_bytes, zero32};
use crate::decimal::{decimal_to_scalar, decimal_value, is_decimal, is_decimal_bytes};
use crate::digest::{hash, sha256};
use crate::group::{group_order, Point};
use crate::resident_config::ResidentMpcConfig;
use crate::resident_state::{
    bindings_after, same_texts, share_offset, texts, MpcSecretState, SecretState, StandingPoolBinding,
};
use crate::sharing::{commit, order_positive, pedersen, resident_share, resident_share_from_evaluation, InputSharing};
use crate::text::{about, decimal, same_text};
use vstd::string::StringExecFns;

verus! {

/// Where the standing maker segment starts in a party input: after six public
/// and admission values and the four reserve values of the taker.
pub const STANDING_SHARES_OFFSET: usize = 10;

/// The encrypted store of one node's state, as its process sees it: where it
/// is, what unlocks it, whether it is there, and what reading it gave.
pub struct EncryptedMpcStateStore {
    pub path: String,
    pub passphrase: Vec<u8>,
    pub present: bool,
    pub contents: Result<MpcSecretState, String>,
}

/// What reading a store gives.
pub open spec fn stored(contents: Result<MpcSecretState, String>) -> Result<SecretState, Seq<char>> {
    match contents {
        Ok(state) => Ok(state@),
        Err(e) => Err(e@),
    }
}

/// Why a state does not follow another.
pub open spec fn swap_refusal(current: SecretState, expected_generation: nat, next: SecretState) -> Option<Seq<char>> {
    if current.generation != expected_generation {
        Some("MPC secret-state generation changed before commit"@)
    } else if expected_generation >= u64::MAX {
        Some("MPC secret-state generation overflowed before commit"@)
    } else if next.generation != expected_generation + 1 || next.version != current.version || next.node != current.node
        || next.source != current.source || next.standing.len() != current.standing.len() || next.policies
        != current.policies || next.blindings != current.blindings {
        Some("MPC secret-state update changed its circuit, identity, or policy"@)
    } else {
        None
    }
}

impl EncryptedMpcStateStore {
    /// A store that holds nothing yet.
    pub fn new(path: &str, passphrase: &[u8]) -> (r: Result<EncryptedMpcStateStore, String>)
        ensures
            r is Ok <==> passphrase@.len() >= 12,
            r matches Ok(store) ==> {
                &&& store.path@ == path@
                &&& store.passphrase@ == passphrase@
                &&& !store.present
                &&& stored(store.contents) == Err::<SecretState, Seq<char>>("MPC secret state is absent"@)
            },
            r matches Err(e) ==> e@ == "MPC-state passphrase must contain at least 12 bytes"@,
    {
        if passphrase.len() < 12 {
            return Err("MPC-state passphrase must contain at least 12 bytes".to_owned());
        }
        Ok(
            EncryptedMpcStateStore {
                path: path.to_owned(),
                passphrase: copied(passphrase),
                present: false,
                contents: Err("MPC secret state is absent".to_owned()),
            },
        )
    }

    /// Seeds the store with its first state.
    pub fn initialize(&mut self, state: &MpcSecretState) -> (r: Result<(), String>)
        ensures
            final(self).path@ == old(self).path@,
            final(self).passphrase@ == old(self).passphrase@,
            if old(self).present {
                &&& (r matches Err(e) && e@ == old(self).path@ + " already exists"@)
                &&& final(self).present
                &&& stored(final(self).contents) == stored(old(self).contents)
            } else {
                &&& r is Ok
                &&& final(self).present
                &&& stored(final(self).contents) == Ok::<SecretState, Seq<char>>(state@)
            },
    {
        if self.present {
            return Err(about(self.path.as_str(), " already exists"));
        }
        self.present = true;
        self.contents = Ok(state.copy());
        Ok(())
    }

    /// What the store holds.
    pub fn load(&self) -> (r: Result<MpcSecretState, String>)
        ensures
            stored(r) == stored(self.contents),
    {
        match &self.contents {
            Ok(state) => Ok(state.copy()),
            Err(e) => Err(e.clone()),
        }
    }

    /// Whether there is a state at all. A node without one has never been
    /// seeded; it must refuse to execute rather than invent maker inputs.
    pub fn is_present(&self) -> (r: bool)
        ensures
            r == self.present,
    {
        self.present
    }

    /// Replace one node's secret-share state after an accepted transition. The
    /// expected generation is a compare-and-swap guard: two requests proved
    /// against the same parent state cannot both advance it.
    pub fn compare_and_swap(&mut self, expected_generation: u64, next: &MpcSecretState) -> (r: Result<(), String>)
        ensures
            final(self).path@ == old(self).path@,
            final(self).passphrase@ == old(self).passphrase@,
            final(self).present == old(self).present,
            match stored(old(self).contents) {
                Err(e) => {
                    &&& r matches Err(f) && f@ == e
                    &&& stored(final(self).contents) == stored(old(self).contents)
                },
                Ok(current) => match swap_refusal(current, expected_generation as nat, next@) {
                    Some(e) => {
                        &&& r matches Err(f) && f@ == e
                        &&& stored(final(self).contents) == stored(old(self).contents)
                    },
                    None => {
                        &&& r is Ok
                        &&& stored(final(self).contents) == Ok::<SecretState, Seq<char>>(next@)
                    },
                },
            },
    {
        let current = match self.load() {
            Err(e) => {
                return Err(e);
            },
            Ok(state) => state,
        };
        if current.generation != expected_generation {
            return Err("MPC secret-state generation changed before commit".to_owned());
        }
        if expected_generation == u64::MAX {
            return Err("MPC secret-state generation overflowed before commit".to_owned());
        }
        if next.generation != expected_generation + 1 || next.version != current.version || next.node != current.node
            || !same_text(next.source_sha256.as_str(), current.source_sha256.as_str()) || next.dvp_input_shares.len()
            != current.dvp_input_shares.len() || !same_texts(&next.policy_input_shares, &current.policy_input_shares)
            || !same_texts(
            &next.quote_policy_blinding_input_shares,
            &current.quote_policy_blinding_input_shares,
        ) {
            return Err("MPC secret-state update changed its circuit, identity, or policy".to_owned());
        }
        self.contents = Ok(next.copy());
        Ok(())
    }
}

/// Of two updates prepared from one generation, after one was accepted the
/// other is refused.
pub proof fn one_update_per_generation(current: SecretState, generation: nat, first: SecretState, second: SecretState)
    requires
        swap_refusal(current, generation, first) is None,
    ensures
        swap_refusal(first, generation, second) is Some,
{
}

/// An accepted update leaves the node, the circuit and the policies as they were.
pub proof fn update_keeps_identity(current: SecretState, generation: nat, next: SecretState)
    requires
        swap_refusal(current, generation, next) is None,
    ensures
        next.generation == current.generation + 1,
        next.node == current.node,
        next.source == current.source,
        next.policies == current.policies,
        next.blindings == current.blindings,
        next.standing.len() == current.standing.len(),
{
}

/// The proof that one node committed a pool remainder.
#[derive(Clone, Copy, Debug, PartialEq, Eq)]
pub struct StandingPoolStateReceipt {
    pub node: u16,
    pub maker: usize,
    pub direction: u8,
    pub before_generation: u64,
    pub after_generation: u64,
    pub proof_job_id: [u8; 32],
    pub allocation_statement: [u8; 32],
    pub persistence_digest: [u8; 32],
    pub receipt_digest: [u8; 32],
}

impl StandingPoolStateReceipt {
    /// The hashed text.
    pub open spec fn message(self) -> Seq<u8> {
        text_bytes("QOMM:MPC:STANDING-POOL-STATE-RECEIPT:v1"@) + be_bytes(self.node as nat, 2) + be_bytes(
            self.maker as nat,
            8,
        ) + be_bytes(self.direction as nat, 1) + be_bytes(self.before_generation as nat, 8) + be_bytes(
            self.after_generation as nat,
            8,
        ) + self.proof_job_id@ + self.allocation_statement@ + self.persistence_digest@
    }

    /// Every part is present and the digest is that of the others.
    pub open spec fn complete(self) -> bool {
        &&& self.direction <= 1
        &&& self.before_generation != 0
        &&& self.after_generation == if self.before_generation == u64::MAX {
            u64::MAX as int
        } else {
            self.before_generation + 1
        }
        &&& self.proof_job_id@ != zero32()
        &&& self.allocation_statement@ != zero32()
        &&& self.persistence_digest@ != zero32()
        &&& self.receipt_digest@ == sha256(self.message())
    }

    fn unsigned_digest(&self) -> (digest: [u8; 32])
        ensures
            digest@ == sha256(self.message()),
    {
        let mut message: Vec<u8> = Vec::new();
        put(&mut message, "QOMM:MPC:STANDING-POOL-STATE-RECEIPT:v1".as_bytes());
        put_be(&mut message, self.node as u64, 2);
        put_be(&mut message, self.maker as u64, 8);
        put_be(&mut message, self.direction as u64, 1);
        put_be(&mut message, self.before_generation, 8);
        put_be(&mut message, self.after_generation, 8);
        put(&mut message, self.proof_job_id.as_slice());
        put(&mut message, self.allocation_statement.as_slice());
        put(&mut message, self.persistence_digest.as_slice());
        assert(message@ =~= self.message());
        hash(message.as_slice())
    }

    /// Checks that the receipt is complete.
    pub fn verify(&self) -> (r: Result<(), String>)
        ensures
            r is Ok <==> self.complete(),
            r matches Err(e) ==> e@ == "standing-pool MPC state receipt is incomplete"@,
    {
        let after: u64 = if self.before_generation == u64::MAX {
            u64::MAX
        } else {
            self.before_generation + 1
        };
        let digest = self.unsigned_digest();
        if self.direction > 1 || self.before_generation == 0 || self.after_generation != after || is_zero32(
            &self.proof_job_id,
        ) || is_zero32(&self.allocation_statement) || is_zero32(&self.persistence_digest) || !same32(
            &self.receipt_digest,
            &digest,
        ) {
            return Err("standing-pool MPC state receipt is incomplete".to_owned());
        }
        Ok(())
    }
}

/// A node's shares of the remainder of a maker's pool, in decimal, as its own
/// persistence file has them.
#[derive(Debug)]
pub struct PoolRemainderShares {
    pub party: usize,
    pub value_share: String,
    pub blinding_share: String,
}

/// One node-local standing-pool commit. Every field is public or node-local;
/// the only secret material involved is the node's own persistence and its own
/// encrypted state.
pub struct StandingPoolCommitRequest<'a> {
    pub node: u16,
    pub n_parties: u16,
    pub n_mm: usize,
    pub source_sha256: &'a str,
    pub sharing: InputSharing,
    /// The node's persistence file, and the shares read out of it.
    pub persistence: &'a [u8],
    pub handoff: &'a PoolRemainderShares,
    pub maker: usize,
    pub direction: u8,
    /// Compare-and-swap guard: the state generation the accepted execution was
    /// proved against.
    pub expected_generation: u64,
    pub proof_job_id: [u8; 32],
    /// Canonical identifier of the accepted allocation.
    pub allocation_statement: [u8; 32],
    /// Pool the committed remainder now mirrors. `None` leaves the slot's
    /// binding untouched for deployments that track pools elsewhere.
    pub binding: Option<StandingPoolBinding>,
}

impl<'a> StandingPoolCommitRequest<'a> {
    /// The request is of a slot of the circuit and names its proof.
    pub open spec fn bounded(self) -> bool {
        &&& self.maker < self.n_mm
        &&& self.direction <= 1
        &&& self.expected_generation != 0
        &&& self.proof_job_id@ != zero32()
        &&& self.allocation_statement@ != zero32()
        &&& (self.binding matches Some(b) ==> b.maker == self.maker && b.direction == self.direction && b.pool_id@
            != zero32())
    }

    /// What the state stores for a share.
    pub open spec fn share(self, evaluation: Seq<char>) -> Seq<char> {
        decimal(
            resident_share(
                self.node as nat,
                self.n_parties as nat,
                self.sharing,
                decimal_value(text_bytes(evaluation)),
            ),
        )
    }

    /// Why a share cannot be stored.
    pub open spec fn share_refusal(self, evaluation: Seq<char>) -> Option<Seq<char>> {
        if !is_decimal_bytes(text_bytes(evaluation)) {
            Some("field element is not a canonical decimal"@)
        } else if self.sharing == InputSharing::Additive && self.node >= self.n_parties {
            Some("MPC node index is outside the Lagrange coefficient table"@)
        } else {
            None
        }
    }

    /// Why the commit is refused, given what the store holds.
    pub open spec fn refusal(self, contents: Result<SecretState, Seq<char>>) -> Option<Seq<char>> {
        if !self.bounded() {
            Some("standing-pool MPC state commit is outside its bound"@)
        } else if self.handoff.party != self.node {
            Some("standing-pool handoff belongs to another MPC node"@)
        } else {
            match contents {
                Err(e) => Some(e),
                Ok(current) => match current.verified(self.node as nat, self.source_sha256@, self.n_mm as nat) {
                    Err(e) => Some(e),
                    Ok(_) => if current.generation != self.expected_generation {
                        Some("standing-pool commit was proved from a stale MPC generation"@)
                    } else if self.share_refusal(self.handoff.value_share@) is Some {
                        self.share_refusal(self.handoff.value_share@)
                    } else if self.share_refusal(self.handoff.blinding_share@) is Some {
                        self.share_refusal(self.handoff.blinding_share@)
                    } else if self.expected_generation == u64::MAX {
                        Some("standing-pool MPC generation overflowed"@)
                    } else {
                        None
                    },
                },
            }
        }
    }

    /// The state after the commit.
    pub open spec fn next(self, current: SecretState) -> SecretState {
        let offset = share_offset(self.maker as nat, self.direction as nat) as int;
        SecretState {
            generation: current.generation + 1,
            standing: current.standing.update(offset, self.share(self.handoff.value_share@)).update(
                offset + 1,
                self.share(self.handoff.blinding_share@),
            ),
            bindings: match self.binding {
                Some(b) => bindings_after(current.bindings, b),
                None => current.bindings,
            },
            ..current
        }
    }
}

fn set_text(values: &mut Vec<String>, at: usize, text: String)
    requires
        at < old(values)@.len(),
    ensures
        final(values)@.len() == old(values)@.len(),
        texts(final(values)@) == texts(old(values)@).update(at as int, text@),
{
    values.set(at, text);
    assert(texts(values@) =~= texts(old(values)@).update(at as int, text@));
}

/// What a commit comes to, given what the store holds before and after: a refused
/// one changes nothing.
pub open spec fn committed(
    request: StandingPoolCommitRequest<'_>,
    before: Result<SecretState, Seq<char>>,
    after: Result<SecretState, Seq<char>>,
    r: Result<StandingPoolStateReceipt, String>,
) -> bool {
    match request.refusal(before) {
        Some(e) => {
            &&& r matches Err(f) && f@ == e
            &&& after == before
        },
        None => {
            &&& after == Ok::<SecretState, Seq<char>>(request.next(before->Ok_0))
            &&& if sha256(request.persistence@) == zero32() {
                r matches Err(f) && f@ == "standing-pool MPC state receipt is incomplete"@
            } else {
                r matches Ok(receipt) && receipt.complete() && receipt.node == request.node && receipt.maker
                    == request.maker && receipt.direction == request.direction && receipt.before_generation
                    == request.expected_generation && receipt.proof_job_id@ == request.proof_job_id@
                    && receipt.allocation_statement@ == request.allocation_statement@ && receipt.persistence_digest@
                    == sha256(request.persistence@)
            }
        },
    }
}

/// Whether a commit is the one of a node whose circuit reconstructs its inputs
/// with Lagrange coefficients: the raw evaluations are stored, and the binding of
/// the slot is left as it is.
pub open spec fn plain_commit(
    request: StandingPoolCommitRequest<'_>,
    config: ResidentMpcConfig,
    persistence: Seq<u8>,
    handoff: PoolRemainderShares,
    maker: usize,
    direction: u8,
    expected_generation: u64,
    proof_job_id: [u8; 32],
    allocation_statement: [u8; 32],
) -> bool {
    &&& request.node == config.node
    &&& request.n_parties == config.n_parties
    &&& request.n_mm == config.n_mm
    &&& request.source_sha256@ == config.source_sha256@
    &&& request.sharing == InputSharing::Shamir
    &&& request.persistence@ == persistence
    &&& *request.handoff == handoff
    &&& request.maker == maker
    &&& request.direction == direction
    &&& request.expected_generation == expected_generation
    &&& request.proof_job_id == proof_job_id
    &&& request.allocation_statement == allocation_statement
    &&& request.binding is None
}

/// Commit the selected maker parent-pool remainder of a configured node, whose
/// deployment tracks its pools elsewhere.
pub fn commit_standing_pool_remainder(
    config: &ResidentMpcConfig,
    store: &mut EncryptedMpcStateStore,
    persistence: &[u8],
    handoff: &PoolRemainderShares,
    maker: usize,
    direction: u8,
    expected_generation: u64,
    proof_job_id: [u8; 32],
    allocation_statement: [u8; 32],
) -> (r: Result<StandingPoolStateReceipt, String>)
    ensures
        exists|request: StandingPoolCommitRequest<'_>| #[trigger]
            plain_commit(
                request,
                *config,
                persistence@,
                *handoff,
                maker,
                direction,
                expected_generation,
                proof_job_id,
                allocation_statement,
            ) && committed(request, stored(old(store).contents), stored(final(store).contents), r),
{
    let request = StandingPoolCommitRequest {
        node: config.node,
        n_parties: config.n_parties,
        n_mm: config.n_mm,
        source_sha256: config.source_sha256.as_str(),
        sharing: InputSharing::Shamir,
        persistence,
        handoff,
        maker,
        direction,
        expected_generation,
        proof_job_id,
        allocation_statement,
        binding: None,
    };
    let r = commit_standing_pool_remainder_with_store(store, &request);
    assert(plain_commit(
        request,
        *config,
        persistence@,
        *handoff,
        maker,
        direction,
        expected_generation,
        proof_job_id,
        allocation_statement,
    ));
    r
}

/// Commit the selected maker parent-pool remainder into one node's long-lived
/// state. `direction` zero updates the securities pool used when the taker
/// buys, one the cash pool used when the taker sells. The clear remainder is
/// never reconstructed here or returned.
pub fn commit_standing_pool_remainder_with_store(
    store: &mut EncryptedMpcStateStore,
    request: &StandingPoolCommitRequest<'_>,
) -> (r: Result<StandingPoolStateReceipt, String>)
    ensures
        committed(*request, stored(old(store).contents), stored(final(store).contents), r),
{
    let bad_binding = match &request.binding {
        Some(b) => b.maker != request.maker || b.direction != request.direction || is_zero32(&b.pool_id),
        None => false,
    };
    if request.maker >= request.n_mm || request.direction > 1 || request.expected_generation == 0 || is_zero32(
        &request.proof_job_id,
    ) || is_zero32(&request.allocation_statement) || bad_binding {
        return Err("standing-pool MPC state commit is outside its bound".to_owned());
    }
    let persistence_digest = hash(request.persistence);
    if request.handoff.party != request.node as usize {
        return Err("standing-pool handoff belongs to another MPC node".to_owned());
    }
    let mut next = match store.load() {
        Err(e) => {
            return Err(e);
        },
        Ok(state) => state,
    };
    let ghost current = next@;
    match next.verify(request.node, request.source_sha256, request.n_mm) {
        Err(e) => {
            return Err(e);
        },
        Ok(_) => {},
    }
    if next.generation != request.expected_generation {
        return Err("standing-pool commit was proved from a stale MPC generation".to_owned());
    }
    let total: usize = next.dvp_input_shares.len();
    let offset = match MpcSecretState::standing_share_offset(request.maker, request.direction) {
        Err(e) => {
            assert(false);
            return Err(e);
        },
        Ok(offset) => offset,
    };
    let amount = match resident_share_from_evaluation(
        request.node,
        request.n_parties,
        request.sharing,
        request.handoff.value_share.as_str(),
    ) {
        Err(e) => {
            return Err(e);
        },
        Ok(text) => text,
    };
    let blinding = match resident_share_from_evaluation(
        request.node,
        request.n_parties,
        request.sharing,
        request.handoff.blinding_share.as_str(),
    ) {
        Err(e) => {
            return Err(e);
        },
        Ok(text) => text,
    };
    if request.expected_generation == u64::MAX {
        return Err("standing-pool MPC generation overflowed".to_owned());
    }
    set_text(&mut next.dvp_input_shares, offset, amount);
    set_text(&mut next.dvp_input_shares, offset + 1, blinding);
    match request.binding {
        Some(b) => {
            next.set_standing_pool_binding(b);
        },
        None => {},
    }
    next.generation = request.expected_generation + 1;
    assert(next@ == request.next(current));
    match store.compare_and_swap(request.expected_generation, &next) {
        Err(e) => {
            assert(false);
            return Err(e);
        },
        Ok(_) => {},
    }
    let unsigned = StandingPoolStateReceipt {
        node: request.node,
        maker: request.maker,
        direction: request.direction,
        before_generation: request.expected_generation,
        after_generation: next.generation,
        proof_job_id: request.proof_job_id,
        allocation_statement: request.allocation_statement,
        persistence_digest,
        receipt_digest: [0u8; 32],
    };
    let receipt = StandingPoolStateReceipt { receipt_digest: unsigned.unsigned_digest(), ..unsigned };
    assert(receipt.message() == unsigned.message());
    match receipt.verify() {
        Err(e) => Err(e),
        Ok(_) => Ok(receipt),
    }
}

/// Why pointing a slot at a fresh pool is refused, given what the store holds.
pub open spec fn rebind_refusal(
    contents: Result<SecretState, Seq<char>>,
    node: nat,
    n_mm: nat,
    source: Seq<char>,
    expected_generation: nat,
    binding: StandingPoolBinding,
    amount_share: Seq<char>,
    blinding_share: Seq<char>,
) -> Option<Seq<char>> {
    if binding.maker >= n_mm || binding.direction > 1 || binding.pool_id@ == zero32() || binding.pool_sequence != 0
        || expected_generation == 0 || !is_decimal_bytes(text_bytes(amount_share)) || !is_decimal_bytes(
        text_bytes(blinding_share),
    ) {
        Some("standing-pool rebind is outside its bound"@)
    } else {
        match contents {
            Err(e) => Some(e),
            Ok(current) => match current.verified(node, source, n_mm) {
                Err(e) => Some(e),
                Ok(_) => if current.generation != expected_generation {
                    Some("standing-pool rebind was prepared from a stale MPC generation"@)
                } else if expected_generation == u64::MAX {
                    Some("standing-pool MPC generation overflowed"@)
                } else {
                    None
                },
            },
        }
    }
}

/// The state after a slot was pointed at a fresh pool.
pub open spec fn rebound(
    current: SecretState,
    binding: StandingPoolBinding,
    amount_share: Seq<char>,
    blinding_share: Seq<char>,
) -> SecretState {
    let offset = share_offset(binding.maker as nat, binding.direction as nat) as int;
    SecretState {
        generation: current.generation + 1,
        standing: current.standing.update(offset, amount_share).update(offset + 1, blinding_share),
        bindings: bindings_after(current.bindings, binding),
        ..current
    }
}

/// Point one maker rail of the resident state at a freshly registered pool
/// whose opening the registering party dealt. This is the only path that
/// replaces a slot with coordinator-supplied shares, and it is limited to pools
/// at sequence zero: a pool that has already been allocated from can only be
/// reached through [`commit_standing_pool_remainder_with_store`].
pub fn rebind_standing_pool(
    store: &mut EncryptedMpcStateStore,
    node: u16,
    n_mm: usize,
    source_sha256: &str,
    expected_generation: u64,
    binding: StandingPoolBinding,
    amount_share: &str,
    blinding_share: &str,
) -> (r: Result<MpcSecretState, String>)
    ensures
        match rebind_refusal(
            stored(old(store).contents),
            node as nat,
            n_mm as nat,
            source_sha256@,
            expected_generation as nat,
            binding,
            amount_share@,
            blinding_share@,
        ) {
            Some(e) => {
                &&& r matches Err(f) && f@ == e
                &&& stored(final(store).contents) == stored(old(store).contents)
            },
            None => {
                let next = rebound(stored(old(store).contents)->Ok_0, binding, amount_share@, blinding_share@);
                &&& r matches Ok(state) && state@ == next
                &&& stored(final(store).contents) == Ok::<SecretState, Seq<char>>(next)
            },
        },
{
    if binding.maker >= n_mm || binding.direction > 1 || is_zero32(&binding.pool_id) || binding.pool_sequence != 0
        || expected_generation == 0 || !is_decimal(amount_share) || !is_decimal(blinding_share) {
        return Err("standing-pool rebind is outside its bound".to_owned());
    }
    let mut next = match store.load() {
        Err(e) => {
            return Err(e);
        },
        Ok(state) => state,
    };
    let ghost current = next@;
    match next.verify(node, source_sha256, n_mm) {
        Err(e) => {
            return Err(e);
        },
        Ok(_) => {},
    }
    if next.generation != expected_generation {
        return Err("standing-pool rebind was prepared from a stale MPC generation".to_owned());
    }
    let total: usize = next.dvp_input_shares.len();
    let offset = match MpcSecretState::standing_share_offset(binding.maker, binding.direction) {
        Err(e) => {
            assert(false);
            return Err(e);
        },
        Ok(offset) => offset,
    };
    if expected_generation == u64::MAX {
        return Err("standing-pool MPC generation overflowed".to_owned());
    }
    set_text(&mut next.dvp_input_shares, offset, amount_share.to_owned());
    set_text(&mut next.dvp_input_shares, offset + 1, blinding_share.to_owned());
    next.set_standing_pool_binding(binding);
    next.generation = expected_generation + 1;
    assert(next@ == rebound(current, binding, amount_share@, blinding_share@));
    match store.compare_and_swap(expected_generation, &next) {
        Err(e) => {
            assert(false);
            return Err(e);
        },
        Ok(_) => {},
    }
    Ok(next)
}

/// Replace the standing maker segment of a dealt party input with this node's
/// resident shares. The dealer's copy of that segment is ignored, so a restarted
/// coordinator cannot re-inject an initial balance.
pub fn splice_standing_maker_shares(inputs: &mut Vec<String>, state: &MpcSecretState, n_mm: usize) -> (r: Result<
    (),
    String,
>)
    ensures
        ({
            let before = texts(old(inputs)@);
            let after = texts(final(inputs)@);
            let count = 5 * n_mm as int;
            if state@.standing.len() != count {
                &&& r matches Err(e) && e@ == "resident Maker state does not match the circuit's Maker population"@
                &&& after == before
            } else if before.len() < STANDING_SHARES_OFFSET + count {
                &&& r matches Err(e) && e@ == "party input is shorter than its standing Maker segment"@
                &&& after == before
            } else {
                &&& r is Ok
                &&& is_spliced(before, state@, after)
                &&& after.len() == before.len()
                &&& forall|i: int|
                    0 <= i < after.len() ==> #[trigger] after[i] == if STANDING_SHARES_OFFSET <= i
                        < STANDING_SHARES_OFFSET + count {
                        state@.standing[i - STANDING_SHARES_OFFSET]
                    } else {
                        before[i]
                    }
            }
        }),
{
    let count: usize = state.dvp_input_shares.len();
    if count as u128 != n_mm as u128 * 5 {
        return Err("resident Maker state does not match the circuit's Maker population".to_owned());
    }
    if inputs.len() < STANDING_SHARES_OFFSET || inputs.len() - STANDING_SHARES_OFFSET < count {
        return Err("party input is shorter than its standing Maker segment".to_owned());
    }
    let ghost before = texts(inputs@);
    let mut i: usize = 0;
    while i < count
        invariant
            i <= count,
            count == state.dvp_input_shares@.len(),
            before == texts(old(inputs)@),
            inputs@.len() == before.len(),
            STANDING_SHARES_OFFSET + count <= inputs@.len(),
            forall|k: int|
                0 <= k < before.len() ==> #[trigger] texts(inputs@)[k] == if STANDING_SHARES_OFFSET <= k
                    < STANDING_SHARES_OFFSET + i {
                    state@.standing[k - STANDING_SHARES_OFFSET]
                } else {
                    before[k]
                },
        decreases count - i,
    {
        let total: usize = inputs.len();
        set_text(inputs, STANDING_SHARES_OFFSET + i, state.dvp_input_shares[i].clone());
        i = i + 1;
    }
    Ok(())
}

/// Splicing changes nothing outside the standing maker segment, whatever the
/// dealer had put in it.
pub proof fn splice_ignores_the_dealt_segment(
    first: Seq<Seq<char>>,
    second: Seq<Seq<char>>,
    state: SecretState,
    spliced_first: Seq<Seq<char>>,
    spliced_second: Seq<Seq<char>>,
)
    requires
        first.len() == second.len(),
        first.len() >= STANDING_SHARES_OFFSET + state.standing.len(),
        forall|i: int|
            0 <= i < first.len() && !(STANDING_SHARES_OFFSET <= i < STANDING_SHARES_OFFSET + state.standing.len())
                ==> first[i] == second[i],
        is_spliced(first, state, spliced_first),
        is_spliced(second, state, spliced_second),
    ensures
        spliced_first == spliced_second,
{
    assert forall|i: int| 0 <= i < first.len() implies spliced_first[i] == spliced_second[i] by {
        assert(spliced_first[i] == if STANDING_SHARES_OFFSET <= i < STANDING_SHARES_OFFSET + state.standing.len() {
            state.standing[i - STANDING_SHARES_OFFSET]
        } else {
            first[i]
        });
    }
    assert(spliced_first =~= spliced_second);
}

/// Whether a party input is another with its standing maker segment replaced.
pub open spec fn is_spliced(before: Seq<Seq<char>>, state: SecretState, after: Seq<Seq<char>>) -> bool {
    &&& after.len() == before.len()
    &&& forall|i: int|
        0 <= i < after.len() ==> #[trigger] after[i] == if STANDING_SHARES_OFFSET <= i < STANDING_SHARES_OFFSET
            + state.standing.len() {
            state.standing[i - STANDING_SHARES_OFFSET]
        } else {
            before[i]
        }
}

/// What a node's commitment to one maker rail comes to, over the generators `g` and `h`.
pub open spec fn partial_made(
    state: SecretState,
    maker: usize,
    direction: u8,
    g: Seq<u8>,
    h: Seq<u8>,
    r: Result<[u8; 32], String>,
) -> bool {
    let offset = share_offset(maker as nat, direction as nat) as int;
    let shares = state.standing;
    if direction > 1 {
        r matches Err(e) && e@ == "standing pool direction is outside its rail bound"@
    } else if offset > usize::MAX {
        r matches Err(e) && e@ == "standing-pool MPC state offset overflowed"@
    } else if offset >= shares.len() {
        r matches Err(e) && e@ == "standing-pool amount share is outside node state"@
    } else if offset + 1 >= shares.len() {
        r matches Err(e) && e@ == "standing-pool blinding share is outside node state"@
    } else if !is_decimal_bytes(text_bytes(shares[offset])) || !is_decimal_bytes(
        text_bytes(shares[offset + 1]),
    ) {
        r matches Err(e) && e@ == "field element is not a canonical decimal"@
    } else {
        r matches Ok(bytes) && bytes@ == pedersen(
            g,
            h,
            decimal_value(text_bytes(shares[offset])),
            decimal_value(text_bytes(shares[offset + 1])),
        )
    }
}

impl MpcSecretState {
    /// Commitment, over the generators `g` and `h`, to this node's stored amount and
    /// blinding share for one maker rail. Combining all nodes' values yields the
    /// commitment of the reconstructed opening, so the coordinator can audit
    /// that the resident state still equals the canonical pool note without any
    /// node revealing its share or the coordinator learning the opening.
    pub fn standing_pool_partial_commitment(&self, maker: usize, direction: u8, g: &Point, h: &Point) -> (r: Result<
        [u8; 32],
        String,
    >)
        ensures
            partial_made(self@, maker, direction, g@, h@, r),
    {
        let offset = match MpcSecretState::standing_share_offset(maker, direction) {
            Err(e) => {
                return Err(e);
            },
            Ok(offset) => offset,
        };
        let total: usize = self.dvp_input_shares.len();
        if offset >= total {
            return Err("standing-pool amount share is outside node state".to_owned());
        }
        if offset + 1 >= total {
            return Err("standing-pool blinding share is outside node state".to_owned());
        }
        let amount = match decimal_to_scalar(self.dvp_input_shares[offset].as_str()) {
            Err(e) => {
                return Err(e);
            },
            Ok(scalar) => scalar,
        };
        let blinding = match decimal_to_scalar(self.dvp_input_shares[offset + 1].as_str()) {
            Err(e) => {
                return Err(e);
            },
            Ok(scalar) => scalar,
        };
        proof {
            order_positive();
            vstd::arithmetic::div_mod::lemma_mod_twice(
                decimal_value(text_bytes(self@.standing[offset as int])),
                group_order() as int,
            );
            vstd::arithmetic::div_mod::lemma_mod_twice(
                decimal_value(text_bytes(self@.standing[offset as int + 1])),
                group_order() as int,
            );
        }
        let point = commit(g, h, &amount, &blinding);
        Ok(point.bytes)
    }
}

} // verus!
