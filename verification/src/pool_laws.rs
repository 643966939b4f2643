//! What holds of a node's standing pools over their updates.

use vstd::prelude::*;
use crate::bytes::{text_bytes, zero32};
use crate::decimal::{decimal_value, is_decimal_bytes, residue_in_decimal};
use crate::digest::sha256;
use crate::group::group_order;
use crate::resident_config::ResidentMpcConfig;
use crate::resident_state::{
    all_decimal, binding_of, same_slot, set_binding_is_found, SecretState, StandingPoolBinding,
};
use crate::resident_store::{
    committed, is_spliced, partial_made, plain_commit, rebind_refusal, rebound, swap_refusal, PoolRemainderShares,
    StandingPoolCommitRequest, StandingPoolStateReceipt,
};
use crate::sharing::{lagrange_coefficient, order_positive, pedersen, InputSharing};

verus! {

/// The number that a node's share of an evaluation counts for: the evaluation itself
/// where the circuit interpolates, and its part of the sum where the circuit adds.
pub open spec fn stands_for(share: Seq<char>, sharing: InputSharing, node: int, n_parties: int, value: int) -> bool {
    let weight = if sharing == InputSharing::Shamir {
        1
    } else {
        lagrange_coefficient(node as nat, n_parties as nat)
    };
    &&& is_decimal_bytes(text_bytes(share))
    &&& decimal_value(text_bytes(share)) == (weight * value) % group_order() as int
}

proof fn share_stands(request: StandingPoolCommitRequest<'_>, evaluation: Seq<char>)
    ensures
        stands_for(
            request.share(evaluation),
            request.sharing,
            request.node as int,
            request.n_parties as int,
            decimal_value(text_bytes(evaluation)),
        ),
{
    order_positive();
    let l = group_order() as int;
    let v = decimal_value(text_bytes(evaluation));
    let c = lagrange_coefficient(request.node as nat, request.n_parties as nat);
    assert(1 * v == v);
    assert(0 <= v % l < l && 0 <= (c * v) % l < l) by (nonlinear_arith)
        requires
            l > 0,
    ;
    residue_in_decimal((v % l) as nat);
    residue_in_decimal(((c * v) % l) as nat);
}

/// After an accepted commit the amount share of the Maker's rail is the share of the
/// remainder's value, the blinding share that of its blinding, and every other
/// standing share is as it was. The generation is one higher, and the rest of the state
/// but for the slot's binding is unchanged.
pub proof fn commit_stores_the_remainder(
    request: StandingPoolCommitRequest<'_>,
    before: SecretState,
    after: Result<SecretState, Seq<char>>,
    receipt: StandingPoolStateReceipt,
)
    requires
        committed(request, Ok(before), after, Ok(receipt)),
    ensures
        after is Ok,
        ({
            let later = after->Ok_0;
            let slot = 5 * request.maker as int + 2 * request.direction as int;
            let node = request.node as int;
            let n_parties = request.n_parties as int;
            let value = decimal_value(text_bytes(request.handoff.value_share@));
            let blinding = decimal_value(text_bytes(request.handoff.blinding_share@));
            &&& 0 <= slot && slot + 1 < later.standing.len()
            &&& stands_for(later.standing[slot], request.sharing, node, n_parties, value)
            &&& stands_for(later.standing[slot + 1], request.sharing, node, n_parties, blinding)
            &&& later.standing.len() == before.standing.len()
            &&& forall|i: int|
                0 <= i < before.standing.len() && i != slot && i != slot + 1 ==> #[trigger] later.standing[i]
                    == before.standing[i]
            &&& later.generation == before.generation + 1
            &&& later.version == before.version
            &&& later.node == before.node
            &&& later.source == before.source
            &&& later.policies == before.policies
            &&& later.blindings == before.blindings
            &&& request.binding is None ==> later.bindings == before.bindings
        }),
{
    share_stands(request, request.handoff.value_share@);
    share_stands(request, request.handoff.blinding_share@);
    let slot = 5 * request.maker as int + 2 * request.direction as int;
    assert(slot + 1 < 5 * request.n_mm) by (nonlinear_arith)
        requires
            slot == 5 * request.maker as int + 2 * request.direction as int,
            request.direction <= 1,
            request.maker < request.n_mm,
    ;
}

/// What a node commits to of a slot after an accepted commit is the remainder, over any
/// generators and whatever the state held before: its value share with its blinding
/// share where the circuit interpolates.
pub proof fn committed_slot_opens_to_the_remainder(
    request: StandingPoolCommitRequest<'_>,
    before: SecretState,
    after: Result<SecretState, Seq<char>>,
    receipt: StandingPoolStateReceipt,
    g: Seq<u8>,
    h: Seq<u8>,
)
    requires
        committed(request, Ok(before), after, Ok(receipt)),
        request.sharing == InputSharing::Shamir,
    ensures
        ({
            let later = after->Ok_0;
            let slot = 5 * request.maker as int + 2 * request.direction as int;
            pedersen(
                g,
                h,
                decimal_value(text_bytes(later.standing[slot])),
                decimal_value(text_bytes(later.standing[slot + 1])),
            ) == pedersen(
                g,
                h,
                decimal_value(text_bytes(request.handoff.value_share@)),
                decimal_value(text_bytes(request.handoff.blinding_share@)),
            )
        }),
{
    commit_stores_the_remainder(request, before, after, receipt);
    order_positive();
    let l = group_order() as int;
    let v = decimal_value(text_bytes(request.handoff.value_share@));
    let r = decimal_value(text_bytes(request.handoff.blinding_share@));
    assert(1 * v == v && 1 * r == r);
    vstd::arithmetic::div_mod::lemma_mod_twice(v, l);
    vstd::arithmetic::div_mod::lemma_mod_twice(r, l);
}

/// A commit is accepted only by its node, of a slot of the circuit, from the generation
/// that it was proved against, and with canonical shares; its receipt says so.
pub proof fn commit_is_accepted_only_in_turn(
    request: StandingPoolCommitRequest<'_>,
    before: Result<SecretState, Seq<char>>,
    after: Result<SecretState, Seq<char>>,
    receipt: StandingPoolStateReceipt,
)
    requires
        committed(request, before, after, Ok(receipt)),
    ensures
        before is Ok,
        ({
            let current = before->Ok_0;
            &&& request.maker < request.n_mm
            &&& request.direction <= 1
            &&& 0 < request.expected_generation < u64::MAX
            &&& request.proof_job_id@ != zero32()
            &&& request.allocation_statement@ != zero32()
            &&& request.handoff.party == request.node
            &&& current.node == request.node
            &&& current.version == 1
            &&& current.source == request.source_sha256@
            &&& current.standing.len() == 5 * request.n_mm
            &&& current.generation == request.expected_generation
            &&& is_decimal_bytes(text_bytes(request.handoff.value_share@))
            &&& is_decimal_bytes(text_bytes(request.handoff.blinding_share@))
            &&& request.sharing == InputSharing::Additive ==> request.node < request.n_parties
            &&& receipt.node == request.node
            &&& receipt.maker == request.maker
            &&& receipt.direction == request.direction
            &&& receipt.before_generation == request.expected_generation
            &&& receipt.after_generation == request.expected_generation + 1
            &&& receipt.proof_job_id@ == request.proof_job_id@
            &&& receipt.allocation_statement@ == request.allocation_statement@
            &&& receipt.persistence_digest@ == sha256(request.persistence@)
        }),
        request.binding matches Some(b) ==> b.maker == request.maker && b.direction == request.direction
            && b.pool_id@ != zero32(),
{
}

/// A commit from a generation that is no longer the store's is refused and changes nothing.
pub proof fn stale_commit_changes_nothing(
    request: StandingPoolCommitRequest<'_>,
    before: SecretState,
    after: Result<SecretState, Seq<char>>,
    r: Result<StandingPoolStateReceipt, String>,
)
    requires
        before.generation != request.expected_generation,
        committed(request, Ok(before), after, r),
    ensures
        r is Err,
        after == Ok::<SecretState, Seq<char>>(before),
{
}

/// Every commit that is in turn is taken: by its node, of a slot of the circuit, from the
/// store's generation, with canonical shares.
pub proof fn commit_in_turn_is_taken(
    request: StandingPoolCommitRequest<'_>,
    before: SecretState,
    after: Result<SecretState, Seq<char>>,
    r: Result<StandingPoolStateReceipt, String>,
)
    requires
        committed(request, Ok(before), after, r),
        request.maker < request.n_mm,
        request.direction <= 1,
        0 < request.expected_generation < u64::MAX,
        request.proof_job_id@ != zero32(),
        request.allocation_statement@ != zero32(),
        request.binding is None,
        request.handoff.party == request.node,
        request.node < request.n_parties,
        before.verified(request.node as nat, request.source_sha256@, request.n_mm as nat) is Ok,
        before.generation == request.expected_generation,
        is_decimal_bytes(text_bytes(request.handoff.value_share@)),
        is_decimal_bytes(text_bytes(request.handoff.blinding_share@)),
    ensures
        after is Ok,
        (after->Ok_0).generation == before.generation + 1,
        sha256(request.persistence@) != zero32() ==> r is Ok,
{
}

/// A state is that of a node and a circuit exactly if it names them and has five standing
/// shares for each maker, ten policy shares for each or none, nine blinding shares for
/// each or none, all canonical, and one binding at most for each rail of a maker.
pub proof fn state_fits_its_circuit(state: SecretState, node: nat, source: Seq<char>, n_mm: nat)
    requires
        n_mm * 10 <= usize::MAX,
        state.verified(node, source, n_mm) is Ok,
    ensures
        state.version == 1,
        state.node == node,
        state.source == source,
        text_bytes(source).len() == 64,
        state.standing.len() == 5 * n_mm,
        state.policies.len() == 0 || state.policies.len() == 10 * n_mm,
        state.blindings.len() == 0 || state.policies.len() > 0 && state.blindings.len() == 9 * n_mm,
        all_decimal(state.standing) && all_decimal(state.policies) && all_decimal(state.blindings),
        forall|i: int|
            0 <= i < state.bindings.len() ==> (#[trigger] state.bindings[i]).maker < n_mm
                && state.bindings[i].direction <= 1 && state.bindings[i].pool_id@ != zero32(),
        forall|i: int, j: int|
            0 <= i < j < state.bindings.len() ==> !same_slot(#[trigger] state.bindings[i], #[trigger] state.bindings[j]),
{
}

/// An accepted rebind puts the two shares of a fresh pool in the Maker's rail and binds it
/// to that pool, and changes no other share.
pub proof fn rebind_points_one_slot_at_a_fresh_pool(
    before: SecretState,
    node: nat,
    n_mm: nat,
    source: Seq<char>,
    expected_generation: nat,
    binding: StandingPoolBinding,
    amount: Seq<char>,
    blinding: Seq<char>,
)
    requires
        before.bindings.len() < usize::MAX,
        rebind_refusal(Ok(before), node, n_mm, source, expected_generation, binding, amount, blinding) is None,
    ensures
        ({
            let later = rebound(before, binding, amount, blinding);
            let slot = 5 * binding.maker as int + 2 * binding.direction as int;
            &&& binding.maker < n_mm
            &&& binding.direction <= 1
            &&& binding.pool_id@ != zero32()
            &&& binding.pool_sequence == 0
            &&& before.node == node
            &&& before.source == source
            &&& expected_generation != 0 && expected_generation != u64::MAX
            &&& before.generation == expected_generation
            &&& is_decimal_bytes(text_bytes(amount))
            &&& is_decimal_bytes(text_bytes(blinding))
            &&& 0 <= slot && slot + 1 < later.standing.len()
            &&& later.standing.len() == before.standing.len()
            &&& later.standing[slot] == amount
            &&& later.standing[slot + 1] == blinding
            &&& forall|i: int|
                0 <= i < before.standing.len() && i != slot && i != slot + 1 ==> #[trigger] later.standing[i]
                    == before.standing[i]
            &&& later.generation == before.generation + 1
            &&& later.node == before.node
            &&& later.source == before.source
            &&& later.policies == before.policies
            &&& later.blindings == before.blindings
            &&& binding_of(later.bindings, binding.maker, binding.direction) == Some(binding)
        }),
{
    state_fits(before, node, source, n_mm);
    set_binding_is_found(before.bindings, binding);
    let slot = 5 * binding.maker as int + 2 * binding.direction as int;
    assert(slot + 1 < 5 * n_mm) by (nonlinear_arith)
        requires
            slot == 5 * binding.maker as int + 2 * binding.direction as int,
            binding.direction <= 1,
            binding.maker < n_mm,
    ;
}

proof fn state_fits(state: SecretState, node: nat, source: Seq<char>, n_mm: nat)
    requires
        state.verified(node, source, n_mm) is Ok,
    ensures
        forall|i: int, j: int|
            0 <= i < j < state.bindings.len() ==> !same_slot(#[trigger] state.bindings[i], #[trigger] state.bindings[j]),
{
}

/// A pool that was allocated from is not put back by a rebind, and neither is a slot of a
/// maker or a rail that the circuit has not.
pub proof fn rebind_takes_fresh_pools_alone(
    contents: Result<SecretState, Seq<char>>,
    node: nat,
    n_mm: nat,
    source: Seq<char>,
    expected_generation: nat,
    binding: StandingPoolBinding,
    amount: Seq<char>,
    blinding: Seq<char>,
)
    ensures
        binding.pool_sequence != 0 || binding.maker >= n_mm || binding.direction > 1 || binding.pool_id@ == zero32()
            || expected_generation == 0 ==> rebind_refusal(
            contents,
            node,
            n_mm,
            source,
            expected_generation,
            binding,
            amount,
            blinding,
        ) is Some,
{
}

/// A state replaces another exactly if it is prepared from the generation that is stored
/// and is the next one, of the same node, circuit and policies, with as many shares.
pub proof fn swap_is_guarded(current: SecretState, expected: nat, next: SecretState)
    ensures
        swap_refusal(current, expected, next) is None <==> {
            &&& current.generation == expected
            &&& expected < u64::MAX
            &&& next.generation == expected + 1
            &&& next.version == current.version
            &&& next.node == current.node
            &&& next.source == current.source
            &&& next.standing.len() == current.standing.len()
            &&& next.policies == current.policies
            &&& next.blindings == current.blindings
        },
{
}

/// The standing segment of a party input is the node's own shares, behind the ten public
/// and taker values, and the rest of the input is as it was dealt.
pub proof fn spliced_input_holds_the_resident_shares(
    dealt: Seq<Seq<char>>,
    state: SecretState,
    after: Seq<Seq<char>>,
    at: int,
)
    requires
        is_spliced(dealt, state, after),
        dealt.len() >= 10 + state.standing.len(),
    ensures
        after.len() == dealt.len(),
        0 <= at < state.standing.len() ==> after[10 + at] == state.standing[at],
        0 <= at < 10 ==> after[at] == dealt[at],
        10 + state.standing.len() <= at < dealt.len() ==> after[at] == dealt[at],
{
}

/// A node commits to a maker rail with the two shares of that rail, the amount and the
/// blinding, and to no other of its shares.
pub proof fn partial_commitment_is_of_its_slot(
    state: SecretState,
    maker: usize,
    direction: u8,
    g: Seq<u8>,
    h: Seq<u8>,
    r: Result<[u8; 32], String>,
)
    requires
        partial_made(state, maker, direction, g, h, r),
        state.standing.len() <= usize::MAX,
    ensures
        ({
            let slot = 5 * maker as int + 2 * direction as int;
            &&& r is Ok <==> direction <= 1 && slot + 1 < state.standing.len() && is_decimal_bytes(
                text_bytes(state.standing[slot]),
            ) && is_decimal_bytes(text_bytes(state.standing[slot + 1]))
            &&& r matches Ok(point) ==> point@ == pedersen(
                g,
                h,
                decimal_value(text_bytes(state.standing[slot])),
                decimal_value(text_bytes(state.standing[slot + 1])),
            )
        }),
{
}

/// After an accepted commit the node's partial commitment of the slot is the commitment of
/// the remainder's value share and blinding share, whatever the state held before.
pub proof fn partial_commitment_follows_the_commit(
    request: StandingPoolCommitRequest<'_>,
    before: SecretState,
    after: SecretState,
    receipt: StandingPoolStateReceipt,
    g: Seq<u8>,
    h: Seq<u8>,
    r: Result<[u8; 32], String>,
)
    requires
        committed(request, Ok(before), Ok(after), Ok(receipt)),
        request.sharing == InputSharing::Shamir,
        after.standing.len() <= usize::MAX,
        partial_made(after, request.maker, request.direction, g, h, r),
    ensures
        r matches Ok(point) && point@ == pedersen(
            g,
            h,
            decimal_value(text_bytes(request.handoff.value_share@)),
            decimal_value(text_bytes(request.handoff.blinding_share@)),
        ),
{
    commit_stores_the_remainder(request, before, Ok(after), receipt);
    committed_slot_opens_to_the_remainder(request, before, Ok(after), receipt, g, h);
}

/// A plain commit is the node's own: for its circuit and committee, of the remainder that
/// it was handed, in Shamir's sharing and without a new binding.
pub proof fn plain_commit_is_the_nodes_own(
    request: StandingPoolCommitRequest<'_>,
    config: ResidentMpcConfig,
    persistence: Seq<u8>,
    handoff: PoolRemainderShares,
    maker: usize,
    direction: u8,
    expected_generation: u64,
    proof_job_id: [u8; 32],
    allocation_statement: [u8; 32],
)
    requires
        plain_commit(
            request,
            config,
            persistence,
            handoff,
            maker,
            direction,
            expected_generation,
            proof_job_id,
            allocation_statement,
        ),
    ensures
        request.node == config.node && request.n_parties == config.n_parties && request.n_mm == config.n_mm,
        request.source_sha256@ == config.source_sha256@,
        request.sharing is Shamir,
        request.persistence@ == persistence,
        *request.handoff == handoff,
        request.maker == maker && request.direction == direction,
        request.expected_generation == expected_generation,
        request.proof_job_id == proof_job_id,
        request.allocation_statement == allocation_statement,
        request.binding is None,
{
}

} // verus!
