//! The long-lived secret-share state of one resident node.

use vstd::prelude::*;
use crate::bytes::{is_zero32, text_bytes, zero32};
use crate::decimal::{is_decimal, is_decimal_bytes};
use crate::sorting::{is_permutation, is_stable_order, order_of, permutation_covers, rearranged, stable_order};
use crate::text::{decimal, same_text};
use vstd::string::StringExecFns;

verus! {

/// How many policy shares each maker has.
pub const POLICY_FIELDS: usize = 10;

/// How many policy blinding shares each maker has.
pub const QUOTE_POLICY_BLINDING_FIELDS: usize = 9;

/// How many standing shares each maker has: two reserve rails of an amount and
/// a blinding, and a settlement handle.
pub const STANDING_FIELDS: usize = 5;

/// The standing pool that one maker slot of the resident state currently
/// mirrors. `pool_sequence` is the canonical pool sequence whose remainder
/// opening this node's shares (together with the other nodes') reconstruct.
#[derive(Clone, Copy, Debug, PartialEq, Eq)]
pub struct StandingPoolBinding {
    pub maker: usize,
    /// `0`: securities pool used when the taker buys; `1`: cash pool used when
    /// the taker sells. This is the circuit's rail order, not a trade side.
    pub direction: u8,
    pub pool_id: [u8; 32],
    pub pool_sequence: u64,
}

/// One node's secret shares.
#[derive(Debug)]
pub struct MpcSecretState {
    pub version: u8,
    pub node: u16,
    pub generation: u64,
    pub source_sha256: String,
    /// Local shares, in circuit order, for every maker's two standing reserve
    /// rails and settlement handle. Taker reserve shares arrive in each signed
    /// request frame, so arbitrary pre-authorized takers do not have to share
    /// one long-lived amount or blinding.
    pub dvp_input_shares: Vec<String>,
    /// Ten local shares per maker, or none where policies arrive with each request.
    pub policy_input_shares: Vec<String>,
    /// Nine registered blinding shares per maker, or none.
    pub quote_policy_blinding_input_shares: Vec<String>,
    /// Which standing pool each maker reserve slot mirrors. A slot without a
    /// binding is either padding or not yet registered.
    pub standing_pool_bindings: Vec<StandingPoolBinding>,
}

/// The characters of a list of texts.
pub open spec fn texts(values: Seq<String>) -> Seq<Seq<char>> {
    values.map_values(|v: String| v@)
}

/// What a secret state holds.
pub ghost struct SecretState {
    pub version: nat,
    pub node: nat,
    pub generation: nat,
    pub source: Seq<char>,
    pub standing: Seq<Seq<char>>,
    pub policies: Seq<Seq<char>>,
    pub blindings: Seq<Seq<char>>,
    pub bindings: Seq<StandingPoolBinding>,
}

impl View for MpcSecretState {
    type V = SecretState;

    open spec fn view(&self) -> SecretState {
        SecretState {
            version: self.version as nat,
            node: self.node as nat,
            generation: self.generation as nat,
            source: self.source_sha256@,
            standing: texts(self.dvp_input_shares@),
            policies: texts(self.policy_input_shares@),
            blindings: texts(self.quote_policy_blinding_input_shares@),
            bindings: self.standing_pool_bindings@,
        }
    }
}

/// Whether a text is sixty-four hexadecimal digits.
pub open spec fn is_digest_text(text: Seq<u8>) -> bool {
    &&& text.len() == 64
    &&& forall|i: int| 0 <= i < 64 ==> is_hex_byte(#[trigger] text[i])
}

/// Whether a byte is an ASCII hexadecimal digit.
pub open spec fn is_hex_byte(byte: u8) -> bool {
    0x30 <= byte <= 0x39 || 0x41 <= byte <= 0x46 || 0x61 <= byte <= 0x66
}

/// Whether a text is sixty-four hexadecimal digits.
pub fn is_digest(value: &str) -> (r: bool)
    ensures
        r == is_digest_text(text_bytes(value@)),
{
    let bytes = value.as_bytes();
    if bytes.len() != 64 {
        return false;
    }
    let mut i: usize = 0;
    while i < 64
        invariant
            i <= 64,
            bytes@.len() == 64,
            bytes@ == text_bytes(value@),
            forall|j: int| 0 <= j < i ==> is_hex_byte(#[trigger] bytes@[j]),
        decreases 64 - i,
    {
        let b: u8 = bytes[i];
        if !(0x30 <= b && b <= 0x39 || 0x41 <= b && b <= 0x46 || 0x61 <= b && b <= 0x66) {
            assert(!is_hex_byte(bytes@[i as int]));
            return false;
        }
        i = i + 1;
    }
    true
}

/// Whether every text of a list is a canonical decimal.
pub open spec fn all_decimal(values: Seq<Seq<char>>) -> bool {
    forall|i: int| 0 <= i < values.len() ==> is_decimal_bytes(text_bytes(#[trigger] values[i]))
}

fn check_decimals(values: &Vec<String>) -> (r: bool)
    ensures
        r == all_decimal(texts(values@)),
{
    let mut i: usize = 0;
    while i < values.len()
        invariant
            i <= values@.len(),
            forall|j: int| 0 <= j < i ==> is_decimal_bytes(text_bytes(#[trigger] texts(values@)[j])),
        decreases values@.len() - i,
    {
        if !is_decimal(values[i].as_str()) {
            assert(!is_decimal_bytes(text_bytes(texts(values@)[i as int])));
            return false;
        }
        i = i + 1;
    }
    true
}

/// A number, or the largest that a length can be.
pub open spec fn saturated(value: int) -> int {
    if value > usize::MAX {
        usize::MAX as int
    } else {
        value
    }
}

impl SecretState {
    /// The shares are those of a node and a circuit.
    pub open spec fn shaped(self, node: nat, source: Seq<char>, n_mm: nat) -> bool {
        let resident = self.policies.len() > 0;
        &&& self.version == 1
        &&& self.node == node
        &&& self.source == source
        &&& is_digest_text(text_bytes(self.source))
        &&& self.standing.len() == STANDING_FIELDS * n_mm
        &&& resident ==> self.policies.len() == saturated(n_mm * POLICY_FIELDS)
        &&& !resident ==> self.blindings.len() == 0
        &&& self.blindings.len() == 0 || self.blindings.len() == saturated(n_mm * QUOTE_POLICY_BLINDING_FIELDS)
        &&& all_decimal(self.standing)
        &&& all_decimal(self.policies)
        &&& all_decimal(self.blindings)
    }

    /// Every bound pool is of a maker and a rail of the circuit, and no slot is bound twice.
    pub open spec fn bound(self, n_mm: nat) -> bool {
        bindings_ok(self.bindings, n_mm)
    }

    /// What decides whether a state is that of a node and a circuit.
    pub open spec fn verified(self, node: nat, source: Seq<char>, n_mm: nat) -> Result<(), Seq<char>> {
        if !self.shaped(node, source, n_mm) {
            Err("encrypted MPC state does not match the approved node/circuit shape"@)
        } else if !self.bound(n_mm) {
            Err("encrypted MPC state names an invalid or duplicate standing pool"@)
        } else {
            Ok(())
        }
    }
}

/// Whether two bindings are of one slot.
pub open spec fn same_slot(a: StandingPoolBinding, b: StandingPoolBinding) -> bool {
    a.maker == b.maker && a.direction == b.direction
}

/// The first binding of a slot.
pub open spec fn binding_of(bindings: Seq<StandingPoolBinding>, maker: usize, direction: u8) -> Option<
    StandingPoolBinding,
>
    decreases bindings.len(),
{
    if bindings.len() == 0 {
        None
    } else if binding_of(bindings.drop_last(), maker, direction) is Some {
        binding_of(bindings.drop_last(), maker, direction)
    } else if bindings.last().maker == maker && bindings.last().direction == direction {
        Some(bindings.last())
    } else {
        None
    }
}

proof fn binding_at(bindings: Seq<StandingPoolBinding>, maker: usize, direction: u8, at: int)
    requires
        0 <= at <= bindings.len(),
        forall|j: int|
            0 <= j < at ==> !((#[trigger] bindings[j]).maker == maker && bindings[j].direction == direction),
    ensures
        at < bindings.len() && bindings[at].maker == maker && bindings[at].direction == direction ==> binding_of(
            bindings,
            maker,
            direction,
        ) == Some(bindings[at]),
        at == bindings.len() ==> binding_of(bindings, maker, direction) is None,
    decreases bindings.len(),
{
    if bindings.len() > 0 {
        let rest = bindings.drop_last();
        if at < bindings.len() - 1 {
            assert forall|j: int| 0 <= j < at implies !((#[trigger] rest[j]).maker == maker && rest[j].direction
                == direction) by {
                assert(rest[j] == bindings[j]);
            }
            binding_at(rest, maker, direction, at);
        } else {
            assert forall|j: int| 0 <= j < rest.len() implies !((#[trigger] rest[j]).maker == maker && rest[j].direction
                == direction) by {
                assert(rest[j] == bindings[j]);
            }
            binding_at(rest, maker, direction, rest.len() as int);
        }
    }
}

/// Where the amount share of a maker's rail stands among the standing shares.
pub open spec fn share_offset(maker: nat, direction: nat) -> nat {
    STANDING_FIELDS as nat * maker + 2 * direction
}

fn copy_texts(values: &Vec<String>) -> (copy: Vec<String>)
    ensures
        texts(copy@) == texts(values@),
{
    let mut copy: Vec<String> = Vec::new();
    let mut i: usize = 0;
    while i < values.len()
        invariant
            i <= values@.len(),
            copy@.len() == i,
            forall|j: int| 0 <= j < i ==> (#[trigger] copy@[j])@ == values@[j]@,
        decreases values@.len() - i,
    {
        copy.push(values[i].clone());
        i = i + 1;
    }
    assert(texts(copy@) =~= texts(values@));
    copy
}

/// Whether two lists of texts are the same.
pub fn same_texts(a: &Vec<String>, b: &Vec<String>) -> (equal: bool)
    ensures
        equal == (texts(a@) == texts(b@)),
{
    if a.len() != b.len() {
        assert(texts(a@).len() != texts(b@).len());
        return false;
    }
    let mut i: usize = 0;
    while i < a.len()
        invariant
            i <= a@.len(),
            a@.len() == b@.len(),
            forall|j: int| 0 <= j < i ==> texts(a@)[j] == texts(b@)[j],
        decreases a@.len() - i,
    {
        if !same_text(a[i].as_str(), b[i].as_str()) {
            assert(texts(a@)[i as int] != texts(b@)[i as int]);
            return false;
        }
        i = i + 1;
    }
    assert(texts(a@) =~= texts(b@));
    true
}

/// A binding put into a list: in the place of the first one of its slot, or at the end.
pub open spec fn put_binding(bindings: Seq<StandingPoolBinding>, binding: StandingPoolBinding) -> Seq<
    StandingPoolBinding,
>
    decreases bindings.len(),
{
    if binding_of(bindings, binding.maker, binding.direction) is None {
        bindings.push(binding)
    } else if binding_of(bindings.drop_last(), binding.maker, binding.direction) is Some {
        put_binding(bindings.drop_last(), binding).push(bindings.last())
    } else {
        bindings.drop_last().push(binding)
    }
}

/// The order of the slots.
pub open spec fn slot_keys(bindings: Seq<StandingPoolBinding>) -> Seq<int> {
    bindings.map_values(|b: StandingPoolBinding| 2 * b.maker + b.direction)
}

/// The bindings after one was set, in the order of the slots.
pub open spec fn bindings_after(bindings: Seq<StandingPoolBinding>, binding: StandingPoolBinding) -> Seq<
    StandingPoolBinding,
> {
    let listed = put_binding(bindings, binding);
    rearranged(listed, order_of(slot_keys(listed)))
}

proof fn put_binding_at(bindings: Seq<StandingPoolBinding>, binding: StandingPoolBinding, at: int)
    requires
        0 <= at <= bindings.len(),
        forall|j: int| 0 <= j < at ==> !same_slot(#[trigger] bindings[j], binding),
        at < bindings.len() ==> same_slot(bindings[at], binding),
    ensures
        at < bindings.len() ==> put_binding(bindings, binding) == bindings.update(at, binding),
        at == bindings.len() ==> put_binding(bindings, binding) == bindings.push(binding),
    decreases bindings.len(),
{
    binding_at(bindings, binding.maker, binding.direction, at);
    if at < bindings.len() {
        let rest = bindings.drop_last();
        assert forall|j: int| 0 <= j < at implies !same_slot(#[trigger] rest[j], binding) by {
            assert(rest[j] == bindings[j]);
        }
        assert forall|j: int| 0 <= j < at implies !((#[trigger] rest[j]).maker == binding.maker && rest[j].direction
            == binding.direction) by {
            assert(!same_slot(bindings[j], binding));
        }
        binding_at(rest, binding.maker, binding.direction, at);
        if at < bindings.len() - 1 {
            put_binding_at(rest, binding, at);
            assert(rest.update(at, binding).push(bindings.last()) =~= bindings.update(at, binding));
        } else {
            assert(rest.push(binding) =~= bindings.update(at, binding));
        }
    }
}

/// Whether every binding of a list is of a slot of the circuit, and no slot is bound twice.
pub open spec fn bindings_ok(all: Seq<StandingPoolBinding>, n_mm: nat) -> bool {
    &&& forall|i: int|
        0 <= i < all.len() ==> (#[trigger] all[i]).maker < n_mm && all[i].direction <= 1 && all[i].pool_id@ != zero32()
    &&& forall|i: int, j: int| 0 <= i < j < all.len() ==> !same_slot(#[trigger] all[i], #[trigger] all[j])
}

fn check_bindings(bindings: &Vec<StandingPoolBinding>, n_mm: usize) -> (r: bool)
    ensures
        r == bindings_ok(bindings@, n_mm as nat),
{
    let mut i: usize = 0;
    while i < bindings.len()
        invariant
            i <= bindings@.len(),
            forall|k: int|
                0 <= k < i ==> (#[trigger] bindings@[k]).maker < n_mm && bindings@[k].direction <= 1
                    && bindings@[k].pool_id@ != zero32(),
            forall|a: int, b: int| 0 <= a < b < i ==> !same_slot(#[trigger] bindings@[a], #[trigger] bindings@[b]),
        decreases bindings@.len() - i,
    {
        if bindings[i].maker >= n_mm || bindings[i].direction > 1 || is_zero32(&bindings[i].pool_id) {
            assert(!(bindings@[i as int].maker < n_mm && bindings@[i as int].direction <= 1
                && bindings@[i as int].pool_id@ != zero32()));
            return false;
        }
        let mut j: usize = 0;
        while j < i
            invariant
                j <= i < bindings@.len(),
                forall|a: int| 0 <= a < j ==> !same_slot(#[trigger] bindings@[a], bindings@[i as int]),
            decreases i - j,
        {
            if bindings[j].maker == bindings[i].maker && bindings[j].direction == bindings[i].direction {
                assert(same_slot(bindings@[j as int], bindings@[i as int]));
                return false;
            }
            j = j + 1;
        }
        i = i + 1;
    }
    true
}

impl MpcSecretState {
    /// A copy.
    pub fn copy(&self) -> (state: MpcSecretState)
        ensures
            state@ == self@,
    {
        let mut bindings: Vec<StandingPoolBinding> = Vec::new();
        bindings.extend_from_slice(self.standing_pool_bindings.as_slice());
        assert(bindings@ =~= self.standing_pool_bindings@);
        MpcSecretState {
            version: self.version,
            node: self.node,
            generation: self.generation,
            source_sha256: self.source_sha256.clone(),
            dvp_input_shares: copy_texts(&self.dvp_input_shares),
            policy_input_shares: copy_texts(&self.policy_input_shares),
            quote_policy_blinding_input_shares: copy_texts(&self.quote_policy_blinding_input_shares),
            standing_pool_bindings: bindings,
        }
    }

    /// Checks that the state is that of a node and a circuit. Maker policies
    /// are either resident (ten shares per padded maker) or delivered with each
    /// request; the blinding list may only exist alongside resident policies.
    pub fn verify(&self, node: u16, source_sha256: &str, n_mm: usize) -> (r: Result<(), String>)
        ensures
            match r {
                Ok(_) => self@.verified(node as nat, source_sha256@, n_mm as nat) == Ok::<(), Seq<char>>(()),
                Err(e) => self@.verified(node as nat, source_sha256@, n_mm as nat) == Err::<(), Seq<char>>(e@),
            },
    {
        let resident = self.policy_input_shares.len() > 0;
        let makers: u128 = n_mm as u128;
        let most: u128 = usize::MAX as u128;
        let policies: u128 = if makers * 10 > most {
            most
        } else {
            makers * 10
        };
        let blindings: u128 = if makers * 9 > most {
            most
        } else {
            makers * 9
        };
        if self.version != 1 || self.node != node || !same_text(self.source_sha256.as_str(), source_sha256)
            || !is_digest(self.source_sha256.as_str()) || self.dvp_input_shares.len() as u128 != makers * 5 || (resident
            && self.policy_input_shares.len() as u128 != policies) || (!resident
            && self.quote_policy_blinding_input_shares.len() != 0)
                || !(self.quote_policy_blinding_input_shares.len() == 0
            || self.quote_policy_blinding_input_shares.len() as u128 == blindings) || !check_decimals(
            &self.dvp_input_shares,
        ) || !check_decimals(&self.policy_input_shares) || !check_decimals(&self.quote_policy_blinding_input_shares) {
            return Err("encrypted MPC state does not match the approved node/circuit shape".to_owned());
        }
        if !check_bindings(&self.standing_pool_bindings, n_mm) {
            return Err("encrypted MPC state names an invalid or duplicate standing pool".to_owned());
        }
        Ok(())
    }

    /// True when every maker policy is a resident share rather than an input
    /// that arrives with each request.
    pub fn has_resident_policies(&self) -> (r: bool)
        ensures
            r == (self@.policies.len() > 0),
    {
        self.policy_input_shares.len() > 0
    }

    /// Index of the amount share for one maker rail among the standing shares.
    /// The blinding share follows it immediately.
    pub fn standing_share_offset(maker: usize, direction: u8) -> (r: Result<usize, String>)
        ensures
            match r {
                Ok(offset) => direction <= 1 && offset == share_offset(maker as nat, direction as nat),
                Err(e) => if direction > 1 {
                    e@ == "standing pool direction is outside its rail bound"@
                } else {
                    share_offset(maker as nat, direction as nat) > usize::MAX && e@
                        == "standing-pool MPC state offset overflowed"@
                },
            },
    {
        if direction > 1 {
            return Err("standing pool direction is outside its rail bound".to_owned());
        }
        let offset: u128 = maker as u128 * 5 + direction as u128 * 2;
        if offset > usize::MAX as u128 {
            return Err("standing-pool MPC state offset overflowed".to_owned());
        }
        Ok(offset as usize)
    }

    /// The binding of a slot.
    pub fn standing_pool_binding(&self, maker: usize, direction: u8) -> (r: Option<&StandingPoolBinding>)
        ensures
            match r {
                Some(b) => binding_of(self@.bindings, maker, direction) == Some(*b),
                None => binding_of(self@.bindings, maker, direction) is None,
            },
    {
        let mut i: usize = 0;
        while i < self.standing_pool_bindings.len()
            invariant
                i <= self.standing_pool_bindings@.len(),
                forall|j: int|
                    0 <= j < i ==> !((#[trigger] self.standing_pool_bindings@[j]).maker == maker
                        && self.standing_pool_bindings@[j].direction == direction),
            decreases self.standing_pool_bindings@.len() - i,
        {
            if self.standing_pool_bindings[i].maker == maker && self.standing_pool_bindings[i].direction == direction {
                proof {
                    binding_at(self.standing_pool_bindings@, maker, direction, i as int);
                }
                return Some(&self.standing_pool_bindings[i]);
            }
            i = i + 1;
        }
        proof {
            binding_at(self.standing_pool_bindings@, maker, direction, i as int);
        }
        None
    }

    /// Binds a slot to a pool.
    pub(crate) fn set_standing_pool_binding(&mut self, binding: StandingPoolBinding)
        requires
            binding.direction <= 1,
            binding.maker < 0x4000_0000_0000_0000,
            forall|i: int|
                0 <= i < old(self)@.bindings.len() ==> (#[trigger] old(self)@.bindings[i]).direction <= 1 && old(
                    self,
                )@.bindings[i].maker < 0x4000_0000_0000_0000,
        ensures
            final(self)@ == (SecretState { bindings: bindings_after(old(self)@.bindings, binding), ..old(self)@ }),
    {
        let ghost before = self.standing_pool_bindings@;
        let mut at: usize = 0;
        while at < self.standing_pool_bindings.len() && !(self.standing_pool_bindings[at].maker == binding.maker
            && self.standing_pool_bindings[at].direction == binding.direction)
            invariant
                at <= before.len(),
                before == self.standing_pool_bindings@,
                self@ == old(self)@,
                forall|j: int| 0 <= j < at ==> !same_slot(#[trigger] before[j], binding),
            decreases before.len() - at,
        {
            at = at + 1;
        }
        let mut listed: Vec<StandingPoolBinding> = Vec::new();
        listed.extend_from_slice(self.standing_pool_bindings.as_slice());
        assert(listed@ =~= before);
        if at < listed.len() {
            listed.set(at, binding);
        } else {
            listed.push(binding);
        }
        proof {
            put_binding_at(before, binding, at as int);
        }
        assert forall|j: int| 0 <= j < listed@.len() implies (#[trigger] listed@[j]).direction <= 1 && listed@[j].maker
            < 0x4000_0000_0000_0000 by {
            if j < before.len() {
                assert(old(self)@.bindings[j].direction <= 1);
            }
        }
        let mut keys: Vec<u64> = Vec::new();
        let mut i: usize = 0;
        while i < listed.len()
            invariant
                i <= listed@.len(),
                keys@.len() == i,
                forall|j: int|
                    0 <= j < listed@.len() ==> (#[trigger] listed@[j]).direction <= 1 && listed@[j].maker
                        < 0x4000_0000_0000_0000,
                forall|j: int| 0 <= j < i ==> keys@[j] == 2 * listed@[j].maker + listed@[j].direction,
            decreases listed@.len() - i,
        {
            keys.push(2 * (listed[i].maker as u64) + listed[i].direction as u64);
            i = i + 1;
        }
        assert(keys@.map_values(|k: u64| k as int) =~= slot_keys(listed@));
        let order = stable_order(&keys);
        let mut sorted: Vec<StandingPoolBinding> = Vec::new();
        let mut k: usize = 0;
        while k < order.len()
            invariant
                k <= order@.len(),
                is_permutation(order@, listed@.len()),
                sorted@.len() == k,
                forall|j: int| 0 <= j < k ==> sorted@[j] == listed@[order@[j] as int],
            decreases order@.len() - k,
        {
            sorted.push(listed[order[k]]);
            k = k + 1;
        }
        assert(sorted@ =~= bindings_after(before, binding));
        self.standing_pool_bindings = sorted;
    }
}

/// After a slot was bound, it is bound to the pool that was set.
pub proof fn set_binding_is_found(bindings: Seq<StandingPoolBinding>, binding: StandingPoolBinding)
    requires
        bindings.len() < usize::MAX,
        forall|i: int, j: int|
            0 <= i < j < bindings.len() ==> !same_slot(#[trigger] bindings[i], #[trigger] bindings[j]),
    ensures
        binding_of(bindings_after(bindings, binding), binding.maker, binding.direction) == Some(binding),
{
    let at = first_of_slot(bindings, binding, 0);
    put_binding_at(bindings, binding, at);
    let listed = put_binding(bindings, binding);
    assert(listed[at] == binding);
    assert forall|j: int| 0 <= j < listed.len() && j != at implies !same_slot(#[trigger] listed[j], binding) by {
        if at < bindings.len() {
            assert(listed[j] == bindings[j]);
            if j < at {
                assert(!same_slot(bindings[j], bindings[at]));
            } else {
                assert(!same_slot(bindings[at], bindings[j]));
            }
        } else {
            assert(listed[j] == bindings[j]);
        }
    }
    crate::sorting::stable_order_exists(slot_keys(listed));
    let order = order_of(slot_keys(listed));
    assert(is_stable_order(slot_keys(listed), order));
    let after = bindings_after(bindings, binding);
    permutation_covers(order, listed.len(), at);
    let p = choose|p: int| 0 <= p < listed.len() && order[p] == at;
    assert(after[p] == binding);
    assert forall|j: int| 0 <= j < p implies !((#[trigger] after[j]).maker == binding.maker && after[j].direction
        == binding.direction) by {
        assert(after[j] == listed[order[j] as int]);
        assert(order[j] != order[p]);
        assert(!same_slot(listed[order[j] as int], binding));
    }
    binding_at(after, binding.maker, binding.direction, p);
}

proof fn first_of_slot(bindings: Seq<StandingPoolBinding>, binding: StandingPoolBinding, from: int) -> (at: int)
    requires
        0 <= from <= bindings.len(),
        forall|j: int| 0 <= j < from ==> !same_slot(#[trigger] bindings[j], binding),
    ensures
        0 <= at <= bindings.len(),
        forall|j: int| 0 <= j < at ==> !same_slot(#[trigger] bindings[j], binding),
        at < bindings.len() ==> same_slot(bindings[at], binding),
    decreases bindings.len() - from,
{
    if from == bindings.len() || same_slot(bindings[from], binding) {
        from
    } else {
        first_of_slot(bindings, binding, from + 1)
    }
}

} // verus!
