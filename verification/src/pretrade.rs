//! The signed acknowledgement of pre-trade reservations.
//!
//! It holds only commitments, reservation identifiers and reservation receipt
//! digests. Proof nodes pin the key that signs it and verify it before they
//! authorize a final settlement.

use vstd::prelude::*;
use crate::application_crypto::{
    answers, can_sign, can_verify, check_signature, make_signature, signs, Signature, SigningKey, VerifyingKey,
};
use crate::bytes::{be_bytes, copied, is_zero32, joined, joined_step, put, put_be, same32, text_bytes, zero32};
use crate::digest::{hash, sha256};
use crate::fields::{either, first, first_at};
use crate::group::{is_point, Point};
use crate::oracle::{ask, decides, yes};
use crate::proof_mandate::Direction;
use crate::sorting::{
    is_permutation, is_stable_order, order_of, rearranged, sorted_ignores_list_order, stable_order,
    stable_order_exists,
};
use crate::text::about;

verus! {

/// The most authorities, and the most bindings, in one exchange.
pub const MAX_AUTHORITIES: usize = 4096;

/// The version of an acknowledgement.
pub const ACK_VERSION: u8 = 2;

/// Whose reservation a binding is of.
#[derive(Clone, Copy, Debug, PartialEq, Eq, Structural)]
pub enum ReservationParty {
    Maker,
    Taker,
}

impl ReservationParty {
    /// The byte that stands for a party.
    pub open spec fn code(self) -> u8 {
        match self {
            ReservationParty::Maker => 1,
            ReservationParty::Taker => 2,
        }
    }

    /// The byte that stands for a party.
    pub fn to_byte(self) -> (byte: u8)
        ensures
            byte == self.code(),
    {
        match self {
            ReservationParty::Maker => 1,
            ReservationParty::Taker => 2,
        }
    }

    /// The party that a byte stands for.
    pub fn try_from(value: u8) -> (r: Result<ReservationParty, String>)
        ensures
            match r {
                Ok(party) => party.code() == value,
                Err(e) => value != 1 && value != 2 && e@ == "pre-trade reservation party is invalid"@,
            },
    {
        match value {
            1 => Ok(ReservationParty::Maker),
            2 => Ok(ReservationParty::Taker),
            _ => Err("pre-trade reservation party is invalid".to_owned()),
        }
    }
}

/// The direction that a byte stands for.
pub fn direction(value: u8) -> (r: Result<Direction, String>)
    ensures
        match r {
            Ok(direction) => direction.code() == value,
            Err(e) => value != 1 && value != 2 && e@ == "pre-trade direction is invalid"@,
        },
{
    match value {
        1 => Ok(Direction::TakerBuys),
        2 => Ok(Direction::TakerSells),
        _ => Err("pre-trade direction is invalid".to_owned()),
    }
}

/// One reservation as it was acknowledged.
#[derive(Clone, Copy, Debug)]
pub struct PretradeReservationBinding {
    pub party: ReservationParty,
    pub owner_index: u16,
    pub direction: Direction,
    pub owner_handle: [u8; 32],
    /// The confidential-cap line that the reservation consumes.
    pub facility_id: [u8; 32],
    pub reserve_id: [u8; 32],
    pub mandate_digest: [u8; 32],
    /// Zero for a Taker; a Maker names the registered policy digest.
    pub policy_digest: [u8; 32],
    pub amount_commitment: [u8; 32],
    pub reserve_receipt_digest: [u8; 32],
}

/// Why a value that must not be zero is refused.
pub open spec fn zero_refusal(value: Seq<u8>, name: Seq<char>) -> Option<Seq<char>> {
    if value == zero32() {
        Some(name + " cannot be zero"@)
    } else {
        None
    }
}

/// Refuses a zero value.
pub fn nonzero(value: &[u8; 32], name: &str) -> (r: Result<(), String>)
    ensures
        match r {
            Ok(_) => zero_refusal(value@, name@) is None,
            Err(e) => zero_refusal(value@, name@) == Some(e@),
        },
{
    if is_zero32(value) {
        Err(about(name, " cannot be zero"))
    } else {
        Ok(())
    }
}

impl PretradeReservationBinding {
    /// What orders the bindings: the party, the owner, the direction.
    pub open spec fn rank(self) -> int {
        self.party.code() * 0x100_0000 + self.owner_index * 0x100 + self.direction.code()
    }

    /// Why a binding is refused.
    pub open spec fn refusal(self) -> Option<Seq<char>> {
        either(
            zero_refusal(self.owner_handle@, "reservation owner handle"@),
            either(
                if is_point(self.owner_handle@) {
                    None
                } else {
                    Some("reservation owner handle is not canonical"@)
                },
                either(
                    zero_refusal(self.facility_id@, "facility id"@),
                    either(
                        zero_refusal(self.reserve_id@, "reserve id"@),
                        either(
                            zero_refusal(self.mandate_digest@, "mandate digest"@),
                            either(
                                zero_refusal(self.amount_commitment@, "amount commitment"@),
                                either(
                                    zero_refusal(self.reserve_receipt_digest@, "reserve receipt"@),
                                    if (self.party == ReservationParty::Maker) != (self.policy_digest@ != zero32()) {
                                        Some("Maker/Taker policy binding is inconsistent"@)
                                    } else {
                                        None
                                    },
                                ),
                            ),
                        ),
                    ),
                ),
            ),
        )
    }

    /// The bytes of a binding in the signed text.
    pub open spec fn body(self) -> Seq<u8> {
        seq![self.party.code()] + be_bytes(self.owner_index as nat, 2) + seq![self.direction.code()]
            + self.owner_handle@ + self.facility_id@ + self.reserve_id@ + self.mandate_digest@ + self.policy_digest@
            + self.amount_commitment@ + self.reserve_receipt_digest@
    }

    fn check(&self) -> (r: Result<(), String>)
        ensures
            match r {
                Ok(_) => self.refusal() is None,
                Err(e) => self.refusal() == Some(e@),
            },
    {
        if let Err(e) = nonzero(&self.owner_handle, "reservation owner handle") {
            return Err(e);
        }
        if Point::from_canonical(self.owner_handle).is_none() {
            return Err("reservation owner handle is not canonical".to_owned());
        }
        if let Err(e) = nonzero(&self.facility_id, "facility id") {
            return Err(e);
        }
        if let Err(e) = nonzero(&self.reserve_id, "reserve id") {
            return Err(e);
        }
        if let Err(e) = nonzero(&self.mandate_digest, "mandate digest") {
            return Err(e);
        }
        if let Err(e) = nonzero(&self.amount_commitment, "amount commitment") {
            return Err(e);
        }
        if let Err(e) = nonzero(&self.reserve_receipt_digest, "reserve receipt") {
            return Err(e);
        }
        let maker: bool = match self.party {
            ReservationParty::Maker => true,
            ReservationParty::Taker => false,
        };
        let policy: bool = !is_zero32(&self.policy_digest);
        if maker != policy {
            return Err("Maker/Taker policy binding is inconsistent".to_owned());
        }
        Ok(())
    }

    fn append_to(&self, body: &mut Vec<u8>)
        ensures
            final(body)@ == old(body)@ + self.body(),
    {
        let ghost before = body@;
        body.push(self.party.to_byte());
        put_be(body, self.owner_index as u64, 2);
        body.push(self.direction.to_byte());
        put(body, self.owner_handle.as_slice());
        put(body, self.facility_id.as_slice());
        put(body, self.reserve_id.as_slice());
        put(body, self.mandate_digest.as_slice());
        put(body, self.policy_digest.as_slice());
        put(body, self.amount_commitment.as_slice());
        put(body, self.reserve_receipt_digest.as_slice());
        assert(body@ =~= before + self.body());
    }
}

/// The signed acknowledgement.
#[derive(Debug)]
pub struct PretradeAcknowledgement {
    pub authority_digest: [u8; 32],
    pub defmi_id: [u8; 32],
    pub after_state_root: [u8; 32],
    pub bindings: Vec<PretradeReservationBinding>,
    pub signer_public: [u8; 32],
    pub signature: Signature,
}

/// The ranks of bindings.
pub open spec fn ranks(bindings: Seq<PretradeReservationBinding>) -> Seq<int> {
    bindings.map_values(|b: PretradeReservationBinding| b.rank())
}

/// Bindings in the order in which they are signed.
pub open spec fn by_rank(bindings: Seq<PretradeReservationBinding>) -> Seq<PretradeReservationBinding> {
    rearranged(bindings, order_of(ranks(bindings)))
}

/// Whether two bindings are of one party, owner and direction.
pub open spec fn repeats(bindings: Seq<PretradeReservationBinding>) -> bool {
    exists|i: int, j: int| 0 <= i < j < bindings.len() && (#[trigger] bindings[i]).rank()
        == (#[trigger] bindings[j]).rank()
}

/// Why a list of bindings is refused.
pub open spec fn bindings_refusal(bindings: Seq<PretradeReservationBinding>) -> Option<Seq<char>> {
    if bindings.len() == 0 || bindings.len() > MAX_AUTHORITIES {
        Some("pre-trade acknowledgement binding population is invalid"@)
    } else if repeats(bindings) {
        Some("pre-trade acknowledgement repeats a reservation authority"@)
    } else {
        first(by_rank(bindings), |b: PretradeReservationBinding| b.refusal())
    }
}

/// The bytes of the bindings in the signed text.
pub open spec fn binding_bodies(bindings: Seq<PretradeReservationBinding>) -> Seq<Seq<u8>> {
    bindings.map_values(|b: PretradeReservationBinding| b.body())
}

/// The signed text of the bindings does not depend on the order in which they are listed.
pub proof fn acknowledgement_ignores_list_order(bindings: Seq<PretradeReservationBinding>, shuffle: Seq<usize>)
    requires
        bindings.len() <= MAX_AUTHORITIES,
        is_permutation(shuffle, bindings.len()),
        !repeats(bindings),
    ensures
        by_rank(rearranged(bindings, shuffle)) == by_rank(bindings),
{
    let key = |b: PretradeReservationBinding| b.rank();
    let listed = rearranged(bindings, shuffle);
    stable_order_exists(listed.map_values(key));
    sorted_ignores_list_order(bindings, key, shuffle);
    assert(listed.map_values(key) =~= ranks(listed));
    assert(bindings.map_values(key) =~= ranks(bindings));
}

/// Where two neighbours of a sorted list differ, all differ.
proof fn neighbours_decide(bindings: Seq<PretradeReservationBinding>, order: Seq<usize>)
    requires
        is_stable_order(ranks(bindings), order),
        forall|i: int|
            0 < i < bindings.len() ==> bindings[order[i - 1] as int].rank() != (
            #[trigger] bindings[order[i] as int]).rank(),
    ensures
        !repeats(bindings),
{
    if repeats(bindings) {
        let (a, b) = choose|i: int, j: int|
            0 <= i < j < bindings.len() && (#[trigger] bindings[i]).rank() == (#[trigger] bindings[j]).rank();
        crate::sorting::permutation_covers(order, bindings.len(), a);
        crate::sorting::permutation_covers(order, bindings.len(), b);
        let i = choose|i: int| 0 <= i < bindings.len() && order[i] == a;
        let j = choose|i: int| 0 <= i < bindings.len() && order[i] == b;
        let low = if i < j { i } else { j };
        let high = if i < j { j } else { i };
        let keys = ranks(bindings);
        assert(keys[order[low] as int] == keys[order[high] as int]);
        assert(bindings[order[low + 1] as int].rank() != bindings[order[low] as int].rank());
        if low + 1 < high {
            assert(keys[order[low] as int] <= keys[order[low + 1] as int]);
            assert(keys[order[low + 1] as int] <= keys[order[high] as int]);
        }
    }
}

impl PretradeAcknowledgement {
    /// The bindings in the order in which they are signed.
    pub fn sorted_bindings(&self) -> (r: Result<Vec<PretradeReservationBinding>, String>)
        ensures
            match r {
                Ok(values) => {
                    &&& bindings_refusal(self.bindings@) is None
                    &&& values@ == by_rank(self.bindings@)
                    &&& values@.len() == self.bindings@.len()
                },
                Err(e) => bindings_refusal(self.bindings@) == Some(e@),
            },
    {
        if self.bindings.len() == 0 || self.bindings.len() > MAX_AUTHORITIES {
            return Err("pre-trade acknowledgement binding population is invalid".to_owned());
        }
        let ghost all = self.bindings@;
        let mut keys: Vec<u64> = Vec::new();
        let mut i: usize = 0;
        while i < self.bindings.len()
            invariant
                i <= self.bindings@.len(),
                all == self.bindings@,
                keys@.len() == i,
                forall|j: int| 0 <= j < i ==> #[trigger] keys@[j] == all[j].rank(),
            decreases self.bindings@.len() - i,
        {
            let b = self.bindings[i];
            let key: u64 = b.party.to_byte() as u64 * 0x100_0000 + b.owner_index as u64 * 0x100
                + b.direction.to_byte() as u64;
            keys.push(key);
            i = i + 1;
        }
        assert(keys@.map_values(|k: u64| k as int) =~= ranks(all));
        let order = stable_order(&keys);
        let mut values: Vec<PretradeReservationBinding> = Vec::new();
        i = 0;
        while i < order.len()
            invariant
                i <= order@.len(),
                all == self.bindings@,
                order@.len() == all.len(),
                is_stable_order(ranks(all), order@),
                values@.len() == i,
                forall|j: int| 0 <= j < i ==> #[trigger] values@[j] == all[order@[j] as int],
            decreases order@.len() - i,
        {
            values.push(self.bindings[order[i]]);
            i = i + 1;
        }
        assert(values@ =~= by_rank(all));
        i = 1;
        while i < values.len()
            invariant
                1 <= i <= values@.len(),
                values@.len() == all.len(),
                order@.len() == all.len(),
                is_stable_order(ranks(all), order@),
                0 < all.len() <= MAX_AUTHORITIES,
                all == self.bindings@,
                forall|j: int| 0 <= j < values@.len() ==> #[trigger] values@[j] == all[order@[j] as int],
                forall|j: int| 0 < j < i ==> values@[j - 1].rank() != (#[trigger] values@[j]).rank(),
            decreases values@.len() - i,
        {
            let a = values[i - 1];
            let b = values[i];
            if a.party == b.party && a.owner_index == b.owner_index && a.direction == b.direction {
                proof {
                    let x = order@[i - 1] as int;
                    let y = order@[i as int] as int;
                    assert(all[x].rank() == all[y].rank());
                    if x < y {
                        assert(repeats(all));
                    } else {
                        assert(x != y);
                        assert(all[y].rank() == all[x].rank());
                        assert(repeats(all));
                    }
                }
                return Err("pre-trade acknowledgement repeats a reservation authority".to_owned());
            }
            i = i + 1;
        }
        proof {
            assert forall|j: int| 0 < j < all.len() implies all[order@[j - 1] as int].rank() != (
            #[trigger] all[order@[j] as int]).rank() by {
                assert(values@[j - 1].rank() != values@[j].rank());
            }
            neighbours_decide(all, order@);
        }
        let ghost check = |b: PretradeReservationBinding| b.refusal();
        i = 0;
        assert(values@.take(0) =~= Seq::empty());
        while i < values.len()
            invariant
                i <= values@.len(),
                all == self.bindings@,
                values@ == by_rank(all),
                0 < all.len() <= MAX_AUTHORITIES,
                !repeats(all),
                check == |b: PretradeReservationBinding| b.refusal(),
                first(values@.take(i as int), check) is None,
            decreases values@.len() - i,
        {
            let checked = values[i].check();
            proof {
                first_at(values@, check, i as int);
            }
            if let Err(e) = checked {
                return Err(e);
            }
            i = i + 1;
        }
        assert(values@.take(i as int) =~= values@);
        Ok(values)
    }

    /// Why the acknowledgement has no signed text, where `known` tells the keys that exist.
    pub open spec fn refusal<K: Fn(&Vec<u8>) -> bool>(self, known: K) -> Option<Seq<char>> {
        either(
            zero_refusal(self.authority_digest@, "authority digest"@),
            either(
                zero_refusal(self.defmi_id@, "DeFMI id"@),
                either(
                    zero_refusal(self.after_state_root@, "DeFMI state root"@),
                    either(
                        if yes(known, self.signer_public@) {
                            None
                        } else {
                            Some("pre-trade acknowledgement key is malformed"@)
                        },
                        bindings_refusal(self.bindings@),
                    ),
                ),
            ),
        )
    }

    /// The signed text.
    pub open spec fn body(self) -> Seq<u8> {
        text_bytes("QOMM:DEFMI:PRETRADE-ACK:v2"@) + self.authority_digest@ + self.defmi_id@ + self.after_state_root@
            + be_bytes(self.bindings@.len(), 4) + joined(binding_bodies(by_rank(self.bindings@))) + self.signer_public@
    }

    /// The signed text.
    pub fn unsigned<K: Fn(&Vec<u8>) -> bool>(&self, known: &K) -> (r: Result<Vec<u8>, String>)
        requires
            decides(*known),
        ensures
            match r {
                Ok(body) => self.refusal(*known) is None && body@ == self.body(),
                Err(e) => self.refusal(*known) == Some(e@),
            },
    {
        if let Err(e) = nonzero(&self.authority_digest, "authority digest") {
            return Err(e);
        }
        if let Err(e) = nonzero(&self.defmi_id, "DeFMI id") {
            return Err(e);
        }
        if let Err(e) = nonzero(&self.after_state_root, "DeFMI state root") {
            return Err(e);
        }
        let key = copied(self.signer_public.as_slice());
        if !ask(known, &key) {
            return Err("pre-trade acknowledgement key is malformed".to_owned());
        }
        let bindings = match self.sorted_bindings() {
            Err(e) => {
                return Err(e);
            },
            Ok(bindings) => bindings,
        };
        let mut body: Vec<u8> = Vec::new();
        put(&mut body, "QOMM:DEFMI:PRETRADE-ACK:v2".as_bytes());
        put(&mut body, self.authority_digest.as_slice());
        put(&mut body, self.defmi_id.as_slice());
        put(&mut body, self.after_state_root.as_slice());
        put_be(&mut body, bindings.len() as u64, 4);
        let ghost head = body@;
        let ghost parts = binding_bodies(bindings@);
        let mut i: usize = 0;
        assert(parts.take(0) =~= Seq::empty());
        assert(body@ =~= head + joined(parts.take(0)));
        while i < bindings.len()
            invariant
                i <= bindings@.len(),
                parts == binding_bodies(bindings@),
                body@ == head + joined(parts.take(i as int)),
            decreases bindings@.len() - i,
        {
            bindings[i].append_to(&mut body);
            proof {
                joined_step(parts, i as int);
                assert(body@ =~= head + joined(parts.take(i + 1)));
            }
            i = i + 1;
        }
        assert(parts.take(i as int) =~= parts);
        put(&mut body, self.signer_public.as_slice());
        assert(body@ =~= self.body());
        Ok(body)
    }

    /// What signing the acknowledgement comes to.
    pub open spec fn signed<K: Fn(&Vec<u8>) -> bool, S: Fn(&SigningKey, &Vec<u8>) -> Result<Signature, String>>(
        self,
        key: SigningKey,
        known: K,
        sign: S,
        r: Result<PretradeAcknowledgement, String>,
    ) -> bool {
        if self.signer_public@ != key.public.bytes@ {
            r matches Err(e) && e@ == "pre-trade acknowledgement signing key differs"@
        } else {
            match self.refusal(known) {
                Some(e) => r matches Err(f) && f@ == e,
                None => match r {
                    Ok(signed) => {
                        &&& signs(sign, key, self.body(), Ok(signed.signature@))
                        &&& signed == (PretradeAcknowledgement { signature: signed.signature, ..self })
                    },
                    Err(e) => signs(sign, key, self.body(), Err(e@)),
                },
            }
        }
    }

    /// What verifying the acknowledgement comes to.
    pub open spec fn verified<K: Fn(&Vec<u8>) -> bool, V: Fn(&VerifyingKey, &Vec<u8>, &Signature) -> bool>(
        self,
        trusted: VerifyingKey,
        known: K,
        verify: V,
        r: Result<(), String>,
    ) -> bool {
        if self.signer_public@ != trusted.bytes@ {
            r matches Err(e) && e@ == "pre-trade acknowledgement is not from the pinned DeFMI"@
        } else {
            match self.refusal(known) {
                Some(e) => r matches Err(f) && f@ == e,
                None => match r {
                    Ok(_) => answers(verify, trusted, self.body(), self.signature@, true),
                    Err(e) => e@ == "pre-trade acknowledgement signature is invalid"@ && answers(
                        verify,
                        trusted,
                        self.body(),
                        self.signature@,
                        false,
                    ),
                },
            }
        }
    }

    /// Signs the acknowledgement with the key it names.
    pub fn sign<K: Fn(&Vec<u8>) -> bool, S: Fn(&SigningKey, &Vec<u8>) -> Result<Signature, String>>(
        self,
        key: &SigningKey,
        known: &K,
        sign: &S,
    ) -> (r: Result<PretradeAcknowledgement, String>)
        requires
            decides(*known),
            can_sign(*sign),
        ensures
            self.signed(*key, *known, *sign, r),
    {
        if !same32(&self.signer_public, &key.public.bytes) {
            return Err("pre-trade acknowledgement signing key differs".to_owned());
        }
        let body = match self.unsigned(known) {
            Err(e) => {
                return Err(e);
            },
            Ok(body) => body,
        };
        match make_signature(sign, key, &body) {
            Err(e) => Err(e),
            Ok(signature) => {
                let PretradeAcknowledgement {
                    authority_digest,
                    defmi_id,
                    after_state_root,
                    bindings,
                    signer_public,
                    signature: _,
                } = self;
                Ok(
                    PretradeAcknowledgement {
                        authority_digest,
                        defmi_id,
                        after_state_root,
                        bindings,
                        signer_public,
                        signature,
                    },
                )
            },
        }
    }

    /// Accepts an acknowledgement only from the pinned signer.
    pub fn verify<K: Fn(&Vec<u8>) -> bool, V: Fn(&VerifyingKey, &Vec<u8>, &Signature) -> bool>(
        &self,
        trusted: &VerifyingKey,
        known: &K,
        verify: &V,
    ) -> (r: Result<(), String>)
        requires
            decides(*known),
            can_verify(*verify),
        ensures
            self.verified(*trusted, *known, *verify, r),
    {
        if !same32(&self.signer_public, &trusted.bytes) {
            return Err("pre-trade acknowledgement is not from the pinned DeFMI".to_owned());
        }
        let body = match self.unsigned(known) {
            Err(e) => {
                return Err(e);
            },
            Ok(body) => body,
        };
        if check_signature(verify, trusted, &body, &self.signature) {
            Ok(())
        } else {
            Err("pre-trade acknowledgement signature is invalid".to_owned())
        }
    }

    /// The digest of the signed acknowledgement.
    pub fn digest<K: Fn(&Vec<u8>) -> bool>(&self, known: &K) -> (r: Result<[u8; 32], String>)
        requires
            decides(*known),
        ensures
            match r {
                Ok(digest) => self.refusal(*known) is None && digest@ == sha256(self.body() + self.signature@),
                Err(e) => self.refusal(*known) == Some(e@),
            },
    {
        let mut body = match self.unsigned(known) {
            Err(e) => {
                return Err(e);
            },
            Ok(body) => body,
        };
        let signature = self.signature.to_bytes();
        put(&mut body, signature.as_slice());
        Ok(hash(body.as_slice()))
    }

    /// Whether a binding is the one that is looked for.
    pub open spec fn binds(
        binding: PretradeReservationBinding,
        party: ReservationParty,
        owner_handle: Seq<u8>,
        direction: Direction,
    ) -> bool {
        binding.party == party && binding.owner_handle@ == owner_handle && binding.direction == direction
    }

    /// The first binding of a party's handle and direction.
    pub fn binding_for(&self, party: ReservationParty, owner_handle: &[u8; 32], direction: Direction) -> (r: Result<
        &PretradeReservationBinding,
        String,
    >)
        ensures
            match r {
                Ok(found) => selected(self.bindings@, party, owner_handle@, direction) == Some(*found),
                Err(e) => {
                    &&& selected(self.bindings@, party, owner_handle@, direction) is None
                    &&& e@ == "pre-trade acknowledgement lacks the selected reservation"@
                },
            },
    {
        let mut i: usize = 0;
        assert(self.bindings@.skip(0) =~= self.bindings@);
        while i < self.bindings.len()
            invariant
                i <= self.bindings@.len(),
                selected(self.bindings@, party, owner_handle@, direction) == selected(
                    self.bindings@.skip(i as int),
                    party,
                    owner_handle@,
                    direction,
                ),
            decreases self.bindings@.len() - i,
        {
            let ghost rest = self.bindings@.skip(i as int);
            assert(rest[0] == self.bindings@[i as int]);
            assert(rest.skip(1) =~= self.bindings@.skip(i + 1));
            if self.bindings[i].party == party && same32(&self.bindings[i].owner_handle, owner_handle)
                && self.bindings[i].direction == direction {
                return Ok(&self.bindings[i]);
            }
            i = i + 1;
        }
        Err("pre-trade acknowledgement lacks the selected reservation".to_owned())
    }
}

/// The first binding of a party's handle and direction.
pub open spec fn selected(
    bindings: Seq<PretradeReservationBinding>,
    party: ReservationParty,
    owner_handle: Seq<u8>,
    direction: Direction,
) -> Option<PretradeReservationBinding>
    decreases bindings.len(),
{
    if bindings.len() == 0 {
        None
    } else if PretradeAcknowledgement::binds(bindings[0], party, owner_handle, direction) {
        Some(bindings[0])
    } else {
        selected(bindings.skip(1), party, owner_handle, direction)
    }
}

} // verus!
