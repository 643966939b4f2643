//! The sealer of one fixed slot: a precommitted population of tickets, one
//! frame for each, and one signed order that randomness from after the slot fixes.

use vstd::prelude::*;
use crate::application_crypto::{
    answers, can_sign, can_verify, make_signature, signs, Signature, SigningKey, VerifyingKey,
};
use crate::bytes::{be_bytes, be_value, put, put_be, same, same32, text_bytes};
use crate::digest::{hash, sha256};
use crate::slot::{
    beacon_body, AdmissionReceipt, AdmissionTicket, BatchManifest, Manifest, RandomnessBeacon, Receipt, Ticket,
};
use crate::sorting::{
    is_permutation, is_stable_order, order_of, permutation_covers, rearranged, sorted_ignores_list_order,
    stable_digest_order, stable_order_exists,
};
use crate::text::{decimal, decimal_text};
use crate::wire::{frames, Frame, FrameParts};
use vstd::string::StringExecFns;

verus! {

/// A frame that was admitted under a ticket, with its receipt.
pub struct Admitted {
    pub ticket_digest: [u8; 32],
    pub frame: Frame,
    pub receipt: AdmissionReceipt,
}

/// What was admitted under a ticket.
pub ghost struct Entry {
    pub ticket_digest: Seq<u8>,
    pub frame: FrameParts,
    pub receipt: Receipt,
}

impl View for Admitted {
    type V = Entry;

    open spec fn view(&self) -> Entry {
        Entry { ticket_digest: self.ticket_digest@, frame: self.frame@, receipt: self.receipt@ }
    }
}

/// What a list of tickets says.
pub open spec fn tickets(values: Seq<AdmissionTicket>) -> Seq<Ticket> {
    values.map_values(|t: AdmissionTicket| t@)
}

/// What a list of admissions holds.
pub open spec fn entries(values: Seq<Admitted>) -> Seq<Entry> {
    values.map_values(|a: Admitted| a@)
}

/// Whether a ticket digest was admitted.
pub open spec fn has_entry(values: Seq<Entry>, digest: Seq<u8>) -> bool {
    exists|i: int| 0 <= i < values.len() && (#[trigger] values[i]).ticket_digest == digest
}

/// Where a ticket digest was admitted.
pub open spec fn entry_at(values: Seq<Entry>, digest: Seq<u8>) -> int {
    choose|i: int| 0 <= i < values.len() && (#[trigger] values[i]).ticket_digest == digest
}

/// How many of the tickets have not been used.
pub open spec fn missing(population: Seq<Ticket>, values: Seq<Entry>) -> nat
    decreases population.len(),
{
    if population.len() == 0 {
        0
    } else {
        missing(population.drop_last(), values) + if population.last().lasts() && !has_entry(
            values,
            population.last().digest(),
        ) {
            1nat
        } else {
            0nat
        }
    }
}

/// The hashed text by which a ticket is placed in the order of its slot.
pub open spec fn order_message(slot: nat, round: nat, value: Seq<u8>, ticket_id: Seq<u8>) -> Seq<u8> {
    text_bytes("QOMM:ORDER:KEY:v1"@) + be_bytes(slot, 8) + be_bytes(round, 8) + value + ticket_id
}

/// The tickets of a slot in the order that a beacon gives them.
pub open spec fn sealed_order(population: Seq<Ticket>, slot: nat, round: nat, value: Seq<u8>) -> Seq<Ticket> {
    rearranged(
        population,
        order_of(
            population.map_values(|t: Ticket| be_value(sha256(order_message(slot, round, value, t.ticket_id))) as int),
        ),
    )
}

/// The key by which a beacon orders a ticket.
pub open spec fn order_key(slot: nat, round: nat, value: Seq<u8>, ticket: Ticket) -> int {
    be_value(sha256(order_message(slot, round, value, ticket.ticket_id))) as int
}

/// The order of a slot does not depend on how its tickets were listed, where the
/// beacon gives no two of them the same key.
pub proof fn sealed_order_ignores_list_order(
    population: Seq<Ticket>,
    slot: nat,
    round: nat,
    value: Seq<u8>,
    shuffle: Seq<usize>,
)
    requires
        population.len() <= usize::MAX,
        is_permutation(shuffle, population.len()),
        forall|i: int, j: int|
            0 <= i < j < population.len() ==> order_key(slot, round, value, #[trigger] population[i]) != order_key(
                slot,
                round,
                value,
                #[trigger] population[j],
            ),
    ensures
        sealed_order(rearranged(population, shuffle), slot, round, value) == sealed_order(population, slot, round,
            value),
{
    let key = |t: Ticket| be_value(sha256(order_message(slot, round, value, t.ticket_id))) as int;
    assert forall|i: int, j: int| 0 <= i < j < population.len() implies key(population[i]) != key(population[j]) by {
        assert(order_key(slot, round, value, population[i]) != order_key(slot, round, value, population[j]));
    }
    stable_order_exists(rearranged(population, shuffle).map_values(key));
    sorted_ignores_list_order(population, key, shuffle);
}

/// The frames of a slot in the order that a beacon gives them.
pub open spec fn sealed_frames(
    population: Seq<Ticket>,
    values: Seq<Entry>,
    slot: nat,
    round: nat,
    value: Seq<u8>,
) -> Seq<FrameParts> {
    sealed_order(population, slot, round, value).map_values(|t: Ticket| values[entry_at(values, t.digest())].frame)
}

/// What the frames of a slot hold changes no place in its order: where the same
/// tickets were used for other frames, every place goes to the same ticket.
pub proof fn sealed_order_ignores_contents(
    population: Seq<Ticket>,
    values: Seq<Entry>,
    others: Seq<Entry>,
    slot: nat,
    round: nat,
    value: Seq<u8>,
)
    requires
        values.len() == others.len(),
        forall|i: int| 0 <= i < values.len() ==> (#[trigger] values[i]).ticket_digest == others[i].ticket_digest,
        forall|i: int, j: int|
            0 <= i < j < values.len() ==> (#[trigger] values[i]).ticket_digest != (#[trigger] values[j]).ticket_digest,
        forall|t: int| 0 <= t < population.len() ==> has_entry(values, (#[trigger] population[t]).digest()),
        population.len() <= usize::MAX,
    ensures
        forall|i: int|
            #![trigger sealed_frames(population, values, slot, round, value)[i]]
            0 <= i < sealed_frames(population, values, slot, round, value).len() ==> {
                let at = entry_at(values, sealed_order(population, slot, round, value)[i].digest());
                &&& sealed_frames(population, values, slot, round, value)[i] == values[at].frame
                &&& sealed_frames(population, others, slot, round, value)[i] == others[at].frame
            },
{
    let ordered = sealed_order(population, slot, round, value);
    let key = |t: Ticket| be_value(sha256(order_message(slot, round, value, t.ticket_id))) as int;
    let keys = population.map_values(key);
    stable_order_exists(keys);
    assert(is_stable_order(keys, order_of(keys)));
    assert forall|i: int| 0 <= i < ordered.len() implies #[trigger] entry_at(others, ordered[i].digest()) == entry_at(
        values,
        ordered[i].digest(),
    ) by {
        let digest = ordered[i].digest();
        assert(ordered[i] == population[order_of(keys)[i] as int]);
        assert(has_entry(values, digest));
        let at = entry_at(values, digest);
        assert(values[at].ticket_digest == digest);
        assert(others[at].ticket_digest == digest);
        let to = entry_at(others, digest);
        assert(others[to].ticket_digest == digest);
        assert(values[to].ticket_digest == digest);
        if to < at {
            assert(values[to].ticket_digest != values[at].ticket_digest);
        } else if at < to {
            assert(values[at].ticket_digest != values[to].ticket_digest);
        }
    }
}

/// The frames of a slot come out the same in whatever order they arrived.
pub proof fn sealed_frames_ignore_arrival(
    population: Seq<Ticket>,
    values: Seq<Entry>,
    shuffle: Seq<usize>,
    slot: nat,
    round: nat,
    value: Seq<u8>,
)
    requires
        is_permutation(shuffle, values.len()),
        forall|i: int, j: int|
            0 <= i < j < values.len() ==> (#[trigger] values[i]).ticket_digest != (#[trigger] values[j]).ticket_digest,
        forall|t: int| 0 <= t < population.len() ==> has_entry(values, (#[trigger] population[t]).digest()),
        population.len() <= usize::MAX,
    ensures
        sealed_frames(population, rearranged(values, shuffle), slot, round, value) == sealed_frames(
            population,
            values,
            slot,
            round,
            value,
        ),
{
    let arrived = rearranged(values, shuffle);
    let ordered = sealed_order(population, slot, round, value);
    let key = |t: Ticket| be_value(sha256(order_message(slot, round, value, t.ticket_id))) as int;
    let keys = population.map_values(key);
    stable_order_exists(keys);
    assert(is_stable_order(keys, order_of(keys)));
    assert forall|i: int| 0 <= i < ordered.len() implies #[trigger] arrived[entry_at(
        arrived,
        ordered[i].digest(),
    )].frame == values[entry_at(values, ordered[i].digest())].frame by {
        let ticket = ordered[i];
        let place = order_of(keys)[i] as int;
        assert(ticket == population[place]);
        assert(has_entry(values, ticket.digest()));
        let at = entry_at(values, ticket.digest());
        assert(values[at].ticket_digest == ticket.digest());
        permutation_covers(shuffle, values.len(), at);
        let from = choose|from: int| 0 <= from < values.len() && shuffle[from] == at;
        assert(arrived[from].ticket_digest == ticket.digest());
        let to = entry_at(arrived, ticket.digest());
        assert(arrived[to].ticket_digest == ticket.digest());
        let back = shuffle[to] as int;
        assert(arrived[to] == values[back]);
        if back < at {
            assert(values[back].ticket_digest != values[at].ticket_digest);
        } else if at < back {
            assert(values[at].ticket_digest != values[back].ticket_digest);
        }
    }
    assert(sealed_frames(population, arrived, slot, round, value) =~= sealed_frames(population, values, slot, round,
        value));
}

/// The manifest of a slot, before it is signed.
pub open spec fn sealed_manifest(
    population: Seq<Ticket>,
    values: Seq<Entry>,
    slot: nat,
    node: nat,
    round: nat,
    value: Seq<u8>,
    previous_digest: Seq<u8>,
) -> Manifest {
    let ordered = sealed_order(population, slot, round, value);
    Manifest {
        slot,
        node,
        beacon_round: round,
        beacon_value: value,
        tickets: ordered.map_values(|t: Ticket| t.digest()),
        frames: ordered.map_values(|t: Ticket| sha256(values[entry_at(values, t.digest())].frame.encoded)),
        previous_digest,
        signature: Seq::empty(),
    }
}

/// The sealer of one slot at one node.
pub struct FixedSlotSealer {
    pub slot: u64,
    pub node: u64,
    pub deadline_ns: u64,
    pub tickets: Vec<AdmissionTicket>,
    pub authority_key: VerifyingKey,
    pub beacon_key: VerifyingKey,
    pub signing_key: SigningKey,
    pub previous_digest: [u8; 32],
    pub admitted: Vec<Admitted>,
    pub closed: bool,
}

impl FixedSlotSealer {
    /// What the sealer was made with.
    pub open spec fn same_slot(self, other: FixedSlotSealer) -> bool {
        &&& self.slot == other.slot
        &&& self.node == other.node
        &&& self.deadline_ns == other.deadline_ns
        &&& self.tickets@ == other.tickets@
        &&& self.authority_key == other.authority_key
        &&& self.beacon_key == other.beacon_key
        &&& self.signing_key == other.signing_key
        &&& self.previous_digest@ == other.previous_digest@
    }

    /// No identifier stands twice in the population, and all of it is of this slot.
    pub open spec fn population_ok(self) -> bool {
        &&& forall|i: int, j: int|
            0 <= i < j < self.tickets@.len()
                ==> (#[trigger] self.tickets@[i]).ticket_id@ != (#[trigger] self.tickets@[j]).ticket_id@
        &&& forall|i: int| 0 <= i < self.tickets@.len() ==> (#[trigger] self.tickets@[i]).slot == self.slot
    }

    /// An admitted frame is of this slot and node, was admitted under a ticket
    /// of the population, and has the receipt that says so.
    pub open spec fn entry_ok(self, entry: Entry) -> bool {
        &&& entry.frame.slot == self.slot
        &&& entry.frame.node == self.node
        &&& entry.receipt.slot == self.slot
        &&& entry.receipt.node == self.node
        &&& entry.receipt.ticket_digest == entry.ticket_digest
        &&& entry.receipt.frame_digest == sha256(entry.frame.encoded)
        &&& exists|i: int|
            0 <= i < self.tickets@.len() && (#[trigger] self.tickets@[i])@.digest() == entry.ticket_digest
    }

    /// Each ticket has at most one frame.
    pub open spec fn well_formed(self) -> bool {
        let all = entries(self.admitted@);
        &&& self.population_ok()
        &&& forall|i: int, j: int|
            0 <= i < j < all.len() ==> (#[trigger] all[i]).ticket_digest != (#[trigger] all[j]).ticket_digest
        &&& forall|i: int| 0 <= i < all.len() ==> self.entry_ok(#[trigger] all[i])
    }

    /// Whether every receipt that was given out was signed with the sealer's key, over
    /// all that it says.
    pub open spec fn receipts_signed<S: Fn(&SigningKey, &Vec<u8>) -> Result<Signature, String>>(self, sign: S) -> bool {
        let all = entries(self.admitted@);
        forall|i: int|
            0 <= i < all.len() ==> signs(
                sign,
                self.signing_key,
                (#[trigger] all[i]).receipt.body(),
                Ok(all[i].receipt.signature),
            )
    }

    /// What opening a slot gives: a sealer of exactly the tickets of that slot, each once, with
    /// nothing admitted.
    pub open spec fn opened(
        slot: u64,
        node: u64,
        deadline_ns: u64,
        tickets: Seq<AdmissionTicket>,
        authority_key: VerifyingKey,
        beacon_key: VerifyingKey,
        signing_key: SigningKey,
        previous_digest: [u8; 32],
        r: Result<FixedSlotSealer, String>,
    ) -> bool {
        let repeats = exists|i: int, j: int|
            0 <= i < j < tickets.len() && (#[trigger] tickets[i]).ticket_id@
                == (#[trigger] tickets[j]).ticket_id@;
        let foreign = exists|i: int| 0 <= i < tickets.len() && (#[trigger] tickets[i]).slot != slot;
        match r {
            Ok(sealer) => {
                &&& !repeats
                &&& !foreign
                &&& sealer.well_formed()
                &&& sealer.slot == slot
                &&& sealer.node == node
                &&& sealer.deadline_ns == deadline_ns
                &&& sealer.tickets@ == tickets
                &&& sealer.authority_key == authority_key
                &&& sealer.beacon_key == beacon_key
                &&& sealer.signing_key == signing_key
                &&& sealer.previous_digest@ == previous_digest@
                &&& sealer.admitted@.len() == 0
                &&& !sealer.closed
            },
            Err(e) => if repeats {
                e@ == "the expected ticket list contains a duplicate"@
            } else {
                foreign && e@ == "a ticket belongs to another slot"@
            },
        }
    }

    /// A sealer for a precommitted population.
    pub fn new(
        slot: u64,
        node: u64,
        deadline_ns: u64,
        tickets: Vec<AdmissionTicket>,
        authority_key: VerifyingKey,
        beacon_key: VerifyingKey,
        signing_key: SigningKey,
        previous_digest: [u8; 32],
    ) -> (r: Result<FixedSlotSealer, String>)
        ensures
            FixedSlotSealer::opened(
                slot,
                node,
                deadline_ns,
                tickets@,
                authority_key,
                beacon_key,
                signing_key,
                previous_digest,
                r,
            ),
    {
        let mut i: usize = 0;
        while i < tickets.len()
            invariant
                i <= tickets@.len(),
                forall|a: int, b: int|
                    0 <= a < b < i ==> (#[trigger] tickets@[a]).ticket_id@ != (#[trigger] tickets@[b]).ticket_id@,
            decreases tickets@.len() - i,
        {
            let mut j: usize = 0;
            while j < i
                invariant
                    j <= i < tickets@.len(),
                    forall|a: int| 0 <= a < j ==> (#[trigger] tickets@[a]).ticket_id@ != tickets@[i as int].ticket_id@,
                decreases i - j,
            {
                if same32(&tickets[j].ticket_id, &tickets[i].ticket_id) {
                    return Err("the expected ticket list contains a duplicate".to_owned());
                }
                j = j + 1;
            }
            i = i + 1;
        }
        let mut k: usize = 0;
        while k < tickets.len()
            invariant
                k <= tickets@.len(),
                forall|a: int, b: int|
                    0 <= a < b < tickets@.len()
                        ==> (#[trigger] tickets@[a]).ticket_id@ != (#[trigger] tickets@[b]).ticket_id@,
                forall|a: int| 0 <= a < k ==> (#[trigger] tickets@[a]).slot == slot,
            decreases tickets@.len() - k,
        {
            if tickets[k].slot != slot {
                return Err("a ticket belongs to another slot".to_owned());
            }
            k = k + 1;
        }
        Ok(
            FixedSlotSealer {
                slot,
                node,
                deadline_ns,
                tickets,
                authority_key,
                beacon_key,
                signing_key,
                previous_digest,
                admitted: Vec::new(),
                closed: false,
            },
        )
    }

    /// The public half of the signing key.
    pub fn verifying_key(&self) -> (key: VerifyingKey)
        ensures
            key == self.signing_key.public,
    {
        self.signing_key.verifying_key()
    }

    fn find(&self, digest: &[u8; 32]) -> (found: Option<usize>)
        ensures
            found is Some <==> has_entry(entries(self.admitted@), digest@),
            found matches Some(i) ==> i < self.admitted@.len() && entries(self.admitted@)[i as int].ticket_digest
                == digest@,
    {
        let mut i: usize = 0;
        while i < self.admitted.len()
            invariant
                i <= self.admitted@.len(),
                forall|j: int| 0 <= j < i ==> (#[trigger] entries(self.admitted@)[j]).ticket_digest != digest@,
            decreases self.admitted@.len() - i,
        {
            assert(entries(self.admitted@)[i as int].ticket_digest == self.admitted@[i as int].ticket_digest@);
            if same32(&self.admitted[i].ticket_digest, digest) {
                return Some(i);
            }
            i = i + 1;
        }
        None
    }

    /// Whether the population can be hashed, and whether it holds a digest.
    fn expects(&self, digest: &[u8; 32]) -> (r: Result<bool, String>)
        ensures
            r is Ok <==> forall|i: int| 0 <= i < self.tickets@.len() ==> (#[trigger] self.tickets@[i])@.lasts(),
            r matches Ok(found) ==> found == exists|i: int|
                0 <= i < self.tickets@.len() && (#[trigger] self.tickets@[i])@.digest() == digest@,
            r matches Err(e) ==> e@ == "ticket expiry must follow issuance"@,
    {
        let mut found = false;
        let mut i: usize = 0;
        while i < self.tickets.len()
            invariant
                i <= self.tickets@.len(),
                forall|j: int| 0 <= j < i ==> (#[trigger] self.tickets@[j])@.lasts(),
                found == exists|j: int| 0 <= j < i && (#[trigger] self.tickets@[j])@.digest() == digest@,
            decreases self.tickets@.len() - i,
        {
            match self.tickets[i].digest() {
                Err(e) => {
                    return Err(e);
                },
                Ok(d) => {
                    if same32(&d, digest) {
                        assert(self.tickets@[i as int]@.digest() == digest@);
                        found = true;
                    }
                },
            }
            i = i + 1;
        }
        Ok(found)
    }

    /// What admitting the frame of a ticket does.
    pub open spec fn admits<
        V: Fn(&VerifyingKey, &Vec<u8>, &Signature) -> bool,
        S: Fn(&SigningKey, &Vec<u8>) -> Result<Signature, String>,
    >(
        self,
        ticket: AdmissionTicket,
        frame: Frame,
        now_ns: u64,
        verify: V,
        sign: S,
        later: FixedSlotSealer,
        r: Result<AdmissionReceipt, String>,
    ) -> bool {
        let now = now_ns as int / 1_000_000_000;
        let before = entries(self.admitted@);
        let after = entries(later.admitted@);
        let digest = ticket@.digest();
        let valid = ticket@.issued_at <= now <= ticket@.expires_at && ticket@.lasts();
        let all_last = forall|i: int|
            0 <= i < self.tickets@.len() ==> (#[trigger] self.tickets@[i])@.lasts();
        let expected = exists|i: int|
            0 <= i < self.tickets@.len() && (#[trigger] self.tickets@[i])@.digest() == digest;
        let wanted = Receipt {
            slot: self.slot as nat,
            node: self.node as nat,
            ticket_digest: digest,
            frame_digest: sha256(frame@.encoded),
            received_at_ns: now_ns as nat,
            signature: Seq::empty(),
        };
        &&& r is Err ==> after == before
        &&& if self.closed {
            r matches Err(e) && e@ == "the slot is already closed"@
        } else if now_ns > self.deadline_ns {
            r matches Err(e) && e@ == "the frame arrived after the sealed deadline"@
        } else {
            ||| (r matches Err(e) && e@ == "the admission ticket is invalid or expired"@ && (!valid || answers(
                verify,
                self.authority_key,
                ticket@.body(),
                ticket@.signature,
                false,
            )))
            ||| valid && answers(verify, self.authority_key, ticket@.body(), ticket@.signature, true)
                && if !all_last {
                r matches Err(e) && e@ == "ticket expiry must follow issuance"@
            } else if !expected {
                r matches Err(e) && e@ == "the ticket was not in the slot's precommitted population"@
            } else if frame@.slot != self.slot || frame@.node != self.node {
                r matches Err(e) && e@ == "the frame belongs to another slot or node"@
            } else if has_entry(before, digest) {
                let prior = before[entry_at(before, digest)];
                if prior.frame.encoded != frame@.encoded {
                    r matches Err(e) && e@ == "one ticket attempted to replace its admitted frame"@
                } else {
                    r matches Ok(receipt) && receipt@ == prior.receipt && after == before
                }
            } else {
                match r {
                    Ok(receipt) => {
                        &&& receipt@ == Receipt { signature: receipt@.signature, ..wanted }
                        &&& signs(sign, self.signing_key, wanted.body(), Ok(receipt@.signature))
                        &&& after == before.push(
                            Entry { ticket_digest: digest, frame: frame@, receipt: receipt@ },
                        )
                    },
                    Err(e) => signs(sign, self.signing_key, wanted.body(), Err(e@)),
                }
            }
        }
    }

    /// Admits the frame of a ticket, once. The same frame again gets the same receipt.
    pub fn admit_frame<
        V: Fn(&VerifyingKey, &Vec<u8>, &Signature) -> bool,
        S: Fn(&SigningKey, &Vec<u8>) -> Result<Signature, String>,
    >(&mut self, ticket: &AdmissionTicket, frame: Frame, now_ns: u64, verify: &V, sign: &S) -> (r: Result<
        AdmissionReceipt,
        String,
    >)
        requires
            can_verify(*verify),
            can_sign(*sign),
            old(self).well_formed(),
        ensures
            final(self).well_formed(),
            final(self).same_slot(*old(self)),
            final(self).closed == old(self).closed,
            old(self).admits(*ticket, frame, now_ns, *verify, *sign, *final(self), r),
            old(self).receipts_signed(*sign) ==> final(self).receipts_signed(*sign),
    {
        if self.closed {
            return Err("the slot is already closed".to_owned());
        }
        if now_ns > self.deadline_ns {
            return Err("the frame arrived after the sealed deadline".to_owned());
        }
        if !ticket.verify(&self.authority_key, now_ns / 1_000_000_000, verify) {
            return Err("the admission ticket is invalid or expired".to_owned());
        }
        let ticket_digest = match ticket.digest() {
            Err(e) => {
                return Err(e);
            },
            Ok(d) => d,
        };
        match self.expects(&ticket_digest) {
            Err(e) => {
                return Err(e);
            },
            Ok(found) => {
                if !found {
                    return Err("the ticket was not in the slot's precommitted population".to_owned());
                }
            },
        }
        if frame.slot as u64 != self.slot || frame.node as u64 != self.node {
            return Err("the frame belongs to another slot or node".to_owned());
        }
        let ghost before = entries(self.admitted@);
        let frame_digest = hash(frame.encoded.as_slice());
        match self.find(&ticket_digest) {
            Some(at) => {
                proof {
                    only_entry(before, ticket_digest@, at as int);
                    assert(before[at as int] == self.admitted@[at as int]@);
                }
                if !same(self.admitted[at].frame.encoded.as_slice(), frame.encoded.as_slice()) {
                    return Err("one ticket attempted to replace its admitted frame".to_owned());
                }
                return Ok(self.admitted[at].receipt.copy());
            },
            None => {},
        }
        let unsigned = AdmissionReceipt {
            slot: self.slot,
            node: self.node,
            ticket_digest,
            frame_digest,
            received_at_ns: now_ns,
            signature: Signature { bytes: Vec::new() },
        };
        let body = unsigned.unsigned();
        let signature = match make_signature(sign, &self.signing_key, &body) {
            Err(e) => {
                return Err(e);
            },
            Ok(s) => s,
        };
        let receipt = AdmissionReceipt { signature, ..unsigned };
        let kept = receipt.copy();
        self.admitted.push(Admitted { ticket_digest, frame, receipt: kept });
        proof {
            let after = entries(self.admitted@);
            assert(after =~= before.push(Entry { ticket_digest: ticket_digest@, frame: frame@, receipt: receipt@ }));
            assert forall|i: int| 0 <= i < after.len() implies self.entry_ok(#[trigger] after[i]) by {
                assert(self.tickets@ == old(self).tickets@);
                if i < before.len() {
                    assert(old(self).entry_ok(before[i]));
                    let k = choose|k: int|
                        0 <= k < old(self).tickets@.len() && (#[trigger] old(self).tickets@[k])@.digest()
                            == before[i].ticket_digest;
                    assert(self.tickets@[k]@.digest() == after[i].ticket_digest);
                } else {
                    let k = choose|k: int|
                        0 <= k < old(self).tickets@.len() && (#[trigger] old(self).tickets@[k])@.digest()
                            == ticket_digest@;
                    assert(self.tickets@[k]@.digest() == after[i].ticket_digest);
                }
            }
            assert forall|i: int, j: int| 0 <= i < j < after.len() implies (#[trigger] after[i]).ticket_digest != (
            #[trigger] after[j]).ticket_digest by {
                if j == before.len() {
                    assert(!has_entry(before, ticket_digest@));
                    assert(before[i].ticket_digest != ticket_digest@);
                } else {
                    assert(before[i].ticket_digest != before[j].ticket_digest);
                }
            }
        }
        Ok(receipt)
    }

    fn count_missing(&self) -> (count: usize)
        ensures
            count == missing(tickets(self.tickets@), entries(self.admitted@)),
    {
        let ghost population = tickets(self.tickets@);
        let ghost values = entries(self.admitted@);
        let mut count: usize = 0;
        let mut i: usize = 0;
        while i < self.tickets.len()
            invariant
                i <= self.tickets@.len(),
                count <= i,
                population == tickets(self.tickets@),
                values == entries(self.admitted@),
                count == missing(population.take(i as int), values),
            decreases self.tickets@.len() - i,
        {
            proof {
                assert(population.take(i as int + 1).drop_last() =~= population.take(i as int));
                assert(population[i as int] == self.tickets@[i as int]@);
            }
            match self.tickets[i].digest() {
                Err(_) => {},
                Ok(d) => {
                    if self.find(&d).is_none() {
                        count = count + 1;
                    }
                },
            }
            i = i + 1;
        }
        assert(population.take(i as int) =~= population);
        count
    }

    fn beacon_order(&self, beacon: &RandomnessBeacon) -> (order: Vec<usize>)
        ensures
            is_permutation(order@, self.tickets@.len()),
            rearranged(tickets(self.tickets@), order@) == sealed_order(
                tickets(self.tickets@),
                self.slot as nat,
                beacon.round as nat,
                beacon.value@,
            ),
    {
        let ghost population = tickets(self.tickets@);
        let mut keys: Vec<[u8; 32]> = Vec::new();
        let mut i: usize = 0;
        while i < self.tickets.len()
            invariant
                i <= self.tickets@.len(),
                keys@.len() == i,
                forall|j: int|
                    0 <= j < i ==> (#[trigger] keys@[j])@ == sha256(
                        order_message(
                            self.slot as nat,
                            beacon.round as nat,
                            beacon.value@,
                            self.tickets@[j].ticket_id@,
                        ),
                    ),
            decreases self.tickets@.len() - i,
        {
            let mut message: Vec<u8> = Vec::new();
            put(&mut message, "QOMM:ORDER:KEY:v1".as_bytes());
            put_be(&mut message, self.slot, 8);
            put_be(&mut message, beacon.round, 8);
            put(&mut message, beacon.value.as_slice());
            put(&mut message, self.tickets[i].ticket_id.as_slice());
            assert(message@ =~= order_message(
                self.slot as nat,
                beacon.round as nat,
                beacon.value@,
                self.tickets@[i as int].ticket_id@,
            ));
            keys.push(hash(message.as_slice()));
            i = i + 1;
        }
        assert(keys@.map_values(|k: [u8; 32]| be_value(k@) as int) =~= population.map_values(
            |t: Ticket|
                be_value(sha256(order_message(self.slot as nat, beacon.round as nat, beacon.value@,
                    t.ticket_id))) as int,
        ));
        stable_digest_order(&keys)
    }

    /// What closing the slot does.
    pub open spec fn closes<
        V: Fn(&VerifyingKey, &Vec<u8>, &Signature) -> bool,
        S: Fn(&SigningKey, &Vec<u8>) -> Result<Signature, String>,
    >(
        self,
        beacon: RandomnessBeacon,
        now_ns: u64,
        verify: V,
        sign: S,
        later: FixedSlotSealer,
        r: Result<(Vec<Frame>, BatchManifest), String>,
    ) -> bool {
        let population = tickets(self.tickets@);
        let all = entries(self.admitted@);
        let body = beacon_body(beacon.round as nat, beacon.value@);
        let wanted = sealed_manifest(
            population,
            all,
            self.slot as nat,
            self.node as nat,
            beacon.round as nat,
            beacon.value@,
            self.previous_digest@,
        );
        if self.closed {
            r matches Err(e) && e@ == "the slot is already closed"@
        } else if now_ns <= self.deadline_ns {
            r matches Err(e) && e@ == "the batch cannot close before its deadline"@
        } else {
            ||| (r matches Err(e) && e@ == "the ordering beacon signature is invalid"@ && answers(
                verify,
                self.beacon_key,
                body,
                beacon.signature@,
                false,
            ))
            ||| answers(verify, self.beacon_key, body, beacon.signature@, true) && if beacon.round
                <= self.slot {
                r matches Err(e) && e@ == "ordering randomness must be generated after the slot"@
            } else if missing(population, all) != 0 {
                r matches Err(e) && e@ == "fixed population incomplete: "@ + decimal(missing(population, all))
                    + " cover or request frame(s) missing"@
            } else if exists|i: int| 0 <= i < population.len() && !(#[trigger] population[i]).lasts() {
                r matches Err(e) && e@ == "ticket expiry must follow issuance"@
            } else {
                match r {
                    Ok((batch, manifest)) => {
                        &&& manifest@ == Manifest { signature: manifest@.signature, ..wanted }
                        &&& signs(sign, self.signing_key, wanted.body(), Ok(manifest@.signature))
                        &&& frames(batch@) == sealed_frames(
                            population,
                            all,
                            self.slot as nat,
                            beacon.round as nat,
                            beacon.value@,
                        )
                        &&& forall|i: int|
                            0 <= i < all.len() ==> manifest@.includes((#[trigger] all[i]).receipt)
                    },
                    Err(e) => signs(sign, self.signing_key, wanted.body(), Err(e@)),
                }
            }
        }
    }

    /// Closes the slot: gives out the frames in the order that the beacon
    /// fixes, with a signed manifest of that order.
    pub fn close<
        V: Fn(&VerifyingKey, &Vec<u8>, &Signature) -> bool,
        S: Fn(&SigningKey, &Vec<u8>) -> Result<Signature, String>,
    >(&mut self, beacon: &RandomnessBeacon, now_ns: u64, verify: &V, sign: &S) -> (r: Result<
        (Vec<Frame>, BatchManifest),
        String,
    >)
        requires
            can_verify(*verify),
            can_sign(*sign),
            old(self).well_formed(),
        ensures
            final(self).well_formed(),
            final(self).same_slot(*old(self)),
            final(self).admitted@ == old(self).admitted@,
            r is Ok ==> final(self).closed,
            r is Err ==> final(self).closed == old(self).closed,
            old(self).closes(*beacon, now_ns, *verify, *sign, *final(self), r),
            old(self).receipts_signed(*sign) ==> final(self).receipts_signed(*sign),
    {
        if self.closed {
            return Err("the slot is already closed".to_owned());
        }
        if now_ns <= self.deadline_ns {
            return Err("the batch cannot close before its deadline".to_owned());
        }
        if !beacon.verify(&self.beacon_key, verify) {
            return Err("the ordering beacon signature is invalid".to_owned());
        }
        if beacon.round <= self.slot {
            return Err("ordering randomness must be generated after the slot".to_owned());
        }
        let missing_count = self.count_missing();
        if missing_count != 0 {
            return Err(
                "fixed population incomplete: ".to_owned().concat(decimal_text(missing_count as u64).as_str()).concat(
                    " cover or request frame(s) missing",
                ),
            );
        }
        let ghost population = tickets(self.tickets@);
        let ghost all = entries(self.admitted@);
        let ghost ordered = sealed_order(population, self.slot as nat, beacon.round as nat, beacon.value@);
        let order = self.beacon_order(beacon);
        let mut ticket_digests: Vec<[u8; 32]> = Vec::new();
        let mut batch: Vec<Frame> = Vec::new();
        let mut frame_digests: Vec<[u8; 32]> = Vec::new();
        let mut i: usize = 0;
        #[verifier::loop_isolation(false)]
        while i < order.len()
            invariant
                i <= order@.len(),
                self.well_formed(),
                population == tickets(self.tickets@),
                all == entries(self.admitted@),
                is_permutation(order@, self.tickets@.len()),
                ordered == rearranged(population, order@),
                missing(population, all) == 0,
                ticket_digests@.len() == i,
                batch@.len() == i,
                frame_digests@.len() == i,
                forall|j: int| 0 <= j < i ==> (#[trigger] ordered[j]).lasts(),
                forall|j: int|
                    0 <= j < i ==> {
                        let at = entry_at(all, (#[trigger] ordered[j]).digest());
                        &&& has_entry(all, ordered[j].digest())
                        &&& ticket_digests@[j]@ == ordered[j].digest()
                        &&& batch@[j]@ == all[at].frame
                        &&& frame_digests@[j]@ == sha256(all[at].frame.encoded)
                    },
            decreases order@.len() - i,
        {
            let ticket = &self.tickets[order[i]];
            assert(ordered[i as int] == ticket@);
            let digest = match ticket.digest() {
                Err(e) => {
                    assert(!population[order@[i as int] as int].lasts());
                    return Err(e);
                },
                Ok(d) => d,
            };
            proof {
                nothing_missing(population, all, order@[i as int] as int);
            }
            match self.find(&digest) {
                None => {
                    assert(false);
                },
                Some(at) => {
                    proof {
                        only_entry(all, digest@, at as int);
                        assert(all[at as int] == self.admitted@[at as int]@);
                    }
                    ticket_digests.push(digest);
                    frame_digests.push(hash(self.admitted[at].frame.encoded.as_slice()));
                    batch.push(self.admitted[at].frame.copy());
                },
            }
            i = i + 1;
        }
        proof {
            assert forall|k: int| 0 <= k < population.len() implies (#[trigger] population[k]).lasts() by {
                permutation_covers(order@, self.tickets@.len(), k);
                let p = choose|p: int| 0 <= p < order@.len() && order@[p] == k;
                assert(ordered[p] == population[k]);
            }
        }
        let unsigned = BatchManifest {
            slot: self.slot,
            node: self.node,
            beacon_round: beacon.round,
            beacon_value: beacon.value,
            ordered_ticket_digests: ticket_digests,
            ordered_frame_digests: frame_digests,
            previous_digest: self.previous_digest,
            signature: Signature { bytes: Vec::new() },
        };
        let ghost wanted = sealed_manifest(
            population,
            all,
            self.slot as nat,
            self.node as nat,
            beacon.round as nat,
            beacon.value@,
            self.previous_digest@,
        );
        proof {
            assert(unsigned@.tickets =~= wanted.tickets);
            assert(unsigned@.frames =~= wanted.frames);
            assert(unsigned@.signature =~= wanted.signature);
        }
        let body = match unsigned.unsigned() {
            Err(e) => {
                return Err(e);
            },
            Ok(b) => b,
        };
        let signature = match make_signature(sign, &self.signing_key, &body) {
            Err(e) => {
                return Err(e);
            },
            Ok(s) => s,
        };
        let manifest = BatchManifest { signature, ..unsigned };
        self.closed = true;
        proof {
            assert(frames(batch@) =~= ordered.map_values(|t: Ticket| all[entry_at(all, t.digest())].frame));
            assert forall|k: int| 0 <= k < all.len() implies manifest@.includes((#[trigger] all[k]).receipt) by {
                assert(old(self).entry_ok(all[k]));
                let t = choose|t: int|
                    0 <= t < self.tickets@.len() && (#[trigger] self.tickets@[t])@.digest() == all[k].ticket_digest;
                permutation_covers(order@, self.tickets@.len(), t);
                let p = choose|p: int| 0 <= p < order@.len() && order@[p] == t;
                assert(ordered[p] == population[t]);
                only_entry(all, all[k].ticket_digest, k);
                assert(manifest@.tickets[p] == all[k].receipt.ticket_digest);
                assert(manifest@.frames[p] == all[k].receipt.frame_digest);
            }
        }
        Ok((batch, manifest))
    }
}

/// With nothing missing, every ticket that lasts has its entry.
proof fn nothing_missing(population: Seq<Ticket>, values: Seq<Entry>, at: int)
    requires
        missing(population, values) == 0,
        0 <= at < population.len(),
        population[at].lasts(),
    ensures
        has_entry(values, population[at].digest()),
    decreases population.len(),
{
    if at < population.len() - 1 {
        nothing_missing(population.drop_last(), values, at);
    }
}

/// A digest that stands once is found where it stands.
proof fn only_entry(values: Seq<Entry>, digest: Seq<u8>, at: int)
    requires
        forall|i: int, j: int|
            0 <= i < j < values.len() ==> (#[trigger] values[i]).ticket_digest != (#[trigger] values[j]).ticket_digest,
        0 <= at < values.len(),
        values[at].ticket_digest == digest,
    ensures
        entry_at(values, digest) == at,
{
    let other = entry_at(values, digest);
    assert(values[other].ticket_digest == digest);
    if other < at {
        assert(values[other].ticket_digest != values[at].ticket_digest);
    } else if at < other {
        assert(values[at].ticket_digest != values[other].ticket_digest);
    }
}

} // verus!
