//! What holds of the tickets, frames and order of a fixed slot.

use vstd::prelude::*;
use crate::application_crypto::{answers, signs, Signature, SigningKey, VerifyingKey};
use crate::bytes::{ascii_width, be_value, text_bytes};
use crate::digest::{hmac_sha256, sha256};
use crate::sealer::{
    entries, entry_at, has_entry, missing, order_message, sealed_order, tickets, Entry, FixedSlotSealer,
};
use crate::slot::{
    beacon_body, nullifier_of, omission_judged, AdmissionAuthority, AdmissionReceipt, AdmissionTicket, BatchManifest,
    Manifest, RandomnessBeacon, Receipt, Ticket,
};
use crate::sorting::{is_permutation, is_stable_order, order_of, stable_order_exists};
use crate::text_laws::order_key_text_binds;
use crate::wire::{frames, Frame};

verus! {

/// The place of a ticket is a hash of a text that holds the beacon's randomness: for one
/// slot, round and ticket, two beacons of different values are hashed over different
/// texts, and so are two tickets, two rounds and two slots.
pub proof fn ticket_place_binds_the_beacon(
    slot: nat,
    round: nat,
    value: Seq<u8>,
    ticket: Seq<u8>,
    other_slot: nat,
    other_round: nat,
    other_value: Seq<u8>,
    other_ticket: Seq<u8>,
)
    requires
        slot <= u64::MAX && other_slot <= u64::MAX,
        round <= u64::MAX && other_round <= u64::MAX,
        value.len() == 32 && other_value.len() == 32,
        ticket.len() == 32 && other_ticket.len() == 32,
    ensures
        value != other_value ==> order_message(slot, round, value, ticket) != order_message(
            other_slot,
            other_round,
            other_value,
            other_ticket,
        ),
        ticket != other_ticket ==> order_message(slot, round, value, ticket) != order_message(
            other_slot,
            other_round,
            other_value,
            other_ticket,
        ),
        round != other_round ==> order_message(slot, round, value, ticket) != order_message(
            other_slot,
            other_round,
            other_value,
            other_ticket,
        ),
        slot != other_slot ==> order_message(slot, round, value, ticket) != order_message(
            other_slot,
            other_round,
            other_value,
            other_ticket,
        ),
{
    if order_message(slot, round, value, ticket) == order_message(other_slot, other_round, other_value, other_ticket) {
        order_key_text_binds(slot, round, value, ticket, other_slot, other_round, other_value, other_ticket);
    }
}

/// A closed batch has every ticket of the population once, by the hash that the beacon
/// gives each of them: no place has a greater hash than the next. The manifest names that
/// order with the slot, the node, the beacon and the batch before, and every frame is the
/// one that was admitted under its ticket.
pub proof fn closed_batch_is_ordered_by_the_beacon<
    S: Fn(&SigningKey, &Vec<u8>) -> Result<Signature, String>,
    V: Fn(&VerifyingKey, &Vec<u8>, &Signature) -> bool,
>(
    sealer: FixedSlotSealer,
    beacon: RandomnessBeacon,
    now_ns: u64,
    verify: V,
    sign: S,
    later: FixedSlotSealer,
    batch: Vec<Frame>,
    manifest: BatchManifest,
) -> (order: Seq<usize>)
    requires
        sealer.closes(beacon, now_ns, verify, sign, later, Ok((batch, manifest))),
    ensures
        is_permutation(order, sealer.tickets@.len()),
        batch@.len() == sealer.tickets@.len(),
        manifest.ordered_ticket_digests@.len() == sealer.tickets@.len(),
        manifest.ordered_frame_digests@.len() == sealer.tickets@.len(),
        forall|i: int, j: int|
            0 <= i < j < order.len() ==> be_value(
                sha256(
                    order_message(
                        sealer.slot as nat,
                        beacon.round as nat,
                        beacon.value@,
                        sealer.tickets@[#[trigger] order[i] as int].ticket_id@,
                    ),
                ),
            ) <= be_value(
                sha256(
                    order_message(
                        sealer.slot as nat,
                        beacon.round as nat,
                        beacon.value@,
                        sealer.tickets@[#[trigger] order[j] as int].ticket_id@,
                    ),
                ),
            ),
        forall|i: int|
            0 <= i < order.len() ==> {
                let ticket = sealer.tickets@[#[trigger] order[i] as int]@;
                let held = entries(sealer.admitted@)[entry_at(entries(sealer.admitted@), ticket.digest())];
                &&& manifest.ordered_ticket_digests@[i]@ == ticket.digest()
                &&& batch@[i]@ == held.frame
                &&& manifest.ordered_frame_digests@[i]@ == sha256(held.frame.encoded)
            },
        manifest.slot == sealer.slot,
        manifest.node == sealer.node,
        manifest.beacon_round == beacon.round,
        manifest.beacon_value@ == beacon.value@,
        manifest.previous_digest@ == sealer.previous_digest@,
        signs(sign, sealer.signing_key, manifest@.body(), Ok(manifest@.signature)),
{
    let population = tickets(sealer.tickets@);
    let keys = population.map_values(
        |t: Ticket|
            be_value(sha256(order_message(sealer.slot as nat, beacon.round as nat, beacon.value@, t.ticket_id))) as int,
    );
    assert(keys.len() == sealer.tickets.len());
    stable_order_exists(keys);
    let order = order_of(keys);
    assert(is_stable_order(keys, order));
    let ordered = sealed_order(population, sealer.slot as nat, beacon.round as nat, beacon.value@);
    assert(ordered.len() == order.len());
    assert(frames(batch@).len() == batch@.len());
    assert forall|i: int, j: int| 0 <= i < j < order.len() implies be_value(
        sha256(
            order_message(
                sealer.slot as nat,
                beacon.round as nat,
                beacon.value@,
                sealer.tickets@[#[trigger] order[i] as int].ticket_id@,
            ),
        ),
    ) <= be_value(
        sha256(
            order_message(
                sealer.slot as nat,
                beacon.round as nat,
                beacon.value@,
                sealer.tickets@[#[trigger] order[j] as int].ticket_id@,
            ),
        ),
    ) by {
        assert(population[order[i] as int] == sealer.tickets@[order[i] as int]@);
        assert(population[order[j] as int] == sealer.tickets@[order[j] as int]@);
        assert(keys[order[i] as int] <= keys[order[j] as int]);
    }
    assert(manifest@.tickets.len() == manifest.ordered_ticket_digests@.len());
    assert(manifest@.frames.len() == manifest.ordered_frame_digests@.len());
    assert forall|i: int| 0 <= i < order.len() implies {
        let ticket = sealer.tickets@[#[trigger] order[i] as int]@;
        let held = entries(sealer.admitted@)[entry_at(entries(sealer.admitted@), ticket.digest())];
        &&& manifest.ordered_ticket_digests@[i]@ == ticket.digest()
        &&& batch@[i]@ == held.frame
        &&& manifest.ordered_frame_digests@[i]@ == sha256(held.frame.encoded)
    } by {
        assert(ordered[i] == population[order[i] as int]);
        assert(population[order[i] as int] == sealer.tickets@[order[i] as int]@);
        assert(manifest@.tickets[i] == manifest.ordered_ticket_digests@[i]@);
        assert(manifest@.frames[i] == manifest.ordered_frame_digests@[i]@);
        assert(frames(batch@)[i] == batch@[i]@);
    }
    assert(manifest@.body() == (Manifest { signature: Seq::empty(), ..manifest@ }).body());
    order
}

/// A slot is closed only after its deadline, once, with randomness from after the slot
/// that the beacon's key signed, and when every ticket was used.
pub proof fn slot_closes_only_when_it_is_due<
    S: Fn(&SigningKey, &Vec<u8>) -> Result<Signature, String>,
    V: Fn(&VerifyingKey, &Vec<u8>, &Signature) -> bool,
>(
    sealer: FixedSlotSealer,
    beacon: RandomnessBeacon,
    now_ns: u64,
    verify: V,
    sign: S,
    later: FixedSlotSealer,
    batch: Vec<Frame>,
    manifest: BatchManifest,
    at: int,
)
    requires
        sealer.closes(beacon, now_ns, verify, sign, later, Ok((batch, manifest))),
        0 <= at < sealer.tickets@.len(),
    ensures
        !sealer.closed,
        now_ns > sealer.deadline_ns,
        beacon.round > sealer.slot,
        answers(
            verify,
            sealer.beacon_key,
            beacon_body(beacon.round as nat, beacon.value@),
            beacon.signature@,
            true,
        ),
        sealer.tickets@[at].issued_at < sealer.tickets@[at].expires_at,
        exists|k: int|
            0 <= k < sealer.admitted@.len() && (#[trigger] sealer.admitted@[k]).ticket_digest@
                == sealer.tickets@[at]@.digest(),
{
    let population = tickets(sealer.tickets@);
    let all = entries(sealer.admitted@);
    assert(population[at] == sealer.tickets@[at]@);
    assert(population[at].lasts());
    no_ticket_missing(population, all, at);
    let k = choose|k: int| 0 <= k < all.len() && (#[trigger] all[k]).ticket_digest == population[at].digest();
    assert(all[k].ticket_digest == sealer.admitted@[k].ticket_digest@);
}

/// A slot that is due, with every ticket used and lasting, is closed: it fails only where
/// the signer fails.
pub proof fn due_slot_is_closed<
    S: Fn(&SigningKey, &Vec<u8>) -> Result<Signature, String>,
    V: Fn(&VerifyingKey, &Vec<u8>, &Signature) -> bool,
>(
    sealer: FixedSlotSealer,
    beacon: RandomnessBeacon,
    now_ns: u64,
    verify: V,
    sign: S,
    later: FixedSlotSealer,
    e: String,
)
    requires
        sealer.closes(beacon, now_ns, verify, sign, later, Err(e)),
        !sealer.closed,
        now_ns > sealer.deadline_ns,
        beacon.round > sealer.slot,
        !answers(
            verify,
            sealer.beacon_key,
            beacon_body(beacon.round as nat, beacon.value@),
            beacon.signature@,
            false,
        ),
        forall|i: int|
            0 <= i < sealer.tickets@.len() ==> (#[trigger] sealer.tickets@[i]).issued_at
                < sealer.tickets@[i].expires_at && has_entry(
                entries(sealer.admitted@),
                sealer.tickets@[i]@.digest(),
            ),
    ensures
        exists|body: Seq<u8>| #[trigger] signs(sign, sealer.signing_key, body, Err(e@)),
{
    let population = tickets(sealer.tickets@);
    assert forall|i: int| 0 <= i < population.len() implies (#[trigger] population[i]).lasts() && has_entry(
        entries(sealer.admitted@),
        population[i].digest(),
    ) by {
        assert(population[i] == sealer.tickets@[i]@);
        assert(sealer.tickets@[i].issued_at < sealer.tickets@[i].expires_at);
    }
    nothing_is_missing(population, entries(sealer.admitted@));
}

proof fn nothing_is_missing(population: Seq<Ticket>, values: Seq<Entry>)
    requires
        forall|i: int| 0 <= i < population.len() ==> has_entry(values, (#[trigger] population[i]).digest()),
    ensures
        missing(population, values) == 0,
    decreases population.len(),
{
    if population.len() > 0 {
        let rest = population.drop_last();
        assert forall|i: int| 0 <= i < rest.len() implies has_entry(values, (#[trigger] rest[i]).digest()) by {
            assert(rest[i] == population[i]);
        }
        nothing_is_missing(rest, values);
        assert(has_entry(values, population[population.len() - 1].digest()));
    }
}

proof fn no_ticket_missing(population: Seq<Ticket>, values: Seq<Entry>, at: int)
    requires
        missing(population, values) == 0,
        0 <= at < population.len(),
        population[at].lasts(),
    ensures
        has_entry(values, population[at].digest()),
    decreases population.len(),
{
    if at < population.len() - 1 {
        assert(population.drop_last()[at] == population[at]);
        no_ticket_missing(population.drop_last(), values, at);
    }
}

/// A frame is admitted only before the deadline, under an authentic ticket in force that
/// is one of the population, for the sealer's slot and node. Its receipt names the ticket
/// and the frame, and a ticket that was used before keeps its first frame.
pub proof fn frame_is_admitted_only_under_its_ticket<
    S: Fn(&SigningKey, &Vec<u8>) -> Result<Signature, String>,
    V: Fn(&VerifyingKey, &Vec<u8>, &Signature) -> bool,
>(
    sealer: FixedSlotSealer,
    ticket: AdmissionTicket,
    frame: Frame,
    now_ns: u64,
    verify: V,
    sign: S,
    later: FixedSlotSealer,
    receipt: AdmissionReceipt,
)
    requires
        sealer.well_formed(),
        sealer.admits(ticket, frame, now_ns, verify, sign, later, Ok(receipt)),
    ensures
        !sealer.closed,
        now_ns <= sealer.deadline_ns,
        ticket.issued_at <= now_ns / 1_000_000_000 <= ticket.expires_at,
        ticket.issued_at < ticket.expires_at,
        answers(verify, sealer.authority_key, ticket@.body(), ticket@.signature, true),
        exists|i: int|
            0 <= i < sealer.tickets@.len() && (#[trigger] sealer.tickets@[i])@.digest() == ticket@.digest(),
        frame@.slot == sealer.slot,
        frame@.node == sealer.node,
        receipt.slot == sealer.slot,
        receipt.node == sealer.node,
        receipt.ticket_digest@ == ticket@.digest(),
        receipt.frame_digest@ == sha256(frame@.encoded),
        ({
            let before = entries(sealer.admitted@);
            let after = entries(later.admitted@);
            &&& has_entry(before, ticket@.digest()) ==> after == before
            &&& !has_entry(before, ticket@.digest()) ==> {
                &&& receipt.received_at_ns == now_ns
                &&& after.len() == before.len() + 1
                &&& after.drop_last() == before
                &&& after.last().ticket_digest == ticket@.digest()
                &&& after.last().frame == frame@
                &&& after.last().receipt == receipt@
            }
        }),
{
    let before = entries(sealer.admitted@);
    let after = entries(later.admitted@);
    if has_entry(before, ticket@.digest()) {
        let at = entry_at(before, ticket@.digest());
        assert(before[at].ticket_digest == ticket@.digest());
        assert(sealer.entry_ok(before[at]));
    } else {
        assert(after.drop_last() =~= before);
    }
}

/// A ticket that was used for one frame takes no other.
pub proof fn ticket_takes_one_frame<
    S: Fn(&SigningKey, &Vec<u8>) -> Result<Signature, String>,
    V: Fn(&VerifyingKey, &Vec<u8>, &Signature) -> bool,
>(
    sealer: FixedSlotSealer,
    ticket: AdmissionTicket,
    frame: Frame,
    now_ns: u64,
    verify: V,
    sign: S,
    later: FixedSlotSealer,
    r: Result<AdmissionReceipt, String>,
    at: int,
)
    requires
        sealer.well_formed(),
        sealer.admits(ticket, frame, now_ns, verify, sign, later, r),
        0 <= at < sealer.admitted@.len(),
        sealer.admitted@[at].ticket_digest@ == ticket@.digest(),
        sealer.admitted@[at].frame@.encoded != frame@.encoded,
    ensures
        r is Err,
        entries(later.admitted@) == entries(sealer.admitted@),
{
    let before = entries(sealer.admitted@);
    assert(before[at].ticket_digest == ticket@.digest());
    let found = entry_at(before, ticket@.digest());
    assert(before[found].ticket_digest == ticket@.digest());
    if found < at {
        assert(before[found].ticket_digest != before[at].ticket_digest);
    } else if at < found {
        assert(before[at].ticket_digest != before[found].ticket_digest);
    }
}

/// A ticket is issued for the slot and the time that were asked for, to an entity that has
/// none for the slot, and only once: the entity is marked, and asking again fails.
pub proof fn entity_gets_one_ticket_for_a_slot<S: Fn(&SigningKey, &Vec<u8>) -> Result<Signature, String>>(
    authority: AdmissionAuthority,
    entity: Seq<u8>,
    slot: u64,
    issued_at: u64,
    lifetime: u64,
    ticket_id: [u8; 32],
    now: u64,
    drawn: [u8; 32],
    sign: S,
    middle: AdmissionAuthority,
    ticket: AdmissionTicket,
    again_lifetime: u64,
    again_id: Option<[u8; 32]>,
    later: AdmissionAuthority,
    r: Result<AdmissionTicket, String>,
)
    requires
        authority.issues(
            entity,
            slot,
            Some(issued_at),
            lifetime,
            Some(ticket_id),
            now,
            drawn,
            sign,
            middle,
            Ok(ticket),
        ),
        middle.entity_key@ == authority.entity_key@,
        middle.issues(entity, slot, Some(issued_at), again_lifetime, again_id, now, drawn, sign, later, r),
    ensures
        ticket.slot == slot,
        ticket.ticket_id@ == ticket_id@,
        ticket.issued_at == issued_at,
        ticket.expires_at == issued_at + lifetime,
        lifetime > 0,
        entity.len() > 0,
        signs(sign, authority.signing_key, ticket@.body(), Ok(ticket@.signature)),
        !authority.issued_to(slot as nat, nullifier_of(authority.entity_key@, entity)),
        r is Err,
{
    assert(ticket@.body() == (Ticket { signature: Seq::empty(), ..ticket@ }).body());
}

/// What the caller leaves open is the clock's time and the identifier that was drawn.
pub proof fn open_ticket_fields_are_filled<S: Fn(&SigningKey, &Vec<u8>) -> Result<Signature, String>>(
    authority: AdmissionAuthority,
    entity: Seq<u8>,
    slot: u64,
    lifetime: u64,
    now: u64,
    drawn: [u8; 32],
    sign: S,
    later: AdmissionAuthority,
    ticket: AdmissionTicket,
)
    requires
        authority.issues(entity, slot, None, lifetime, None, now, drawn, sign, later, Ok(ticket)),
    ensures
        ticket.slot == slot,
        ticket.issued_at == now,
        ticket.expires_at == now + lifetime,
        ticket.ticket_id@ == drawn@,
        later.issued@.len() == authority.issued@.len() + 1,
        later.issued@.last().ticket_digest@ == ticket@.digest(),
        later.issued@.last().slot == slot,
        later.issued@.last().nullifier@ == nullifier_of(authority.entity_key@, entity),
{
}

/// The pseudonym of an entity is a keyed hash of its whole identifier behind its mark.
pub proof fn nullifier_is_of_the_whole_identifier(key: Seq<u8>, entity: Seq<u8>) -> (m: Seq<u8>)
    ensures
        nullifier_of(key, entity) == hmac_sha256(key, m),
        m.subrange(0, 14) == text_bytes("QOMM:ENTITY:v1"@),
        m.skip(14) == entity,
{
    reveal_strlit("QOMM:ENTITY:v1");
    ascii_width("QOMM:ENTITY:v1"@);
    let m = text_bytes("QOMM:ENTITY:v1"@) + entity;
    assert(m.subrange(0, 14) =~= text_bytes("QOMM:ENTITY:v1"@));
    assert(m.skip(14) =~= entity);
    m
}

/// An omission stands only against the batch of the receipt's own slot and node, when both
/// are authentic under the sealer's key, and no place of the batch has the receipt's
/// ticket with its frame.
pub proof fn omission_needs_both_signatures<V: Fn(&VerifyingKey, &Vec<u8>, &Signature) -> bool>(
    verify: V,
    key: VerifyingKey,
    receipt: Receipt,
    manifest: Manifest,
    at: int,
)
    requires
        omission_judged(verify, key, receipt, manifest, true),
    ensures
        receipt.slot == manifest.slot,
        receipt.node == manifest.node,
        manifest.tickets.len() == manifest.frames.len(),
        answers(verify, key, receipt.body(), receipt.signature, true),
        answers(verify, key, manifest.body(), manifest.signature, true),
        0 <= at < manifest.tickets.len() ==> manifest.tickets[at] != receipt.ticket_digest || manifest.frames[at]
            != receipt.frame_digest,
{
}

/// A batch includes a receipt exactly if some place of it has the receipt's ticket and, in
/// the same place, its frame.
pub proof fn batch_includes_by_place(receipt: Receipt, manifest: Manifest, at: int)
    requires
        manifest.tickets.len() == manifest.frames.len(),
        0 <= at < manifest.tickets.len(),
        manifest.tickets[at] == receipt.ticket_digest,
        manifest.frames[at] == receipt.frame_digest,
    ensures
        manifest.includes(receipt),
{
}

/// A slot is opened exactly for tickets of that slot that differ, and nothing is admitted
/// in it yet.
pub proof fn slot_opens_for_its_own_tickets(
    slot: u64,
    node: u64,
    deadline_ns: u64,
    tickets: Seq<AdmissionTicket>,
    authority_key: VerifyingKey,
    beacon_key: VerifyingKey,
    signing_key: SigningKey,
    previous_digest: [u8; 32],
    r: Result<FixedSlotSealer, String>,
)
    requires
        FixedSlotSealer::opened(
            slot,
            node,
            deadline_ns,
            tickets,
            authority_key,
            beacon_key,
            signing_key,
            previous_digest,
            r,
        ),
    ensures
        r is Ok <==> {
            &&& forall|i: int| 0 <= i < tickets.len() ==> (#[trigger] tickets[i]).slot == slot
            &&& forall|i: int, j: int|
                0 <= i < j < tickets.len() ==> (#[trigger] tickets[i]).ticket_id@ != (
                #[trigger] tickets[j]).ticket_id@
        },
        r matches Ok(sealer) ==> {
            &&& sealer.slot == slot && sealer.node == node && sealer.deadline_ns == deadline_ns
            &&& sealer.tickets@ == tickets
            &&& sealer.authority_key == authority_key && sealer.beacon_key == beacon_key
            &&& sealer.signing_key == signing_key
            &&& sealer.previous_digest@ == previous_digest@
            &&& sealer.admitted@.len() == 0 && !sealer.closed
        },
{
}

} // verus!
