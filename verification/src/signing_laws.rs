//! What holds of signed records where a signature that is made is authentic.

use vstd::prelude::*;
use crate::application_crypto::{one_answer, signatures_hold, signs, Signature, SigningKey, VerifyingKey};
use crate::digest::sha256;
use crate::pretrade::PretradeAcknowledgement;
use crate::roles::{
    audited, dealt_receipts, dealt_shares, disputed, has_receipt, holds_dealt, receipt_said, receipts_said,
    unreceipted, ComputingNode, Dealt, InputParty,
};
use crate::sealer::{entries, entry_at, has_entry, sealed_order, tickets, FixedSlotSealer};
use crate::slot::{
    omission_judged, AdmissionReceipt, AdmissionTicket, BatchManifest, Manifest, RandomnessBeacon, Receipt, Ticket,
};
use crate::wire::{frames, Frame};

verus! {

/// A ticket that an authority signed is accepted under its key exactly while it is
/// in force.
pub proof fn ticket_holds_in_its_window<
    S: Fn(&SigningKey, &Vec<u8>) -> Result<Signature, String>,
    V: Fn(&VerifyingKey, &Vec<u8>, &Signature) -> bool,
>(sign: S, verify: V, key: SigningKey, ticket: Ticket, now: nat, r: bool)
    requires
        signatures_hold(sign, verify),
        ticket.lasts(),
        signs(sign, key, ticket.body(), Ok(ticket.signature)),
        ticket.verified(verify, key.public, now, r),
    ensures
        r <==> ticket.issued_at <= now <= ticket.expires_at,
{
}

/// Of a receipt and a batch that a sealer signed, an omission is proved if and only
/// if they are of one slot and node and the batch does not include the receipt.
pub proof fn omission_is_proved_exactly<
    S: Fn(&SigningKey, &Vec<u8>) -> Result<Signature, String>,
    V: Fn(&VerifyingKey, &Vec<u8>, &Signature) -> bool,
>(sign: S, verify: V, key: SigningKey, receipt: Receipt, manifest: Manifest, r: bool)
    requires
        signatures_hold(sign, verify),
        signs(sign, key, receipt.body(), Ok(receipt.signature)),
        manifest.paired(),
        signs(sign, key, manifest.body(), Ok(manifest.signature)),
        omission_judged(verify, key.public, receipt, manifest, r),
    ensures
        r <==> receipt.slot == manifest.slot && receipt.node == manifest.node && !manifest.includes(receipt),
{
}

/// No omission is proved against a sealer that closed its slot: its batch includes
/// every receipt that it gave out.
pub proof fn closed_batch_omits_nothing<
    S: Fn(&SigningKey, &Vec<u8>) -> Result<Signature, String>,
    V: Fn(&VerifyingKey, &Vec<u8>, &Signature) -> bool,
>(
    sealer: FixedSlotSealer,
    beacon: RandomnessBeacon,
    now_ns: u64,
    verify: V,
    sign: S,
    later: FixedSlotSealer,
    batch: Vec<Frame>,
    manifest: BatchManifest,
    at: int,
    judge: VerifyingKey,
    r: bool,
)
    requires
        sealer.closes(beacon, now_ns, verify, sign, later, Ok((batch, manifest))),
        0 <= at < sealer.admitted@.len(),
        omission_judged(verify, judge, sealer.admitted@[at].receipt@, manifest@, r),
    ensures
        manifest@.includes(sealer.admitted@[at].receipt@),
        !r,
{
    let all = entries(sealer.admitted@);
    assert(all[at].receipt == sealer.admitted@[at].receipt@);
    assert(manifest@.includes(all[at].receipt));
}

/// A sealer that has admitted nothing has signed every receipt that it gave out, and
/// admitting frames keeps it so: a receipt comes with the sealer's signature.
pub proof fn receipts_stay_signed<
    S: Fn(&SigningKey, &Vec<u8>) -> Result<Signature, String>,
    V: Fn(&VerifyingKey, &Vec<u8>, &Signature) -> bool,
>(
    sealer: FixedSlotSealer,
    ticket: AdmissionTicket,
    frame: Frame,
    now_ns: u64,
    verify: V,
    sign: S,
    later: FixedSlotSealer,
    r: Result<AdmissionReceipt, String>,
)
    requires
        sealer.admitted@.len() == 0 || sealer.receipts_signed(sign),
        sealer.admits(ticket, frame, now_ns, verify, sign, later, r),
        later.same_slot(sealer),
    ensures
        later.receipts_signed(sign),
        r matches Ok(receipt) ==> signs(sign, sealer.signing_key, receipt@.body(), Ok(receipt@.signature)),
{
    let before = entries(sealer.admitted@);
    assert(sealer.receipts_signed(sign));
    if r is Ok && has_entry(before, ticket@.digest()) {
        let at = entry_at(before, ticket@.digest());
        assert(signs(sign, sealer.signing_key, before[at].receipt.body(), Ok(before[at].receipt.signature)));
    }
}

/// A receipt that a sealer gave out proves an omission against every batch that it
/// signed for its slot without that receipt.
pub proof fn stored_receipt_proves_omission<
    S: Fn(&SigningKey, &Vec<u8>) -> Result<Signature, String>,
    V: Fn(&VerifyingKey, &Vec<u8>, &Signature) -> bool,
>(sealer: FixedSlotSealer, sign: S, verify: V, at: int, manifest: Manifest, r: bool)
    requires
        sealer.well_formed(),
        sealer.receipts_signed(sign),
        signatures_hold(sign, verify),
        0 <= at < sealer.admitted@.len(),
        manifest.paired(),
        manifest.slot == sealer.slot,
        manifest.node == sealer.node,
        signs(sign, sealer.signing_key, manifest.body(), Ok(manifest.signature)),
        omission_judged(verify, sealer.signing_key.public, sealer.admitted@[at].receipt@, manifest, r),
    ensures
        r <==> !manifest.includes(sealer.admitted@[at].receipt@),
{
    let all = entries(sealer.admitted@);
    assert(all[at].receipt == sealer.admitted@[at].receipt@);
    assert(sealer.entry_ok(all[at]));
}

/// A closed batch is in the one order that its beacon gives the population: each
/// place of it holds the frame of that place's ticket, and its manifest names both.
pub proof fn closed_batch_is_in_order<
    S: Fn(&SigningKey, &Vec<u8>) -> Result<Signature, String>,
    V: Fn(&VerifyingKey, &Vec<u8>, &Signature) -> bool,
>(
    sealer: FixedSlotSealer,
    beacon: RandomnessBeacon,
    now_ns: u64,
    verify: V,
    sign: S,
    later: FixedSlotSealer,
    batch: Vec<Frame>,
    manifest: BatchManifest,
)
    requires
        sealer.closes(beacon, now_ns, verify, sign, later, Ok((batch, manifest))),
    ensures
        ({
            let ordered = sealed_order(
                tickets(sealer.tickets@),
                sealer.slot as nat,
                beacon.round as nat,
                beacon.value@,
            );
            let all = entries(sealer.admitted@);
            &&& beacon.round > sealer.slot
            &&& batch@.len() == ordered.len()
            &&& manifest@.tickets.len() == ordered.len()
            &&& manifest@.frames.len() == ordered.len()
            &&& forall|i: int|
                0 <= i < ordered.len() ==> {
                    let held = all[entry_at(all, (#[trigger] ordered[i]).digest())].frame;
                    &&& frames(batch@)[i] == held
                    &&& manifest@.tickets[i] == ordered[i].digest()
                    &&& manifest@.frames[i] == sha256(held.encoded)
                }
        }),
{
    let ordered = sealed_order(tickets(sealer.tickets@), sealer.slot as nat, beacon.round as nat, beacon.value@);
    assert(frames(batch@).len() == batch@.len());
    assert(frames(batch@).len() == ordered.len());
}

/// A closed slot takes no frame and is not closed again.
pub proof fn closed_slot_stays_closed<
    S: Fn(&SigningKey, &Vec<u8>) -> Result<Signature, String>,
    V: Fn(&VerifyingKey, &Vec<u8>, &Signature) -> bool,
>(
    sealer: FixedSlotSealer,
    ticket: AdmissionTicket,
    frame: Frame,
    beacon: RandomnessBeacon,
    now_ns: u64,
    verify: V,
    sign: S,
    admitted: FixedSlotSealer,
    receipt: Result<AdmissionReceipt, String>,
    closed: FixedSlotSealer,
    batch: Result<(Vec<Frame>, BatchManifest), String>,
)
    requires
        sealer.closed,
        sealer.admits(ticket, frame, now_ns, verify, sign, admitted, receipt),
        sealer.closes(beacon, now_ns, verify, sign, closed, batch),
    ensures
        receipt matches Err(e) && e@ == "the slot is already closed"@,
        entries(admitted.admitted@) == entries(sealer.admitted@),
        batch matches Err(e) && e@ == "the slot is already closed"@,
{
}

/// A frame that is admitted again, in time, gets the receipt that it got first, and
/// nothing is admitted twice.
pub proof fn admitting_again_gives_the_first_receipt<
    S: Fn(&SigningKey, &Vec<u8>) -> Result<Signature, String>,
    V: Fn(&VerifyingKey, &Vec<u8>, &Signature) -> bool,
>(
    sealer: FixedSlotSealer,
    ticket: AdmissionTicket,
    frame: Frame,
    again: Frame,
    first_ns: u64,
    then_ns: u64,
    verify: V,
    sign: S,
    middle: FixedSlotSealer,
    first: AdmissionReceipt,
    later: FixedSlotSealer,
    r: Result<AdmissionReceipt, String>,
)
    requires
        one_answer(verify),
        sealer.admits(ticket, frame, first_ns, verify, sign, middle, Ok(first)),
        middle.well_formed(),
        middle.same_slot(sealer),
        middle.closed == sealer.closed,
        again@ == frame@,
        then_ns <= middle.deadline_ns,
        ticket@.in_force((then_ns as int / 1_000_000_000) as nat),
        middle.admits(ticket, again, then_ns, verify, sign, later, r),
    ensures
        r matches Ok(receipt) && receipt@ == first@,
        entries(later.admitted@) == entries(middle.admitted@),
{
    let before = entries(sealer.admitted@);
    let after = entries(middle.admitted@);
    let digest = ticket@.digest();
    if has_entry(before, digest) {
        assert(after == before);
    } else {
        let at = after.len() - 1;
        assert(after[at].ticket_digest == digest);
        assert(has_entry(after, digest));
        let found = entry_at(after, digest);
        assert(after[found].ticket_digest == digest);
        if found < at {
            assert(after[found].ticket_digest != after[at].ticket_digest);
        }
        assert(found == at);
    }
}

/// An acknowledgement that was signed is accepted under the key that signed it.
pub proof fn signed_acknowledgement_is_accepted<
    K: Fn(&Vec<u8>) -> bool,
    S: Fn(&SigningKey, &Vec<u8>) -> Result<Signature, String>,
    V: Fn(&VerifyingKey, &Vec<u8>, &Signature) -> bool,
>(
    value: PretradeAcknowledgement,
    key: SigningKey,
    known: K,
    sign: S,
    verify: V,
    signed: PretradeAcknowledgement,
    r: Result<(), String>,
)
    requires
        signatures_hold(sign, verify),
        value.signed(key, known, sign, Ok(signed)),
        signed.verified(key.public, known, verify, r),
    ensures
        r is Ok,
{
    assert(signed.refusal(known) == value.refusal(known));
    assert(signed.body() == value.body());
}

/// Where every position has a receipt and none is disowned, an audit finds nothing.
proof fn nothing_is_disputed<V: Fn(&VerifyingKey, &Vec<u8>, &Signature) -> bool>(
    node: ComputingNode,
    dealer: Seq<char>,
    key: VerifyingKey,
    claimed: Seq<i128>,
    verify: V,
    count: nat,
    found: Seq<usize>,
)
    requires
        disputed(node, dealer, key, claimed, verify, count, found),
        forall|i: int|
            0 <= i < count ==> #[trigger] has_receipt(node, i) && !crate::roles::disowned(
                node,
                dealer,
                key,
                claimed,
                verify,
                i,
                true,
            ),
    ensures
        found.len() == 0,
        unreceipted(node, count).len() == 0,
    decreases count,
{
    if count > 0 {
        assert(has_receipt(node, count - 1));
        nothing_is_disputed(node, dealer, key, claimed, verify, (count - 1) as nat, found);
    }
}

/// Nodes without shares that were dealt to by a party with a key pass its audit:
/// of what each of them holds, nothing is disputed.
pub proof fn fresh_deal_audits_clean<
    S: Fn(&SigningKey, &Vec<u8>) -> Result<Signature, String>,
    V: Fn(&VerifyingKey, &Vec<u8>, &Signature) -> bool,
>(
    party: InputParty,
    sign: S,
    verify: V,
    values: Seq<i128>,
    before: Seq<ComputingNode>,
    drawn: Seq<Vec<u64>>,
    dealt: Seq<Dealt>,
    node: int,
    after: ComputingNode,
    positions: Seq<usize>,
)
    requires
        signatures_hold(sign, verify),
        party.signing_key is Some,
        before.len() == party.n_nodes,
        0 <= node < before.len(),
        before[node].inputs@.len() == 0,
        before[node].receipts@.len() == 0,
        party.all_dealt(sign, values, before, drawn, dealt),
        holds_dealt(before[node], dealt, node, dealt.len(), after),
        audited(after, party.name@, (party.signing_key->0).public, after.inputs@, verify, positions),
    ensures
        positions.len() == 0,
{
    let key = party.signing_key->0;
    let count = after.inputs@.len();
    assert(after.inputs@ =~= dealt_shares(dealt, node, dealt.len()));
    assert(receipts_said(before[node].receipts@) =~= Seq::empty());
    assert(receipts_said(after.receipts@) =~= dealt_receipts(dealt, node, dealt.len()));
    assert forall|i: int| 0 <= i < count implies #[trigger] has_receipt(after, i) && !crate::roles::disowned(
        after,
        party.name@,
        key.public,
        after.inputs@,
        verify,
        i,
        true,
    ) by {
        assert(receipts_said(after.receipts@)[i] == receipt_said(dealt[i].receipts@[node]));
        assert(receipts_said(after.receipts@)[i] == receipt_said(after.receipts@[i]));
        assert(party.dealt(
            sign,
            values[i],
            crate::roles::node_indices(before),
            crate::roles::node_positions(before, i as nat),
            drawn[i]@,
            dealt[i],
        ));
        let receipt = dealt[i].receipts@[node];
        assert(receipt is Some);
        assert(after.inputs@[i] == dealt[i].shares@[node]);
        assert(crate::roles::node_positions(before, i as nat)[node] == i);
        assert(crate::roles::node_indices(before)[node] == before[node].index);
    }
    let bad = choose|bad: Seq<usize>| #[trigger]
        disputed(after, party.name@, key.public, after.inputs@, verify, count, bad) && positions.map_values(
            |p: usize| p as int,
        ) == bad.map_values(|p: usize| p as int) + unreceipted(after, count);
    nothing_is_disputed(after, party.name@, key.public, after.inputs@, verify, count, bad);
    assert(positions.map_values(|p: usize| p as int).len() == 0);
}

} // verus!
