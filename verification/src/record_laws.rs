//! What the lists inside signed and hashed texts say, record by record.

use vstd::prelude::*;
use crate::bytes::{
    ascii_width, be_bytes, be_bytes_width, be_value, be_value_of_be_bytes, be_widths, joined, joined_layout,
    text_bytes,
};
use crate::digest::framed;
use crate::fields::first;
use crate::group::is_point;
use crate::order::{batch_record, cluster_message, execution_lane_message, Execution, NodeBatch};
use crate::pretrade::{
    binding_bodies, bindings_refusal, by_rank, ranks, selected, PretradeAcknowledgement, PretradeReservationBinding,
    ReservationParty,
};
use crate::proof_config::ProofPartyConfig;
use crate::proof_mandate::Direction;
use crate::roles::{dealt_text, signed_bytes};
use crate::sealed_file::sealed_bytes;
use crate::slot::Manifest;
use crate::sorting::{is_stable_order, order_of, permutation_covers, stable_order_exists};
use crate::text_laws::{
    acknowledgement_text_layout, cluster_batch_text_layout, execution_lane_text_layout, manifest_text_layout,
    reservation_text_layout,
};

verus! {

/// A record of a list that fills the end of a text.
proof fn record_in_text(m: Seq<u8>, from: int, records: Seq<Seq<u8>>, width: nat, at: int)
    requires
        0 <= from <= m.len(),
        m.skip(from) == joined(records),
        forall|i: int| 0 <= i < records.len() ==> (#[trigger] records[i]).len() == width,
        0 <= at < records.len(),
    ensures
        m.len() == from + records.len() * width,
        0 <= at * width,
        (at + 1) * width == at * width + width,
        at * width + width <= records.len() * width,
        m.subrange(from + at * width, from + at * width + width) == records[at],
{
    joined_layout(records, width);
    assert(0 <= at * width && (at + 1) * width == at * width + width && at * width + width <= records.len() * width)
        by (nonlinear_arith)
        requires
            0 <= at < records.len(),
    ;
    assert(joined(records).subrange(at * width, (at + 1) * width) == records[at]);
    assert(m.subrange(from + at * width, from + at * width + width) =~= m.skip(from).subrange(
        at * width,
        (at + 1) * width,
    ));
}

/// The signed text of a batch names, place by place, the ticket and then its frame.
pub proof fn manifest_text_names_each_place(value: Manifest, at: int)
    requires
        value.slot <= u64::MAX,
        value.node <= u64::MAX,
        value.beacon_round <= u64::MAX,
        value.tickets.len() <= u64::MAX,
        value.beacon_value.len() == 32,
        value.previous_digest.len() == 32,
        value.frames.len() == value.tickets.len(),
        forall|i: int| 0 <= i < value.tickets.len() ==> (#[trigger] value.tickets[i]).len() == 32,
        forall|i: int| 0 <= i < value.frames.len() ==> (#[trigger] value.frames[i]).len() == 32,
        0 <= at < value.tickets.len(),
    ensures
        value.body().len() == 118 + 64 * value.tickets.len(),
        value.body().subrange(118 + 64 * at, 150 + 64 * at) == value.tickets[at],
        value.body().subrange(150 + 64 * at, 182 + 64 * at) == value.frames[at],
{
    manifest_text_layout(value);
    let m = value.body();
    let records = value.pairs();
    assert forall|i: int| 0 <= i < records.len() implies (#[trigger] records[i]).len() == 64 by {
        assert(value.tickets[i].len() == 32 && value.frames[i].len() == 32);
    }
    manifest_head(value);
    record_in_text(m, 118, records, 64, at);
    assert(records[at] == value.tickets[at] + value.frames[at]);
    assert(m.subrange(118 + 64 * at, 150 + 64 * at) =~= records[at].subrange(0, 32));
    assert(records[at].subrange(0, 32) =~= value.tickets[at]);
    assert(m.subrange(150 + 64 * at, 182 + 64 * at) =~= records[at].subrange(32, 64));
    assert(records[at].subrange(32, 64) =~= value.frames[at]);
}

proof fn manifest_head(value: Manifest)
    requires
        value.beacon_value.len() == 32,
        value.previous_digest.len() == 32,
    ensures
        value.body().len() >= 118,
{
    reveal_strlit("QOMM:ORDER:MANIFEST:v2");
    ascii_width("QOMM:ORDER:MANIFEST:v2"@);
    be_bytes_width(value.slot, 8);
    be_bytes_width(value.node, 8);
    be_bytes_width(value.beacon_round, 8);
    be_bytes_width(value.tickets.len(), 8);
}

/// Two batches have the same signed text only if they are the same but for their
/// signatures: slot, node, beacon, predecessor, and the tickets and frames in order.
pub proof fn manifest_text_binds_the_order(a: Manifest, b: Manifest)
    requires
        a.slot <= u64::MAX && a.node <= u64::MAX && a.beacon_round <= u64::MAX && a.tickets.len() <= u64::MAX,
        b.slot <= u64::MAX && b.node <= u64::MAX && b.beacon_round <= u64::MAX && b.tickets.len() <= u64::MAX,
        a.beacon_value.len() == 32 && a.previous_digest.len() == 32,
        b.beacon_value.len() == 32 && b.previous_digest.len() == 32,
        a.frames.len() == a.tickets.len(),
        b.frames.len() == b.tickets.len(),
        forall|i: int| 0 <= i < a.tickets.len() ==> (#[trigger] a.tickets[i]).len() == 32,
        forall|i: int| 0 <= i < a.frames.len() ==> (#[trigger] a.frames[i]).len() == 32,
        forall|i: int| 0 <= i < b.tickets.len() ==> (#[trigger] b.tickets[i]).len() == 32,
        forall|i: int| 0 <= i < b.frames.len() ==> (#[trigger] b.frames[i]).len() == 32,
        a.body() == b.body(),
    ensures
        a.slot == b.slot,
        a.node == b.node,
        a.beacon_round == b.beacon_round,
        a.beacon_value == b.beacon_value,
        a.previous_digest == b.previous_digest,
        a.tickets == b.tickets,
        a.frames == b.frames,
{
    manifest_text_layout(a);
    manifest_text_layout(b);
    assert forall|i: int| 0 <= i < a.tickets.len() implies #[trigger] a.tickets[i] == b.tickets[i] && a.frames[i]
        == b.frames[i] by {
        manifest_text_names_each_place(a, i);
        manifest_text_names_each_place(b, i);
    }
    assert(a.tickets =~= b.tickets);
    assert forall|i: int| 0 <= i < a.frames.len() implies #[trigger] a.frames[i] == b.frames[i] by {
        assert(a.tickets[i] == b.tickets[i]);
    }
    assert(a.frames =~= b.frames);
}

/// The hashed text of a cluster's batches names, node by node, the node and its batch.
pub proof fn cluster_text_names_each_node(slot: nat, order: Seq<u8>, sorted: Seq<NodeBatch>, at: int)
    requires
        slot <= u32::MAX,
        order.len() == 32,
        forall|i: int| 0 <= i < sorted.len() ==> (#[trigger] sorted[i]).node <= u16::MAX,
        forall|i: int| 0 <= i < sorted.len() ==> (#[trigger] sorted[i]).digest.len() == 32,
        0 <= at < sorted.len(),
    ensures
        cluster_message(slot, order, sorted).len() == 63 + 34 * sorted.len(),
        be_value(cluster_message(slot, order, sorted).subrange(63 + 34 * at, 65 + 34 * at)) == sorted[at].node,
        cluster_message(slot, order, sorted).subrange(65 + 34 * at, 97 + 34 * at) == sorted[at].digest,
{
    cluster_batch_text_layout(slot, order, sorted);
    let m = cluster_message(slot, order, sorted);
    let records = sorted.map_values(|b: NodeBatch| batch_record(b));
    be_widths();
    assert forall|i: int| 0 <= i < records.len() implies (#[trigger] records[i]).len() == 34 by {
        be_bytes_width(sorted[i].node, 2);
        assert(sorted[i].digest.len() == 32);
    }
    reveal_strlit("QOMM:ORDER:CLUSTER-BATCH:v1");
    ascii_width("QOMM:ORDER:CLUSTER-BATCH:v1"@);
    be_bytes_width(slot, 4);
    record_in_text(m, 63, records, 34, at);
    be_bytes_width(sorted[at].node, 2);
    be_value_of_be_bytes(sorted[at].node, 2);
    assert(records[at] == be_bytes(sorted[at].node, 2) + sorted[at].digest);
    assert(m.subrange(63 + 34 * at, 65 + 34 * at) =~= records[at].subrange(0, 2));
    assert(records[at].subrange(0, 2) =~= be_bytes(sorted[at].node, 2));
    assert(m.subrange(65 + 34 * at, 97 + 34 * at) =~= records[at].subrange(2, 34));
    assert(records[at].subrange(2, 34) =~= sorted[at].digest);
}

/// The hashed text of an execution lane names, node by node, the node and its receipt.
pub proof fn lane_text_names_each_receipt(sorted: Seq<Execution>, cluster: Seq<u8>, at: int)
    requires
        cluster.len() == 32,
        sorted[0].source_digest.len() == 32,
        sorted[0].slot <= u64::MAX,
        sorted[0].lane <= u64::MAX,
        sorted[0].state_generation <= u64::MAX,
        sorted[0].frame_count <= u64::MAX,
        sorted[0].input_count <= u64::MAX,
        forall|i: int| 0 <= i < sorted.len() ==> (#[trigger] sorted[i]).node <= u16::MAX,
        forall|i: int| 0 <= i < sorted.len() ==> (#[trigger] sorted[i]).receipt_digest.len() == 32,
        0 <= at < sorted.len(),
    ensures
        execution_lane_message(sorted, cluster).len() == 132 + 34 * sorted.len(),
        be_value(execution_lane_message(sorted, cluster).subrange(132 + 34 * at, 134 + 34 * at)) == sorted[at].node,
        execution_lane_message(sorted, cluster).subrange(134 + 34 * at, 166 + 34 * at) == sorted[at].receipt_digest,
{
    execution_lane_text_layout(sorted, cluster);
    let m = execution_lane_message(sorted, cluster);
    let records = sorted.map_values(|v: Execution| be_bytes(v.node, 2) + v.receipt_digest);
    be_widths();
    assert forall|i: int| 0 <= i < records.len() implies (#[trigger] records[i]).len() == 34 by {
        be_bytes_width(sorted[i].node, 2);
        assert(sorted[i].receipt_digest.len() == 32);
    }
    reveal_strlit("QOMM:ORDER:EXECUTION-LANE:v1");
    ascii_width("QOMM:ORDER:EXECUTION-LANE:v1"@);
    be_bytes_width(sorted[0].slot, 8);
    be_bytes_width(sorted[0].lane, 8);
    be_bytes_width(sorted[0].state_generation, 8);
    be_bytes_width(sorted[0].frame_count, 8);
    be_bytes_width(sorted[0].input_count, 8);
    record_in_text(m, 132, records, 34, at);
    be_bytes_width(sorted[at].node, 2);
    be_value_of_be_bytes(sorted[at].node, 2);
    assert(records[at] == be_bytes(sorted[at].node, 2) + sorted[at].receipt_digest);
    assert(m.subrange(132 + 34 * at, 134 + 34 * at) =~= records[at].subrange(0, 2));
    assert(records[at].subrange(0, 2) =~= be_bytes(sorted[at].node, 2));
    assert(m.subrange(134 + 34 * at, 166 + 34 * at) =~= records[at].subrange(2, 34));
    assert(records[at].subrange(2, 34) =~= sorted[at].receipt_digest);
}

/// The signed text of an acknowledgement holds every one of its reservations, as it is,
/// and ends with the key of its signer.
pub proof fn acknowledgement_text_holds_every_reservation(value: PretradeAcknowledgement, at: int)
    requires
        value.bindings@.len() <= 0xffff,
        0 <= at < value.bindings@.len(),
    ensures
        value.body().len() == 158 + 228 * value.bindings@.len(),
        value.body().skip(value.body().len() - 32) == value.signer_public@,
        exists|place: int|
            0 <= place < value.bindings@.len() && value.body().subrange(
                126 + 228 * place,
                354 + 228 * place,
            ) == (#[trigger] by_rank(value.bindings@)[place]).body() && by_rank(value.bindings@)[place]
                == value.bindings@[at],
{
    acknowledgement_text_layout(value);
    let m = value.body();
    let bindings = value.bindings@;
    let sorted = by_rank(bindings);
    let records = binding_bodies(sorted);
    stable_order_exists(ranks(bindings));
    let order = order_of(ranks(bindings));
    assert(is_stable_order(ranks(bindings), order));
    assert(sorted.len() == bindings.len());
    assert forall|i: int| 0 <= i < records.len() implies (#[trigger] records[i]).len() == 228 by {
        reservation_text_layout(sorted[i]);
    }
    joined_layout(records, 228);
    reveal_strlit("QOMM:DEFMI:PRETRADE-ACK:v2");
    ascii_width("QOMM:DEFMI:PRETRADE-ACK:v2"@);
    be_bytes_width(bindings.len(), 4);
    permutation_covers(order, bindings.len(), at);
    let place = choose|place: int| 0 <= place < order.len() && order[place] == at;
    assert(sorted[place] == bindings[at]);
    assert(0 <= place * 228 && (place + 1) * 228 == place * 228 + 228 && place * 228 + 228 <= records.len() * 228)
        by (nonlinear_arith)
        requires
            0 <= place < records.len(),
    ;
    assert(joined(records).subrange(place * 228, (place + 1) * 228) == records[place]);
    assert(m.subrange(126 + 228 * place, 354 + 228 * place) =~= m.skip(126).subrange(place * 228, (place + 1) * 228));
    assert(m.skip(126).subrange(place * 228, (place + 1) * 228) =~= joined(records).subrange(
        place * 228,
        (place + 1) * 228,
    ));
    assert(m.skip(m.len() - 32) =~= value.signer_public@);
}

/// The reservations of an acknowledgement are signed with those of Makers before those of
/// Takers, and each party's by owner and direction.
pub proof fn reservations_are_signed_in_order(bindings: Seq<PretradeReservationBinding>, i: int, j: int)
    requires
        bindings.len() <= usize::MAX,
        0 <= i < j < bindings.len(),
    ensures
        ({
            let a = by_rank(bindings)[i];
            let b = by_rank(bindings)[j];
            &&& a.party is Taker ==> b.party is Taker
            &&& a.party == b.party ==> a.owner_index <= b.owner_index
            &&& a.party == b.party && a.owner_index == b.owner_index && a.direction is TakerSells
                ==> b.direction is TakerSells
        }),
{
    stable_order_exists(ranks(bindings));
    let order = order_of(ranks(bindings));
    assert(is_stable_order(ranks(bindings), order));
    let a = bindings[order[i] as int];
    let b = bindings[order[j] as int];
    assert(ranks(bindings)[order[i] as int] == a.rank() && ranks(bindings)[order[j] as int] == b.rank());
    assert(by_rank(bindings)[i] == a && by_rank(bindings)[j] == b);
    assert(a.rank() <= b.rank());
}

/// Bindings that are accepted are of distinct owners and directions, and each names its
/// facility, reserve, mandate, amount and receipt; a Maker names a policy, a Taker none.
pub proof fn accepted_reservations_are_whole(bindings: Seq<PretradeReservationBinding>, i: int, j: int)
    requires
        bindings_refusal(bindings) is None,
        bindings.len() <= usize::MAX,
        0 <= i < bindings.len(),
        0 <= j < bindings.len(),
    ensures
        0 < bindings.len() <= 4096,
        i != j ==> bindings[i].party != bindings[j].party || bindings[i].owner_index != bindings[j].owner_index
            || bindings[i].direction != bindings[j].direction,
        ({
            let b = bindings[i];
            let zero = Seq::new(32, |k: int| 0u8);
            &&& is_point(b.owner_handle@)
            &&& b.owner_handle@ != zero
            &&& b.facility_id@ != zero
            &&& b.reserve_id@ != zero
            &&& b.mandate_digest@ != zero
            &&& b.amount_commitment@ != zero
            &&& b.reserve_receipt_digest@ != zero
            &&& b.party is Maker <==> b.policy_digest@ != zero
        }),
{
    stable_order_exists(ranks(bindings));
    let order = order_of(ranks(bindings));
    assert(is_stable_order(ranks(bindings), order));
    permutation_covers(order, bindings.len(), i);
    let place = choose|place: int| 0 <= place < order.len() && order[place] == i;
    let sorted = by_rank(bindings);
    assert(sorted[place] == bindings[i]);
    let check = |b: PretradeReservationBinding| b.refusal();
    none_refused(sorted, place);
    if i != j {
        let (x, y) = if i < j { (i, j) } else { (j, i) };
        assert(bindings[x].rank() != bindings[y].rank());
    }
}

proof fn none_refused(values: Seq<PretradeReservationBinding>, at: int)
    requires
        first(values, |b: PretradeReservationBinding| b.refusal()) is None,
        0 <= at < values.len(),
    ensures
        values[at].refusal() is None,
    decreases values.len(),
{
    let check = |b: PretradeReservationBinding| b.refusal();
    if at < values.len() - 1 {
        none_refused(values.drop_last(), at);
    }
}

/// A reservation that is looked for is of the party, the handle and the direction that
/// were asked for, is one of the list, and is found where there is one.
pub proof fn selected_reservation_is_the_one_asked_for(
    bindings: Seq<PretradeReservationBinding>,
    party: ReservationParty,
    handle: Seq<u8>,
    direction: Direction,
)
    ensures
        selected(bindings, party, handle, direction) matches Some(found) ==> bindings.contains(found) && found.party
            == party && found.owner_handle@ == handle && found.direction == direction,
        selected(bindings, party, handle, direction) is None ==> forall|i: int|
            0 <= i < bindings.len() ==> (#[trigger] bindings[i]).party != party || bindings[i].owner_handle@ != handle
                || bindings[i].direction != direction,
    decreases bindings.len(),
{
    if bindings.len() > 0 {
        let rest = bindings.skip(1);
        selected_reservation_is_the_one_asked_for(rest, party, handle, direction);
        if !PretradeAcknowledgement::binds(bindings[0], party, handle, direction) {
            if let Some(found) = selected(rest, party, handle, direction) {
                let i = choose|i: int| 0 <= i < rest.len() && rest[i] == found;
                assert(bindings[i + 1] == found);
            } else {
                assert forall|i: int| 0 <= i < bindings.len() implies (#[trigger] bindings[i]).party != party
                    || bindings[i].owner_handle@ != handle || bindings[i].direction != direction by {
                    if i > 0 {
                        assert(rest[i - 1] == bindings[i]);
                    }
                }
            }
        } else {
            assert(bindings[0] == selected(bindings, party, handle, direction)->0);
        }
    }
}

/// Two parts with their lengths in front are the same text only if they are the same
/// parts: a signed text and its signature are not shifted into each other.
pub proof fn framed_pair_binds(a: Seq<u8>, b: Seq<u8>, c: Seq<u8>, d: Seq<u8>)
    requires
        a.len() <= u32::MAX,
        b.len() <= u32::MAX,
        c.len() <= u32::MAX,
        d.len() <= u32::MAX,
        framed(seq![a, b]) == framed(seq![c, d]),
    ensures
        a == c,
        b == d,
{
    framed_pair_layout(a, b);
    framed_pair_layout(c, d);
    let m = framed(seq![a, b]);
    assert(a == c);
    assert(m.subrange(8 + a.len() as int, m.len() as int) == b);
}

/// The text of two parts is the length of the first in four bytes, the first, and the
/// same of the second.
pub proof fn framed_pair_layout(a: Seq<u8>, b: Seq<u8>)
    requires
        a.len() <= u32::MAX,
        b.len() <= u32::MAX,
    ensures
        ({
            let m = framed(seq![a, b]);
            &&& m.len() == 8 + a.len() + b.len()
            &&& be_value(m.subrange(0, 4)) == a.len()
            &&& m.subrange(4, 4 + a.len() as int) == a
            &&& be_value(m.subrange(4 + a.len() as int, 8 + a.len() as int)) == b.len()
            &&& m.subrange(8 + a.len() as int, m.len() as int) == b
        }),
{
    let parts = seq![a, b];
    assert(parts.drop_last() =~= seq![a]);
    assert(parts.drop_last().drop_last() =~= Seq::<Seq<u8>>::empty());
    reveal_with_fuel(framed, 3);
    be_widths();
    be_bytes_width(a.len(), 4);
    be_bytes_width(b.len(), 4);
    be_value_of_be_bytes(a.len(), 4);
    be_value_of_be_bytes(b.len(), 4);
    let m = framed(parts);
    let n = a.len() as int;
    assert(m =~= be_bytes(a.len(), 4) + a + be_bytes(b.len(), 4) + b);
    assert(m.subrange(0, 4) =~= be_bytes(a.len(), 4));
    assert(m.subrange(4, 4 + n) =~= a);
    assert(m.subrange(4 + n, 8 + n) =~= be_bytes(b.len(), 4));
    assert(m.subrange(8 + n, m.len() as int) =~= b);
}

/// The parts of a state file are its magic, salt, nonce and ciphertext, in this order.
pub proof fn sealed_file_layout(magic: Seq<char>, salt: Seq<u8>, nonce: Seq<u8>, ciphertext: Seq<u8>)
    requires
        salt.len() == 16,
        nonce.len() == 12,
    ensures
        ({
            let m = sealed_bytes(magic, salt, nonce, ciphertext);
            let n = text_bytes(magic).len() as int;
            &&& m.subrange(0, n) == text_bytes(magic)
            &&& m.subrange(n, n + 16) == salt
            &&& m.subrange(n + 16, n + 28) == nonce
            &&& m.skip(n + 28) == ciphertext
        }),
{
    let m = sealed_bytes(magic, salt, nonce, ciphertext);
    let n = text_bytes(magic).len() as int;
    assert(m.subrange(0, n) =~= text_bytes(magic));
    assert(m.subrange(n, n + 16) =~= salt);
    assert(m.subrange(n + 16, n + 28) =~= nonce);
    assert(m.skip(n + 28) =~= ciphertext);
}

/// The sixty-four bytes of a share tell every number apart.
pub proof fn signed_bytes_tell_apart(a: int, b: int)
    requires
        i128::MIN <= a <= i128::MAX,
        i128::MIN <= b <= i128::MAX,
        signed_bytes(a) == signed_bytes(b),
    ensures
        a == b,
{
    signed_bytes_layout(a);
    signed_bytes_layout(b);
}

/// A share is written as a signed number of sixty-four bytes, most significant first.
pub proof fn signed_bytes_layout(value: int)
    requires
        i128::MIN <= value <= i128::MAX,
    ensures
        signed_bytes(value).len() == 64,
        signed_bytes(value)[0] == if value < 0 { 0xffu8 } else { 0u8 },
        forall|i: int| 0 <= i < 48 ==> #[trigger] signed_bytes(value)[i] == signed_bytes(value)[0],
        be_value(signed_bytes(value).subrange(48, 56)) * 0x1_0000_0000_0000_0000 + be_value(
            signed_bytes(value).subrange(56, 64),
        ) == if value < 0 {
            0x1_0000_0000_0000_0000_0000_0000_0000_0000 + value
        } else {
            value
        },
{
    let word: nat = if value < 0 { (0x1_0000_0000_0000_0000_0000_0000_0000_0000 + value) as nat } else { value as nat };
    be_widths();
    be_bytes_width(word / 0x1_0000_0000_0000_0000, 8);
    be_bytes_width(word % 0x1_0000_0000_0000_0000, 8);
    be_value_of_be_bytes(word / 0x1_0000_0000_0000_0000, 8);
    be_value_of_be_bytes(word % 0x1_0000_0000_0000_0000, 8);
    let m = signed_bytes(value);
    assert(m.subrange(48, 56) =~= be_bytes(word / 0x1_0000_0000_0000_0000, 8));
    assert(m.subrange(56, 64) =~= be_bytes(word % 0x1_0000_0000_0000_0000, 8));
}

/// The receipt of a share is of one dealer, one node, one position and one value: two that
/// differ in any of them are signed over different texts.
pub proof fn dealt_text_binds(
    dealer: Seq<char>,
    index: nat,
    position: nat,
    share: int,
    other_dealer: Seq<char>,
    other_index: nat,
    other_position: nat,
    other_share: int,
)
    requires
        text_bytes(dealer).len() <= u32::MAX && text_bytes(other_dealer).len() <= u32::MAX,
        index <= u32::MAX && other_index <= u32::MAX,
        position <= u64::MAX && other_position <= u64::MAX,
        i128::MIN <= share <= i128::MAX && i128::MIN <= other_share <= i128::MAX,
        dealt_text(dealer, index, position, share) == dealt_text(other_dealer, other_index, other_position, other_share),
    ensures
        text_bytes(dealer) == text_bytes(other_dealer),
        index == other_index,
        position == other_position,
        share == other_share,
{
    dealt_text_layout(dealer, index, position, share);
    dealt_text_layout(other_dealer, other_index, other_position, other_share);
    signed_bytes_tell_apart(share, other_share);
}

/// The parts of the text of a dealt share.
pub proof fn dealt_text_layout(dealer: Seq<char>, index: nat, position: nat, share: int)
    requires
        text_bytes(dealer).len() <= u32::MAX,
        index <= u32::MAX,
        position <= u64::MAX,
        i128::MIN <= share <= i128::MAX,
    ensures
        ({
            let m = dealt_text(dealer, index, position, share);
            let n = text_bytes(dealer).len() as int;
            &&& m.len() == 103 + n
            &&& m.subrange(0, 23) == text_bytes("QOMM:TRANSPORT:SHARE:v2"@)
            &&& be_value(m.subrange(23, 27)) == n
            &&& m.subrange(27, 27 + n) == text_bytes(dealer)
            &&& be_value(m.subrange(27 + n, 31 + n)) == index
            &&& be_value(m.subrange(31 + n, 39 + n)) == position
            &&& m.subrange(39 + n, 103 + n) == signed_bytes(share)
        }),
{
    let m = dealt_text(dealer, index, position, share);
    let name = text_bytes(dealer);
    let n = name.len() as int;
    be_widths();
    reveal_strlit("QOMM:TRANSPORT:SHARE:v2");
    ascii_width("QOMM:TRANSPORT:SHARE:v2"@);
    signed_bytes_layout(share);
    be_bytes_width(name.len(), 4);
    be_bytes_width(index, 4);
    be_bytes_width(position, 8);
    be_value_of_be_bytes(name.len(), 4);
    be_value_of_be_bytes(index, 4);
    be_value_of_be_bytes(position, 8);
    assert(m.subrange(0, 23) =~= text_bytes("QOMM:TRANSPORT:SHARE:v2"@));
    assert(m.subrange(23, 27) =~= be_bytes(name.len(), 4));
    assert(m.subrange(27, 27 + n) =~= name);
    assert(m.subrange(27 + n, 31 + n) =~= be_bytes(index, 4));
    assert(m.subrange(31 + n, 39 + n) =~= be_bytes(position, 8));
    assert(m.subrange(39 + n, 103 + n) =~= signed_bytes(share));
}

/// The hashed text of a node's settings has each of them in its place: two nodes whose
/// proofs depend on different settings have different texts.
pub proof fn security_text_layout(config: ProofPartyConfig)
    ensures
        ({
            let m = config.security_message();
            &&& m.subrange(0, 35) == text_bytes("QOMM:PROOF-PARTY:SECURITY-CONFIG:v2"@)
            &&& be_value(m.subrange(35, 37)) == config.node
            &&& be_value(m.subrange(37, 45)) == config.n_mm
            &&& be_value(m.subrange(45, 53)) == config.n_parties
            &&& be_value(m.subrange(53, 61)) == config.threshold
            &&& be_value(m.subrange(61, 69)) == config.amount_bits
            &&& be_value(m.subrange(69, 77)) == config.price_bits
            &&& be_value(m.subrange(77, 85)) == config.remainder_bits
            &&& m[85] == if config.complete_quote_proof { 1u8 } else { 0u8 }
            &&& be_value(m.subrange(86, 94)) == config.quote_eligibility_bits
            &&& be_value(m.subrange(94, 102)) == config.quote_span_bits
            &&& m[102] == if config.allow_health_signing { 1u8 } else { 0u8 }
            &&& m[103] == if config.trusted_defmi_receipt_public is Some { 1u8 } else { 0u8 }
            &&& config.trusted_defmi_receipt_public matches Some(key) ==> m.subrange(104, 136) == key@
        }),
{
    let m = config.security_message();
    be_widths();
    reveal_strlit("QOMM:PROOF-PARTY:SECURITY-CONFIG:v2");
    ascii_width("QOMM:PROOF-PARTY:SECURITY-CONFIG:v2"@);
    be_bytes_width(config.node as nat, 2);
    be_value_of_be_bytes(config.node as nat, 2);
    let numbers: Seq<nat> = seq![
        config.n_mm as nat,
        config.n_parties as nat,
        config.threshold as nat,
        config.amount_bits as nat,
        config.price_bits as nat,
        config.remainder_bits as nat,
        config.quote_eligibility_bits as nat,
        config.quote_span_bits as nat,
        config.recipient_opening_keys@.len(),
    ];
    assert forall|i: int| 0 <= i < 9 implies be_bytes(#[trigger] numbers[i], 8).len() == 8 && be_value(
        be_bytes(numbers[i], 8),
    ) == numbers[i] by {
        assert(config.recipient_opening_keys@.len() == config.recipient_opening_keys.len());
        assert(numbers[i] <= u64::MAX);
        be_bytes_width(numbers[i], 8);
        be_value_of_be_bytes(numbers[i], 8);
    }
    assert(numbers[0] == config.n_mm && numbers[1] == config.n_parties && numbers[2] == config.threshold);
    assert(numbers[3] == config.amount_bits && numbers[4] == config.price_bits && numbers[5] == config.remainder_bits);
    assert(numbers[6] == config.quote_eligibility_bits && numbers[7] == config.quote_span_bits && numbers[8]
        == config.recipient_opening_keys@.len());
    assert(m.subrange(0, 35) =~= text_bytes("QOMM:PROOF-PARTY:SECURITY-CONFIG:v2"@));
    assert(m.subrange(35, 37) =~= be_bytes(config.node as nat, 2));
    assert(m.subrange(37, 45) =~= be_bytes(config.n_mm as nat, 8));
    assert(m.subrange(45, 53) =~= be_bytes(config.n_parties as nat, 8));
    assert(m.subrange(53, 61) =~= be_bytes(config.threshold as nat, 8));
    assert(m.subrange(61, 69) =~= be_bytes(config.amount_bits as nat, 8));
    assert(m.subrange(69, 77) =~= be_bytes(config.price_bits as nat, 8));
    assert(m.subrange(77, 85) =~= be_bytes(config.remainder_bits as nat, 8));
    assert(m.subrange(86, 94) =~= be_bytes(config.quote_eligibility_bits as nat, 8));
    assert(m.subrange(94, 102) =~= be_bytes(config.quote_span_bits as nat, 8));
    if let Some(key) = config.trusted_defmi_receipt_public {
        assert(m.subrange(104, 136) =~= key@);
    }
}

} // verus!
