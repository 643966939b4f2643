//! What holds of frames on their way through a relay to a node.

use vstd::prelude::*;
use crate::relay::{counted, Incoming, NodeInbox, RelayState};
use crate::sorting::{is_permutation, permutation_covers};
use crate::wire::{Frame, FrameParts};

verus! {

/// A relay with keys keeps exactly the frames that are authentic, one without keys every
/// frame that is one. What is kept stands behind the others of its slot; what is not is
/// counted as refused, and changes no slot.
pub proof fn relay_keeps_what_is_authentic(
    relay: RelayState,
    frame: Frame,
    authentic: bool,
    bytes: u64,
    later: RelayState,
    other: u32,
)
    requires
        relay.received((Incoming::Decoded { frame, authentic }), bytes, later),
    ensures
        authentic || !relay.keyed ==> {
            &&& later.pending.at(frame.slot).len() == relay.pending.at(frame.slot).len() + 1
            &&& later.pending.at(frame.slot).last() == frame@
            &&& later.pending.at(frame.slot).drop_last() == relay.pending.at(frame.slot)
            &&& other != frame.slot ==> later.pending.at(other) == relay.pending.at(other)
            &&& later.refused == relay.refused
        },
        relay.keyed && !authentic ==> {
            &&& later.pending.at(other) == relay.pending.at(other)
            &&& later.pending.at(frame.slot) == relay.pending.at(frame.slot)
            &&& relay.refused < u64::MAX ==> later.refused == relay.refused + 1
        },
        relay.bytes_in + bytes <= u64::MAX ==> later.bytes_in == relay.bytes_in + bytes,
        later.bytes_out == relay.bytes_out,
        later.accepted == relay.accepted,
        later.node == relay.node && later.hop == relay.hop && later.keyed == relay.keyed,
{
    if authentic || !relay.keyed {
        assert(later.pending.at(frame.slot).drop_last() =~= relay.pending.at(frame.slot));
    }
}

/// What is no frame is refused, and its bytes are counted.
pub proof fn relay_refuses_what_is_no_frame(relay: RelayState, bytes: u64, later: RelayState, slot: u32)
    requires
        relay.received(Incoming::Malformed, bytes, later),
    ensures
        later.pending.at(slot) == relay.pending.at(slot),
        relay.refused < u64::MAX ==> later.refused == relay.refused + 1,
        relay.bytes_in + bytes <= u64::MAX ==> later.bytes_in == relay.bytes_in + bytes,
{
}

/// A slot that is closed sends every one of its frames once, in the order of the shuffle,
/// and keeps none of them; other slots are left as they are.
pub proof fn closed_slot_sends_every_frame_once(
    relay: RelayState,
    slot: u32,
    shuffle: Seq<usize>,
    later: RelayState,
    batch: Seq<FrameParts>,
    at: int,
    other: u32,
)
    requires
        is_permutation(shuffle, relay.pending.at(slot).len()),
        relay.slot_closed(slot, shuffle, later, batch),
        0 <= at < relay.pending.at(slot).len(),
    ensures
        batch.len() == relay.pending.at(slot).len(),
        batch[at] == relay.pending.at(slot)[shuffle[at] as int],
        exists|place: int| 0 <= place < batch.len() && #[trigger] batch[place] == relay.pending.at(slot)[at],
        later.pending.at(slot).len() == 0,
        other != slot ==> later.pending.at(other) == relay.pending.at(other),
        later.bytes_in == relay.bytes_in && later.bytes_out == relay.bytes_out && later.refused == relay.refused,
{
    permutation_covers(shuffle, relay.pending.at(slot).len(), at);
    let place = choose|place: int| 0 <= place < shuffle.len() && shuffle[place] == at;
    assert(batch[place] == relay.pending.at(slot)[at]);
}

/// A frame that a relay kept leaves it when its slot is closed.
pub proof fn kept_frame_is_sent(
    relay: RelayState,
    frame: Frame,
    bytes: u64,
    middle: RelayState,
    shuffle: Seq<usize>,
    later: RelayState,
    batch: Seq<FrameParts>,
)
    requires
        relay.received((Incoming::Decoded { frame, authentic: true }), bytes, middle),
        is_permutation(shuffle, middle.pending.at(frame.slot).len()),
        middle.slot_closed(frame.slot, shuffle, later, batch),
    ensures
        batch.contains(frame@),
{
    let last = middle.pending.at(frame.slot).len() - 1;
    closed_slot_sends_every_frame_once(middle, frame.slot, shuffle, later, batch, last, frame.slot);
    let place = choose|place: int|
        0 <= place < batch.len() && #[trigger] batch[place] == middle.pending.at(frame.slot)[last];
}

/// A node that takes a batch in holds its frames behind those of the slot, in order, and
/// notes for each its place in the batch, its time and the batch's size.
pub proof fn node_holds_the_batch_in_order(
    inbox: NodeInbox,
    slot: u32,
    batch: Seq<FrameParts>,
    at: u64,
    size: usize,
    later: NodeInbox,
    place: int,
    other: u32,
)
    requires
        inbox.took(slot, batch, at, size, later),
        0 <= place < batch.len(),
        batch.len() <= usize::MAX,
    ensures
        later.node == inbox.node,
        later.frames.at(slot).len() == inbox.frames.at(slot).len() + batch.len(),
        later.frames.at(slot)[inbox.frames.at(slot).len() + place] == batch[place],
        other != slot ==> later.frames.at(other) == inbox.frames.at(other),
        later.arrivals@.len() == inbox.arrivals@.len() + batch.len(),
        ({
            let noted = later.arrivals@[inbox.arrivals@.len() + place];
            noted.slot == slot && noted.order == place && noted.received_at == at && noted.size == size
        }),
{
}

/// A counter goes up by what is counted, and starts again at zero behind its end.
pub proof fn counter_wraps(counter: u64, by: u64)
    ensures
        counter + by <= u64::MAX ==> counted(counter, by) == counter + by,
        counter + by > u64::MAX ==> counted(counter, by) == counter + by - u64::MAX - 1,
{
}

} // verus!
