//! Batching frames by slot, in front of one computing node.

use vstd::prelude::*;
use crate::sorting::{is_permutation, rearranged};
use crate::wire::{frames, Frame, FrameParts};

verus! {

/// When and where a frame arrived.
#[derive(Clone, Copy, Debug, PartialEq, Eq)]
pub struct Arrival {
    pub slot: u32,
    pub order: usize,
    /// The reading of the node's clock.
    pub received_at: u64,
    pub size: usize,
}

/// The frames of one slot.
#[derive(Debug)]
pub struct SlotFrames {
    pub slot: u32,
    pub frames: Vec<Frame>,
}

/// Frames by slot, in increasing order of slot.
#[derive(Debug)]
pub struct FramesBySlot {
    pub slots: Vec<SlotFrames>,
}

impl FramesBySlot {
    /// The slots increase.
    pub open spec fn sorted(self) -> bool {
        forall|i: int, j: int| 0 <= i < j < self.slots@.len() ==> self.slots@[i].slot < self.slots@[j].slot
    }

    /// Whether there are frames, or were, of a slot.
    pub open spec fn has(self, slot: u32) -> bool {
        exists|i: int| 0 <= i < self.slots@.len() && (#[trigger] self.slots@[i]).slot == slot
    }

    /// Where a slot stands.
    pub open spec fn place(self, slot: u32) -> int {
        choose|i: int| 0 <= i < self.slots@.len() && (#[trigger] self.slots@[i]).slot == slot
    }

    /// The frames of a slot.
    pub open spec fn at(self, slot: u32) -> Seq<FrameParts> {
        if self.has(slot) {
            frames(self.slots@[self.place(slot)].frames@)
        } else {
            Seq::empty()
        }
    }

    /// A slot stands in one place only.
    proof fn only_place(self, i: int)
        requires
            self.sorted(),
            0 <= i < self.slots@.len(),
        ensures
            self.has(self.slots@[i].slot),
            self.place(self.slots@[i].slot) == i,
    {
        let slot = self.slots@[i].slot;
        let p = self.place(slot);
        assert(self.slots@[p].slot == slot);
        if p < i {
            assert(self.slots@[p].slot < self.slots@[i].slot);
        } else if i < p {
            assert(self.slots@[i].slot < self.slots@[p].slot);
        }
    }

    /// No frames.
    pub fn new() -> (empty: FramesBySlot)
        ensures
            empty.sorted(),
            forall|slot: u32| !#[trigger] empty.has(slot),
            forall|slot: u32| #[trigger] empty.at(slot) == Seq::<FrameParts>::empty(),
    {
        let empty = FramesBySlot { slots: Vec::new() };
        assert forall|slot: u32| !empty.has(slot) by {
        }
        empty
    }

    fn find(&self, slot: u32) -> (at: usize)
        requires
            self.sorted(),
        ensures
            at <= self.slots@.len(),
            forall|i: int| 0 <= i < at ==> (#[trigger] self.slots@[i]).slot < slot,
            at < self.slots@.len() ==> self.slots@[at as int].slot >= slot,
    {
        let mut at: usize = 0;
        while at < self.slots.len() && self.slots[at].slot < slot
            invariant
                at <= self.slots@.len(),
                forall|i: int| 0 <= i < at ==> (#[trigger] self.slots@[i]).slot < slot,
            decreases self.slots@.len() - at,
        {
            at = at + 1;
        }
        at
    }

    /// How many frames of a slot there are.
    pub fn count(&self, slot: u32) -> (count: usize)
        requires
            self.sorted(),
        ensures
            count == self.at(slot).len(),
    {
        let at = self.find(slot);
        if at < self.slots.len() && self.slots[at].slot == slot {
            proof {
                self.only_place(at as int);
            }
            self.slots[at].frames.len()
        } else {
            proof {
                self.absent_at(slot, at as int);
            }
            0
        }
    }

    proof fn absent_at(self, slot: u32, at: int)
        requires
            self.sorted(),
            0 <= at <= self.slots@.len(),
            forall|i: int| 0 <= i < at ==> (#[trigger] self.slots@[i]).slot < slot,
            at < self.slots@.len() ==> self.slots@[at].slot > slot,
        ensures
            !self.has(slot),
    {
        if self.has(slot) {
            let p = self.place(slot);
            assert(self.slots@[p].slot == slot);
            if p > at {
                assert(self.slots@[at].slot < self.slots@[p].slot);
            }
        }
    }

    /// Makes a slot a key, without frames where it was none. Gives its place.
    fn open(&mut self, slot: u32) -> (at: usize)
        requires
            old(self).sorted(),
        ensures
            final(self).sorted(),
            at < final(self).slots@.len(),
            final(self).slots@[at as int].slot == slot,
            final(self).has(slot),
            forall|other: u32| other != slot ==> #[trigger] final(self).has(other) == old(self).has(other),
            forall|other: u32| #[trigger] final(self).at(other) == old(self).at(other),
    {
        let ghost before = *self;
        let at = self.find(slot);
        if at < self.slots.len() && self.slots[at].slot == slot {
            proof {
                before.only_place(at as int);
            }
        } else {
            proof {
                before.absent_at(slot, at as int);
            }
            let held: Vec<Frame> = Vec::new();
            let ghost fresh = held@;
            self.slots.insert(at, SlotFrames { slot, frames: held });
            proof {
                let after = *self;
                assert forall|i: int, j: int| 0 <= i < j < after.slots@.len() implies after.slots@[i].slot
                    < after.slots@[j].slot by {
                    let pi = if i < at { i } else { i - 1 };
                    let pj = if j < at { j } else { j - 1 };
                    if i != at && j != at {
                        assert(before.slots@[pi].slot < before.slots@[pj].slot);
                    } else if i == at {
                        assert(before.slots@[pj].slot >= before.slots@[at as int].slot) by {
                            if pj > at {
                                assert(before.slots@[at as int].slot < before.slots@[pj].slot);
                            }
                        }
                    } else {
                        assert(before.slots@[pi].slot < slot);
                    }
                }
                after.only_place(at as int);
                assert(frames(fresh) =~= Seq::empty());
                assert forall|other: u32| other != slot implies #[trigger] after.has(other) == before.has(other)
                    && after.at(other) == before.at(other) by {
                    if before.has(other) {
                        let p = before.place(other);
                        assert(before.slots@[p].slot == other);
                        let q = if p < at { p } else { p + 1 };
                        assert(after.slots@[q] == before.slots@[p]);
                        before.only_place(p);
                        after.only_place(q);
                    }
                    if after.has(other) {
                        let q = after.place(other);
                        assert(after.slots@[q].slot == other);
                        let p = if q < at { q } else { q - 1 };
                        assert(before.slots@[p].slot == other);
                    }
                }
                assert forall|other: u32| #[trigger] after.at(other) == before.at(other) by {
                    if other != slot {
                        assert(after.has(other) == before.has(other));
                    }
                }
            }
        }
        at
    }

    /// Adds a frame to those of a slot, after the others.
    pub fn push(&mut self, slot: u32, frame: Frame)
        requires
            old(self).sorted(),
        ensures
            final(self).sorted(),
            final(self).has(slot),
            final(self).at(slot) == old(self).at(slot).push(frame@),
            forall|other: u32| other != slot ==> #[trigger] final(self).has(other) == old(self).has(other),
            forall|other: u32| other != slot ==> #[trigger] final(self).at(other) == old(self).at(other),
    {
        let at = self.open(slot);
        let ghost before = *self;
        proof {
            before.only_place(at as int);
            assert(before.at(slot) == old(self).at(slot));
        }
        let ghost held = self.slots@[at as int].frames@;
        self.slots[at].frames.push(frame);
        proof {
            let after = *self;
            assert(after.sorted()) by {
                assert forall|i: int, j: int| 0 <= i < j < after.slots@.len() implies after.slots@[i].slot
                    < after.slots@[j].slot by {
                    assert(before.slots@[i].slot < before.slots@[j].slot);
                }
            }
            after.only_place(at as int);
            assert(frames(after.slots@[at as int].frames@) =~= frames(held).push(frame@));
            assert forall|other: u32| other != slot implies #[trigger] after.has(other) == before.has(other)
                && after.at(other) == before.at(other) by {
                if before.has(other) {
                    let p = before.place(other);
                    assert(before.slots@[p].slot == other);
                    assert(after.slots@[p] == before.slots@[p]);
                    before.only_place(p);
                    after.only_place(p);
                }
                if after.has(other) {
                    let p = after.place(other);
                    assert(after.slots@[p].slot == other);
                    assert(before.slots@[p].slot == other);
                }
            }
            assert forall|other: u32| other != slot implies #[trigger] after.at(other) == before.at(other) by {
                assert(after.has(other) == before.has(other));
            }
        }
    }

    /// Takes the frames of a slot out.
    pub fn take(&mut self, slot: u32) -> (batch: Vec<Frame>)
        requires
            old(self).sorted(),
        ensures
            final(self).sorted(),
            frames(batch@) == old(self).at(slot),
            !final(self).has(slot),
            final(self).at(slot) == Seq::<FrameParts>::empty(),
            forall|other: u32| other != slot ==> #[trigger] final(self).has(other) == old(self).has(other),
            forall|other: u32| other != slot ==> #[trigger] final(self).at(other) == old(self).at(other),
    {
        let ghost before = *self;
        let at = self.find(slot);
        if at < self.slots.len() && self.slots[at].slot == slot {
            proof {
                before.only_place(at as int);
            }
            let taken = self.slots.remove(at);
            proof {
                let after = *self;
                assert forall|i: int, j: int| 0 <= i < j < after.slots@.len() implies after.slots@[i].slot
                    < after.slots@[j].slot by {
                    let pi = if i < at { i } else { i + 1 };
                    let pj = if j < at { j } else { j + 1 };
                    assert(before.slots@[pi].slot < before.slots@[pj].slot);
                }
                assert forall|other: u32| #[trigger] after.has(other) implies other != slot && before.has(other) by {
                    let q = after.place(other);
                    assert(after.slots@[q].slot == other);
                    let p = if q < at { q } else { q + 1 };
                    assert(before.slots@[p].slot == other);
                    if other == slot {
                        before.only_place(p);
                    }
                }
                assert forall|other: u32| other != slot implies #[trigger] after.has(other) == before.has(other)
                    && after.at(other) == before.at(other) by {
                    if before.has(other) {
                        let p = before.place(other);
                        assert(before.slots@[p].slot == other);
                        let q = if p < at { p } else { p - 1 };
                        assert(after.slots@[q] == before.slots@[p]);
                        before.only_place(p);
                        after.only_place(q);
                    }
                }
                assert forall|other: u32| other != slot implies #[trigger] after.at(other) == before.at(other) by {
                    assert(after.has(other) == before.has(other));
                }
            }
            taken.frames
        } else {
            proof {
                before.absent_at(slot, at as int);
                assert(frames(Seq::<Frame>::empty()) =~= Seq::empty());
            }
            Vec::new()
        }
    }
}

/// What a node received.
#[derive(Debug)]
pub struct NodeInbox {
    pub node: u16,
    pub arrivals: Vec<Arrival>,
    pub frames: FramesBySlot,
}

/// The arrivals of a batch.
pub open spec fn arrivals_of(slot: u32, count: nat, at: u64, size: usize) -> Seq<Arrival> {
    Seq::new(count, |i: int| Arrival { slot, order: i as usize, received_at: at, size })
}

impl NodeInbox {
    /// What taking a batch in does: its frames stand behind those of the slot, in order.
    pub open spec fn took(self, slot: u32, batch: Seq<FrameParts>, at: u64, size: usize, later: NodeInbox) -> bool {
        &&& later.node == self.node
        &&& later.arrivals@ == self.arrivals@ + arrivals_of(slot, batch.len(), at, size)
        &&& later.frames.has(slot)
        &&& later.frames.at(slot) == self.frames.at(slot) + batch
        &&& forall|other: u32| other != slot ==> #[trigger] later.frames.has(other) == self.frames.has(other)
        &&& forall|other: u32| other != slot ==> #[trigger] later.frames.at(other) == self.frames.at(other)
    }

    /// An empty inbox.
    pub fn new(node: u16) -> (inbox: NodeInbox)
        ensures
            inbox.node == node,
            inbox.arrivals@.len() == 0,
            inbox.frames.sorted(),
            forall|slot: u32| !#[trigger] inbox.frames.has(slot),
            forall|slot: u32| #[trigger] inbox.frames.at(slot) == Seq::<FrameParts>::empty(),
    {
        NodeInbox { node, arrivals: Vec::new(), frames: FramesBySlot::new() }
    }

    /// Takes a batch: one arrival for each frame, all at one time, and the frames
    /// after those that the slot has already. A batch without frames makes the
    /// slot a key all the same.
    pub fn accept(&mut self, slot: u32, batch: Vec<Frame>, at: u64, size: usize)
        requires
            old(self).frames.sorted(),
        ensures
            final(self).frames.sorted(),
            old(self).took(slot, frames(batch@), at, size, *final(self)),
    {
        let ghost before = *self;
        let ghost all = frames(batch@);
        let _ = self.frames.open(slot);
        let mut i: usize = 0;
        assert(self.arrivals@ =~= before.arrivals@ + arrivals_of(slot, 0, at, size));
        assert(self.frames.at(slot) =~= before.frames.at(slot) + all.take(0));
        while i < batch.len()
            invariant
                i <= batch@.len(),
                self.node == before.node,
                all == frames(batch@),
                self.frames.sorted(),
                self.frames.has(slot),
                forall|other: u32| other != slot ==> #[trigger] self.frames.has(other) == before.frames.has(other),
                self.arrivals@ == before.arrivals@ + arrivals_of(slot, i as nat, at, size),
                self.frames.at(slot) == before.frames.at(slot) + all.take(i as int),
                forall|other: u32| other != slot ==> #[trigger] self.frames.at(other) == before.frames.at(other),
            decreases batch@.len() - i,
        {
            self.arrivals.push(Arrival { slot, order: i, received_at: at, size });
            self.frames.push(slot, batch[i].copy());
            proof {
                assert(self.arrivals@ =~= before.arrivals@ + arrivals_of(slot, (i + 1) as nat, at, size));
                assert(all.take(i + 1) =~= all.take(i as int).push(all[i as int]));
                assert(self.frames.at(slot) =~= before.frames.at(slot) + all.take(i + 1));
            }
            i = i + 1;
        }
        assert(all.take(i as int) =~= all);
    }
}

/// What came in on a connection: bytes that are no frame, or a frame and whether
/// its tag holds, where the relay has a key.
#[derive(Debug)]
pub enum Incoming {
    Malformed,
    Decoded { frame: Frame, authentic: bool },
}

/// The state of a relay in front of one node. The counters wrap.
#[derive(Debug)]
pub struct RelayState {
    pub node: u16,
    pub hop: usize,
    pub keyed: bool,
    pub pending: FramesBySlot,
    pub refused: u64,
    pub accepted: u64,
    pub bytes_in: u64,
    pub bytes_out: u64,
}

/// A counter that went up.
pub open spec fn counted(counter: u64, by: u64) -> u64 {
    ((counter + by) % 0x1_0000_0000_0000_0000) as u64
}

impl RelayState {
    /// What taking a frame in does: it is kept for its slot behind the others, or refused.
    pub open spec fn received(self, incoming: Incoming, frame_bytes: u64, later: RelayState) -> bool {
        &&& later.bytes_in == counted(self.bytes_in, frame_bytes)
        &&& later.node == self.node
        &&& later.hop == self.hop
        &&& later.keyed == self.keyed
        &&& later.accepted == self.accepted
        &&& later.bytes_out == self.bytes_out
        &&& if self.keeps(incoming) {
            let frame = incoming->frame;
            &&& later.refused == self.refused
            &&& later.pending.at(frame.slot) == self.pending.at(frame.slot).push(frame@)
            &&& forall|other: u32|
                other != frame.slot ==> #[trigger] later.pending.at(other) == self.pending.at(other)
        } else {
            &&& later.refused == counted(self.refused, 1)
            &&& later.pending == self.pending
        }
    }

    /// What closing a slot does: its frames go out in the order of the shuffle.
    pub open spec fn slot_closed(
        self,
        slot: u32,
        shuffle: Seq<usize>,
        later: RelayState,
        batch: Seq<FrameParts>,
    ) -> bool {
        &&& batch == rearranged(self.pending.at(slot), shuffle)
        &&& later.pending.at(slot) == Seq::<FrameParts>::empty()
        &&& forall|other: u32| other != slot ==> #[trigger] later.pending.at(other) == self.pending.at(other)
        &&& later == (RelayState { pending: later.pending, ..self })
    }

    /// A relay that received nothing.
    pub fn new(node: u16, hop: usize, keyed: bool) -> (relay: RelayState)
        ensures
            relay.node == node,
            relay.hop == hop,
            relay.keyed == keyed,
            relay.pending.sorted(),
            forall|slot: u32| #[trigger] relay.pending.at(slot) == Seq::<FrameParts>::empty(),
            relay.refused == 0,
            relay.accepted == 0,
            relay.bytes_in == 0,
            relay.bytes_out == 0,
    {
        RelayState {
            node,
            hop,
            keyed,
            pending: FramesBySlot::new(),
            refused: 0,
            accepted: 0,
            bytes_in: 0,
            bytes_out: 0,
        }
    }

    /// Counts a connection.
    pub fn connected(&mut self)
        ensures
            *final(self) == (RelayState { accepted: counted(old(self).accepted, 1), ..*old(self) }),
    {
        self.accepted = self.accepted.wrapping_add(1);
    }

    /// Whether a frame that came in is kept.
    pub open spec fn keeps(self, incoming: Incoming) -> bool {
        match incoming {
            Incoming::Malformed => false,
            Incoming::Decoded { frame, authentic } => authentic || !self.keyed,
        }
    }

    /// Takes in what came on a connection: a frame waits for its slot to close,
    /// anything else is refused.
    pub fn receive(&mut self, incoming: Incoming, frame_bytes: u64)
        requires
            old(self).pending.sorted(),
        ensures
            final(self).pending.sorted(),
            old(self).received(incoming, frame_bytes, *final(self)),
    {
        self.bytes_in = self.bytes_in.wrapping_add(frame_bytes);
        match incoming {
            Incoming::Malformed => {
                self.refused = self.refused.wrapping_add(1);
            },
            Incoming::Decoded { frame, authentic } => {
                if self.keyed && !authentic {
                    self.refused = self.refused.wrapping_add(1);
                } else {
                    let slot: u32 = frame.slot;
                    self.pending.push(slot, frame);
                }
            },
        }
    }

    /// How many frames wait for a slot.
    pub fn pending_frames(&self, slot: u32) -> (count: usize)
        requires
            self.pending.sorted(),
        ensures
            count == self.pending.at(slot).len(),
    {
        self.pending.count(slot)
    }

    /// Closes a slot: its frames, in the order of a shuffle, which is one of the
    /// positions of the waiting frames. Nothing of the slot waits afterwards, and
    /// the other slots are as before.
    pub fn close_slot(&mut self, slot: u32, shuffle: &Vec<usize>) -> (batch: Vec<Frame>)
        requires
            old(self).pending.sorted(),
            is_permutation(shuffle@, old(self).pending.at(slot).len()),
        ensures
            final(self).pending.sorted(),
            old(self).slot_closed(slot, shuffle@, *final(self), frames(batch@)),
    {
        let ghost waiting = self.pending.at(slot);
        let held = self.pending.take(slot);
        let mut batch: Vec<Frame> = Vec::new();
        let mut i: usize = 0;
        while i < shuffle.len()
            invariant
                i <= shuffle@.len(),
                frames(held@) == waiting,
                held@.len() == waiting.len(),
                is_permutation(shuffle@, waiting.len()),
                batch@.len() == i,
                forall|j: int| 0 <= j < i ==> (#[trigger] batch@[j])@ == waiting[shuffle@[j] as int],
            decreases shuffle@.len() - i,
        {
            assert(waiting[shuffle@[i as int] as int] == held@[shuffle@[i as int] as int]@);
            batch.push(held[shuffle[i]].copy());
            i = i + 1;
        }
        assert(frames(batch@) =~= rearranged(waiting, shuffle@));
        batch
    }

    /// Counts the bytes of a batch that was sent on.
    pub fn sent(&mut self, bytes: u64)
        ensures
            *final(self) == (RelayState { bytes_out: counted(old(self).bytes_out, bytes), ..*old(self) }),
    {
        self.bytes_out = self.bytes_out.wrapping_add(bytes);
    }
}

} // verus!
