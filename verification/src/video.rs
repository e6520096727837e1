//! Video frames and the arena that holds them.
//!
//! Every frame gets an id from a counter that only goes up, so two frames
//! are the same frame exactly if their ids are equal, whatever they hold. A
//! frame that is no key frame names, by id, the key frame it needs. The
//! arena keeps a frame at least until it has been delivered and no frame
//! in the arena names it.
use crate::avc::AvcFrame;
use crate::time::MediaTime;
use vstd::prelude::*;

verus! {

/// The identity of a frame.
#[derive(Clone, Copy, Debug, PartialEq, Eq, Structural)]
pub struct FrameId(u64);

impl FrameId {
    /// The number that the frame was given.
    pub closed spec fn serial(&self) -> u64 {
        self.0
    }

    pub fn as_u64(&self) -> (r: u64)
        ensures
            r == self.serial(),
    {
        self.0
    }
}

/// Ids are equal exactly if their serial numbers are.
pub proof fn lemma_frame_id_equality(a: FrameId, b: FrameId)
    ensures
        a == b <==> a.serial() == b.serial(),
{
}

/// One decoded video access unit.
#[derive(Clone, Debug)]
pub struct Frame {
    /// The identity that the arena gave the frame.
    pub id: FrameId,
    pub specific: AvcFrame,
    /// The length of the frame in seconds, possibly an estimate.
    pub duration_hint: MediaTime,
    /// The key frame that is needed to decode this frame, if it is none
    /// itself.
    pub key_frame: Option<FrameId>,
}

impl Frame {
    pub open spec fn spec_id(&self) -> FrameId {
        self.id
    }

    /// Whether the frame can be decoded without another.
    pub open spec fn key(&self) -> bool {
        self.specific.frame_type.key()
    }

    pub fn is_key_frame(&self) -> (r: bool)
        ensures
            r == self.key(),
    {
        self.specific.frame_type.is_key_frame()
    }

    pub fn id(&self) -> (r: FrameId)
        ensures
            r == self.spec_id(),
    {
        self.id
    }
}

/// A frame of the arena, and whether it has been delivered.
#[derive(Debug)]
struct Slot {
    frame: Frame,
    delivered: bool,
}

/// The frames of one stream that are still needed.
#[derive(Debug)]
pub struct FrameArena {
    slots: Vec<Slot>,
    next: u64,
}

impl FrameArena {
    /// The frames of the arena, oldest first.
    pub closed spec fn frames(&self) -> Seq<Frame> {
        self.slots@.map_values(|s: Slot| s.frame)
    }

    /// Whether the frame at position `i` has been delivered.
    pub closed spec fn delivered_at(&self, i: int) -> bool {
        self.slots@[i].delivered
    }

    /// The serial number that the next frame gets.
    pub closed spec fn next_serial(&self) -> u64 {
        self.next
    }

    /// Whether the arena holds the frame `id`.
    pub open spec fn contains(&self, id: FrameId) -> bool {
        exists|i: int| 0 <= i < self.frames().len() && #[trigger] self.frames()[i].spec_id() == id
    }

    /// Whether the arena holds the frame `id` and it is a key frame.
    pub open spec fn contains_key_frame(&self, id: FrameId) -> bool {
        exists|i: int|
            0 <= i < self.frames().len() && #[trigger] self.frames()[i].spec_id() == id
                && self.frames()[i].key()
    }

    /// Whether a frame of the arena names the frame `id` as its key frame.
    pub open spec fn is_referenced(&self, id: FrameId) -> bool {
        exists|i: int|
            0 <= i < self.frames().len() && (#[trigger] self.frames()[i]).key_frame == Some(id)
    }

    /// Ids go up from frame to frame and stay below the counter; a key
    /// frame names no other frame; a frame that is none names a key frame of
    /// the arena, or nothing.
    pub open spec fn wf(&self) -> bool {
        &&& forall|i: int, j: int|
            0 <= i < j < self.frames().len() ==> self.frames()[i].spec_id().serial()
                < self.frames()[j].spec_id().serial()
        &&& forall|i: int|
            0 <= i < self.frames().len() ==> (#[trigger] self.frames()[i]).spec_id().serial()
                < self.next_serial()
        &&& forall|i: int|
            0 <= i < self.frames().len() ==> ((#[trigger] self.frames()[i]).key_frame matches Some(
                k,
            ) ==> !self.frames()[i].key() && self.contains_key_frame(k))
    }

    /// An empty arena.
    pub fn new() -> (r: FrameArena)
        ensures
            r.wf(),
            r.frames().len() == 0,
            r.next_serial() == 0,
    {
        FrameArena { slots: Vec::new(), next: 0 }
    }

    /// Whether another frame can be given an id.
    pub fn has_room(&self) -> (r: bool)
        ensures
            r == (self.next_serial() < u64::MAX),
    {
        self.next < u64::MAX
    }

    pub fn len(&self) -> (r: usize)
        ensures
            r == self.frames().len(),
    {
        self.slots.len()
    }

    fn find(&self, id: FrameId) -> (r: Option<usize>)
        ensures
            match r {
                Some(i) => i < self.frames().len() && self.frames()[i as int].spec_id() == id,
                None => !self.contains(id),
            },
    {
        let mut i: usize = 0;
        while i < self.slots.len()
            invariant
                i <= self.slots.len(),
                forall|k: int| 0 <= k < i ==> self.frames()[k].spec_id() != id,
            decreases self.slots.len() - i,
        {
            if self.slots[i].frame.id.0 == id.0 {
                return Some(i);
            }
            i = i + 1;
        }
        None
    }

    /// The frame `id`, if the arena holds it.
    pub fn get(&self, id: FrameId) -> (r: Option<&Frame>)
        ensures
            r is Some <==> self.contains(id),
            r matches Some(frame) ==> frame.spec_id() == id && exists|i: int|
                0 <= i < self.frames().len() && self.frames()[i] == *frame,
    {
        match self.find(id) {
            Some(i) => {
                assert(self.frames()[i as int] == self.slots@[i as int].frame);
                Some(&self.slots[i].frame)
            },
            None => None,
        }
    }

    /// Takes a new frame into the arena and gives the id that it got: the
    /// next of the counter, which no frame had before.
    pub fn insert(
        &mut self,
        specific: AvcFrame,
        duration_hint: MediaTime,
        key_frame: Option<FrameId>,
    ) -> (r: FrameId)
        requires
            old(self).wf(),
            old(self).next_serial() < u64::MAX,
            key_frame matches Some(k) ==> !specific.frame_type.key() && old(
                self,
            ).contains_key_frame(k),
        ensures
            final(self).wf(),
            r.serial() == old(self).next_serial(),
            !old(self).contains(r),
            final(self).next_serial() == old(self).next_serial() + 1,
            final(self).frames().len() == old(self).frames().len() + 1,
            final(self).frames().drop_last() == old(self).frames(),
            final(self).frames().last().spec_id() == r,
            final(self).frames().last().specific == specific,
            final(self).frames().last().duration_hint == duration_hint,
            final(self).frames().last().key_frame == key_frame,
            !final(self).delivered_at(final(self).frames().len() - 1),
            forall|i: int|
                0 <= i < old(self).frames().len() ==> final(self).delivered_at(i) == old(
                    self,
                ).delivered_at(i),
    {
        let id = FrameId(self.next);
        let frame = Frame { id, specific, duration_hint, key_frame };
        self.slots.push(Slot { frame, delivered: false });
        self.next = self.next + 1;
        proof {
            assert(self.frames().drop_last() =~= old(self).frames());
            assert forall|i: int| 0 <= i < self.frames().len() implies ((
            #[trigger] self.frames()[i]).key_frame matches Some(k) ==> !self.frames()[i].key()
                && self.contains_key_frame(k)) by {
                if let Some(k) = self.frames()[i].key_frame {
                    if i < old(self).frames().len() {
                        assert(self.frames()[i] == old(self).frames()[i]);
                    }
                    assert(old(self).contains_key_frame(k));
                    let j = choose|j: int|
                        0 <= j < old(self).frames().len() && #[trigger] old(
                            self,
                        ).frames()[j].spec_id() == k && old(self).frames()[j].key();
                    assert(self.frames()[j] == old(self).frames()[j]);
                }
            }
            assert forall|i: int, j: int| 0 <= i < j < self.frames().len() implies self.frames()[i].spec_id().serial()
                < self.frames()[j].spec_id().serial() by {
                if j < old(self).frames().len() {
                    assert(self.frames()[i] == old(self).frames()[i]);
                    assert(self.frames()[j] == old(self).frames()[j]);
                } else {
                    assert(self.frames()[i] == old(self).frames()[i]);
                }
            }
            assert forall|i: int| 0 <= i < self.frames().len() implies (
            #[trigger] self.frames()[i]).spec_id().serial() < self.next_serial() by {
                if i < old(self).frames().len() {
                    assert(self.frames()[i] == old(self).frames()[i]);
                }
            }
        }
        id
    }

    /// Notes that the frame `id` has been delivered. Gives whether the
    /// arena holds the frame.
    pub fn mark_delivered(&mut self, id: FrameId) -> (r: bool)
        requires
            old(self).wf(),
        ensures
            final(self).wf(),
            r == old(self).contains(id),
            final(self).frames() == old(self).frames(),
            final(self).next_serial() == old(self).next_serial(),
            forall|i: int|
                0 <= i < old(self).frames().len() ==> final(self).delivered_at(i) == (old(
                    self,
                ).delivered_at(i) || old(self).frames()[i].spec_id() == id),
    {
        match self.find(id) {
            Some(i) => {
                let ghost before = self.slots@;
                let mut slot = self.slots.remove(i);
                slot.delivered = true;
                self.slots.insert(i, slot);
                proof {
                    assert forall|k: int| 0 <= k < before.len() implies self.slots@[k] == (if k
                        == i {
                        slot
                    } else {
                        before[k]
                    }) by {}
                    assert(self.frames() =~= old(self).frames());
                    assert forall|k: int| 0 <= k < old(self).frames().len() implies self.delivered_at(
                        k,
                    ) == (old(self).delivered_at(k) || old(self).frames()[k].spec_id() == id) by {
                        assert(old(self).frames()[k] == before[k].frame);
                        assert(old(self).frames()[i as int] == before[i as int].frame);
                        if k < i {
                            assert(old(self).frames()[k].spec_id().serial() < old(
                                self,
                            ).frames()[i as int].spec_id().serial());
                        } else if i < k {
                            assert(old(self).frames()[i as int].spec_id().serial() < old(
                                self,
                            ).frames()[k].spec_id().serial());
                        }
                    }
                }
                true
            },
            None => {
                assert forall|k: int| 0 <= k < old(self).frames().len() implies old(
                    self,
                ).frames()[k].spec_id() != id by {}
                false
            },
        }
    }

    fn referenced(&self, id: FrameId) -> (r: bool)
        ensures
            r == self.is_referenced(id),
    {
        let mut i: usize = 0;
        while i < self.slots.len()
            invariant
                i <= self.slots.len(),
                forall|k: int| 0 <= k < i ==> self.frames()[k].key_frame != Some(id),
            decreases self.slots.len() - i,
        {
            match self.slots[i].frame.key_frame {
                Some(k) => {
                    if k.0 == id.0 {
                        assert(self.frames()[i as int].key_frame == Some(id));
                        return true;
                    }
                },
                None => {},
            }
            i = i + 1;
        }
        false
    }

    /// Whether the frame `id` may leave the arena: it is there, it has been
    /// delivered, no frame of the arena names it, and it is not `keep`.
    pub open spec fn evictable(&self, id: FrameId, keep: Option<FrameId>) -> bool {
        &&& keep != Some(id)
        &&& !self.is_referenced(id)
        &&& exists|i: int|
            0 <= i < self.frames().len() && #[trigger] self.frames()[i].spec_id() == id
                && self.delivered_at(i)
    }

    /// Removes the frame `id` if it may leave, and gives whether it did.
    /// `keep` is a frame that must stay whatever else holds of it: the key
    /// frame that frames to come will name.
    pub fn evict(&mut self, id: FrameId, keep: Option<FrameId>) -> (r: bool)
        requires
            old(self).wf(),
        ensures
            final(self).wf(),
            r == old(self).evictable(id, keep),
            final(self).next_serial() == old(self).next_serial(),
            !r ==> final(self).frames() == old(self).frames() && forall|j: int|
                0 <= j < old(self).frames().len() ==> final(self).delivered_at(j) == old(
                    self,
                ).delivered_at(j),
            r ==> !final(self).contains(id),
            r ==> exists|i: int|
                0 <= i < old(self).frames().len() && old(self).frames()[i].spec_id() == id
                    && final(self).frames() == old(self).frames().remove(i) && forall|j: int|
                    0 <= j < final(self).frames().len() ==> final(self).delivered_at(j) == old(
                        self,
                    ).delivered_at(
                        if j < i {
                            j
                        } else {
                            j + 1
                        },
                    ),
            forall|other: FrameId|
                other != id ==> (final(self).contains(other) <==> old(self).contains(other)),
            forall|other: FrameId|
                other != id ==> (final(self).contains_key_frame(other) <==> old(
                    self,
                ).contains_key_frame(other)),
    {
        let found = self.find(id);
        let i = match found {
            Some(i) => i,
            None => {
                return false;
            },
        };
        proof {
            // Ids are unique, so position `i` is the only one that holds `id`.
            assert forall|k: int|
                0 <= k < self.frames().len() && self.frames()[k].spec_id() == id implies k
                == i by {}
        }
        if Some(id) == keep || !self.slots[i].delivered || self.referenced(id) {
            assert(self.frames()[i as int] == self.slots@[i as int].frame);
            return false;
        }
        let ghost before = self.frames();
        self.slots.remove(i);
        proof {
            assert(self.frames() =~= before.remove(i as int));
            assert(before[i as int].spec_id() == id);
            assert forall|k: int| 0 <= k < self.frames().len() implies self.frames()[k]
                == before[if k < i {
                k
            } else {
                k + 1
            }] by {}
            assert forall|other: FrameId| other != id implies (self.contains(other)
                <==> old(self).contains(other)) by {
                if old(self).contains(other) {
                    let k = choose|k: int|
                        0 <= k < before.len() && #[trigger] before[k].spec_id() == other;
                    let m = if k < i {
                        k
                    } else {
                        k - 1
                    };
                    assert(self.frames()[m] == before[k]);
                }
                if self.contains(other) {
                    let m = choose|m: int|
                        0 <= m < self.frames().len() && #[trigger] self.frames()[m].spec_id()
                            == other;
                    let k = if m < i {
                        m
                    } else {
                        m + 1
                    };
                    assert(before[k].spec_id() == other);
                }
            }
            assert forall|other: FrameId| other != id implies (self.contains_key_frame(other)
                <==> old(self).contains_key_frame(other)) by {
                if old(self).contains_key_frame(other) {
                    let k = choose|k: int|
                        0 <= k < before.len() && #[trigger] before[k].spec_id() == other
                            && before[k].key();
                    let m = if k < i {
                        k
                    } else {
                        k - 1
                    };
                    assert(self.frames()[m] == before[k]);
                }
                if self.contains_key_frame(other) {
                    let m = choose|m: int|
                        0 <= m < self.frames().len() && #[trigger] self.frames()[m].spec_id()
                            == other && self.frames()[m].key();
                    let k = if m < i {
                        m
                    } else {
                        m + 1
                    };
                    assert(before[k].spec_id() == other && before[k].key());
                }
            }
            assert(!self.contains(id)) by {
                if self.contains(id) {
                    let m = choose|m: int|
                        0 <= m < self.frames().len() && #[trigger] self.frames()[m].spec_id()
                            == id;
                    let k = if m < i {
                        m
                    } else {
                        m + 1
                    };
                    assert(before[k].spec_id() == id);
                }
            }
            assert forall|m: int| 0 <= m < self.frames().len() implies ((
            #[trigger] self.frames()[m]).key_frame matches Some(k) ==> !self.frames()[m].key()
                && self.contains_key_frame(k)) by {
                let n = if m < i {
                    m
                } else {
                    m + 1
                };
                assert(self.frames()[m] == before[n]);
                if let Some(k) = before[n].key_frame {
                    assert(old(self).contains_key_frame(k));
                    assert(k != id);
                }
            }
        }
        true
    }
}

/// Two frames of an arena at different places have different ids, whatever
/// they hold.
pub proof fn lemma_distinct_frames_have_distinct_ids(arena: FrameArena, i: int, j: int)
    requires
        arena.wf(),
        0 <= i < arena.frames().len(),
        0 <= j < arena.frames().len(),
    ensures
        arena.frames()[i].spec_id() == arena.frames()[j].spec_id() <==> i == j,
{
    if i < j {
        assert(arena.frames()[i].spec_id().serial() < arena.frames()[j].spec_id().serial());
    } else if j < i {
        assert(arena.frames()[j].spec_id().serial() < arena.frames()[i].spec_id().serial());
    }
}

} // verus!
