use vstd::prelude::*;

use crate::error::MyError;

verus! {

/// The lifecycle of one frame slot. A slot owns one (staging, working,
/// readback) buffer triple; it may not be re-claimed while any in-flight
/// submission still uses it — only `Idle` slots can be claimed.
#[derive(Clone, Copy, Debug, PartialEq, Eq, Structural)]
pub enum SlotState {
    Idle,
    Uploading,
    Dispatched,
    ReadingBack,
}

/// A slot at `head` can be claimed only while it sits idle.
pub open spec fn claim_ok(slots: Seq<SlotState>, head: int) -> bool {
    slots[head] == SlotState::Idle
}

/// The ring state after one successful claim: the head slot is taken for
/// uploading and the head advances by one, modulo the capacity.
pub open spec fn after_claim(slots: Seq<SlotState>, head: int) -> (Seq<SlotState>, int) {
    (slots.update(head, SlotState::Uploading), (head + 1) % (slots.len() as int))
}

/// The ring state after `n` successful claims with no slot released in
/// between; `None` when some claim along the way finds its slot busy.
pub open spec fn after_claims(slots: Seq<SlotState>, head: int, n: nat) -> Option<
    (Seq<SlotState>, int),
>
    decreases n,
{
    if n == 0 {
        Some((slots, head))
    } else {
        match after_claims(slots, head, (n - 1) as nat) {
            Some(s) => {
                if claim_ok(s.0, s.1) {
                    Some(after_claim(s.0, s.1))
                } else {
                    None
                }
            },
            None => None,
        }
    }
}

/// A ring in which the first `k` slots are claimed and the rest are idle;
/// with `k == 0` this is a freshly constructed ring.
pub open spec fn partially_claimed(capacity: int, k: int) -> Seq<SlotState> {
    Seq::new(
        capacity as nat,
        |i: int|
            if i < k {
                SlotState::Uploading
            } else {
                SlotState::Idle
            },
    )
}

/// From a fresh ring, `k <= capacity` claims all succeed and fill the first
/// `k` slots, wrapping the head back to the start when `k` reaches the
/// capacity.
pub proof fn lemma_claims_progress(capacity: int, k: int)
    requires
        1 <= capacity,
        0 <= k <= capacity,
    ensures
        after_claims(partially_claimed(capacity, 0), 0, k as nat) == Some(
            (
                partially_claimed(capacity, k),
                if k < capacity {
                    k
                } else {
                    0
                },
            ),
        ),
    decreases k,
{
    if k > 0 {
        lemma_claims_progress(capacity, k - 1);
        let prev = partially_claimed(capacity, k - 1);
        assert(claim_ok(prev, k - 1));
        assert(after_claim(prev, k - 1).0 =~= partially_claimed(capacity, k));
        if k < capacity {
            assert(k % capacity == k) by {
                vstd::arithmetic::div_mod::lemma_small_mod(k as nat, capacity as nat);
            }
        } else {
            assert(capacity % capacity == 0) by {
                vstd::arithmetic::div_mod::lemma_mod_self_0(capacity);
            }
        }
    }
}

/// Claiming a slot for each of the ring's `capacity` frames succeeds, and
/// the very next claim finds every slot in flight and is refused — the ring
/// never hands out a busy slot, so no in-flight frame is overwritten.
pub proof fn lemma_capacity_exhaustion(capacity: int)
    requires
        1 <= capacity,
    ensures
        after_claims(partially_claimed(capacity, 0), 0, capacity as nat) matches Some(s)
            && !claim_ok(s.0, s.1),
        after_claims(partially_claimed(capacity, 0), 0, (capacity + 1) as nat) is None,
{
    lemma_claims_progress(capacity, capacity);
}

/// The ring of reusable frame slots: a monotonically advancing head index
/// modulo the capacity, with one state tag per slot. The buffers themselves
/// are owned by the host layer, one triple per slot index.
#[derive(Clone, Debug)]
pub struct FrameRing {
    pub slots: Vec<SlotState>,
    pub head: usize,
}

impl FrameRing {
    pub open spec fn wf(self) -> bool {
        &&& 0 < self.slots@.len()
        &&& (self.head as int) < self.slots@.len()
    }

    pub open spec fn spec_slots(self) -> Seq<SlotState> {
        self.slots@
    }

    pub open spec fn spec_head(self) -> int {
        self.head as int
    }

    /// Builds a ring of `capacity` idle slots; a ring without slots could
    /// never accept a frame, so zero is refused as a configuration error.
    pub fn new(capacity: u32) -> (r: Result<FrameRing, MyError>)
        ensures
            match r {
                Ok(ring) => {
                    &&& 0 < capacity
                    &&& ring.wf()
                    &&& ring.spec_head() == 0
                    &&& ring.spec_slots() == partially_claimed(capacity as int, 0)
                },
                Err(e) => {
                    &&& e == MyError::InvalidImageData
                    &&& capacity == 0
                },
            },
    {
        if capacity == 0 {
            return Err(MyError::InvalidImageData);
        }
        let mut slots: Vec<SlotState> = Vec::new();
        let mut i: u32 = 0;
        while i < capacity
            invariant
                i <= capacity,
                slots@.len() == i,
                forall|j: int| 0 <= j < i ==> slots@[j] == SlotState::Idle,
            decreases capacity - i,
        {
            slots.push(SlotState::Idle);
            i = i + 1;
        }
        proof {
            assert(slots@ =~= partially_claimed(capacity as int, 0));
        }
        Ok(FrameRing { slots, head: 0 })
    }

    /// How many frames can be in flight at once; fixed at construction.
    pub fn capacity(&self) -> (n: usize)
        ensures
            n == self.spec_slots().len(),
    {
        self.slots.len()
    }

    /// Claims the slot at the head for a new frame. When that slot still
    /// serves an in-flight frame the claim is refused with `RingBufferFull`
    /// and the ring is unchanged: a busy slot is never handed out, so an
    /// in-flight frame's buffers are never overwritten.
    pub fn try_claim(&mut self) -> (r: Result<usize, MyError>)
        requires
            old(self).wf(),
        ensures
            final(self).wf(),
            final(self).spec_slots().len() == old(self).spec_slots().len(),
            match r {
                Ok(i) => {
                    &&& claim_ok(old(self).spec_slots(), old(self).spec_head())
                    &&& i == old(self).spec_head()
                    &&& old(self).spec_slots()[i as int] == SlotState::Idle
                    &&& (final(self).spec_slots(), final(self).spec_head()) == after_claim(
                        old(self).spec_slots(),
                        old(self).spec_head(),
                    )
                },
                Err(e) => {
                    &&& e == MyError::RingBufferFull
                    &&& !claim_ok(old(self).spec_slots(), old(self).spec_head())
                    &&& *final(self) == *old(self)
                },
            },
    {
        let head = self.head;
        let idle = match self.slots[head] {
            SlotState::Idle => true,
            _ => false,
        };
        if !idle {
            return Err(MyError::RingBufferFull);
        }
        let len = self.slots.len();
        self.slots.set(head, SlotState::Uploading);
        self.head = (head + 1) % len;
        Ok(head)
    }

    /// Records that the slot's frame commands were submitted to the queue.
    pub fn mark_dispatched(&mut self, slot: usize)
        requires
            old(self).wf(),
            (slot as int) < old(self).spec_slots().len(),
            old(self).spec_slots()[slot as int] == SlotState::Uploading,
        ensures
            final(self).wf(),
            final(self).spec_slots() == old(self).spec_slots().update(
                slot as int,
                SlotState::Dispatched,
            ),
            final(self).spec_head() == old(self).spec_head(),
    {
        self.slots.set(slot, SlotState::Dispatched);
    }

    /// Records that the slot's readback buffer is being mapped and read.
    pub fn mark_reading_back(&mut self, slot: usize)
        requires
            old(self).wf(),
            (slot as int) < old(self).spec_slots().len(),
            old(self).spec_slots()[slot as int] == SlotState::Dispatched,
        ensures
            final(self).wf(),
            final(self).spec_slots() == old(self).spec_slots().update(
                slot as int,
                SlotState::ReadingBack,
            ),
            final(self).spec_head() == old(self).spec_head(),
    {
        self.slots.set(slot, SlotState::ReadingBack);
    }

    /// Returns a slot to `Idle` once its submission completed, whether it
    /// succeeded or failed.
    pub fn release(&mut self, slot: usize)
        requires
            old(self).wf(),
            (slot as int) < old(self).spec_slots().len(),
            old(self).spec_slots()[slot as int] != SlotState::Idle,
        ensures
            final(self).wf(),
            final(self).spec_slots() == old(self).spec_slots().update(
                slot as int,
                SlotState::Idle,
            ),
            final(self).spec_head() == old(self).spec_head(),
    {
        self.slots.set(slot, SlotState::Idle);
    }
}

} // verus!
