//! A fixed inventory of buffers, each free, donated to an in-flight
//! operation, or holding completed data.

use crate::error::RingError;
use vstd::prelude::*;

verus! {

/// Where a buffer is in its lifecycle.
#[derive(Clone, Copy, Debug, PartialEq, Eq, Structural)]
pub enum SlotState {
    /// Available to be handed to a new operation.
    Free,
    /// Handed to the executor; the process must not touch it.
    Donated,
    /// Holds `len` bytes of received data not yet consumed.
    Completed { len: u32 },
}

/// A step of a buffer's lifecycle.
#[derive(Clone, Copy, Debug, PartialEq, Eq, Structural)]
pub enum SlotEvent {
    /// A request referencing the buffer was submitted.
    Donate,
    /// The executor reported `len` bytes received into the buffer.
    Complete(u32),
    /// The consumer is done with the data.
    Release,
    /// The operation failed or was cancelled; the buffer returns unused.
    Recycle,
}

/// The lifecycle: the state an event leads to, or `None` where the event is
/// not allowed.
pub open spec fn next_state(st: SlotState, ev: SlotEvent) -> Option<SlotState> {
    match (st, ev) {
        (SlotState::Free, SlotEvent::Donate) => Some(SlotState::Donated),
        (SlotState::Donated, SlotEvent::Complete(len)) => Some(SlotState::Completed { len }),
        (SlotState::Completed { .. }, SlotEvent::Release) => Some(SlotState::Free),
        (SlotState::Donated, SlotEvent::Recycle) => Some(SlotState::Free),
        _ => None,
    }
}

/// The states of all buffers after `ev` happens to buffer `id`, if allowed.
pub open spec fn pool_step(states: Seq<SlotState>, id: int, ev: SlotEvent) -> Option<Seq<SlotState>> {
    if 0 <= id < states.len() {
        match next_state(states[id], ev) {
            Some(st) => Some(states.update(id, st)),
            None => None,
        }
    } else {
        None
    }
}

/// Buffers identified by `0..capacity`, with a stack of the free ones.
pub struct BufferPool {
    states: Vec<SlotState>,
    free: Vec<usize>,
}

impl BufferPool {
    /// The state of each buffer, by id.
    pub closed spec fn states(&self) -> Seq<SlotState> {
        self.states@
    }

    /// The free ids, in the order `acquire_free` hands them out from the end.
    pub closed spec fn free_ids(&self) -> Seq<usize> {
        self.free@
    }

    /// The free stack holds exactly the free ids, each once.
    pub open spec fn wf(&self) -> bool {
        &&& self.states().len() <= usize::MAX
        &&& self.free_ids().no_duplicates()
        &&& forall|k: int|
            0 <= k < self.free_ids().len() ==> {
                &&& (#[trigger] self.free_ids()[k]) < self.states().len()
                &&& self.states()[self.free_ids()[k] as int] == SlotState::Free
            }
        &&& forall|i: int|
            0 <= i < self.states().len() && #[trigger] self.states()[i] == SlotState::Free
                ==> self.free_ids().contains(i as usize)
    }

    /// A pool of `count` free buffers; `acquire_free` hands out the highest
    /// id first.
    pub fn new(count: usize) -> (r: BufferPool)
        ensures
            r.wf(),
            r.states() == Seq::new(count as nat, |i: int| SlotState::Free),
            r.free_ids() == Seq::new(count as nat, |i: int| i as usize),
    {
        let mut states: Vec<SlotState> = Vec::new();
        let mut free: Vec<usize> = Vec::new();
        let mut i: usize = 0;
        while i < count
            invariant
                i <= count,
                states@ == Seq::new(i as nat, |k: int| SlotState::Free),
                free@ == Seq::new(i as nat, |k: int| k as usize),
            decreases count - i,
        {
            states.push(SlotState::Free);
            free.push(i);
            i = i + 1;
            proof {
                assert(states@ =~= Seq::new(i as nat, |k: int| SlotState::Free));
                assert(free@ =~= Seq::new(i as nat, |k: int| k as usize));
            }
        }
        let r = BufferPool { states, free };
        proof {
            assert forall|i: int|
                0 <= i < r.states().len() && #[trigger] r.states()[i] == SlotState::Free implies r.free_ids().contains(
                i as usize,
            ) by {
                assert(r.free_ids()[i] == i as usize);
            }
        }
        r
    }

    /// Number of buffers.
    pub fn capacity(&self) -> (r: usize)
        ensures
            r == self.states().len(),
    {
        self.states.len()
    }

    /// Number of free buffers.
    pub fn free_count(&self) -> (r: usize)
        ensures
            r == self.free_ids().len(),
    {
        self.free.len()
    }

    /// The state of buffer `id`.
    pub fn state(&self, id: usize) -> (r: SlotState)
        requires
            id < self.states().len(),
        ensures
            r == self.states()[id as int],
    {
        self.states[id]
    }

    /// Whether every buffer is free.
    pub fn all_free(&self) -> (r: bool)
        ensures
            r == forall|i: int| 0 <= i < self.states().len() ==> #[trigger] self.states()[i]
                == SlotState::Free,
    {
        let mut i: usize = 0;
        while i < self.states.len()
            invariant
                i <= self.states@.len(),
                forall|k: int| 0 <= k < i ==> #[trigger] self.states@[k] == SlotState::Free,
            decreases self.states@.len() - i,
        {
            if self.states[i] != SlotState::Free {
                return false;
            }
            i = i + 1;
        }
        true
    }

    /// Whether no buffer is donated to an operation still in flight.
    pub fn none_donated(&self) -> (r: bool)
        ensures
            r == forall|i: int| 0 <= i < self.states().len() ==> #[trigger] self.states()[i]
                != SlotState::Donated,
    {
        let mut i: usize = 0;
        while i < self.states.len()
            invariant
                i <= self.states@.len(),
                forall|k: int| 0 <= k < i ==> #[trigger] self.states@[k] != SlotState::Donated,
            decreases self.states@.len() - i,
        {
            if self.states[i] == SlotState::Donated {
                return false;
            }
            i = i + 1;
        }
        true
    }

    /// Take the most recently freed buffer and donate it; `None` when no
    /// buffer is free.
    pub fn acquire_free(&mut self) -> (r: Option<usize>)
        requires
            old(self).wf(),
        ensures
            final(self).wf(),
            r is None <==> old(self).free_ids().len() == 0,
            r is None ==> *final(self) == *old(self),
            r matches Some(id) ==> {
                &&& id == old(self).free_ids().last()
                &&& old(self).states()[id as int] == SlotState::Free
                &&& Some(final(self).states()) == pool_step(old(self).states(), id as int, SlotEvent::Donate)
                &&& final(self).free_ids() == old(self).free_ids().drop_last()
            },
    {
        if self.free.len() == 0 {
            return None;
        }
        match self.free.pop() {
            None => None,
            Some(id) => {
                proof {
                    assert(old(self).free_ids()[old(self).free_ids().len() - 1] == id);
                }
                self.states.set(id, SlotState::Donated);
                proof {
                    self.lemma_set_keeps_free(old(self), id);
                }
                Some(id)
            },
        }
    }

    /// After `id` left the free stack and its state changed away from free,
    /// the stack still holds exactly the free ids.
    proof fn lemma_set_keeps_free(&self, before: &BufferPool, id: usize)
        requires
            before.wf(),
            id < before.states().len(),
            before.free_ids().contains(id),
            self.free_ids() == before.free_ids().remove(before.free_ids().index_of(id)),
            self.states() == before.states().update(id as int, self.states()[id as int]),
            self.states()[id as int] != SlotState::Free,
        ensures
            self.wf(),
    {
        let k = before.free_ids().index_of(id);
        assert forall|j: int| 0 <= j < self.free_ids().len() implies {
            &&& (#[trigger] self.free_ids()[j]) < self.states().len()
            &&& self.states()[self.free_ids()[j] as int] == SlotState::Free
        } by {
            let j0 = if j < k { j } else { j + 1 };
            assert(self.free_ids()[j] == before.free_ids()[j0]);
            assert(j0 != k);
        }
        assert forall|i: int|
            0 <= i < self.states().len() && #[trigger] self.states()[i] == SlotState::Free implies self.free_ids().contains(
            i as usize,
        ) by {
            assert(i != id as int);
            assert(before.states()[i] == SlotState::Free);
            assert(before.free_ids()[k] == id);
            assert(before.free_ids().contains(i as usize));
            let j0 = before.free_ids().index_of(i as usize);
            assert(before.free_ids()[j0] == i as usize);
            assert(i as usize != id);
            assert(j0 != k);
            let j = if j0 < k { j0 } else { j0 - 1 };
            assert(self.free_ids()[j] == i as usize);
        }
    }

    /// Donate the free buffer `id`; `ProtocolViolation` unless it is free.
    pub fn mark_donated(&mut self, id: usize) -> (r: Result<(), RingError>)
        requires
            old(self).wf(),
        ensures
            final(self).wf(),
            r is Ok <==> pool_step(old(self).states(), id as int, SlotEvent::Donate) is Some,
            r is Ok ==> Some(final(self).states()) == pool_step(old(self).states(), id as int, SlotEvent::Donate),
            r is Ok ==> final(self).free_ids() == old(self).free_ids().remove(
                old(self).free_ids().index_of(id),
            ),
            r is Err ==> r == Err::<(), RingError>(RingError::ProtocolViolation) && *final(self)
                == *old(self),
    {
        if id >= self.states.len() || self.states[id] != SlotState::Free {
            return Err(RingError::ProtocolViolation);
        }
        let mut k: usize = 0;
        while k < self.free.len() && self.free[k] != id
            invariant
                self.wf(),
                *self == *old(self),
                id < self.states@.len(),
                self.states@[id as int] == SlotState::Free,
                k <= self.free@.len(),
                forall|j: int| 0 <= j < k ==> #[trigger] self.free@[j] != id,
            decreases self.free@.len() - k,
        {
            k = k + 1;
        }
        proof {
            assert(self.free_ids().contains(id));
            let j = self.free_ids().index_of(id);
            assert(self.free@[j] == id);
            assert(self.free@[k as int] == id);
            assert(j == k);
        }
        self.free.remove(k);
        self.states.set(id, SlotState::Donated);
        proof {
            assert(old(self).free_ids().index_of(id) == k);
            self.lemma_set_keeps_free(old(self), id);
        }
        Ok(())
    }

    /// After a non-free `id` became free and was pushed on the free stack,
    /// the stack still holds exactly the free ids.
    proof fn lemma_push_keeps_free(&self, before: &BufferPool, id: usize)
        requires
            before.wf(),
            id < before.states().len(),
            before.states()[id as int] != SlotState::Free,
            self.free_ids() == before.free_ids().push(id),
            self.states() == before.states().update(id as int, SlotState::Free),
        ensures
            self.wf(),
    {
        assert(!before.free_ids().contains(id));
        assert forall|a: int, b: int|
            0 <= a < self.free_ids().len() && 0 <= b < self.free_ids().len() && a != b implies self.free_ids()[a]
            != self.free_ids()[b] by {
            if a < before.free_ids().len() && b < before.free_ids().len() {
            } else if a < before.free_ids().len() {
                assert(before.free_ids()[a] != id);
            } else {
                assert(before.free_ids()[b] != id);
            }
        }
        assert forall|k: int| 0 <= k < self.free_ids().len() implies {
            &&& (#[trigger] self.free_ids()[k]) < self.states().len()
            &&& self.states()[self.free_ids()[k] as int] == SlotState::Free
        } by {
            if k < before.free_ids().len() {
                assert(self.free_ids()[k] == before.free_ids()[k]);
            }
        }
        assert forall|i: int|
            0 <= i < self.states().len() && #[trigger] self.states()[i] == SlotState::Free implies self.free_ids().contains(
            i as usize,
        ) by {
            if i == id as int {
                assert(self.free_ids()[before.free_ids().len() as int] == id);
            } else {
                assert(before.states()[i] == SlotState::Free);
                let j = before.free_ids().index_of(i as usize);
                assert(self.free_ids()[j] == i as usize);
            }
        }
    }

    /// Record that `len` bytes arrived in the donated buffer `id`;
    /// `ProtocolViolation` unless it is donated.
    pub fn mark_completed(&mut self, id: usize, len: u32) -> (r: Result<(), RingError>)
        requires
            old(self).wf(),
        ensures
            final(self).wf(),
            r is Ok <==> pool_step(old(self).states(), id as int, SlotEvent::Complete(len)) is Some,
            r is Ok ==> Some(final(self).states()) == pool_step(
                old(self).states(),
                id as int,
                SlotEvent::Complete(len),
            ),
            r is Ok ==> final(self).free_ids() == old(self).free_ids(),
            r is Err ==> r == Err::<(), RingError>(RingError::ProtocolViolation) && *final(self)
                == *old(self),
    {
        if id >= self.states.len() || self.states[id] != SlotState::Donated {
            return Err(RingError::ProtocolViolation);
        }
        self.states.set(id, SlotState::Completed { len });
        proof {
            assert forall|i: int|
                0 <= i < self.states().len() && #[trigger] self.states()[i] == SlotState::Free implies self.free_ids().contains(
                i as usize,
            ) by {
                assert(old(self).states()[i] == SlotState::Free);
            }
        }
        Ok(())
    }

    /// The consumer is done with the completed buffer `id`: it becomes free
    /// again and the length it held is returned; `ProtocolViolation` unless
    /// it is completed.
    pub fn release(&mut self, id: usize) -> (r: Result<u32, RingError>)
        requires
            old(self).wf(),
        ensures
            final(self).wf(),
            r is Ok <==> pool_step(old(self).states(), id as int, SlotEvent::Release) is Some,
            r matches Ok(len) ==> {
                &&& old(self).states()[id as int] == SlotState::Completed { len }
                &&& Some(final(self).states()) == pool_step(old(self).states(), id as int, SlotEvent::Release)
                &&& final(self).free_ids() == old(self).free_ids().push(id)
            },
            r is Err ==> r == Err::<u32, RingError>(RingError::ProtocolViolation) && *final(self)
                == *old(self),
    {
        if id >= self.states.len() {
            return Err(RingError::ProtocolViolation);
        }
        match self.states[id] {
            SlotState::Completed { len } => {
                self.states.set(id, SlotState::Free);
                self.free.push(id);
                proof {
                    self.lemma_push_keeps_free(old(self), id);
                }
                Ok(len)
            },
            _ => Err(RingError::ProtocolViolation),
        }
    }

    /// The operation holding the donated buffer `id` failed or was
    /// cancelled: the buffer is free again; `ProtocolViolation` unless it is
    /// donated.
    pub fn recycle(&mut self, id: usize) -> (r: Result<(), RingError>)
        requires
            old(self).wf(),
        ensures
            final(self).wf(),
            r is Ok <==> pool_step(old(self).states(), id as int, SlotEvent::Recycle) is Some,
            r is Ok ==> Some(final(self).states()) == pool_step(old(self).states(), id as int, SlotEvent::Recycle),
            r is Ok ==> final(self).free_ids() == old(self).free_ids().push(id),
            r is Err ==> r == Err::<(), RingError>(RingError::ProtocolViolation) && *final(self)
                == *old(self),
    {
        if id >= self.states.len() || self.states[id] != SlotState::Donated {
            return Err(RingError::ProtocolViolation);
        }
        self.states.set(id, SlotState::Free);
        self.free.push(id);
        proof {
            self.lemma_push_keeps_free(old(self), id);
        }
        Ok(())
    }
}

/// The lifecycle of one buffer: from free, donating, completing and
/// releasing it are each accepted once and bring every buffer back to where
/// it was; a second release is refused, as is completing or releasing a
/// free buffer, so no buffer reaches two non-free states without a donation
/// in between.
pub proof fn lemma_round_trip(states: Seq<SlotState>, id: int, len: u32)
    requires
        0 <= id < states.len(),
        states[id] == SlotState::Free,
    ensures
        pool_step(states, id, SlotEvent::Donate) is Some,
        pool_step(pool_step(states, id, SlotEvent::Donate)->0, id, SlotEvent::Complete(len)) is Some,
        pool_step(
            pool_step(pool_step(states, id, SlotEvent::Donate)->0, id, SlotEvent::Complete(len))->0,
            id,
            SlotEvent::Release,
        ) == Some(states),
        pool_step(states, id, SlotEvent::Release) is None,
        pool_step(states, id, SlotEvent::Complete(len)) is None,
        pool_step(states, id, SlotEvent::Recycle) is None,
        pool_step(pool_step(states, id, SlotEvent::Donate)->0, id, SlotEvent::Release) is None,
        pool_step(pool_step(states, id, SlotEvent::Donate)->0, id, SlotEvent::Donate) is None,
{
    let s1 = states.update(id, SlotState::Donated);
    let s2 = s1.update(id, SlotState::Completed { len });
    assert(s2.update(id, SlotState::Free) =~= states);
}

} // verus!