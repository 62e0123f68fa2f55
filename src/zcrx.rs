//! Zero-copy receive: the records exchanged with the executor, and the refill
//! ring through which consumed area memory is handed back to it.

use crate::cursor::{
    advance, cursor_distance, cursor_next, is_ring_capacity, lemma_advance_slot, lemma_cursor_from,
    lemma_cursor_slot, lemma_len_split, lemma_len_step, lemma_mask_is_slot, lemma_slots_distinct,
    ring_len,
};
use vstd::prelude::*;

verus! {

/// The bit from which the area id is encoded into offsets.
pub const IORING_ZCRX_AREA_SHIFT: u64 = 48;

/// The bits of an offset that hold the area id.
pub const IORING_ZCRX_AREA_MASK: u64 = 0xffff_0000_0000_0000;

/// A refill entry: a span of the area handed back to the executor.
#[allow(non_camel_case_types)]
#[derive(Clone, Copy, Debug, PartialEq, Eq, Structural)]
pub struct io_uring_zcrx_rqe {
    pub off: u64,
    pub len: u32,
    pub __pad: u32,
}

/// The zero-copy part of a completion: where in which area the data landed.
#[allow(non_camel_case_types)]
#[derive(Clone, Copy, Debug, PartialEq, Eq, Structural)]
pub struct io_uring_zcrx_cqe {
    pub off: u64,
    pub __pad: u32,
}

impl io_uring_zcrx_cqe {
    /// The id of the area the data landed in: the bits from the area shift up.
    pub fn area_id(&self) -> (r: u64)
        ensures
            r as int == self.off as int / 0x1_0000_0000_0000,
    {
        let r = self.off >> IORING_ZCRX_AREA_SHIFT;
        proof {
            let off = self.off;
            assert(off >> 48u64 == off / 0x1_0000_0000_0000) by (bit_vector);
        }
        r
    }

    /// The offset of the data within its area: the bits below the area shift.
    pub fn area_offset(&self) -> (r: u64)
        ensures
            r as int == self.off as int % 0x1_0000_0000_0000,
    {
        let r = self.off & !IORING_ZCRX_AREA_MASK;
        proof {
            let off = self.off;
            assert(off & !0xffff_0000_0000_0000u64 == off % 0x1_0000_0000_0000) by (bit_vector);
        }
        r
    }
}

/// A push found no room in the ring.
#[derive(Debug, PartialEq, Eq, Structural)]
pub struct PushError;

/// The entries from cursor `start` on, `n` of them, read off the slot array.
pub open spec fn window(slots: Seq<io_uring_zcrx_rqe>, start: u32, n: nat) -> Seq<io_uring_zcrx_rqe> {
    Seq::new(n, |i: int| slots[(start as int + i) % (slots.len() as int)])
}

/// `slots` after writing `es` at the slots of the cursors `start`,
/// `start + 1`, and so on.
pub open spec fn write_run(
    slots: Seq<io_uring_zcrx_rqe>,
    start: u32,
    es: Seq<io_uring_zcrx_rqe>,
) -> Seq<io_uring_zcrx_rqe>
    decreases es.len(),
{
    if es.len() == 0 {
        slots
    } else {
        write_run(slots, start, es.drop_last()).update(
            (start as int + es.len() - 1) % (slots.len() as int),
            es.last(),
        )
    }
}

/// The refill ring as it lies in memory shared with the executor: the slot
/// array, the executor's consumer cursor and the published producer cursor.
pub struct RefillQueueInner {
    head: u32,
    tail: u32,
    ring_entries: u32,
    ring_mask: u32,
    rqes: Vec<io_uring_zcrx_rqe>,
}

impl RefillQueueInner {
    /// The executor's cursor: entries before it have been consumed.
    pub closed spec fn head_spec(&self) -> u32 {
        self.head
    }

    /// The published cursor: entries before it are visible to the executor.
    pub closed spec fn tail_spec(&self) -> u32 {
        self.tail
    }

    pub closed spec fn capacity_spec(&self) -> nat {
        self.ring_entries as nat
    }

    pub closed spec fn slots(&self) -> Seq<io_uring_zcrx_rqe> {
        self.rqes@
    }

    /// Published entries that the executor has not consumed, oldest first.
    pub open spec fn pending(&self) -> Seq<io_uring_zcrx_rqe> {
        window(self.slots(), self.head_spec(), ring_len(self.head_spec(), self.tail_spec()))
    }

    pub closed spec fn wf(&self) -> bool {
        &&& is_ring_capacity(self.ring_entries as nat)
        &&& self.ring_mask == self.ring_entries - 1
        &&& self.rqes@.len() == self.ring_entries
        &&& ring_len(self.head, self.tail) <= self.ring_entries
    }

    pub proof fn lemma_wf(&self)
        requires
            self.wf(),
        ensures
            is_ring_capacity(self.capacity_spec()),
            self.slots().len() == self.capacity_spec(),
            self.pending().len() <= self.capacity_spec(),
            1 <= self.capacity_spec() <= 0x8000_0000,
    {
        crate::cursor::lemma_capacity_exponent(self.ring_entries as nat);
    }

    /// An empty ring of `ring_entries` zeroed slots whose cursors both stand
    /// at `cursor`; `None` unless `ring_entries` is a power of two.
    pub fn new(ring_entries: u32, cursor: u32) -> (r: Option<RefillQueueInner>)
        ensures
            r is Some <==> is_ring_capacity(ring_entries as nat),
            r matches Some(q) ==> {
                &&& q.wf()
                &&& q.capacity_spec() == ring_entries
                &&& q.head_spec() == cursor
                &&& q.tail_spec() == cursor
                &&& q.pending() == Seq::<io_uring_zcrx_rqe>::empty()
            },
    {
        if !crate::cursor::is_power_of_two(ring_entries) {
            return None;
        }
        proof {
            crate::cursor::lemma_capacity_exponent(ring_entries as nat);
        }
        let mut rqes: Vec<io_uring_zcrx_rqe> = Vec::new();
        let mut i: u32 = 0;
        while i < ring_entries
            invariant
                i <= ring_entries,
                rqes@.len() == i,
            decreases ring_entries - i,
        {
            rqes.push(io_uring_zcrx_rqe { off: 0, len: 0, __pad: 0 });
            i = i + 1;
        }
        let q = RefillQueueInner {
            head: cursor,
            tail: cursor,
            ring_entries,
            ring_mask: ring_entries - 1,
            rqes,
        };
        proof {
            lemma_len_step(cursor, cursor);
            assert(q.pending() =~= Seq::<io_uring_zcrx_rqe>::empty());
        }
        Some(q)
    }

    /// The executor's cursor.
    pub fn head(&self) -> (r: u32)
        ensures
            r == self.head_spec(),
    {
        self.head
    }

    /// The published producer cursor.
    pub fn tail(&self) -> (r: u32)
        ensures
            r == self.tail_spec(),
    {
        self.tail
    }

    /// The number of slots.
    pub fn capacity(&self) -> (r: u32)
        ensures
            r == self.capacity_spec(),
    {
        self.ring_entries
    }

    /// The entry in the slot of cursor `c`, which is `c & (capacity - 1)`.
    pub fn slot(&self, c: u32) -> (r: io_uring_zcrx_rqe)
        requires
            self.wf(),
        ensures
            r == self.slots()[(c as int) % (self.capacity_spec() as int)],
    {
        proof {
            lemma_mask_is_slot(c, self.ring_entries as nat);
            crate::cursor::lemma_capacity_exponent(self.ring_entries as nat);
        }
        self.rqes[(c & self.ring_mask) as usize]
    }

    /// The executor's side of the ring: consume the oldest published entry.
    pub fn pop(&mut self) -> (r: Option<io_uring_zcrx_rqe>)
        requires
            old(self).wf(),
        ensures
            final(self).wf(),
            final(self).capacity_spec() == old(self).capacity_spec(),
            final(self).tail_spec() == old(self).tail_spec(),
            final(self).slots() == old(self).slots(),
            old(self).pending().len() == 0 ==> r is None && *final(self) == *old(self),
            old(self).pending().len() > 0 ==> {
                &&& r == Some(old(self).pending()[0])
                &&& final(self).head_spec() == advance(old(self).head_spec(), 1)
                &&& final(self).pending() == old(self).pending().drop_first()
            },
    {
        proof {
            lemma_len_step(self.head, self.tail);
        }
        if self.head == self.tail {
            return None;
        }
        proof {
            lemma_mask_is_slot(self.head, self.ring_entries as nat);
        }
        let e = self.rqes[(self.head & self.ring_mask) as usize];
        self.head = cursor_next(self.head);
        proof {
            let n = ring_len(old(self).head, self.tail);
            assert(old(self).pending()[0] == e);
            assert forall|i: int| 0 <= i < n - 1 implies #[trigger] self.pending()[i]
                == old(self).pending().drop_first()[i] by {
                lemma_advance_slot(old(self).head, 1, i, self.ring_entries as nat);
            }
            assert(self.pending() =~= old(self).pending().drop_first());
        }
        Some(e)
    }

    /// Open a producer handle: snapshot both cursors.
    pub fn borrow(self) -> (r: RefillQueue)
        requires
            self.wf(),
        ensures
            r.wf(),
            r.queue_spec() == self,
            r.head_spec() == self.head_spec(),
            r.tail_spec() == self.tail_spec(),
    {
        let head = self.head;
        let tail = self.tail;
        let r = RefillQueue { head, tail, queue: self };
        proof {
            lemma_len_step(head, head);
            lemma_len_step(tail, tail);
        }
        r
    }
}

/// A producer handle over the refill ring. It appends entries behind a local
/// cursor; `sync` and `release` publish them to the executor.
pub struct RefillQueue {
    head: u32,
    tail: u32,
    queue: RefillQueueInner,
}

impl RefillQueue {
    /// The executor cursor as last observed by this handle.
    pub closed spec fn head_spec(&self) -> u32 {
        self.head
    }

    /// The local producer cursor.
    pub closed spec fn tail_spec(&self) -> u32 {
        self.tail
    }

    pub closed spec fn queue_spec(&self) -> RefillQueueInner {
        self.queue
    }

    pub open spec fn capacity_spec(&self) -> nat {
        self.queue_spec().capacity_spec()
    }

    /// What `len` returns: entries between the observed head and the local tail.
    pub open spec fn len_spec(&self) -> nat {
        ring_len(self.head_spec(), self.tail_spec())
    }

    /// Entries the executor has not consumed, published or not, oldest first.
    pub open spec fn entries(&self) -> Seq<io_uring_zcrx_rqe> {
        window(
            self.queue_spec().slots(),
            self.queue_spec().head_spec(),
            ring_len(self.queue_spec().head_spec(), self.tail_spec()),
        )
    }

    /// Observed head, executor head, published tail and local tail lie in
    /// that order along the ring, within one capacity.
    pub closed spec fn wf(&self) -> bool {
        &&& self.queue.wf()
        &&& ring_len(self.head, self.queue.head) + ring_len(self.queue.head, self.queue.tail)
            + ring_len(self.queue.tail, self.tail) <= self.queue.ring_entries
    }

    /// Facts every well-formed handle has: the order of its cursors, and a
    /// length within capacity.
    pub proof fn lemma_wf(&self)
        requires
            self.wf(),
        ensures
            self.len_spec() <= self.capacity_spec(),
            self.entries().len() <= self.len_spec(),
            self.queue_spec().wf(),
            self.queue_spec().pending().len() <= self.entries().len(),
            self.queue_spec().pending() == self.entries().subrange(
                0,
                self.queue_spec().pending().len() as int,
            ),
            1 <= self.capacity_spec() <= 0x8000_0000,
    {
        self.queue.lemma_wf();
        let (h, qh, qt, t) = (self.head, self.queue.head, self.queue.tail, self.tail);
        lemma_len_split(qh, qt, t);
        lemma_len_split(h, qh, t);
        assert(self.queue.pending() =~= self.entries().subrange(
            0,
            self.queue.pending().len() as int,
        ));
    }

    /// Get the total number of entries in the refill queue ring buffer.
    pub fn capacity(&self) -> (r: usize)
        requires
            self.wf(),
        ensures
            r == self.capacity_spec(),
    {
        self.queue.ring_entries as usize
    }

    /// Get the number of refill queue entries in the ring buffer.
    pub fn len(&self) -> (r: usize)
        requires
            self.wf(),
        ensures
            r == self.len_spec(),
    {
        cursor_distance(self.head, self.tail) as usize
    }

    /// Returns `true` if the refill queue ring buffer is empty.
    pub fn is_empty(&self) -> (r: bool)
        requires
            self.wf(),
        ensures
            r == (self.len_spec() == 0),
    {
        self.len() == 0
    }

    /// Returns `true` if the refill queue ring buffer has reached capacity,
    /// and no more entries can be added before the executor consumes some.
    pub fn is_full(&self) -> (r: bool)
        requires
            self.wf(),
        ensures
            r == (self.len_spec() == self.capacity_spec()),
    {
        self.len() == self.capacity()
    }
    /// Attempts to push an entry into the queue.
    /// If the queue is full, an error is returned and nothing is written.
    pub fn push(&mut self, entry: &io_uring_zcrx_rqe) -> (r: Result<(), PushError>)
        requires
            old(self).wf(),
        ensures
            final(self).wf(),
            r is Ok <==> old(self).len_spec() < old(self).capacity_spec(),
            r is Ok ==> {
                &&& final(self).entries() == old(self).entries().push(*entry)
                &&& final(self).queue_spec().slots() == old(self).queue_spec().slots().update(
                    (old(self).tail_spec() as int) % (old(self).capacity_spec() as int),
                    *entry,
                )
                &&& final(self).len_spec() == old(self).len_spec() + 1
                &&& final(self).tail_spec() == advance(old(self).tail_spec(), 1)
                &&& final(self).head_spec() == old(self).head_spec()
                &&& final(self).capacity_spec() == old(self).capacity_spec()
                &&& final(self).queue_spec().head_spec() == old(self).queue_spec().head_spec()
                &&& final(self).queue_spec().tail_spec() == old(self).queue_spec().tail_spec()
            },
            r is Err ==> *final(self) == *old(self),
    {
        if !self.is_full() {
            proof {
                self.lemma_wf();
            }
            self.push_unchecked(entry);
            Ok(())
        } else {
            Err(PushError)
        }
    }

    /// Attempts to push several entries into the queue.
    /// If the queue does not have space for all of them, an error is returned
    /// and none is written.
    pub fn push_multiple(&mut self, entries: &[io_uring_zcrx_rqe]) -> (r: Result<(), PushError>)
        requires
            old(self).wf(),
        ensures
            final(self).wf(),
            r is Ok <==> entries@.len() <= old(self).capacity_spec() - old(self).len_spec(),
            r is Ok ==> {
                &&& final(self).entries() == old(self).entries() + entries@
                &&& final(self).queue_spec().slots() == write_run(
                    old(self).queue_spec().slots(),
                    old(self).tail_spec(),
                    entries@,
                )
                &&& final(self).tail_spec() == advance(old(self).tail_spec(), entries@.len() as int)
                &&& final(self).len_spec() == old(self).len_spec() + entries@.len()
                &&& final(self).head_spec() == old(self).head_spec()
                &&& final(self).capacity_spec() == old(self).capacity_spec()
                &&& final(self).queue_spec().head_spec() == old(self).queue_spec().head_spec()
                &&& final(self).queue_spec().tail_spec() == old(self).queue_spec().tail_spec()
            },
            r is Err ==> *final(self) == *old(self),
    {
        proof {
            self.lemma_wf();
        }
        if self.capacity() - self.len() < entries.len() {
            return Err(PushError);
        }
        proof {
            crate::cursor::lemma_advance_add(self.tail, 0, 0);
        }
        let mut i: usize = 0;
        while i < entries.len()
            invariant
                self.wf(),
                0 <= i <= entries@.len(),
                entries@.len() <= old(self).capacity_spec() - old(self).len_spec(),
                self.entries() == old(self).entries() + entries@.subrange(0, i as int),
                self.queue_spec().slots() == write_run(
                    old(self).queue_spec().slots(),
                    old(self).tail_spec(),
                    entries@.subrange(0, i as int),
                ),
                self.tail_spec() == advance(old(self).tail_spec(), i as int),
                old(self).queue_spec().slots().len() == old(self).capacity_spec(),
                self.len_spec() == old(self).len_spec() + i,
                self.head_spec() == old(self).head_spec(),
                self.capacity_spec() == old(self).capacity_spec(),
                self.queue_spec().head_spec() == old(self).queue_spec().head_spec(),
                self.queue_spec().tail_spec() == old(self).queue_spec().tail_spec(),
            decreases entries@.len() - i,
        {
            proof {
                self.lemma_wf();
                crate::cursor::lemma_cursor_slot(
                    old(self).tail_spec(),
                    i as nat,
                    self.capacity_spec(),
                );
                crate::cursor::lemma_advance_add(old(self).tail_spec(), i as nat, 1);
            }
            self.push_unchecked(&entries[i]);
            i = i + 1;
            proof {
                assert(entries@.subrange(0, i as int) =~= entries@.subrange(0, i - 1).push(
                    entries@[i - 1],
                ));
                assert(entries@.subrange(0, i as int).drop_last() =~= entries@.subrange(
                    0,
                    i - 1,
                ));
            }
        }
        proof {
            assert(entries@.subrange(0, i as int) =~= entries@);
            crate::cursor::lemma_advance_add(old(self).tail_spec(), 0, 0);
        }
        Ok(())
    }

    fn push_unchecked(&mut self, entry: &io_uring_zcrx_rqe)
        requires
            old(self).wf(),
            old(self).len_spec() < old(self).capacity_spec(),
        ensures
            final(self).wf(),
            final(self).entries() == old(self).entries().push(*entry),
            final(self).queue_spec().slots() == old(self).queue_spec().slots().update(
                (old(self).tail_spec() as int) % (old(self).capacity_spec() as int),
                *entry,
            ),
            final(self).len_spec() == old(self).len_spec() + 1,
            final(self).tail_spec() == advance(old(self).tail_spec(), 1),
            final(self).head_spec() == old(self).head_spec(),
            final(self).capacity_spec() == old(self).capacity_spec(),
            final(self).queue_spec().head_spec() == old(self).queue_spec().head_spec(),
            final(self).queue_spec().tail_spec() == old(self).queue_spec().tail_spec(),
    {
        proof {
            self.lemma_wf();
            lemma_mask_is_slot(self.tail, self.queue.ring_entries as nat);
        }
        let slot = (self.tail & self.queue.ring_mask) as usize;
        self.queue.rqes.set(slot, *entry);
        self.tail = cursor_next(self.tail);
        proof {
            let cap = self.queue.ring_entries as nat;
            let (h, qh, qt, t0) = (self.head, self.queue.head, self.queue.tail, old(self).tail);
            let n = ring_len(qh, t0);
            lemma_cursor_from(qh, t0);
            lemma_cursor_slot(qh, n, cap);
            lemma_len_split(qh, qt, t0);
            lemma_len_split(h, qh, t0);
            lemma_len_step(qt, t0);
            lemma_len_step(qh, t0);
            lemma_len_step(h, t0);
            assert forall|i: int| 0 <= i < n implies #[trigger] self.entries()[i]
                == old(self).entries()[i] by {
                lemma_slots_distinct(qh as int, i, n as int, cap);
            }
            assert(self.entries() =~= old(self).entries().push(*entry));
        }
    }

    /// Publish the local tail to the executor, then observe the executor's
    /// cursor again.
    pub fn sync(&mut self)
        requires
            old(self).wf(),
        ensures
            final(self).wf(),
            final(self).entries() == old(self).entries(),
            final(self).queue_spec().slots() == old(self).queue_spec().slots(),
            final(self).tail_spec() == old(self).tail_spec(),
            final(self).capacity_spec() == old(self).capacity_spec(),
            final(self).queue_spec().tail_spec() == old(self).tail_spec(),
            final(self).queue_spec().head_spec() == old(self).queue_spec().head_spec(),
            final(self).head_spec() == old(self).queue_spec().head_spec(),
            final(self).queue_spec().pending() == old(self).entries(),
            final(self).len_spec() == old(self).entries().len(),
    {
        proof {
            self.lemma_wf();
            lemma_len_split(self.queue.head, self.queue.tail, self.tail);
        }
        self.queue.tail = self.tail;
        self.head = self.queue.head;
        proof {
            lemma_len_step(self.head, self.head);
            lemma_len_step(self.tail, self.tail);
        }
    }

    /// Close the handle: publish the local tail and hand the ring back.
    pub fn release(self) -> (r: RefillQueueInner)
        requires
            self.wf(),
        ensures
            r.wf(),
            r.pending() == self.entries(),
            r.slots() == self.queue_spec().slots(),
            r.tail_spec() == self.tail_spec(),
            r.head_spec() == self.queue_spec().head_spec(),
            r.capacity_spec() == self.capacity_spec(),
    {
        let mut s = self;
        s.sync();
        s.queue
    }

    /// The executor consumes the oldest published entry while this handle is
    /// open; the handle's own cursors do not move.
    pub fn consume(&mut self) -> (r: Option<io_uring_zcrx_rqe>)
        requires
            old(self).wf(),
        ensures
            final(self).wf(),
            final(self).head_spec() == old(self).head_spec(),
            final(self).tail_spec() == old(self).tail_spec(),
            final(self).capacity_spec() == old(self).capacity_spec(),
            final(self).queue_spec().tail_spec() == old(self).queue_spec().tail_spec(),
            final(self).queue_spec().slots() == old(self).queue_spec().slots(),
            final(self).len_spec() == old(self).len_spec(),
            old(self).queue_spec().pending().len() == 0 ==> r is None && *final(self) == *old(
                self,
            ),
            old(self).queue_spec().pending().len() > 0 ==> {
                &&& r == Some(old(self).entries()[0])
                &&& final(self).entries() == old(self).entries().drop_first()
                &&& final(self).queue_spec().pending() == old(
                    self,
                ).queue_spec().pending().drop_first()
            },
    {
        proof {
            self.lemma_wf();
            lemma_len_split(self.queue.head, self.queue.tail, self.tail);
            lemma_len_step(self.head, self.queue.head);
            lemma_len_step(self.queue.head, self.queue.tail);
            lemma_len_step(self.queue.head, self.tail);
        }
        let r = self.queue.pop();
        proof {
            if r is Some {
                let cap = self.queue.ring_entries as nat;
                let n = ring_len(old(self).queue.head, self.tail);
                assert(old(self).queue.pending()[0] == old(self).entries()[0]);
                assert forall|i: int| 0 <= i < n - 1 implies #[trigger] self.entries()[i]
                    == old(self).entries().drop_first()[i] by {
                    lemma_advance_slot(old(self).queue.head, 1, i, cap);
                }
                assert(self.entries() =~= old(self).entries().drop_first());
            }
        }
        r
    }
}

/// A refill handle's length never exceeds its capacity and never wraps
/// below zero: it counts exactly the entries not yet consumed by the
/// executor plus those it consumed since the handle last observed its
/// cursor. Every operation on the handle (push, push_multiple, sync,
/// consume, release and borrow) keeps it well formed, so this holds after
/// any sequence of them.
pub proof fn lemma_len_within_capacity(q: RefillQueue)
    requires
        q.wf(),
    ensures
        q.len_spec() <= q.capacity_spec(),
        q.len_spec() == q.entries().len() + ring_len(q.head_spec(), q.queue_spec().head_spec()),
{
    q.lemma_wf();
    let (h, qh, qt, t) = (q.head, q.queue.head, q.queue.tail, q.tail);
    lemma_len_split(qh, qt, t);
    lemma_len_split(h, qh, t);
}

} // verus!
