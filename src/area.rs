//! Bookkeeping for a zero-copy receive area: which spans the executor has
//! filled and handed to the process, and their return through the refill ring.

use crate::error::RingError;
use crate::zcrx::{io_uring_zcrx_cqe, io_uring_zcrx_rqe, RefillQueue, IORING_ZCRX_AREA_SHIFT};
use vstd::prelude::*;

verus! {

/// A span of the area: offset within the area, and length.
pub type Span = (u64, u32);

/// Two spans share at least one byte.
pub open spec fn spans_overlap(a: Span, b: Span) -> bool {
    a.0 < b.0 + b.1 && b.0 < a.0 + a.1
}

/// Some outstanding span starts at `off`.
pub open spec fn holds_offset(spans: Seq<Span>, off: u64) -> bool {
    exists|i: int| 0 <= i < spans.len() && (#[trigger] spans[i]).0 == off
}

/// A completion of `len` bytes at `off` of area `id` may be accepted: right
/// area, non-empty, inside the area, and clear of every outstanding span.
pub open spec fn completion_admitted(
    spans: Seq<Span>,
    area_id: u64,
    area_len: u64,
    id: int,
    off: int,
    len: u32,
) -> bool {
    &&& id == area_id
    &&& len > 0
    &&& off + len <= area_len
    &&& forall|i: int| 0 <= i < spans.len() ==> !spans_overlap(#[trigger] spans[i], (off as u64, len))
}

/// The refill entry that hands span `s` of area `area_id` back.
pub open spec fn refill_entry(area_id: u64, s: Span) -> io_uring_zcrx_rqe {
    io_uring_zcrx_rqe { off: (area_id * 0x1_0000_0000_0000 + s.0) as u64, len: s.1, __pad: 0 }
}

/// The spans of one area that completions handed to the process and that
/// have not been refilled yet.
pub struct AreaLedger {
    area_id: u64,
    area_len: u64,
    spans: Vec<Span>,
}

impl AreaLedger {
    pub closed spec fn area_id_spec(&self) -> u64 {
        self.area_id
    }

    pub closed spec fn area_len_spec(&self) -> u64 {
        self.area_len
    }

    /// Spans handed to the process and not yet refilled, in completion order.
    pub closed spec fn spans(&self) -> Seq<Span> {
        self.spans@
    }

    /// Every span is non-empty and inside the area; no two overlap.
    pub open spec fn wf(&self) -> bool {
        &&& self.area_id_spec() < 0x1_0000
        &&& self.area_len_spec() <= 0x1_0000_0000_0000
        &&& forall|i: int|
            0 <= i < self.spans().len() ==> {
                &&& (#[trigger] self.spans()[i]).1 > 0
                &&& self.spans()[i].0 + self.spans()[i].1 <= self.area_len_spec()
            }
        &&& forall|i: int, j: int|
            0 <= i < self.spans().len() && 0 <= j < self.spans().len() && i != j ==> !spans_overlap(
                #[trigger] self.spans()[i],
                #[trigger] self.spans()[j],
            )
    }

    /// A ledger for area `area_id` of `area_len` bytes, with nothing
    /// outstanding; `InvalidConfiguration` for an empty area, an id beyond 16
    /// bits or a length beyond the 48 bits an offset holds.
    pub fn new(area_id: u64, area_len: u64) -> (r: Result<AreaLedger, RingError>)
        ensures
            r is Ok <==> (0 < area_len <= 0x1_0000_0000_0000 && area_id < 0x1_0000),
            r is Err ==> r == Err::<AreaLedger, RingError>(RingError::InvalidConfiguration),
            r matches Ok(a) ==> {
                &&& a.wf()
                &&& a.area_id_spec() == area_id
                &&& a.area_len_spec() == area_len
                &&& a.spans() == Seq::<Span>::empty()
            },
    {
        if area_len == 0 || area_len > 0x1_0000_0000_0000 || area_id >= 0x1_0000 {
            return Err(RingError::InvalidConfiguration);
        }
        Ok(AreaLedger { area_id, area_len, spans: Vec::new() })
    }

    /// Number of spans awaiting refill.
    pub fn outstanding(&self) -> (r: usize)
        ensures
            r == self.spans().len(),
    {
        self.spans.len()
    }

    /// Record a completion that reports `len` bytes at `cqe`'s offset, and
    /// return that offset within the area. The completion is refused with
    /// `ProtocolViolation` when it names another area, is empty, runs past
    /// the area, or overlaps memory that has not been refilled yet.
    pub fn on_completion(&mut self, cqe: &io_uring_zcrx_cqe, len: u32) -> (r: Result<u64, RingError>)
        requires
            old(self).wf(),
        ensures
            final(self).wf(),
            final(self).area_id_spec() == old(self).area_id_spec(),
            final(self).area_len_spec() == old(self).area_len_spec(),
            r is Ok <==> completion_admitted(
                old(self).spans(),
                old(self).area_id_spec(),
                old(self).area_len_spec(),
                cqe.off as int / 0x1_0000_0000_0000,
                cqe.off as int % 0x1_0000_0000_0000,
                len,
            ),
            r matches Ok(off) ==> {
                &&& off as int == cqe.off as int % 0x1_0000_0000_0000
                &&& final(self).spans() == old(self).spans().push((off, len))
            },
            r is Err ==> r == Err::<u64, RingError>(RingError::ProtocolViolation) && *final(self)
                == *old(self),
    {
        let id = cqe.area_id();
        let off = cqe.area_offset();
        if id != self.area_id || len == 0 || off > self.area_len || (len as u64) > self.area_len
            - off {
            return Err(RingError::ProtocolViolation);
        }
        let mut i: usize = 0;
        while i < self.spans.len()
            invariant
                self.wf(),
                *self == *old(self),
                i <= self.spans@.len(),
                off + len <= self.area_len,
                off as int == cqe.off as int % 0x1_0000_0000_0000,
                id as int == cqe.off as int / 0x1_0000_0000_0000,
                id == self.area_id,
                len > 0,
                forall|k: int| 0 <= k < i ==> !spans_overlap(#[trigger] self.spans@[k], (off, len)),
            decreases self.spans@.len() - i,
        {
            let s = self.spans[i];
            assert(self.spans()[i as int] == s);
            if off < s.0 + s.1 as u64 && s.0 < off + len as u64 {
                assert(spans_overlap(self.spans()[i as int], (off, len)));
                return Err(RingError::ProtocolViolation);
            }
            i = i + 1;
        }
        self.spans.push((off, len));
        proof {
            assert forall|a: int, b: int|
                0 <= a < self.spans().len() && 0 <= b < self.spans().len() && a != b implies !spans_overlap(
                #[trigger] self.spans()[a],
                #[trigger] self.spans()[b],
            ) by {
                if a < old(self).spans().len() && b < old(self).spans().len() {
                    assert(self.spans()[a] == old(self).spans()[a]);
                    assert(self.spans()[b] == old(self).spans()[b]);
                }
            }
        }
        Ok(off)
    }

    fn find(&self, offset: u64) -> (r: Option<usize>)
        ensures
            r is None <==> !holds_offset(self.spans(), offset),
            r matches Some(i) ==> i < self.spans().len() && self.spans()[i as int].0 == offset,
    {
        let mut i: usize = 0;
        while i < self.spans.len()
            invariant
                i <= self.spans@.len(),
                forall|k: int| 0 <= k < i ==> (#[trigger] self.spans@[k]).0 != offset,
            decreases self.spans@.len() - i,
        {
            if self.spans[i].0 == offset {
                return Some(i);
            }
            i = i + 1;
        }
        None
    }

    /// Hand the outstanding span at `offset` back to the executor: push
    /// exactly one refill entry for it and forget it. `ProtocolViolation`
    /// when no outstanding span starts there (a double refill, or memory
    /// never handed out); `RingFull` when the refill ring has no room, in
    /// which case the span stays outstanding. On error nothing changes.
    pub fn recycle(&mut self, queue: &mut RefillQueue, offset: u64) -> (r: Result<(), RingError>)
        requires
            old(self).wf(),
            old(queue).wf(),
        ensures
            final(self).wf(),
            final(queue).wf(),
            final(self).area_id_spec() == old(self).area_id_spec(),
            final(self).area_len_spec() == old(self).area_len_spec(),
            !holds_offset(old(self).spans(), offset) ==> r == Err::<(), RingError>(
                RingError::ProtocolViolation,
            ),
            holds_offset(old(self).spans(), offset) && old(queue).len_spec()
                == old(queue).capacity_spec() ==> r == Err::<(), RingError>(RingError::RingFull),
            r is Ok <==> holds_offset(old(self).spans(), offset) && old(queue).len_spec() < old(
                queue,
            ).capacity_spec(),
            r is Ok ==> exists|i: int|
                0 <= i < old(self).spans().len() && (#[trigger] old(self).spans()[i]).0 == offset
                    && final(self).spans() == old(self).spans().remove(i) && final(queue).entries()
                    == old(queue).entries().push(refill_entry(old(self).area_id_spec(), old(self).spans()[i])),
            r is Ok ==> !holds_offset(final(self).spans(), offset),
            r is Ok ==> final(queue).len_spec() == old(queue).len_spec() + 1,
            r is Err ==> *final(self) == *old(self) && *final(queue) == *old(queue),
    {
        proof {
            queue.lemma_wf();
        }
        let i = match self.find(offset) {
            Some(i) => i,
            None => return Err(RingError::ProtocolViolation),
        };
        let s = self.spans[i];
        let id = self.area_id;
        proof {
            let so = s.0;
            assert(self.spans()[i as int] == s);
            assert(id << 48u64 | so == id * 0x1_0000_0000_0000 + so) by (bit_vector)
                requires
                    id < 0x1_0000,
                    so < 0x1_0000_0000_0000,
            ;
        }
        let entry = io_uring_zcrx_rqe { off: (id << IORING_ZCRX_AREA_SHIFT) | s.0, len: s.1, __pad: 0 };
        match queue.push(&entry) {
            Ok(()) => {},
            Err(_) => return Err(RingError::RingFull),
        }
        self.spans.remove(i);
        proof {
            lemma_refilled_once(old(self).spans(), i as int, old(self).area_len_spec());
            assert forall|a: int, b: int|
                0 <= a < self.spans().len() && 0 <= b < self.spans().len() && a != b implies !spans_overlap(
                #[trigger] self.spans()[a],
                #[trigger] self.spans()[b],
            ) by {
                let a0 = if a < i { a } else { a + 1 };
                let b0 = if b < i { b } else { b + 1 };
                assert(self.spans()[a] == old(self).spans()[a0]);
                assert(self.spans()[b] == old(self).spans()[b0]);
            }
            assert forall|k: int| 0 <= k < self.spans().len() implies {
                &&& (#[trigger] self.spans()[k]).1 > 0
                &&& self.spans()[k].0 + self.spans()[k].1 <= self.area_len_spec()
            } by {
                let k0 = if k < i { k } else { k + 1 };
                assert(self.spans()[k] == old(self).spans()[k0]);
            }
        }
        Ok(())
    }
}

/// A span is refilled at most once: once the outstanding span at `s[i].0`
/// is removed, no outstanding span starts at that offset any more, so a
/// second refill of it is refused.
pub proof fn lemma_refilled_once(s: Seq<Span>, i: int, area_len: u64)
    requires
        0 <= i < s.len(),
        forall|k: int| 0 <= k < s.len() ==> (#[trigger] s[k]).1 > 0,
        forall|a: int, b: int|
            0 <= a < s.len() && 0 <= b < s.len() && a != b ==> !spans_overlap(
                #[trigger] s[a],
                #[trigger] s[b],
            ),
    ensures
        !holds_offset(s.remove(i), s[i].0),
{
    if holds_offset(s.remove(i), s[i].0) {
        let k = choose|k: int| 0 <= k < s.remove(i).len() && (#[trigger] s.remove(i)[k]).0 == s[i].0;
        let k0 = if k < i { k } else { k + 1 };
        assert(s.remove(i)[k] == s[k0]);
        assert(spans_overlap(s[k0], s[i]));
    }
}

} // verus!
