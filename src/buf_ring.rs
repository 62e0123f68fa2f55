//! A buffer ring: a mapping of fixed-size entries, each naming a buffer
//! (address, length, id) that the executor may fill, and the producer side
//! that appends entries behind a wrapping 16-bit tail.

use crate::error::RingError;
use memmap2::MmapMut;
use vstd::prelude::*;

verus! {

#[verifier::external_type_specification]
#[verifier::external_body]
pub struct ExMmapMut(memmap2::MmapMut);

#[verifier::external_type_specification]
#[verifier::external_body]
pub struct ExIoError(std::io::Error);

/// The size in bytes of one buffer ring entry: address, length, id and a
/// reserved field.
pub const BUF_RING_ENTRY_SIZE: usize = 16;

/// Relies on `memmap2::MmapMut::map_anon`: an anonymous read-write mapping
/// of `len` bytes, or the error of the system call that failed.
#[verifier::external_body]
fn map_anon(len: usize) -> (r: Result<MmapMut, std::io::Error>) {
    MmapMut::map_anon(len)
}

/// The memory mapping for a buffer ring.
pub struct BufRingMmap {
    entry_count: u16,
    size: usize,
    mmap: MmapMut,
}

impl BufRingMmap {
    /// The number of entries in the buffer ring.
    pub closed spec fn entry_count_spec(&self) -> u16 {
        self.entry_count
    }

    /// The number of bytes mapped: one entry's size per entry.
    pub closed spec fn size_spec(&self) -> usize {
        self.size
    }

    /// Map a zeroed ring of `entry_count` entries. `InvalidConfiguration`
    /// for zero entries, before anything is mapped; `AllocationFailed` when
    /// the mapping fails.
    pub fn new(entry_count: u16) -> (r: Result<BufRingMmap, RingError>)
        ensures
            entry_count == 0 ==> r == Err::<BufRingMmap, RingError>(RingError::InvalidConfiguration),
            entry_count != 0 ==> r is Ok || r == Err::<BufRingMmap, RingError>(
                RingError::AllocationFailed,
            ),
            r matches Ok(m) ==> m.entry_count_spec() == entry_count && m.size_spec()
                == BUF_RING_ENTRY_SIZE * entry_count,
    {
        if entry_count == 0 {
            return Err(RingError::InvalidConfiguration);
        }
        let size = BUF_RING_ENTRY_SIZE * entry_count as usize;
        match map_anon(size) {
            Ok(mmap) => Ok(BufRingMmap { entry_count, size, mmap }),
            Err(_) => Err(RingError::AllocationFailed),
        }
    }

    pub fn entry_count(&self) -> (r: u16)
        ensures
            r == self.entry_count_spec(),
    {
        self.entry_count
    }

    /// The number of bytes mapped.
    pub fn size(&self) -> (r: usize)
        ensures
            r == self.size_spec(),
    {
        self.size
    }

    /// The mask that turns a cursor into a slot index.
    pub fn mask(&self) -> (r: u16)
        requires
            self.entry_count_spec() > 0,
        ensures
            r == self.entry_count_spec() - 1,
    {
        self.entry_count - 1
    }

    /// The mapped memory.
    pub fn mapping(&self) -> (r: &MmapMut) {
        &self.mmap
    }

    /// The mapped memory, for writing.
    pub fn mapping_mut(&mut self) -> (r: &mut MmapMut)
        ensures
            final(self).entry_count_spec() == old(self).entry_count_spec(),
            final(self).size_spec() == old(self).size_spec(),
    {
        &mut self.mmap
    }
}

/// One buffer ring entry: where a buffer lies, how long it is, its id.
#[derive(Clone, Copy, Debug, PartialEq, Eq, Structural)]
pub struct BufEntry {
    pub addr: u64,
    pub len: u32,
    pub bid: u16,
}

/// The producer side of a registered buffer ring: entries are written at
/// the slot of the local tail, and `sync` advances the published tail.
/// The entries are kept here; the caller makes them visible to the executor
/// by copying the slots up to `published()` into the mapping
/// (`mapping_mut()`) and storing `published()` in the mapping's tail.
pub struct BufRing {
    bgid: u16,
    mmap: BufRingMmap,
    tail: u16,
    published: u16,
    entries: Vec<BufEntry>,
}

impl BufRing {
    pub closed spec fn bgid_spec(&self) -> u16 {
        self.bgid
    }

    pub closed spec fn entry_count_spec(&self) -> u16 {
        self.mmap.entry_count
    }

    /// The local tail: one past the last entry written.
    pub closed spec fn tail_spec(&self) -> u16 {
        self.tail
    }

    /// The tail as last published to the executor.
    pub closed spec fn published_spec(&self) -> u16 {
        self.published
    }

    /// The entry in each slot.
    pub closed spec fn slots(&self) -> Seq<BufEntry> {
        self.entries@
    }

    pub open spec fn wf(&self) -> bool {
        &&& self.entry_count_spec() > 0
        &&& self.slots().len() == self.entry_count_spec()
    }

    /// The producer side of buffer ring `bgid` over `mmap`, once the
    /// executor has accepted the ring; the tail starts at `tail`, the value
    /// the mapping holds. `InvalidConfiguration` for a ring without entries.
    pub fn register(bgid: u16, mmap: BufRingMmap, tail: u16) -> (r: Result<BufRing, RingError>)
        ensures
            r is Ok <==> mmap.entry_count_spec() > 0,
            r is Err ==> r == Err::<BufRing, RingError>(RingError::InvalidConfiguration),
            r matches Ok(b) ==> {
                &&& b.wf()
                &&& b.bgid_spec() == bgid
                &&& b.entry_count_spec() == mmap.entry_count_spec()
                &&& b.tail_spec() == tail
                &&& b.published_spec() == tail
                &&& b.slots() == Seq::new(
                    mmap.entry_count_spec() as nat,
                    |i: int| BufEntry { addr: 0, len: 0, bid: 0 },
                )
            },
    {
        let n = mmap.entry_count();
        if n == 0 {
            return Err(RingError::InvalidConfiguration);
        }
        let mut entries: Vec<BufEntry> = Vec::new();
        let mut i: u16 = 0;
        while i < n
            invariant
                i <= n,
                entries@ == Seq::new(i as nat, |k: int| BufEntry { addr: 0, len: 0, bid: 0 }),
            decreases n - i,
        {
            entries.push(BufEntry { addr: 0, len: 0, bid: 0 });
            i = i + 1;
            proof {
                assert(entries@ =~= Seq::new(i as nat, |k: int| BufEntry { addr: 0, len: 0, bid: 0 }));
            }
        }
        Ok(BufRing { bgid, mmap, tail, published: tail, entries })
    }

    pub fn entry_count(&self) -> (r: u16)
        ensures
            r == self.entry_count_spec(),
    {
        self.mmap.entry_count()
    }

    /// The buffer group id that receive requests name to draw from this ring.
    pub fn buffer_group(&self) -> (r: u16)
        ensures
            r == self.bgid_spec(),
    {
        self.bgid
    }

    pub fn tail(&self) -> (r: u16)
        ensures
            r == self.tail_spec(),
    {
        self.tail
    }

    pub fn published(&self) -> (r: u16)
        ensures
            r == self.published_spec(),
    {
        self.published
    }

    /// The ring's mapping, for copying published entries into it.
    pub fn mapping_mut(&mut self) -> (r: &mut MmapMut)
        ensures
            final(self).entry_count_spec() == old(self).entry_count_spec(),
            final(self).tail_spec() == old(self).tail_spec(),
            final(self).published_spec() == old(self).published_spec(),
            final(self).slots() == old(self).slots(),
            final(self).bgid_spec() == old(self).bgid_spec(),
    {
        self.mmap.mapping_mut()
    }

    /// The entry in slot `index`.
    pub fn entry(&self, index: u16) -> (r: BufEntry)
        requires
            self.wf(),
            index < self.entry_count_spec(),
        ensures
            r == self.slots()[index as int],
    {
        self.entries[index as usize]
    }

    /// Advance the published tail to the local tail: the entries written
    /// before it are the ones the caller is to copy into the mapping.
    pub fn sync(&mut self)
        ensures
            final(self).published_spec() == old(self).tail_spec(),
            final(self).tail_spec() == old(self).tail_spec(),
            final(self).slots() == old(self).slots(),
            final(self).bgid_spec() == old(self).bgid_spec(),
            final(self).entry_count_spec() == old(self).entry_count_spec(),
    {
        self.published = self.tail;
    }

    /// Offer buffer `id` of `len` bytes at `addr`: write its entry at the
    /// tail's slot, `tail & (entry_count - 1)`, and step the tail, wrapping.
    pub fn add_buffer(&mut self, addr: u64, len: u32, id: u16)
        requires
            old(self).wf(),
        ensures
            final(self).wf(),
            final(self).slots() == old(self).slots().update(
                (old(self).tail_spec() & (old(self).entry_count_spec() - 1) as u16) as int,
                BufEntry { addr, len, bid: id },
            ),
            final(self).tail_spec() == (if old(self).tail_spec() == u16::MAX {
                0
            } else {
                old(self).tail_spec() + 1
            }),
            final(self).published_spec() == old(self).published_spec(),
            final(self).bgid_spec() == old(self).bgid_spec(),
            final(self).entry_count_spec() == old(self).entry_count_spec(),
    {
        let mask = self.mmap.mask();
        let index = self.tail & mask;
        proof {
            let t = self.tail;
            assert(t & mask <= mask) by (bit_vector);
        }
        self.entries.set(index as usize, BufEntry { addr, len, bid: id });
        self.tail = self.tail.wrapping_add(1);
    }
}

} // verus!
