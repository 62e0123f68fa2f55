//! Sizes of the shared mappings, and the ring geometry the executor grants
//! at registration, checked once against the mapping it lies in.

use crate::cursor::{is_power_of_two, is_ring_capacity};
use crate::error::RingError;
use vstd::arithmetic::div_mod::lemma_fundamental_div_mod;
use vstd::prelude::*;

verus! {

/// The size in bytes of one refill entry.
pub const REFILL_ENTRY_SIZE: usize = 16;

/// `x` rounded up to a multiple of `page`.
pub open spec fn round_up(x: nat, page: nat) -> nat
    recommends
        page > 0,
{
    ((x + page - 1) as nat / page) * page
}

/// The room the refill region needs before rounding: a page for the
/// cursors, then the entries.
pub open spec fn refill_region_need(page: nat, entries: nat) -> nat {
    (page + REFILL_ENTRY_SIZE * entries) as nat
}

/// The sizes to map for a zero-copy interface queue.
#[derive(Clone, Copy, Debug, PartialEq, Eq, Structural)]
pub struct ZcrxLayout {
    /// The receive area, rounded up to whole pages.
    pub area_len: usize,
    /// The refill region, rounded up to whole pages.
    pub region_len: usize,
}

fn round_up_exec(x: usize, page: usize) -> (r: usize)
    requires
        page > 0,
        x + page - 1 <= usize::MAX,
    ensures
        r == round_up(x as nat, page as nat),
{
    let a = x + (page - 1);
    let q = a / page;
    proof {
        lemma_fundamental_div_mod(a as int, page as int);
        assert(q * page <= a) by (nonlinear_arith)
            requires
                a == page * q + a % page,
                a % page >= 0,
        ;
    }
    q * page
}

/// The mapping sizes for a receive area of `area_size` bytes and a refill
/// ring of `refill_entries` entries, with pages of `page_size` bytes.
/// `InvalidConfiguration` for a zero size or a size that overflows.
pub fn zcrx_layout(page_size: usize, refill_entries: u32, area_size: usize) -> (r: Result<ZcrxLayout, RingError>)
    ensures
        r is Ok <==> {
            &&& page_size > 0
            &&& refill_entries > 0
            &&& area_size > 0
            &&& area_size + page_size - 1 <= usize::MAX
            &&& refill_region_need(page_size as nat, refill_entries as nat) + page_size - 1
                <= usize::MAX
        },
        r is Err ==> r == Err::<ZcrxLayout, RingError>(RingError::InvalidConfiguration),
        r matches Ok(l) ==> {
            &&& l.area_len == round_up(area_size as nat, page_size as nat)
            &&& l.region_len == round_up(
                refill_region_need(page_size as nat, refill_entries as nat),
                page_size as nat,
            )
        },
{
    if page_size == 0 || refill_entries == 0 || area_size == 0 {
        return Err(RingError::InvalidConfiguration);
    }
    if area_size > usize::MAX - (page_size - 1) {
        return Err(RingError::InvalidConfiguration);
    }
    let entries = refill_entries as usize;
    if entries > (usize::MAX - page_size) / REFILL_ENTRY_SIZE {
        proof {
            assert(entries * REFILL_ENTRY_SIZE > usize::MAX - page_size) by (nonlinear_arith)
                requires
                    entries > (usize::MAX - page_size) / 16,
            ;
        }
        return Err(RingError::InvalidConfiguration);
    }
    proof {
        assert(entries * REFILL_ENTRY_SIZE <= usize::MAX - page_size) by (nonlinear_arith)
            requires
                entries <= (usize::MAX - page_size) / 16,
        ;
    }
    let need = page_size + REFILL_ENTRY_SIZE * entries;
    if need > usize::MAX - (page_size - 1) {
        return Err(RingError::InvalidConfiguration);
    }
    let area_len = round_up_exec(area_size, page_size);
    let region_len = round_up_exec(need, page_size);
    Ok(ZcrxLayout { area_len, region_len })
}

/// Byte ranges `[a, a + la)` and `[b, b + lb)` share no byte.
pub open spec fn disjoint(a: nat, la: nat, b: nat, lb: nat) -> bool {
    a + la <= b || b + lb <= a
}

/// The granted geometry is usable within a mapping of `region_len` bytes:
/// a power-of-two capacity; 4-byte cursors and 16-byte entries, aligned,
/// inside the mapping, and apart from each other.
pub open spec fn geometry_fits(
    capacity: u32,
    head: u32,
    tail: u32,
    entries: u32,
    region_len: usize,
) -> bool {
    &&& is_ring_capacity(capacity as nat)
    &&& head % 4 == 0
    &&& tail % 4 == 0
    &&& entries % 8 == 0
    &&& head + 4 <= region_len
    &&& tail + 4 <= region_len
    &&& entries + REFILL_ENTRY_SIZE * capacity <= region_len
    &&& disjoint(head as nat, 4, tail as nat, 4)
    &&& disjoint(head as nat, 4, entries as nat, (REFILL_ENTRY_SIZE * capacity) as nat)
    &&& disjoint(tail as nat, 4, entries as nat, (REFILL_ENTRY_SIZE * capacity) as nat)
}

/// Where a ring lies in its mapping: capacity and mask, and the byte
/// offsets of the head cursor, the tail cursor and the entry array.
pub struct RingGeometry {
    capacity: u32,
    mask: u32,
    head_offset: u32,
    tail_offset: u32,
    entries_offset: u32,
}

impl RingGeometry {
    pub closed spec fn capacity_spec(&self) -> u32 {
        self.capacity
    }

    pub closed spec fn mask_spec(&self) -> u32 {
        self.mask
    }

    pub closed spec fn head_offset_spec(&self) -> u32 {
        self.head_offset
    }

    pub closed spec fn tail_offset_spec(&self) -> u32 {
        self.tail_offset
    }

    pub closed spec fn entries_offset_spec(&self) -> u32 {
        self.entries_offset
    }

    /// Take the geometry the executor granted for a mapping of `region_len`
    /// bytes; `RegistrationError` unless it fits that mapping.
    pub fn from_registration(
        capacity: u32,
        head: u32,
        tail: u32,
        entries: u32,
        region_len: usize,
    ) -> (r: Result<RingGeometry, RingError>)
        ensures
            r is Ok <==> geometry_fits(capacity, head, tail, entries, region_len),
            r is Err ==> r == Err::<RingGeometry, RingError>(RingError::RegistrationError),
            r matches Ok(g) ==> {
                &&& g.capacity_spec() == capacity
                &&& g.mask_spec() == capacity - 1
                &&& g.head_offset_spec() == head
                &&& g.tail_offset_spec() == tail
                &&& g.entries_offset_spec() == entries
            },
    {
        if !is_power_of_two(capacity) {
            return Err(RingError::RegistrationError);
        }
        proof {
            crate::cursor::lemma_capacity_exponent(capacity as nat);
        }
        if head % 4 != 0 || tail % 4 != 0 || entries % 8 != 0 {
            return Err(RingError::RegistrationError);
        }
        let h = head as u64;
        let t = tail as u64;
        let e = entries as u64;
        let len = region_len as u64;
        let bytes = REFILL_ENTRY_SIZE as u64 * capacity as u64;
        if h > len || len - h < 4 || t > len || len - t < 4 {
            return Err(RingError::RegistrationError);
        }
        if e > len || len - e < bytes {
            return Err(RingError::RegistrationError);
        }
        if !(h + 4 <= t || t + 4 <= h) || !(h + 4 <= e || e + bytes <= h) || !(t + 4 <= e || e
            + bytes <= t) {
            return Err(RingError::RegistrationError);
        }
        Ok(RingGeometry {
            capacity,
            mask: capacity - 1,
            head_offset: head,
            tail_offset: tail,
            entries_offset: entries,
        })
    }

    pub fn capacity(&self) -> (r: u32)
        ensures
            r == self.capacity_spec(),
    {
        self.capacity
    }

    pub fn mask(&self) -> (r: u32)
        ensures
            r == self.mask_spec(),
    {
        self.mask
    }

    pub fn head_offset(&self) -> (r: u32)
        ensures
            r == self.head_offset_spec(),
    {
        self.head_offset
    }

    pub fn tail_offset(&self) -> (r: u32)
        ensures
            r == self.tail_offset_spec(),
    {
        self.tail_offset
    }

    pub fn entries_offset(&self) -> (r: u32)
        ensures
            r == self.entries_offset_spec(),
    {
        self.entries_offset
    }
}

} // verus!
