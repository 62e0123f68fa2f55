//! Wrapping 32-bit ring cursors over a power-of-two slot array.

use vstd::arithmetic::div_mod::{lemma_mod_equivalence, lemma_mod_mod, lemma_small_mod};
use vstd::arithmetic::power2::{lemma2_to64, lemma_pow2_adds, lemma_pow2_pos, lemma_pow2_strictly_increases, pow2};
use vstd::bits::{lemma_u32_low_bits_mask_is_mod, low_bits_mask};
use vstd::prelude::*;

verus! {

/// The number of values a 32-bit cursor takes before it wraps.
pub open spec fn cursor_range() -> int {
    0x1_0000_0000
}

/// Number of entries between two cursors: `tail - head`, modulo 2^32.
#[verifier::opaque]
pub open spec fn ring_len(head: u32, tail: u32) -> nat {
    ((tail as int - head as int) % cursor_range()) as nat
}

/// The cursor `c` advanced by `n` positions, wrapping at 2^32.
#[verifier::opaque]
pub open spec fn advance(c: u32, n: int) -> u32 {
    ((c as int + n) % cursor_range()) as u32
}

/// `cap` is a power of two that a 32-bit cursor can index.
pub open spec fn is_ring_capacity(cap: nat) -> bool {
    exists|k: nat| k < 32 && #[trigger] pow2(k) == cap
}

/// Entries between two cursors.
pub fn cursor_distance(head: u32, tail: u32) -> (r: u32)
    ensures
        r == ring_len(head, tail),
{
    proof {
        reveal(ring_len);
    }
    tail.wrapping_sub(head)
}

/// The cursor one position past `c`.
pub fn cursor_next(c: u32) -> (r: u32)
    ensures
        r == advance(c, 1),
{
    proof {
        reveal(advance);
    }
    c.wrapping_add(1)
}

/// `n` is a power of two, as `u32::is_power_of_two` decides it.
pub fn is_power_of_two(n: u32) -> (r: bool)
    ensures
        r == is_ring_capacity(n as nat),
{
    let mut p: u64 = 1;
    let mut k: u32 = 0;
    proof {
        lemma2_to64();
    }
    while k < 32
        invariant
            k <= 32,
            p as nat == pow2(k as nat),
            forall|j: nat| j < k ==> #[trigger] pow2(j) != n as nat,
        decreases 32 - k,
    {
        if p == n as u64 {
            return true;
        }
        proof {
            vstd::arithmetic::power2::lemma_pow2_unfold((k + 1) as nat);
            if k < 31 {
                lemma_pow2_strictly_increases(k as nat, 31);
            }
            lemma2_to64();
        }
        p = p * 2;
        k = k + 1;
    }
    proof {
        if is_ring_capacity(n as nat) {
            let j = choose|j: nat| j < 32 && #[trigger] pow2(j) == n as nat;
            assert(pow2(j) != n as nat);
        }
    }
    false
}

/// The exponent of a ring capacity.
pub proof fn lemma_capacity_exponent(cap: nat) -> (k: nat)
    requires
        is_ring_capacity(cap),
    ensures
        k < 32,
        pow2(k) == cap,
        1 <= cap <= 0x8000_0000,
{
    let k = choose|k: nat| k < 32 && #[trigger] pow2(k) == cap;
    lemma_pow2_pos(k);
    if k < 31 {
        lemma_pow2_strictly_increases(k, 31);
    }
    lemma2_to64();
    k
}

/// Masking a cursor with `cap - 1` gives its slot, `c % cap`.
pub proof fn lemma_mask_is_slot(c: u32, cap: nat)
    requires
        is_ring_capacity(cap),
    ensures
        (c & ((cap - 1) as u32)) as int == (c as int) % (cap as int),
{
    let k = lemma_capacity_exponent(cap);
    lemma_u32_low_bits_mask_is_mod(c, k);
    assert(low_bits_mask(k) == pow2(k) - 1);
}

/// Positions congruent modulo 2^32 fall in the same slot.
pub proof fn lemma_slot_wraps(a: int, b: int, cap: nat)
    requires
        is_ring_capacity(cap),
        a % cursor_range() == b % cursor_range(),
    ensures
        a % (cap as int) == b % (cap as int),
{
    let k = lemma_capacity_exponent(cap);
    lemma_pow2_adds(k, (32 - k) as nat);
    lemma_pow2_pos((32 - k) as nat);
    lemma2_to64();
    let m = pow2((32 - k) as nat) as int;
    lemma_mod_mod(a, cap as int, m);
    lemma_mod_mod(b, cap as int, m);
}

/// Fewer than `cap` consecutive positions fall in distinct slots.
pub proof fn lemma_slots_distinct(c: int, i: int, j: int, cap: nat)
    requires
        cap > 0,
        0 <= i < j < cap,
    ensures
        (c + i) % (cap as int) != (c + j) % (cap as int),
{
    lemma_mod_equivalence(c + j, c + i, cap as int);
    lemma_small_mod((j - i) as nat, cap);
}

/// Stepping the tail forward adds one entry; stepping the head forward removes one.
pub proof fn lemma_len_step(head: u32, tail: u32)
    ensures
        ring_len(head, tail) + 1 < cursor_range() ==> ring_len(head, advance(tail, 1))
            == ring_len(head, tail) + 1,
        ring_len(head, tail) > 0 ==> ring_len(advance(head, 1), tail) + 1 == ring_len(head, tail),
        ring_len(head, tail) == 0 <==> head == tail,
        ring_len(head, tail) < cursor_range(),
        ring_len(head, head) == 0,
{
    reveal(ring_len);
    reveal(advance);
}

/// Cursor distances add up along the ring while their sum stays below 2^32.
pub proof fn lemma_len_split(a: u32, b: u32, c: u32)
    requires
        ring_len(a, b) + ring_len(b, c) < cursor_range(),
    ensures
        ring_len(a, c) == ring_len(a, b) + ring_len(b, c),
{
    reveal(ring_len);
    reveal(advance);
}

/// The cursor `n` entries past `c` sits in the slot of position `c + n`.
pub proof fn lemma_cursor_slot(c: u32, n: nat, cap: nat)
    requires
        is_ring_capacity(cap),
    ensures
        (advance(c, n as int) as int) % (cap as int) == (c as int + n) % (cap as int),
{
    reveal(advance);
    lemma_slot_wraps(advance(c, n as int) as int, c as int + n, cap);
}

/// Reading `i` positions past an advanced cursor reads the slot of `c + n + i`.
pub proof fn lemma_advance_slot(c: u32, n: int, i: int, cap: nat)
    requires
        is_ring_capacity(cap),
    ensures
        (advance(c, n) as int + i) % (cap as int) == (c as int + n + i) % (cap as int),
{
    reveal(advance);
    vstd::arithmetic::div_mod::lemma_add_mod_noop(c as int + n, i, cursor_range());
    vstd::arithmetic::div_mod::lemma_mod_twice(i, cursor_range());
    vstd::arithmetic::div_mod::lemma_add_mod_noop(advance(c, n) as int, i, cursor_range());
    lemma_slot_wraps(advance(c, n) as int + i, c as int + n + i, cap);
}

/// Advancing twice is advancing by the sum.
pub proof fn lemma_advance_add(c: u32, a: nat, b: nat)
    ensures
        advance(advance(c, a as int), b as int) == advance(c, (a + b) as int),
        advance(c, 0) == c,
{
    reveal(advance);
    vstd::arithmetic::div_mod::lemma_add_mod_noop(c as int + a, b as int, cursor_range());
    vstd::arithmetic::div_mod::lemma_mod_twice(b as int, cursor_range());
    vstd::arithmetic::div_mod::lemma_add_mod_noop(
        advance(c, a as int) as int,
        b as int,
        cursor_range(),
    );
}

/// A cursor sits `ring_len` positions past the cursor it is measured from.
pub proof fn lemma_cursor_from(head: u32, tail: u32)
    ensures
        advance(head, ring_len(head, tail) as int) == tail,
{
    reveal(ring_len);
    reveal(advance);
}

} // verus!
