//! The 16-bit approval bitmask: bit tests, bit setting, and population count.
//!
//! The mask width (16) and the signer cap (10) are independent constants:
//! the mask offers room for up to 16 signer slots even though configs stop
//! at 10.
use vstd::prelude::*;

verus! {

/// Whether bit `i` of `m` is set. Bits outside the 16-bit range count as
/// clear.
pub open spec fn nth_bit(m: u16, i: int) -> bool {
    0 <= i < 16 && (m >> (i as u16)) & 1 == 1
}

/// `m` with bit `i` set.
pub open spec fn with_bit(m: u16, i: int) -> u16
    recommends
        0 <= i < 16,
{
    m | (1u16 << (i as u16))
}

/// How many of the bits of `m` below position `n` are set.
pub open spec fn popcount(m: u16, n: int) -> int
    decreases n,
{
    if n <= 0 {
        0
    } else {
        popcount(m, n - 1) + if nth_bit(m, n - 1) {
            1int
        } else {
            0
        }
    }
}

/// Count the set bits of `m`.
pub fn count_ones16(m: u16) -> (c: u8)
    ensures
        c as int == popcount(m, 16),
{
    let mut c: u8 = 0;
    let mut j: u16 = 0;
    while j < 16
        invariant
            j <= 16,
            c as int == popcount(m, j as int),
            c <= j,
        decreases 16 - j,
    {
        if (m >> j) & 1 == 1 {
            c = c + 1;
        }
        j = j + 1;
    }
    c
}

/// Test bit `i` of `m`.
pub fn get_bit16(m: u16, i: u16) -> (r: bool)
    requires
        i < 16,
    ensures
        r == nth_bit(m, i as int),
{
    (m >> i) & 1 == 1
}

/// Set bit `i` of `m`.
pub fn set_bit16(m: u16, i: u16) -> (r: u16)
    requires
        i < 16,
    ensures
        r == with_bit(m, i as int),
{
    m | (1u16 << i)
}

/// Setting bit `i` leaves every other bit as it was and sets bit `i`.
pub proof fn lemma_with_bit_frame(m: u16, i: int)
    requires
        0 <= i < 16,
    ensures
        nth_bit(with_bit(m, i), i),
        forall|j: int| 0 <= j < 16 && j != i ==> nth_bit(with_bit(m, i), j) == nth_bit(m, j),
{
    let iu = i as u16;
    assert((m | (1u16 << iu)) >> iu & 1 == 1) by (bit_vector)
        requires
            iu < 16,
    ;
    assert forall|j: int| 0 <= j < 16 && j != i implies nth_bit(with_bit(m, i), j) == nth_bit(
        m,
        j,
    ) by {
        let ju = j as u16;
        assert((m | (1u16 << iu)) >> ju & 1 == m >> ju & 1) by (bit_vector)
            requires
                iu < 16,
                ju < 16,
                iu != ju,
        ;
    }
}

/// Bits only ever go from clear to set: `with_bit` never clears a bit.
pub proof fn lemma_with_bit_monotone(m: u16, i: int)
    requires
        0 <= i < 16,
    ensures
        forall|j: int| nth_bit(m, j) ==> nth_bit(with_bit(m, i), j),
{
    lemma_with_bit_frame(m, i);
}

/// Setting a bit that is already set changes nothing.
pub proof fn lemma_with_bit_idempotent(m: u16, i: int)
    requires
        0 <= i < 16,
        nth_bit(m, i),
    ensures
        with_bit(m, i) == m,
{
    let iu = i as u16;
    assert(m >> iu & 1 == 1 ==> (m | (1u16 << iu)) == m) by (bit_vector)
        requires
            iu < 16,
    ;
}

/// Two masks whose bits agree below `n` have the same count there.
proof fn lemma_popcount_agree(a: u16, b: u16, n: int)
    requires
        forall|j: int| 0 <= j < n ==> nth_bit(a, j) == nth_bit(b, j),
    ensures
        popcount(a, n) == popcount(b, n),
    decreases n,
{
    if n > 0 {
        lemma_popcount_agree(a, b, n - 1);
    }
}

proof fn lemma_popcount_with_bit_rec(m: u16, i: int, n: int)
    requires
        0 <= i < 16,
        i < n <= 16,
    ensures
        popcount(with_bit(m, i), n) == popcount(m, n) + if nth_bit(m, i) {
            0int
        } else {
            1
        },
    decreases n,
{
    lemma_with_bit_frame(m, i);
    if n - 1 == i {
        lemma_popcount_agree(m, with_bit(m, i), i);
    } else {
        lemma_popcount_with_bit_rec(m, i, n - 1);
    }
}

/// Setting a clear bit raises the count by one; setting a set bit leaves it.
pub proof fn lemma_popcount_with_bit(m: u16, i: int)
    requires
        0 <= i < 16,
    ensures
        popcount(with_bit(m, i), 16) == popcount(m, 16) + if nth_bit(m, i) {
            0int
        } else {
            1
        },
{
    lemma_popcount_with_bit_rec(m, i, 16);
}

/// The count of the first `n` bit positions never exceeds `n`.
pub proof fn lemma_popcount_bounds(m: u16, n: int)
    requires
        0 <= n <= 16,
    ensures
        0 <= popcount(m, n) <= n,
    decreases n,
{
    if n > 0 {
        lemma_popcount_bounds(m, n - 1);
    }
}

/// The empty mask has no set bits.
pub proof fn lemma_popcount_zero(n: int)
    requires
        0 <= n <= 16,
    ensures
        popcount(0u16, n) == 0,
    decreases n,
{
    if n > 0 {
        assert(!nth_bit(0u16, n - 1)) by {
            let ju = (n - 1) as u16;
            assert(0u16 >> ju & 1 == 0) by (bit_vector);
        }
        lemma_popcount_zero(n - 1);
    }
}

} // verus!
