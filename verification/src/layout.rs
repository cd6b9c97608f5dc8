//! The layout of a position word.
//!
//! Enqueue positions, dequeue positions and slot stamps are machine words that
//! share one layout:
//!
//! ```text
//! | <- MSB                                LSB -> |
//! | sequence count | flag (1 bit) | buffer index |
//! ```
//!
//! The flag bit is the smallest power of two that is not below the capacity.
//! The right mask covers the flag and the index; the bits above it count the
//! laps around the ring. Every word is the sum of its lap (the word with the
//! right mask cleared) and its low part (the word under the right mask), and
//! the lemmas below turn the mask operations into statements about that sum.

use vstd::prelude::*;
use vstd::wrapping::usize_specs::wrapping_add;
use vstd::wrapping::usize_specs::wrapping_sub;

verus! {

/// `m` has exactly one bit set.
pub open spec fn is_power_of_two(m: usize) -> bool {
    m != 0 && m & ((m - 1) as usize) == 0
}

/// The mask over the flag bit `m` and the index bits below it.
pub open spec fn right_mask_of(m: usize) -> usize {
    m | ((m - 1) as usize)
}

/// The lap of a word: the sequence count, with flag and index cleared.
pub open spec fn lap_of(p: usize, r: usize) -> usize {
    p & !r
}

/// The low part of a word: flag and index.
pub open spec fn low_of(p: usize, r: usize) -> usize {
    p & r
}

/// `b` has neither flag nor index: it is the first word of a lap.
pub open spec fn is_lap(b: usize, r: usize) -> bool {
    b & r == 0
}

/// The flag bit `m` is set in `p`.
pub open spec fn flagged(p: usize, m: usize) -> bool {
    p & m != 0
}

/// The lap that follows `b`: one sequence increment further, modulo the word.
pub open spec fn next_lap(b: usize, r: usize) -> usize {
    wrapping_add(b, wrapping_add(r, 1))
}

/// The position that follows `p` in a ring of `capacity` slots with flag bit
/// `m`: the next index of the same lap, or index 0 of the next lap.
pub open spec fn next_pos(p: usize, capacity: int, m: usize) -> usize {
    if low_of(p, right_mask_of(m)) + 1 < capacity {
        (p + 1) as usize
    } else {
        next_lap(lap_of(p, right_mask_of(m)), right_mask_of(m))
    }
}

/// The distance from `pos` to `stamp`, read as a signed word, is negative.
pub open spec fn is_behind(stamp: usize, pos: usize) -> bool {
    wrapping_sub(stamp, pos) > usize::MAX / 2
}

proof fn lemma_below_all_ones(x: usize)
    by (bit_vector)
    ensures
        x <= !0usize,
{
}

/// The complement of zero is the largest word.
pub proof fn lemma_all_ones()
    ensures
        !0usize == usize::MAX,
{
    lemma_below_all_ones(usize::MAX);
}

/// The right mask of a power of two `m` is `2 * m - 1`.
pub proof fn lemma_mask(m: usize)
    by (bit_vector)
    requires
        is_power_of_two(m),
    ensures
        right_mask_of(m) == m + m - 1,
{
}

/// A word is the sum of its lap and its low part.
pub proof fn lemma_split(p: usize, m: usize)
    by (bit_vector)
    requires
        is_power_of_two(m),
    ensures
        lap_of(p, right_mask_of(m)) + low_of(p, right_mask_of(m)) == p,
        is_lap(lap_of(p, right_mask_of(m)), right_mask_of(m)),
        low_of(p, right_mask_of(m)) <= right_mask_of(m),
{
}

/// The flag is set exactly when the low part reaches the flag bit.
pub proof fn lemma_flag(p: usize, m: usize)
    by (bit_vector)
    requires
        is_power_of_two(m),
    ensures
        flagged(p, m) <==> low_of(p, right_mask_of(m)) >= m,
{
}

/// A lap and a low part add up without carry, and can be read back from the
/// sum.
pub proof fn lemma_compose(b: usize, i: usize, m: usize)
    by (bit_vector)
    requires
        is_power_of_two(m),
        is_lap(b, right_mask_of(m)),
        i <= right_mask_of(m),
    ensures
        ((b + i) as usize) == b + i,
        low_of((b + i) as usize, right_mask_of(m)) == i,
        lap_of((b + i) as usize, right_mask_of(m)) == b,
{
}

proof fn lemma_next_lap_words(b: usize, m: usize, t: usize, s: usize)
    by (bit_vector)
    requires
        is_power_of_two(m),
        is_lap(b, right_mask_of(m)),
        t == if right_mask_of(m) == !0usize { 0 } else { right_mask_of(m) + 1 },
        s == if b + t > !0usize { b + t - !0usize - 1 } else { b + t },
    ensures
        is_lap(s, right_mask_of(m)),
{
}

/// The lap that follows a lap is a lap.
pub proof fn lemma_next_lap(b: usize, m: usize)
    requires
        is_power_of_two(m),
        is_lap(b, right_mask_of(m)),
    ensures
        is_lap(next_lap(b, right_mask_of(m)), right_mask_of(m)),
{
    lemma_all_ones();
    let r = right_mask_of(m);
    lemma_next_lap_words(b, m, wrapping_add(r, 1), next_lap(b, r));
}

/// A right mask covers the whole word or at most its lower half.
pub proof fn lemma_mask_gap(m: usize)
    by (bit_vector)
    requires
        is_power_of_two(m),
    ensures
        right_mask_of(m) == !0usize || right_mask_of(m) <= !0usize / 2,
{
}

/// Zero is the first word of the first lap.
pub proof fn lemma_zero(m: usize)
    by (bit_vector)
    requires
        is_power_of_two(m),
    ensures
        lap_of(0, right_mask_of(m)) == 0,
        low_of(0, right_mask_of(m)) == 0,
        !flagged(0, m),
{
}

proof fn lemma_signed(x: usize)
    by (bit_vector)
    ensures
        (x as isize) == if x > !0usize / 2 {
            x - !0usize - 1
        } else {
            x as int
        },
{
}

/// The distance from `pos` to `stamp`, modulo the word and read as a signed
/// word: zero when they are equal, negative when the stamp is behind.
pub fn stamp_delta(stamp: usize, pos: usize) -> (delta: isize)
    ensures
        delta == if is_behind(stamp, pos) {
            wrapping_sub(stamp, pos) - usize::MAX - 1
        } else {
            wrapping_sub(stamp, pos) as int
        },
        delta == 0 <==> stamp == pos,
        delta < 0 <==> is_behind(stamp, pos),
{
    proof {
        lemma_all_ones();
        lemma_signed(wrapping_sub(stamp, pos));
    }
    #[verifier::truncate]
    (stamp.wrapping_sub(pos) as isize)
}

/// Setting the flag of an unflagged word adds the flag bit; setting it again
/// changes nothing.
pub proof fn lemma_set_flag(p: usize, m: usize)
    by (bit_vector)
    requires
        is_power_of_two(m),
    ensures
        !flagged(p, m) ==> (p | m) == p + m,
        flagged(p, m) ==> (p | m) == p,
{
}

/// Twice a power of two is a power of two.
pub proof fn lemma_double(p: usize, q: usize)
    by (bit_vector)
    requires
        is_power_of_two(p),
        q == p + p,
    ensures
        is_power_of_two(q),
{
}

proof fn lemma_shifted_mask_words(m: usize, s: usize, t: usize)
    by (bit_vector)
    requires
        is_power_of_two(m),
        s == m << 1,
        t == if s == 0 { !0usize } else { (s - 1) as usize },
    ensures
        t == right_mask_of(m),
{
}

/// The right mask can be computed as the flag bit shifted left by one, less
/// one, modulo the word.
pub proof fn lemma_shifted_mask(m: usize)
    requires
        is_power_of_two(m),
    ensures
        wrapping_sub(m << 1, 1) == right_mask_of(m),
{
    lemma_all_ones();
    lemma_shifted_mask_words(m, m << 1, wrapping_sub(m << 1, 1));
}

/// The smallest power of two that is not below `n`.
pub fn next_power_of_two(n: usize) -> (p: usize)
    requires
        1 <= n <= usize::MAX / 2 + 1,
    ensures
        is_power_of_two(p),
        n <= p,
        p < n + n,
{
    let mut p: usize = 1;
    assert(is_power_of_two(1usize)) by (bit_vector);
    while p < n
        invariant
            is_power_of_two(p),
            1 <= p,
            1 <= n <= usize::MAX / 2 + 1,
            p < n + n,
        decreases n + n - p,
    {
        proof {
            lemma_double(p, (p + p) as usize);
        }
        p = p + p;
    }
    p
}

} // verus!
