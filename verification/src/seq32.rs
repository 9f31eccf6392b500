//! Modular 32-bit sequence-number arithmetic (RFC 793 section 3.3).
//!
//! TCP sequence and acknowledgment numbers travel on the circle of the
//! 2^32 unsigned integers; all comparisons are made relative to a start
//! point, by the forward distance on that circle.

use vstd::prelude::*;

verus! {

/// Forward distance walked from `y` to reach `x` on the 2^32 circle:
/// `(x - y) mod 2^32`.
pub open spec fn seq_sub(x: u32, y: u32) -> u32 {
    if x >= y {
        (x - y) as u32
    } else {
        (x - y + 0x1_0000_0000) as u32
    }
}

/// `(x + y) mod 2^32`.
pub open spec fn seq_add(x: u32, y: u32) -> u32 {
    if x + y > u32::MAX {
        (x + y - 0x1_0000_0000) as u32
    } else {
        (x + y) as u32
    }
}

/// "`x` lies strictly between `start` and `end` on the circle": walking
/// forward from `start`, one reaches `x` strictly before reaching `end`.
/// Strict on both sides: false whenever `x == start` or `x == end`, and
/// false for every `x` when `start == end`.
pub open spec fn seq_between(start: u32, x: u32, end: u32) -> bool {
    seq_sub(x, start) < seq_sub(end, start) && x != start
}

/// The forward distance is the Euclidean remainder `(x - y) mod 2^32`.
pub proof fn lemma_seq_sub_is_mod(x: u32, y: u32)
    ensures
        seq_sub(x, y) == (x - y) % 0x1_0000_0000,
{
    if x >= y {
        vstd::arithmetic::div_mod::lemma_small_mod((x - y) as nat, 0x1_0000_0000);
    } else {
        vstd::arithmetic::div_mod::lemma_mod_add_multiples_vanish(x - y, 0x1_0000_0000);
        vstd::arithmetic::div_mod::lemma_small_mod((x - y + 0x1_0000_0000) as nat, 0x1_0000_0000);
    }
}

/// The betweenness predicate in its modular form, together with its
/// degenerate cases: it is false when `start == x`, when `x == end`,
/// and when `start == end`.
pub proof fn lemma_seq_between_characterization(start: u32, x: u32, end: u32)
    ensures
        seq_between(start, x, end) <==> ((x - start) % 0x1_0000_0000 < (end - start)
            % 0x1_0000_0000 && start != x),
        start == x ==> !seq_between(start, x, end),
        x == end ==> !seq_between(start, x, end),
        start == end ==> !seq_between(start, x, end),
{
    lemma_seq_sub_is_mod(x, start);
    lemma_seq_sub_is_mod(end, start);
}

/// The circle sum is the Euclidean remainder `(x + y) mod 2^32`.
pub proof fn lemma_seq_add_is_mod(x: u32, y: u32)
    ensures
        seq_add(x, y) == (x + y) % 0x1_0000_0000,
{
    if x + y > u32::MAX {
        vstd::arithmetic::div_mod::lemma_mod_sub_multiples_vanish(x + y, 0x1_0000_0000);
        vstd::arithmetic::div_mod::lemma_small_mod((x + y - 0x1_0000_0000) as nat, 0x1_0000_0000);
    } else {
        vstd::arithmetic::div_mod::lemma_small_mod((x + y) as nat, 0x1_0000_0000);
    }
}

/// Two successive circle additions collapse into one: adding `a mod 2^32`
/// and then `b mod 2^32` lands where adding `(a + b) mod 2^32` does.
pub proof fn lemma_seq_add_fold(x: u32, a: int, b: int)
    requires
        a >= 0,
        b >= 0,
    ensures
        seq_add(seq_add(x, (a % 0x1_0000_0000) as u32), (b % 0x1_0000_0000) as u32) == seq_add(
            x,
            ((a + b) % 0x1_0000_0000) as u32,
        ),
{
    let m = 0x1_0000_0000int;
    let a1 = (a % m) as u32;
    let b1 = (b % m) as u32;
    lemma_seq_add_is_mod(x, a1);
    lemma_seq_add_is_mod(seq_add(x, a1), b1);
    lemma_seq_add_is_mod(x, ((a + b) % m) as u32);
    // ((x + a%m)%m + b%m)%m == (x + a%m + b)%m
    vstd::arithmetic::div_mod::lemma_add_mod_noop(x as int + a % m, b, m);
    // (x + b + a%m)%m == (x + b + a)%m
    vstd::arithmetic::div_mod::lemma_add_mod_noop_right(x as int + b, a, m);
    // (x + (a+b)%m)%m == (x + a + b)%m
    vstd::arithmetic::div_mod::lemma_add_mod_noop_right(x as int, a + b, m);
    vstd::arithmetic::div_mod::lemma_mod_bound(x as int + a % m + b, m);
    vstd::arithmetic::div_mod::lemma_mod_bound(x as int + (a + b) % m, m);
}

/// Walking from `y`, the distance to `x` and from there on to `z` add up:
/// whenever `x` is no farther from `y` than `z` is, the leftover walk
/// from `x` to `z` is the difference of the two distances.
pub proof fn lemma_seq_sub_chain(z: u32, x: u32, y: u32)
    requires
        seq_sub(x, y) <= seq_sub(z, y),
    ensures
        seq_sub(z, x) == seq_sub(z, y) - seq_sub(x, y),
{
}

/// Adding `k` on the circle moves the distance from `y` up by `k`, as long
/// as the sum stays under 2^32.
pub proof fn lemma_seq_add_distance(x: u32, y: u32, k: u32)
    requires
        seq_sub(x, y) + k < 0x1_0000_0000,
    ensures
        seq_sub(seq_add(x, k), y) == seq_sub(x, y) + k,
{
}

/// The distance from a point to itself is zero, and only to itself.
pub proof fn lemma_seq_sub_zero(x: u32, y: u32)
    ensures
        seq_sub(x, y) == 0 <==> x == y,
{
}

/// Strict betweenness on the 2^32 circle, total over all `u32` triples.
///
/// True iff, walking forward from `start`, `x` is reached strictly before
/// `end` is reached (and `x` is not `start` itself).
pub fn is_between_wrapped(start: u32, x: u32, end: u32) -> (r: bool)
    ensures
        r == seq_between(start, x, end),
{
    if start == x {
        false
    } else if start < x {
        // no wraparound between start and x; x is outside (start, end)
        // exactly when end lands in the walked-over stretch [start, x]
        !(end >= start && end <= x)
    } else {
        // the walk from start to x wraps; end must land in (x, start)
        end < start && end > x
    }
}

} // verus!
