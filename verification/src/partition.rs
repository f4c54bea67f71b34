//! Partitioning of the candidate domain across workers.
//!
//! A domain `[0, total)` of candidate counters is split into `n` contiguous
//! slices, one per worker, equal in width up to rounding: the first
//! `total % n` slices get `total / n + 1` counters, the rest `total / n`.
//! The slices are pairwise disjoint and together cover the domain exactly.

use vstd::prelude::*;
use vstd::arithmetic::div_mod::lemma_fundamental_div_mod;
use vstd::arithmetic::mul::lemma_mul_inequality;

verus! {

/// One worker's slice of the candidate domain: the half-open range of
/// counters `[start, start + width)`.
#[derive(Clone, Copy, Debug, PartialEq, Eq, Structural)]
pub struct Partition {
    pub start: u128,
    pub width: u128,
}

/// The width of slice `i` when `[0, total)` is split `n` ways: the
/// remainder of the division is spread over the first slices.
pub open spec fn part_width(total: u128, n: int, i: int) -> int {
    total as int / n + if i < total as int % n {
        1int
    } else {
        0int
    }
}

/// Where slice `i` begins: `i` whole quotients plus one extra counter for
/// every earlier slice that absorbed a unit of the remainder.
pub open spec fn part_start(total: u128, n: int, i: int) -> int {
    i * (total as int / n) + if i <= total as int % n {
        i
    } else {
        total as int % n
    }
}

/// Consecutive slices are adjacent: slice `i` ends exactly where slice
/// `i + 1` begins.
pub proof fn lemma_part_step(total: u128, n: int, i: int)
    requires
        1 <= n,
        0 <= i,
    ensures
        part_start(total, n, i) + part_width(total, n, i) == part_start(total, n, i + 1),
{
    let q = total as int / n;
    assert((i + 1) * q == i * q + q) by (nonlinear_arith);
}

/// Slice starts never decrease.
pub proof fn lemma_part_start_monotone(total: u128, n: int, a: int, b: int)
    requires
        1 <= n,
        0 <= a <= b,
    ensures
        part_start(total, n, a) <= part_start(total, n, b),
{
    let q = total as int / n;
    vstd::arithmetic::div_mod::lemma_div_pos_is_pos(total as int, n);
    vstd::arithmetic::div_mod::lemma_mod_division_less_than_divisor(total as int, n);
    lemma_mul_inequality(a, b, q);
}

/// The `n` slices end exactly at `total`: `part_start(total, n, n) == total`.
pub proof fn lemma_part_exact(total: u128, n: int)
    requires
        1 <= n,
    ensures
        part_start(total, n, n) == total,
{
    let q = total as int / n;
    let rem = total as int % n;
    lemma_fundamental_div_mod(total as int, n);
    vstd::arithmetic::div_mod::lemma_mod_division_less_than_divisor(total as int, n);
    assert(n * q == q * n) by (nonlinear_arith);
}

/// Every slice lies inside the domain.
pub proof fn lemma_part_in_domain(total: u128, n: int, i: int)
    requires
        1 <= n,
        0 <= i < n,
    ensures
        0 <= part_start(total, n, i),
        part_start(total, n, i) + part_width(total, n, i) <= total,
{
    lemma_part_step(total, n, i);
    lemma_part_start_monotone(total, n, 0, i);
    lemma_part_start_monotone(total, n, i + 1, n);
    lemma_part_exact(total, n);
}

/// Distinct slices are disjoint: an earlier slice ends no later than a
/// later slice begins.
pub proof fn lemma_partitions_disjoint(total: u128, n: int, i: int, j: int)
    requires
        1 <= n,
        0 <= i < j < n,
    ensures
        part_start(total, n, i) + part_width(total, n, i) <= part_start(total, n, j),
{
    lemma_part_step(total, n, i);
    lemma_part_start_monotone(total, n, i + 1, j);
}

/// Every counter below `part_start(total, n, k)` falls in one of the
/// first `k` slices.
proof fn lemma_cover_below(total: u128, n: int, k: int, v: int)
    requires
        1 <= n,
        0 <= k,
        0 <= v < part_start(total, n, k),
    ensures
        exists|i: int|
            0 <= i < k && #[trigger] part_start(total, n, i) <= v < part_start(total, n, i) + part_width(
                total,
                n,
                i,
            ),
    decreases k,
{
    if k == 0 {
        assert(part_start(total, n, 0) == 0);
    } else {
        lemma_part_step(total, n, k - 1);
        if v >= part_start(total, n, k - 1) {
            assert(part_start(total, n, k - 1) <= v < part_start(total, n, k - 1) + part_width(
                total,
                n,
                k - 1,
            ));
        } else {
            lemma_cover_below(total, n, k - 1, v);
        }
    }
}

/// Partition coverage: the slices cover the domain with no gap — every
/// counter in `[0, total)` lies in exactly one slice (uniqueness is
/// `lemma_partitions_disjoint`).
pub proof fn lemma_partitions_cover(total: u128, n: int, v: int)
    requires
        1 <= n,
        0 <= v < total,
    ensures
        exists|i: int|
            0 <= i < n && #[trigger] part_start(total, n, i) <= v < part_start(total, n, i) + part_width(
                total,
                n,
                i,
            ),
{
    lemma_part_exact(total, n);
    lemma_cover_below(total, n, n, v);
}

/// Splits the domain `[0, total)` into `workers` adjacent slices, the
/// remainder of `total / workers` spread one counter at a time over the
/// first slices.
pub fn make_partitions(total: u128, workers: usize) -> (r: Vec<Partition>)
    requires
        workers >= 1,
    ensures
        r@.len() == workers,
        forall|i: int|
            0 <= i < workers ==> (#[trigger] r@[i]).start == part_start(total, workers as int, i)
                && r@[i].width == part_width(total, workers as int, i),
{
    let n = workers as u128;
    let q = total / n;
    let rem = total % n;
    let mut r: Vec<Partition> = Vec::new();
    let mut i: usize = 0;
    let mut start: u128 = 0;
    while i < workers
        invariant
            workers >= 1,
            n == workers as u128,
            q == total as int / n as int,
            rem == total as int % n as int,
            i <= workers,
            r@.len() == i,
            start == part_start(total, workers as int, i as int),
            forall|j: int|
                0 <= j < i ==> (#[trigger] r@[j]).start == part_start(total, workers as int, j)
                    && r@[j].width == part_width(total, workers as int, j),
        decreases workers - i,
    {
        proof {
            lemma_part_in_domain(total, workers as int, i as int);
            lemma_part_step(total, workers as int, i as int);
        }
        let width = if (i as u128) < rem {
            q + 1
        } else {
            q
        };
        r.push(Partition { start, width });
        start = start + width;
        i = i + 1;
    }
    r
}

} // verus!
