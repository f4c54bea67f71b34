//! Feasibility estimation: how many candidates to try for a prefix.
//!
//! Under the assumption that digest bytes are uniformly distributed, a
//! single candidate matches a prefix of `l` hex characters with probability
//! `16^-l`. The budget `B = ceil(ln(100) * 16^l)`, with `ln(100)` taken as
//! `4.605 = 4605 / 1000`, bounds the probability of finding no match in `B`
//! independent trials by about 1%. The coordinator searches a domain of
//! `2 * B` candidates as a safety margin on top of that estimate.

use vstd::prelude::*;
use vstd::arithmetic::power::{
    pow, lemma_pow_positive, lemma_pow_increases, lemma_pow_adds, lemma_pow0, lemma_pow1,
};
use vstd::arithmetic::div_mod::{
    lemma_fundamental_div_mod, lemma_div_is_ordered, lemma_div_multiples_vanish,
    lemma_hoist_over_denominator,
};
use vstd::arithmetic::mul::lemma_mul_inequality;

verus! {

/// `16^l`: the reciprocal of the probability that one uniformly
/// distributed digest matches a fixed prefix of `l` hex characters.
pub open spec fn pow16(l: nat) -> int {
    pow(16, l)
}

/// `ceil(4.605 * 16^l)`, computed over the integers as
/// `(4605 * 16^l + 999) / 1000`: the iteration budget that leaves only
/// about a 1% chance of zero matches among that many candidates.
pub open spec fn exact_budget(l: nat) -> int {
    (4605 * pow16(l) + 999) / 1000
}

/// The budget as the estimator reports it: exact while it fits the
/// return type, saturated to `u128::MAX` for prefixes too long to budget.
pub open spec fn budget_spec(l: nat) -> u128 {
    if exact_budget(l) <= u128::MAX {
        exact_budget(l) as u128
    } else {
        u128::MAX
    }
}

/// The size of the candidate domain the coordinator searches: twice the
/// budget, again saturated to `u128::MAX`.
pub open spec fn domain_spec(l: nat) -> u128 {
    if 2 * exact_budget(l) <= u128::MAX {
        (2 * exact_budget(l)) as u128
    } else {
        u128::MAX
    }
}

/// The budget never undershoots the plain `16^l`: dividing
/// `4605 * 16^l + 999` by 1000 still leaves at least `16^l`.
proof fn lemma_exact_budget_at_least_pow(l: nat)
    ensures
        exact_budget(l) >= pow16(l),
{
    let p = pow16(l);
    lemma_pow_positive(16, l);
    assert(1000 * p <= 4605 * p + 999) by (nonlinear_arith)
        requires
            p > 0,
    ;
    lemma_div_is_ordered(1000 * p, 4605 * p + 999, 1000);
    lemma_div_multiples_vanish(p, 1000);
}

/// The candidate domain is exactly twice the reported budget whenever the
/// doubled exact budget fits the counter type — the x2 safety margin on
/// the probabilistic estimate.
pub proof fn lemma_domain_is_twice_budget(l: nat)
    requires
        2 * exact_budget(l) <= u128::MAX,
    ensures
        domain_spec(l) == 2 * budget_spec(l),
{
    lemma_exact_budget_at_least_pow(l);
    vstd::arithmetic::power::lemma_pow_positive(16, l);
}

/// Splitting the dividend at a multiple of 1000 computes the same budget:
/// `(4605p + 999) / 1000 == 4605 * (p / 1000) + (4605 * (p % 1000) + 999) / 1000`.
proof fn lemma_budget_split(p: int)
    requires
        p >= 0,
    ensures
        (4605 * p + 999) / 1000 == 4605 * (p / 1000) + (4605 * (p % 1000) + 999) / 1000,
{
    let q = p / 1000;
    let r = p % 1000;
    lemma_fundamental_div_mod(p, 1000);
    assert(4605 * p + 999 == (4605 * r + 999) + (4605 * q) * 1000) by (nonlinear_arith)
        requires
            p == 1000 * q + r,
    ;
    lemma_hoist_over_denominator(4605 * r + 999, 4605 * q, 1000);
}

/// The concrete values of `16^31` and `16^32`, by repeated doubling of
/// the exponent.
proof fn lemma_pow16_31_32()
    ensures
        pow16(31) == 0x10000000000000000000000000000000,
        pow16(32) == 0x100000000000000000000000000000000,
{
    assert(pow16(0) == 1) by {
        lemma_pow0(16);
    }
    assert(pow16(1) == 16) by {
        lemma_pow1(16);
    }
    assert(pow16(2) == 0x100) by {
        lemma_pow_adds(16, 1, 1);
    }
    assert(pow16(4) == 0x10000) by {
        lemma_pow_adds(16, 2, 2);
    }
    assert(pow16(8) == 0x100000000) by {
        lemma_pow_adds(16, 4, 4);
    }
    assert(pow16(16) == 0x10000000000000000) by {
        lemma_pow_adds(16, 8, 8);
    }
    assert(pow16(24) == 0x1000000000000000000000000) by {
        lemma_pow_adds(16, 16, 8);
    }
    assert(pow16(28) == 0x10000000000000000000000000000) by {
        lemma_pow_adds(16, 24, 4);
    }
    assert(pow16(30) == 0x1000000000000000000000000000000) by {
        lemma_pow_adds(16, 28, 2);
    }
    assert(pow16(31) == 0x10000000000000000000000000000000) by {
        lemma_pow_adds(16, 30, 1);
    }
    assert(pow16(32) == 0x100000000000000000000000000000000) by {
        lemma_pow_adds(16, 31, 1);
    }
}

/// Computes the iteration budget for a prefix of `prefix_length` hex
/// characters: `ceil(4.605 * 16^prefix_length)`, saturated to `u128::MAX`
/// once the exact budget no longer fits.
pub fn max_iterations_for_prefix(prefix_length: u32) -> (r: u128)
    ensures
        r == budget_spec(prefix_length as nat),
{
    let l = prefix_length;
    let mut p: u128 = 1;
    let mut i: u32 = 0;
    proof {
        lemma_pow0(16);
    }
    while i < l
        invariant
            l == prefix_length,
            i <= l,
            p == pow16(i as nat),
        decreases l - i,
    {
        if p > u128::MAX / 16 {
            proof {
                assert(pow16((i + 1) as nat) == 16 * pow16(i as nat)) by {
                    lemma_pow_adds(16, i as nat, 1);
                    lemma_pow1(16);
                }
                assert(16 * (p as int) > u128::MAX);
                lemma_pow_increases(16, (i + 1) as nat, l as nat);
                lemma_exact_budget_at_least_pow(l as nat);
                assert(pow16(l as nat) >= pow16((i + 1) as nat));
                assert(exact_budget(l as nat) > u128::MAX);
                assert(budget_spec(l as nat) == u128::MAX);
            }
            return u128::MAX;
        }
        p = p * 16;
        i = i + 1;
        proof {
            assert(pow16(i as nat) == 16 * pow16((i - 1) as nat)) by {
                lemma_pow_adds(16, (i - 1) as nat, 1);
                lemma_pow1(16);
            }
        }
    }
    proof {
        // `16^l` fits in a `u128`, so `l` is at most 31 and `16^l` is at
        // most `16^31`; the split computation below stays in bounds.
        lemma_pow16_31_32();
        if l > 31 {
            lemma_pow_increases(16, 32, l as nat);
            assert(false);
        }
        lemma_pow_increases(16, l as nat, 31);
        lemma_div_is_ordered(p as int, pow16(31), 1000);
        assert(pow16(31) / 1000 == 21267647932558653966460912964485513);
        lemma_mul_inequality(p as int / 1000, 21267647932558653966460912964485513, 4605);
        lemma_budget_split(p as int);
    }
    let qd = p / 1000;
    let rd = p % 1000;
    let hi = 4605 * qd;
    let lo = (4605 * rd + 999) / 1000;
    proof {
        assert(qd * 4605 == 4605 * qd) by (nonlinear_arith);
        assert(hi + lo == exact_budget(l as nat));
    }
    hi + lo
}

/// Computes the size `2 * B` of the candidate domain for a prefix of
/// `prefix_length` hex characters, saturated to `u128::MAX`.
pub fn search_domain(prefix_length: u32) -> (r: u128)
    ensures
        r == domain_spec(prefix_length as nat),
{
    let b = max_iterations_for_prefix(prefix_length);
    proof {
        lemma_exact_budget_at_least_pow(prefix_length as nat);
        lemma_pow_positive(16, prefix_length as nat);
    }
    if b <= u128::MAX / 2 {
        2 * b
    } else {
        u128::MAX
    }
}

} // verus!
