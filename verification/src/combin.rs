//! Exact combinatorics: factorials and binomial coefficients.
//!
//! Probability mass functions of the discrete models are ratios of products
//! of binomial coefficients and powers.  This module defines the
//! mathematical coefficients and computes them exactly in 128-bit
//! arithmetic, with proved absence of overflow for the population sizes the
//! parameter ranges allow.

use vstd::prelude::*;

verus! {

use vstd::arithmetic::div_mod::lemma_div_by_multiple;
use vstd::arithmetic::mul::lemma_mul_upper_bound;
use vstd::arithmetic::power2::lemma2_to64;
use vstd::arithmetic::power2::lemma2_to64_rest;
use vstd::arithmetic::power2::lemma_pow2_adds;
use vstd::arithmetic::power2::lemma_pow2_pos;
use vstd::arithmetic::power2::lemma_pow2_strictly_increases;
use vstd::arithmetic::power2::pow2;

/// Largest argument for which `combination` is proved to stay within `u128`.
pub const COMBINATION_LIMIT: u64 = 120;

/// The factorial function.
pub open spec fn fact(n: nat) -> nat
    decreases n,
{
    if n == 0 {
        1
    } else {
        n * fact((n - 1) as nat)
    }
}

/// Binomial coefficients by Pascal's rule; `binom(n, k) == 0` for `k > n`.
pub open spec fn binom(n: nat, k: nat) -> nat
    decreases n,
{
    if k == 0 {
        1
    } else if n == 0 {
        0
    } else {
        binom((n - 1) as nat, (k - 1) as nat) + binom((n - 1) as nat, k)
    }
}

/// Factorials are positive.
pub proof fn lemma_fact_pos(n: nat)
    ensures
        fact(n) >= 1,
    decreases n,
{
    if n > 0 {
        lemma_fact_pos((n - 1) as nat);
        assert(n * fact((n - 1) as nat) >= 1) by (nonlinear_arith)
            requires
                n >= 1,
                fact((n - 1) as nat) >= 1,
        ;
    }
}

/// Above the diagonal the coefficient vanishes.
pub proof fn lemma_binom_above(n: nat, k: nat)
    requires
        k > n,
    ensures
        binom(n, k) == 0,
    decreases n,
{
    if n > 0 {
        lemma_binom_above((n - 1) as nat, (k - 1) as nat);
        lemma_binom_above((n - 1) as nat, k);
    }
}

/// On the diagonal the coefficient is one.
pub proof fn lemma_binom_diag(n: nat)
    ensures
        binom(n, n) == 1,
    decreases n,
{
    if n > 0 {
        lemma_binom_diag((n - 1) as nat);
        lemma_binom_above((n - 1) as nat, n);
    }
}

/// Within the triangle the coefficient is positive.
pub proof fn lemma_binom_pos(n: nat, k: nat)
    requires
        k <= n,
    ensures
        binom(n, k) >= 1,
    decreases n,
{
    if k > 0 && n > 0 {
        lemma_binom_pos((n - 1) as nat, (k - 1) as nat);
    }
}

/// The closed form: `binom(n, k) * k! * (n - k)! == n!`.
pub proof fn lemma_binom_fact(n: nat, k: nat)
    requires
        k <= n,
    ensures
        binom(n, k) * fact(k) * fact((n - k) as nat) == fact(n),
    decreases n,
{
    if k == 0 {
        assert(1 * fact(0) * fact(n) == fact(n));
    } else if k == n {
        lemma_binom_diag(n);
        assert((n - k) as nat == 0);
        assert(fact((n - k) as nat) == 1);
    } else {
        // 0 < k < n, so n >= 2 and both halves of Pascal's rule apply.
        let n1 = (n - 1) as nat;
        let b1 = binom(n1, (k - 1) as nat);
        let b2 = binom(n1, k);
        lemma_binom_fact(n1, (k - 1) as nat);
        lemma_binom_fact(n1, k);
        let fk1 = fact((k - 1) as nat);
        let fnk = fact((n - k) as nat);
        let fnk1 = fact((n - k - 1) as nat);
        let fk = fact(k);
        assert(fk == k * fk1);
        assert(fnk == (n - k) * fnk1);
        assert(b1 * fk1 * fact((n1 - (k - 1)) as nat) == fact(n1));
        assert((n1 - (k - 1)) as nat == (n - k) as nat);
        assert(b1 * fk1 * fnk == fact(n1));
        assert(b2 * fk * fnk1 == fact(n1));
        assert(b1 * fk * fnk == k * fact(n1)) by (nonlinear_arith)
            requires
                fk == k * fk1,
                b1 * fk1 * fnk == fact(n1),
        ;
        assert(b2 * fk * fnk == (n - k) * fact(n1)) by (nonlinear_arith)
            requires
                fnk == (n - k) * fnk1,
                b2 * fk * fnk1 == fact(n1),
        ;
        assert((b1 + b2) * fk * fnk == b1 * fk * fnk + b2 * fk * fnk) by (nonlinear_arith);
        assert(binom(n, k) == b1 + b2);
        assert(k * fact(n1) + (n - k) * fact(n1) == n * fact(n1)) by (nonlinear_arith);
        assert(fact(n) == n * fact(n1));
    }
}

/// The multiplicative step between neighbouring coefficients:
/// `binom(n, k) * (n - k) == binom(n, k + 1) * (k + 1)`.
pub proof fn lemma_binom_step(n: nat, k: nat)
    requires
        k < n,
    ensures
        binom(n, k) * ((n - k) as nat) == binom(n, k + 1) * (k + 1),
{
    let a = binom(n, k);
    let b = binom(n, k + 1);
    let fk = fact(k);
    let fnk1 = fact((n - k - 1) as nat);
    lemma_binom_fact(n, k);
    lemma_binom_fact(n, k + 1);
    lemma_fact_pos(k);
    lemma_fact_pos((n - k - 1) as nat);
    assert(fact((n - k) as nat) == (n - k) * fnk1);
    assert(fact((k + 1) as nat) == (k + 1) * fk);
    assert(a * fk * ((n - k) * fnk1) == b * ((k + 1) * fk) * fnk1) by {
        assert(a * fk * fact((n - k) as nat) == fact(n));
        assert(b * fact((k + 1) as nat) * fact((n - (k + 1)) as nat) == fact(n));
    }
    assert(a * (n - k) == b * (k + 1)) by (nonlinear_arith)
        requires
            a * fk * ((n - k) * fnk1) == b * ((k + 1) * fk) * fnk1,
            fk >= 1,
            fnk1 >= 1,
    ;
}

/// Every coefficient in row `n` is at most `2^n`.
pub proof fn lemma_binom_le_pow2(n: nat, k: nat)
    ensures
        binom(n, k) <= pow2(n),
    decreases n,
{
    lemma_pow2_pos(n);
    if k == 0 {
    } else if n == 0 {
    } else {
        let n1 = (n - 1) as nat;
        lemma_binom_le_pow2(n1, (k - 1) as nat);
        lemma_binom_le_pow2(n1, k);
        lemma_pow2_adds(1, n1);
        lemma2_to64();
    }
}

/// `2^e <= 2^120` for every exponent up to 120, with the concrete value.
proof fn lemma_pow2_at_most_120(e: nat)
    requires
        e <= 120,
    ensures
        pow2(e) <= 0x1000000000000000000000000000000,
{
    lemma_pow2_adds(64, 56);
    lemma2_to64();
    lemma2_to64_rest();
    assert(pow2(120) == 0x1000000000000000000000000000000);
    if e < 120 {
        lemma_pow2_strictly_increases(e, 120);
    }
}

/// Exact binomial coefficient by the multiplicative rule.
///
/// Row 120 is the largest row for which the running product times the next
/// factor is proved to fit in `u128`.
pub fn combination(n: u64, k: u64) -> (c: u128)
    requires
        k <= n,
        n <= COMBINATION_LIMIT,
    ensures
        c == binom(n as nat, k as nat),
{
    let mut c: u128 = 1;
    let mut i: u64 = 0;
    while i < k
        invariant
            i <= k,
            k <= n,
            n <= COMBINATION_LIMIT,
            c == binom(n as nat, i as nat),
        decreases k - i,
    {
        proof {
            lemma_binom_step(n as nat, i as nat);
            lemma_binom_le_pow2(n as nat, i as nat);
            lemma_pow2_at_most_120(n as nat);
            lemma_mul_upper_bound(
                c as int,
                0x1000000000000000000000000000000,
                (n - i) as int,
                120,
            );
        }
        let t: u128 = c * ((n - i) as u128);
        let d: u128 = (i + 1) as u128;
        proof {
            lemma_binom_pos(n as nat, (i + 1) as nat);
            lemma_div_by_multiple(binom(n as nat, (i + 1) as nat) as int, d as int);
        }
        c = t / d;
        i = i + 1;
    }
    c
}

} // verus!
