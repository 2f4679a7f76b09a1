//! Laws of the exact masses.
//!
//! The central ones: a full row of binomial masses sums to its common
//! denominator (the binomial theorem over the mass numerators), a full row
//! of hypergeometric masses sums to its common denominator (the
//! Vandermonde convolution), and the geometric partial sums fall short of
//! one by exactly the all-failures mass.  Each distribution carries total
//! probability exactly one over its whole parameter space.

use vstd::prelude::*;

verus! {

use vstd::arithmetic::power::lemma_pow0;
use vstd::arithmetic::power::lemma_pow1;
use vstd::arithmetic::power::lemma_pow_adds;
use vstd::arithmetic::power::pow;

use crate::combin::binom;
use crate::combin::lemma_binom_diag;
use crate::discrete::binomial_den;
use crate::discrete::binomial_num;
use crate::discrete::geometric_den;
use crate::discrete::geometric_num;
use crate::discrete::hypergeometric_num;
use crate::discrete::Binomial;
use crate::discrete::Hypergeometric;

/// One term of the binomial expansion of `(a + b)^n`.
pub open spec fn expansion_term(n: nat, j: nat, a: int, b: int) -> int {
    binom(n, j) * pow(a, j) * pow(b, (n - j) as nat)
}

/// The expansion terms for `j` up to `k`, summed.
pub open spec fn expansion_sum(n: nat, k: nat, a: int, b: int) -> int
    decreases k,
{
    if k == 0 {
        expansion_term(n, 0, a, b)
    } else {
        expansion_sum(n, (k - 1) as nat, a, b) + expansion_term(n, k, a, b)
    }
}

/// The binomial mass numerators for `j` up to `k`, summed.
pub open spec fn binomial_mass_sum(n: nat, k: nat, p_num: int, p_den: int) -> int
    decreases k,
{
    if k == 0 {
        binomial_num(n, 0, p_num, p_den)
    } else {
        binomial_mass_sum(n, (k - 1) as nat, p_num, p_den) + binomial_num(n, k, p_num, p_den)
    }
}

proof fn lemma_pow_step(x: int, e: nat)
    requires
        e >= 1,
    ensures
        pow(x, e) == x * pow(x, (e - 1) as nat),
{
    lemma_pow_adds(x, 1, (e - 1) as nat);
    lemma_pow1(x);
}

/// Splitting a partial expansion sum of row `n` along Pascal's rule into
/// the two partial sums of row `n - 1` it is built from.
proof fn lemma_expansion_split(n: nat, k: nat, a: int, b: int)
    requires
        2 <= n,
        1 <= k <= n - 1,
    ensures
        expansion_sum(n, k, a, b) == a * expansion_sum((n - 1) as nat, (k - 1) as nat, a, b) + b
            * expansion_sum((n - 1) as nat, k, a, b),
    decreases k,
{
    let n1 = (n - 1) as nat;
    if k == 1 {
        reveal_with_fuel(binom, 3);
        reveal_with_fuel(expansion_sum, 3);
        let bb = binom(n1, 1) as int;
        let p = pow(b, (n - 2) as nat);
        lemma_pow0(a);
        lemma_pow0(b);
        lemma_pow1(a);
        lemma_pow_step(b, (n - 1) as nat);
        lemma_pow_step(b, n);
        assert(binom(n, 0) == 1 && binom(n, 1) == 1 + binom(n1, 1) && binom(n1, 0) == 1);
        assert(expansion_sum(n, 1, a, b) == expansion_term(n, 0, a, b) + expansion_term(
            n,
            1,
            a,
            b,
        ));
        assert(expansion_term(n, 0, a, b) == 1 * 1 * (b * (b * p)));
        assert(expansion_term(n, 1, a, b) == (1 + bb) * (1 * a) * (b * p)) by {
            assert(pow(a, 1) == 1 * a);
        }
        assert(expansion_sum(n1, 0, a, b) == 1 * 1 * (b * p));
        assert(expansion_sum(n1, 1, a, b) == 1 * 1 * (b * p) + bb * (1 * a) * p);
        assert(1 * 1 * (b * (b * p)) + (1 + bb) * (1 * a) * (b * p) == a * (1 * 1 * (b * p)) + b
            * (1 * 1 * (b * p) + bb * (1 * a) * p)) by (nonlinear_arith);
    } else {
        lemma_expansion_split(n, (k - 1) as nat, a, b);
        let x = expansion_sum(n1, (k - 2) as nat, a, b);
        let y = expansion_sum(n1, (k - 1) as nat, a, b);
        let z = expansion_sum(n1, k, a, b);
        let b1 = binom(n1, (k - 1) as nat) as int;
        let b2 = binom(n1, k) as int;
        let a1 = pow(a, (k - 1) as nat);
        let bp = pow(b, (n - k - 1) as nat);
        lemma_pow_step(a, k);
        lemma_pow_step(b, (n - k) as nat);
        assert(binom(n, k) == b1 + b2);
        assert(expansion_term(n, k, a, b) == (b1 + b2) * (a * a1) * (b * bp));
        assert(expansion_term(n1, (k - 1) as nat, a, b) == b1 * a1 * (b * bp)) by {
            assert((n1 - (k - 1)) as nat == (n - k) as nat);
        }
        assert(expansion_term(n1, k, a, b) == b2 * (a * a1) * bp) by {
            assert((n1 - k) as nat == (n - k - 1) as nat);
        }
        let w1 = b1 * a1 * (b * bp);
        let w2 = b2 * (a * a1) * bp;
        assert(y == x + w1);
        assert(z == y + w2);
        assert(expansion_sum(n, k, a, b) == (a * x + b * y) + (b1 + b2) * (a * a1) * (b * bp));
        assert((b1 + b2) * (a * a1) * (b * bp) == b1 * (a * a1) * (b * bp) + b2 * (a * a1) * (b
            * bp)) by (nonlinear_arith);
        assert(b1 * (a * a1) * (b * bp) == a * (b1 * a1 * (b * bp))) by (nonlinear_arith);
        assert(b2 * (a * a1) * (b * bp) == b * (b2 * (a * a1) * bp)) by (nonlinear_arith);
        assert(a * (x + w1) == a * x + a * w1) by (nonlinear_arith);
        assert(b * (y + w2) == b * y + b * w2) by (nonlinear_arith);
        assert(expansion_sum(n, k, a, b) == a * y + b * z);
    }
}

/// The binomial theorem: the full expansion sum of row `n` equals
/// `(a + b)^n`.
pub proof fn lemma_binomial_theorem(n: nat, a: int, b: int)
    ensures
        expansion_sum(n, n, a, b) == pow(a + b, n),
    decreases n,
{
    if n == 0 {
        reveal_with_fuel(binom, 2);
        lemma_pow0(a);
        lemma_pow0(b);
        lemma_pow0(a + b);
        assert(expansion_sum(0, 0, a, b) == 1 * 1 * 1);
        assert(expansion_sum(n, n, a, b) == pow(a + b, n));
    } else if n == 1 {
        reveal_with_fuel(binom, 3);
        reveal_with_fuel(expansion_sum, 3);
        lemma_pow0(a);
        lemma_pow0(b);
        lemma_pow1(a);
        lemma_pow1(b);
        lemma_pow1(a + b);
        assert(binom(1, 0) == 1 && binom(1, 1) == 1);
        assert(expansion_sum(1, 1, a, b) == 1 * 1 * b + 1 * a * 1);
        assert(expansion_sum(n, n, a, b) == pow(a + b, n));
    } else {
        let n1 = (n - 1) as nat;
        lemma_binomial_theorem(n1, a, b);
        lemma_expansion_split(n, (n - 1) as nat, a, b);
        lemma_binom_diag(n);
        lemma_binom_diag(n1);
        lemma_pow0(b);
        lemma_pow_step(a, n);
        lemma_pow_step(a + b, n);
        let s1 = expansion_sum(n1, n1, a, b);
        let x = expansion_sum(n1, (n - 2) as nat, a, b);
        let an1 = pow(a, (n - 1) as nat);
        assert(expansion_term(n, n, a, b) == 1 * (a * an1) * 1);
        assert(expansion_term(n1, n1, a, b) == 1 * an1 * 1);
        assert(s1 == x + 1 * an1 * 1);
        assert(expansion_sum(n, n, a, b) == (a * x + b * s1) + 1 * (a * an1) * 1);
        assert((a * x + b * s1) + 1 * (a * an1) * 1 == (a + b) * s1) by (nonlinear_arith)
            requires
                s1 == x + 1 * an1 * 1,
        ;
        assert((a + b) * s1 == pow(a + b, n));
        assert(expansion_sum(n, n, a, b) == pow(a + b, n));
    }
}

/// The mass-numerator sums are the expansion sums of the success and
/// failure numerators.
proof fn lemma_mass_sum_is_expansion(n: nat, k: nat, p_num: int, p_den: int)
    ensures
        binomial_mass_sum(n, k, p_num, p_den) == expansion_sum(n, k, p_num, p_den - p_num),
    decreases k,
{
    if k > 0 {
        lemma_mass_sum_is_expansion(n, (k - 1) as nat, p_num, p_den);
    }
}

/// Law: over the full support, the exact binomial masses carry total
/// probability one.  For every trial count and every success fraction,
/// the mass numerators at `k = 0, ..., n` sum to the common denominator
/// `p_den^n` exactly.
pub proof fn lemma_binomial_masses_sum_to_one(n: nat, p_num: int, p_den: int)
    ensures
        binomial_mass_sum(n, n, p_num, p_den) == binomial_den(n, p_den),
{
    lemma_mass_sum_is_expansion(n, n, p_num, p_den);
    lemma_binomial_theorem(n, p_num, p_den - p_num);
    assert(p_num + (p_den - p_num) == p_den);
}


/// A partial Vandermonde sum: `binom(a, x) * binom(b, k - x)` for `x` up
/// to `j`.
pub open spec fn vandermonde_sum(a: nat, b: nat, k: nat, j: nat) -> int
    decreases j,
{
    if j == 0 {
        binom(a, 0) * binom(b, k) as int
    } else {
        vandermonde_sum(a, b, k, (j - 1) as nat) + binom(a, j) * binom(b, (k - j) as nat) as int
    }
}

/// The hypergeometric mass numerators for `x` up to `j`, summed.
pub open spec fn hypergeometric_mass_sum(n: nat, m: nat, k: nat, j: nat) -> int
    decreases j,
{
    if j == 0 {
        hypergeometric_num(0, n, m, k)
    } else {
        hypergeometric_mass_sum(n, m, k, (j - 1) as nat) + hypergeometric_num(j, n, m, k)
    }
}

/// With no marked items, every term but the first vanishes.
proof fn lemma_vandermonde_base(b: nat, k: nat, j: nat)
    requires
        j <= k,
    ensures
        vandermonde_sum(0, b, k, j) == binom(b, k),
    decreases j,
{
    reveal_with_fuel(binom, 2);
    if j == 0 {
        assert(vandermonde_sum(0, b, k, 0) == 1 * binom(b, k) as int);
    } else {
        lemma_vandermonde_base(b, k, (j - 1) as nat);
        assert(binom(0, j) == 0);
        assert(vandermonde_sum(0, b, k, j) == vandermonde_sum(0, b, k, (j - 1) as nat) + 0 * binom(
            b,
            (k - j) as nat,
        ) as int);
    }
}

/// Splitting a partial Vandermonde sum along Pascal's rule on the first
/// argument.
proof fn lemma_vandermonde_split(a: nat, b: nat, k: nat, j: nat)
    requires
        1 <= a,
        1 <= j <= k,
    ensures
        vandermonde_sum(a, b, k, j) == vandermonde_sum((a - 1) as nat, b, k, j) + vandermonde_sum(
            (a - 1) as nat,
            b,
            (k - 1) as nat,
            (j - 1) as nat,
        ),
    decreases j,
{
    let a1 = (a - 1) as nat;
    if j == 1 {
        reveal_with_fuel(binom, 3);
        reveal_with_fuel(vandermonde_sum, 3);
        let c = binom(a1, 1) as int;
        let d = binom(b, (k - 1) as nat) as int;
        assert(binom(a, 1) == 1 + c);
        assert(binom(a, 0) == 1);
        assert(vandermonde_sum(a, b, k, 0) == 1 * binom(b, k) as int);
        assert(vandermonde_sum(a, b, k, 1) == vandermonde_sum(a, b, k, 0) + binom(a, 1) * binom(
            b,
            (k - 1) as nat,
        ) as int);
        assert(vandermonde_sum(a, b, k, 1) == binom(b, k) + (1 + c) * d);
        assert(vandermonde_sum(a1, b, k, 1) == binom(b, k) + c * d);
        assert(vandermonde_sum(a1, b, (k - 1) as nat, 0) == 1 * d);
        assert((1 + c) * d == c * d + 1 * d) by (nonlinear_arith);
    } else {
        lemma_vandermonde_split(a, b, k, (j - 1) as nat);
        let b1 = binom(a1, (j - 1) as nat) as int;
        let b2 = binom(a1, j) as int;
        let d = binom(b, (k - j) as nat) as int;
        assert(binom(a, j) == b1 + b2);
        assert(vandermonde_sum(a, b, k, j) == vandermonde_sum(a, b, k, (j - 1) as nat) + (b1 + b2)
            * d);
        assert(vandermonde_sum(a1, b, k, j) == vandermonde_sum(a1, b, k, (j - 1) as nat) + b2 * d);
        assert(vandermonde_sum(a1, b, (k - 1) as nat, (j - 1) as nat) == vandermonde_sum(
            a1,
            b,
            (k - 1) as nat,
            (j - 2) as nat,
        ) + b1 * binom(b, ((k - 1) - (j - 1)) as nat) as int);
        assert(((k - 1) - (j - 1)) as nat == (k - j) as nat);
        assert((b1 + b2) * d == b1 * d + b2 * d) by (nonlinear_arith);
    }
}

/// The Vandermonde convolution: choosing `k` from `a + b` splits over how
/// many come from the first `a`.
pub proof fn lemma_vandermonde(a: nat, b: nat, k: nat)
    ensures
        vandermonde_sum(a, b, k, k) == binom(a + b, k),
    decreases a,
{
    if a == 0 {
        lemma_vandermonde_base(b, k, k);
    } else if k == 0 {
        reveal_with_fuel(binom, 2);
        assert(vandermonde_sum(a, b, 0, 0) == 1 * binom(b, 0) as int);
    } else {
        let a1 = (a - 1) as nat;
        lemma_vandermonde_split(a, b, k, k);
        lemma_vandermonde(a1, b, k);
        lemma_vandermonde(a1, b, (k - 1) as nat);
        assert(binom(a + b, k) == binom((a + b - 1) as nat, (k - 1) as nat) + binom(
            (a + b - 1) as nat,
            k,
        ));
        assert(a1 + b == (a + b - 1) as nat);
    }
}

/// The hypergeometric mass sums are Vandermonde sums of the marked and
/// unmarked populations.
proof fn lemma_hypergeometric_sum_is_vandermonde(n: nat, m: nat, k: nat, j: nat)
    requires
        m <= n,
        j <= k,
    ensures
        hypergeometric_mass_sum(n, m, k, j) == vandermonde_sum(m, (n - m) as nat, k, j),
    decreases j,
{
    if j > 0 {
        lemma_hypergeometric_sum_is_vandermonde(n, m, k, (j - 1) as nat);
    }
}

/// Law: over the full support, the exact hypergeometric masses carry total
/// probability one.  For every population split and draw count, the mass
/// numerators at `x = 0, ..., k` sum to the common denominator
/// `binom(n, k)` exactly.
pub proof fn lemma_hypergeometric_masses_sum_to_one(n: nat, m: nat, k: nat)
    requires
        m <= n,
    ensures
        hypergeometric_mass_sum(n, m, k, k) == binom(n, k),
{
    lemma_hypergeometric_sum_is_vandermonde(n, m, k, k);
    lemma_vandermonde(m, (n - m) as nat, k);
    assert(m + ((n - m) as nat) == n);
}


/// The geometric mass numerators for `k = 1, ..., j` over the common
/// denominator `p_den^j`: each step scales the running sum up to the next
/// denominator before adding the next mass numerator.
pub open spec fn geometric_mass_sum(j: nat, p_num: int, p_den: int) -> int
    decreases j,
{
    if j == 0 {
        0
    } else {
        geometric_mass_sum((j - 1) as nat, p_num, p_den) * p_den + geometric_num(
            j,
            p_num,
            p_den,
        )
    }
}

/// Law: the geometric partial sums approach one, and the deficit is known
/// exactly.  After `j` trials the accumulated mass falls short of the
/// common denominator `p_den^j` by exactly `(p_den - p_num)^j` — the
/// numerator of the probability that the first `j` trials all fail — so
/// the total mass tends to one as `j` grows whenever the failure fraction
/// is below one.
pub proof fn lemma_geometric_masses_approach_one(j: nat, p_num: int, p_den: int)
    ensures
        geometric_mass_sum(j, p_num, p_den) == geometric_den(j, p_den) - pow(
            p_den - p_num,
            j,
        ),
    decreases j,
{
    let q = p_den - p_num;
    if j == 0 {
        lemma_pow0(p_den);
        lemma_pow0(q);
    } else {
        lemma_geometric_masses_approach_one((j - 1) as nat, p_num, p_den);
        lemma_pow_step(p_den, j);
        lemma_pow_step(q, j);
        let s1 = geometric_mass_sum((j - 1) as nat, p_num, p_den);
        let d1 = pow(p_den, (j - 1) as nat);
        let q1 = pow(q, (j - 1) as nat);
        assert(geometric_num(j, p_num, p_den) == q1 * p_num);
        assert(s1 * p_den + q1 * p_num == pow(p_den, j) - pow(q, j)) by (nonlinear_arith)
            requires
                s1 == d1 - q1,
                pow(p_den, j) == p_den * d1,
                pow(q, j) == q * q1,
                q == p_den - p_num,
        ;
    }
}


/// Law: every valid binomial model carries total probability one — the
/// row of its exact masses sums to its common denominator.
pub proof fn lemma_binomial_model_total_mass(b: Binomial)
    requires
        b.wf(),
    ensures
        binomial_mass_sum(b.trials as nat, b.trials as nat, b.p_num as int, b.p_den as int)
            == binomial_den(b.trials as nat, b.p_den as int),
{
    lemma_binomial_masses_sum_to_one(b.trials as nat, b.p_num as int, b.p_den as int);
}

/// Law: every valid hypergeometric model carries total probability one —
/// its mass numerators over the full support sum to `binom(n, k)`.
pub proof fn lemma_hypergeometric_model_total_mass(h: Hypergeometric)
    requires
        h.wf(),
    ensures
        hypergeometric_mass_sum(
            h.population as nat,
            h.marked as nat,
            h.draws as nat,
            h.draws as nat,
        ) == binom(h.population as nat, h.draws as nat),
{
    lemma_hypergeometric_masses_sum_to_one(
        h.population as nat,
        h.marked as nat,
        h.draws as nat,
    );
}

} // verus!
