//! Exact non-negative rational values.
//!
//! A probability computed by a discrete model is an exact ratio of two
//! 128-bit naturals.  This module also provides the checked power used to
//! build such ratios and the two-and-five reduction that shrinks a
//! micro-unit fraction (whose denominator is a power of ten) to lowest
//! terms.

use vstd::prelude::*;

verus! {

use vstd::arithmetic::mul::lemma_mul_inequality;
use vstd::arithmetic::power::lemma_pow_adds;
use vstd::arithmetic::power::lemma_pow_positive;
use vstd::arithmetic::power::pow;

/// An exact non-negative rational number `num / den`.
#[derive(Clone, Copy, Debug, PartialEq, Eq, Structural)]
pub struct Ratio {
    pub num: u128,
    pub den: u128,
}

impl Ratio {
    /// A ratio is well formed when its denominator is positive.
    pub open spec fn wf(self) -> bool {
        self.den >= 1
    }
}

/// `base ^ exp` when the value fits in `u128`, `None` when it overflows.
pub fn pow_u128(base: u64, exp: u64) -> (r: Option<u128>)
    ensures
        match r {
            Some(v) => v == pow(base as int, exp as nat),
            None => pow(base as int, exp as nat) > u128::MAX,
        },
{
    let mut acc: u128 = 1;
    let mut i: u64 = 0;
    proof {
        vstd::arithmetic::power::lemma_pow0(base as int);
    }
    while i < exp
        invariant
            i <= exp,
            acc == pow(base as int, i as nat),
        decreases exp - i,
    {
        let next = acc.checked_mul(base as u128);
        proof {
            lemma_pow_adds(base as int, i as nat, 1);
            vstd::arithmetic::power::lemma_pow1(base as int);
            assert((i + 1) as nat == i as nat + 1);
            assert(pow(base as int, (i + 1) as nat) == pow(base as int, i as nat) * base);
        }
        match next {
            Some(v) => {
                acc = v;
            },
            None => {
                proof {
                    // The partial power already overflows; the full power is
                    // at least as large because the remaining factors are
                    // positive.
                    assert(acc * base > u128::MAX);
                    assert(base >= 1 && acc >= 1) by (nonlinear_arith)
                        requires
                            acc * base > 0,
                            acc >= 0,
                            base >= 0,
                    ;
                    let rest = (exp - i - 1) as nat;
                    lemma_pow_adds(base as int, (i + 1) as nat, rest);
                    lemma_pow_positive(base as int, rest);
                    lemma_mul_inequality(
                        1,
                        pow(base as int, rest),
                        pow(base as int, (i + 1) as nat),
                    );
                }
                return None;
            },
        }
        i = i + 1;
    }
    Some(acc)
}

/// Repeatedly cancel a common factor of two from a fraction.
pub open spec fn shave2(num: nat, den: nat) -> (nat, nat)
    decreases den,
{
    if num >= 1 && den >= 1 && num % 2 == 0 && den % 2 == 0 {
        shave2(num / 2, den / 2)
    } else {
        (num, den)
    }
}

/// Repeatedly cancel a common factor of five from a fraction.
pub open spec fn shave5(num: nat, den: nat) -> (nat, nat)
    decreases den,
{
    if num >= 1 && den >= 1 && num % 5 == 0 && den % 5 == 0 {
        shave5(num / 5, den / 5)
    } else {
        (num, den)
    }
}

/// A micro-unit fraction in lowest terms: its denominator divides a power
/// of ten, so cancelling twos and fives is a complete reduction.
pub open spec fn reduced(num: nat, den: nat) -> (nat, nat) {
    let a = shave2(num, den);
    shave5(a.0, a.1)
}

proof fn lemma_shave2_value(num: nat, den: nat)
    requires
        num >= 1,
        den >= 1,
    ensures
        ({
            let r = shave2(num, den);
            &&& 1 <= r.0 <= num
            &&& 1 <= r.1 <= den
            &&& r.0 * den == num * r.1
        }),
    decreases den,
{
    if num % 2 == 0 && den % 2 == 0 {
        let a = num / 2;
        let b = den / 2;
        lemma_shave2_value(a, b);
        let r = shave2(a, b);
        assert(r.0 * den == num * r.1) by (nonlinear_arith)
            requires
                r.0 * b == a * r.1,
                num == 2 * a,
                den == 2 * b,
        ;
    }
}

proof fn lemma_shave5_value(num: nat, den: nat)
    requires
        num >= 1,
        den >= 1,
    ensures
        ({
            let r = shave5(num, den);
            &&& 1 <= r.0 <= num
            &&& 1 <= r.1 <= den
            &&& r.0 * den == num * r.1
        }),
    decreases den,
{
    if num % 5 == 0 && den % 5 == 0 {
        let a = num / 5;
        let b = den / 5;
        lemma_shave5_value(a, b);
        let r = shave5(a, b);
        assert(r.0 * den == num * r.1) by (nonlinear_arith)
            requires
                r.0 * b == a * r.1,
                num == 5 * a,
                den == 5 * b,
        ;
    }
}

/// The reduction keeps the value of the fraction: the cross products of the
/// reduced and the original pair agree, and the reduction respects order
/// between numerator and denominator.
pub proof fn lemma_reduced_value(num: nat, den: nat)
    requires
        num >= 1,
        den >= 1,
    ensures
        ({
            let r = reduced(num, den);
            &&& 1 <= r.0 <= num
            &&& 1 <= r.1 <= den
            &&& r.0 * den == num * r.1
            &&& (num < den ==> r.0 < r.1)
            &&& (num == den ==> r.0 == r.1)
        }),
{
    lemma_shave2_value(num, den);
    let a = shave2(num, den);
    lemma_shave5_value(a.0, a.1);
    let r = reduced(num, den);
    assert(r.0 * den == num * r.1) by (nonlinear_arith)
        requires
            a.0 * den == num * a.1,
            r.0 * a.1 == a.0 * r.1,
            a.1 >= 1,
    ;
    assert(num < den ==> r.0 < r.1) by (nonlinear_arith)
        requires
            r.0 * den == num * r.1,
            r.0 >= 1,
            r.1 >= 1,
            den >= 1,
            num >= 1,
    ;
    assert(num == den ==> r.0 == r.1) by (nonlinear_arith)
        requires
            r.0 * den == num * r.1,
            den >= 1,
    ;
}

/// Cancel all common factors of two and five from a fraction.
pub fn reduce_fraction(num: u64, den: u64) -> (r: (u64, u64))
    requires
        1 <= num,
        1 <= den,
    ensures
        (r.0 as nat, r.1 as nat) == reduced(num as nat, den as nat),
        1 <= r.0 <= num,
        1 <= r.1 <= den,
        r.0 * (den as int) == (num as int) * r.1,
        num < den ==> r.0 < r.1,
        num == den ==> r.0 == r.1,
{
    let mut n = num;
    let mut d = den;
    while n % 2 == 0 && d % 2 == 0
        invariant
            1 <= n <= num,
            1 <= d <= den,
            shave2(n as nat, d as nat) == shave2(num as nat, den as nat),
        decreases d,
    {
        n = n / 2;
        d = d / 2;
    }
    let ghost a = shave2(num as nat, den as nat);
    proof {
        assert(shave2(n as nat, d as nat) == (n as nat, d as nat));
        assert((n as nat, d as nat) == a);
    }
    while n % 5 == 0 && d % 5 == 0
        invariant
            1 <= n <= num,
            1 <= d <= den,
            a == shave2(num as nat, den as nat),
            shave5(n as nat, d as nat) == shave5(a.0, a.1),
        decreases d,
    {
        n = n / 5;
        d = d / 5;
    }
    proof {
        lemma_reduced_value(num as nat, den as nat);
    }
    (n, d)
}

} // verus!
