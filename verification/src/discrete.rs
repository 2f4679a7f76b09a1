//! Exact probability mass functions of the discrete models.
//!
//! Success probabilities arrive as exact fractions (micro-units reduced to
//! lowest terms), so every mass is an exact ratio of 128-bit naturals.  Each
//! evaluator is total over its parameter space: outside the support it
//! returns the exact mass zero, and where the exact numerator or denominator
//! would not fit in 128 bits it reports `None` instead of a rounded value —
//! the contracts state exactly when that happens.

use vstd::prelude::*;

verus! {

use vstd::arithmetic::power::lemma_pow_positive;
use vstd::arithmetic::power::pow;

use crate::combin::binom;
use crate::combin::combination;
use crate::combin::lemma_binom_above;
use crate::combin::lemma_binom_pos;
use crate::combin::COMBINATION_LIMIT;
use crate::model::lemma_div_bounded;
use crate::model::lemma_div_le;
use crate::model::ConstraintViolation;
use crate::model::Stat;
use crate::model::MICROS;
use crate::ratio::pow_u128;
use crate::ratio::reduce_fraction;
use crate::ratio::reduced;
use crate::ratio::Ratio;

/// Numerator of the binomial mass `C(n, k) p^k (1-p)^(n-k)` over the
/// common denominator `p_den^n`, for `p == p_num / p_den`.
pub open spec fn binomial_num(n: nat, k: nat, p_num: int, p_den: int) -> int {
    binom(n, k) * pow(p_num, k) * pow(p_den - p_num, (n - k) as nat)
}

/// Common denominator of the binomial masses.
pub open spec fn binomial_den(n: nat, p_den: int) -> int {
    pow(p_den, n)
}

/// Checked triple product; the last factor must be positive so that an
/// early overflow implies the whole product overflows.
fn mul3_checked(a: u128, b: u128, c: u128) -> (r: Option<u128>)
    requires
        c >= 1,
    ensures
        match r {
            Some(v) => v == a * b * c && a * b * c <= u128::MAX,
            None => a * b * c > u128::MAX,
        },
{
    match a.checked_mul(b) {
        Some(ab) => {
            match ab.checked_mul(c) {
                Some(v) => Some(v),
                None => None,
            }
        },
        None => {
            proof {
                assert(a * b * c > u128::MAX) by (nonlinear_arith)
                    requires
                        a * b > u128::MAX,
                        c >= 1,
                ;
            }
            None
        },
    }
}

/// Exact binomial mass at `k` for `n` trials and success probability
/// `p_num / p_den`, strictly between zero and one.
pub fn binomial_pmf(k: u64, n: u64, p_num: u64, p_den: u64) -> (r: Option<Ratio>)
    requires
        1 <= n,
        1 <= p_num < p_den,
    ensures
        k > n ==> r == Some(Ratio { num: 0u128, den: 1u128 }),
        k <= n ==> match r {
            Some(v) => {
                &&& n <= COMBINATION_LIMIT
                &&& v.num == binomial_num(n as nat, k as nat, p_num as int, p_den as int)
                &&& v.den == binomial_den(n as nat, p_den as int)
                &&& v.num <= u128::MAX
                &&& v.den <= u128::MAX
            },
            None => {
                ||| n > COMBINATION_LIMIT
                ||| binomial_num(n as nat, k as nat, p_num as int, p_den as int) > u128::MAX
                ||| binomial_den(n as nat, p_den as int) > u128::MAX
            },
        },
{
    if k > n {
        return Some(Ratio { num: 0, den: 1 });
    }
    if n > COMBINATION_LIMIT {
        return None;
    }
    let q = p_den - p_num;
    let ghost bi = binom(n as nat, k as nat) as int;
    let ghost pk = pow(p_num as int, k as nat);
    let ghost qk = pow(q as int, (n - k) as nat);
    proof {
        lemma_binom_pos(n as nat, k as nat);
        lemma_pow_positive(p_num as int, k as nat);
        lemma_pow_positive(q as int, (n - k) as nat);
        lemma_pow_positive(p_den as int, n as nat);
    }
    let c = combination(n, k);
    let p_pow = match pow_u128(p_num, k) {
        Some(v) => v,
        None => {
            proof {
                assert(bi * pk * qk > u128::MAX) by (nonlinear_arith)
                    requires
                        pk > u128::MAX,
                        bi >= 1,
                        qk >= 1,
                ;
            }
            return None;
        },
    };
    let q_pow = match pow_u128(q, n - k) {
        Some(v) => v,
        None => {
            proof {
                assert(bi * pk * qk > u128::MAX) by (nonlinear_arith)
                    requires
                        qk > u128::MAX,
                        bi >= 1,
                        pk >= 1,
                ;
            }
            return None;
        },
    };
    let den = match pow_u128(p_den, n) {
        Some(v) => v,
        None => {
            return None;
        },
    };
    match mul3_checked(c, p_pow, q_pow) {
        Some(num) => Some(Ratio { num, den }),
        None => None,
    }
}

/// Numerator of the geometric mass `(1-p)^(k-1) p` over `p_den^k`, for
/// the number `k >= 1` of trials up to the first success.
pub open spec fn geometric_num(k: nat, p_num: int, p_den: int) -> int {
    pow(p_den - p_num, (k - 1) as nat) * p_num
}

/// Common denominator of the geometric masses.
pub open spec fn geometric_den(k: nat, p_den: int) -> int {
    pow(p_den, k)
}

/// Exact geometric mass at `k >= 1` for success probability
/// `p_num / p_den` in `(0, 1]`.
pub fn geometric_pmf(k: u64, p_num: u64, p_den: u64) -> (r: Option<Ratio>)
    requires
        1 <= k,
        1 <= p_num <= p_den,
    ensures
        match r {
            Some(v) => {
                &&& v.num == geometric_num(k as nat, p_num as int, p_den as int)
                &&& v.den == geometric_den(k as nat, p_den as int)
                &&& v.num <= u128::MAX
                &&& v.den <= u128::MAX
            },
            None => {
                ||| geometric_num(k as nat, p_num as int, p_den as int) > u128::MAX
                ||| geometric_den(k as nat, p_den as int) > u128::MAX
            },
        },
{
    let q = p_den - p_num;
    let ghost qk = pow(q as int, (k - 1) as nat);
    let q_pow = match pow_u128(q, k - 1) {
        Some(v) => v,
        None => {
            proof {
                assert(qk * p_num > u128::MAX) by (nonlinear_arith)
                    requires
                        qk > u128::MAX,
                        p_num >= 1,
                ;
            }
            return None;
        },
    };
    let den = match pow_u128(p_den, k) {
        Some(v) => v,
        None => {
            return None;
        },
    };
    match q_pow.checked_mul(p_num as u128) {
        Some(num) => Some(Ratio { num, den }),
        None => None,
    }
}

/// Numerator of the negative binomial mass
/// `C(r + k - 1, k) (1-p)^k p^r` over `p_den^(r + k)`, for the number `k`
/// of failures before the `r`-th success.
pub open spec fn negative_binomial_num(k: nat, r: nat, p_num: int, p_den: int) -> int {
    binom((r + k - 1) as nat, k) * pow(p_den - p_num, k) * pow(p_num, r)
}

/// Common denominator of the negative binomial masses.
pub open spec fn negative_binomial_den(k: nat, r: nat, p_den: int) -> int {
    pow(p_den, (r + k) as nat)
}

/// Exact negative binomial mass at `k` for `r` required successes and
/// success probability `p_num / p_den` in `(0, 1]`.
///
/// `r == 0` asks for no successes, so all the mass sits at `k == 0`.
pub fn negative_binomial_pmf(k: u64, r: u64, p_num: u64, p_den: u64) -> (res: Option<Ratio>)
    requires
        1 <= p_num <= p_den,
    ensures
        r == 0 && k == 0 ==> res == Some(Ratio { num: 1u128, den: 1u128 }),
        r == 0 && k > 0 ==> res == Some(Ratio { num: 0u128, den: 1u128 }),
        r >= 1 ==> match res {
            Some(v) => {
                &&& r + k - 1 <= COMBINATION_LIMIT
                &&& v.num == negative_binomial_num(k as nat, r as nat, p_num as int, p_den as int)
                &&& v.den == negative_binomial_den(k as nat, r as nat, p_den as int)
                &&& v.num <= u128::MAX
                &&& v.den <= u128::MAX
            },
            None => {
                ||| r + k - 1 > COMBINATION_LIMIT
                ||| negative_binomial_num(k as nat, r as nat, p_num as int, p_den as int)
                    > u128::MAX
                ||| negative_binomial_den(k as nat, r as nat, p_den as int) > u128::MAX
            },
        },
{
    if r == 0 {
        if k == 0 {
            return Some(Ratio { num: 1, den: 1 });
        }
        return Some(Ratio { num: 0, den: 1 });
    }
    if k > COMBINATION_LIMIT || r - 1 > COMBINATION_LIMIT - k {
        return None;
    }
    let q = p_den - p_num;
    let ghost bi = binom((r + k - 1) as nat, k as nat) as int;
    let ghost qk = pow(q as int, k as nat);
    let ghost pr = pow(p_num as int, r as nat);
    proof {
        lemma_binom_pos((r + k - 1) as nat, k as nat);
        lemma_pow_positive(p_num as int, r as nat);
        lemma_pow_positive(p_den as int, (r + k) as nat);
    }
    let c = combination(r + k - 1, k);
    let den = match pow_u128(p_den, r + k) {
        Some(v) => v,
        None => {
            return None;
        },
    };
    let q_pow = match pow_u128(q, k) {
        Some(v) => v,
        None => {
            proof {
                assert(bi * qk * pr > u128::MAX) by (nonlinear_arith)
                    requires
                        qk > u128::MAX,
                        bi >= 1,
                        pr >= 1,
                ;
            }
            return None;
        },
    };
    if q_pow == 0 {
        // The failure probability is zero, so every mass with k > 0 failures
        // vanishes exactly.
        proof {
            assert(bi * qk * pr == 0) by (nonlinear_arith)
                requires
                    qk == 0,
            ;
        }
        return Some(Ratio { num: 0, den });
    }
    let p_pow = match pow_u128(p_num, r) {
        Some(v) => v,
        None => {
            proof {
                assert(bi * qk * pr > u128::MAX) by (nonlinear_arith)
                    requires
                        pr > u128::MAX,
                        bi >= 1,
                        qk >= 1,
                ;
            }
            return None;
        },
    };
    match mul3_checked(c, q_pow, p_pow) {
        Some(num) => Some(Ratio { num, den }),
        None => None,
    }
}

/// Numerator of the hypergeometric mass `C(m, x) C(n - m, k - x)` over the
/// common denominator `C(n, k)`: `x` marked successes among `k` draws from
/// a population of `n` with `m` marked.
pub open spec fn hypergeometric_num(x: nat, n: nat, m: nat, k: nat) -> int {
    if x <= k {
        binom(m, x) * binom((n - m) as nat, (k - x) as nat) as int
    } else {
        0
    }
}

/// Exact hypergeometric mass at `x` for population `n`, `m` marked and `k`
/// draws, with `k <= m <= n`.
pub fn hypergeometric_pmf(x: u64, n: u64, m: u64, k: u64) -> (r: Option<Ratio>)
    requires
        k <= m <= n,
        1 <= n <= COMBINATION_LIMIT,
    ensures
        match r {
            Some(v) => {
                &&& v.num == hypergeometric_num(x as nat, n as nat, m as nat, k as nat)
                &&& v.den == binom(n as nat, k as nat)
                &&& v.num <= u128::MAX
            },
            None => hypergeometric_num(x as nat, n as nat, m as nat, k as nat) > u128::MAX,
        },
{
    let den = combination(n, k);
    proof {
        lemma_binom_pos(n as nat, k as nat);
    }
    if x > k {
        return Some(Ratio { num: 0, den });
    }
    if k - x > n - m {
        proof {
            lemma_binom_above((n - m) as nat, (k - x) as nat);
        }
        return Some(Ratio { num: 0, den });
    }
    let c1 = combination(m, x);
    let c2 = combination(n - m, k - x);
    match c1.checked_mul(c2) {
        Some(num) => Some(Ratio { num, den }),
        None => None,
    }
}

/// The binomial model: successes among a fixed number of independent
/// trials with a shared success probability.
#[derive(Clone, Copy, Debug, PartialEq, Eq, Structural)]
pub struct Binomial {
    /// Number of trials, between 1 and 500.
    pub trials: u64,
    /// Success probability in micro-units, strictly between 0 and `MICROS`.
    pub p_micros: u64,
    /// Numerator of the success probability in lowest terms.
    pub p_num: u64,
    /// Denominator of the success probability in lowest terms.
    pub p_den: u64,
}

impl Binomial {
    /// Validity of a binomial model.
    pub open spec fn wf(self) -> bool {
        &&& 1 <= self.trials <= 500
        &&& 1 <= self.p_micros < MICROS
        &&& (self.p_num as nat, self.p_den as nat) == reduced(self.p_micros as nat, MICROS as nat)
        &&& 1 <= self.p_num < self.p_den <= MICROS
    }

    /// Accepts a trial count in `1..=500` and a success probability
    /// strictly inside `(0, 1)`; anything else is a constraint violation.
    pub fn validate(trials: u64, p_micros: u64) -> (r: Result<Binomial, ConstraintViolation>)
        ensures
            r is Ok <==> (1 <= trials <= 500 && 1 <= p_micros < MICROS),
            r matches Ok(b) ==> b.wf() && b.trials == trials && b.p_micros == p_micros,
    {
        if 1 <= trials && trials <= 500 && 1 <= p_micros && p_micros < MICROS {
            let (p_num, p_den) = reduce_fraction(p_micros, MICROS);
            Ok(Binomial { trials, p_micros, p_num, p_den })
        } else {
            Err(ConstraintViolation)
        }
    }

    /// Exact mass at `k`, as `binomial_pmf` of the reduced probability.
    pub fn pmf(&self, k: u64) -> (r: Option<Ratio>)
        requires
            self.wf(),
        ensures
            k > self.trials ==> r == Some(Ratio { num: 0u128, den: 1u128 }),
            k <= self.trials ==> match r {
                Some(v) => {
                    &&& v.num == binomial_num(
                        self.trials as nat,
                        k as nat,
                        self.p_num as int,
                        self.p_den as int,
                    )
                    &&& v.den == binomial_den(self.trials as nat, self.p_den as int)
                },
                None => {
                    ||| self.trials > COMBINATION_LIMIT
                    ||| binomial_num(
                        self.trials as nat,
                        k as nat,
                        self.p_num as int,
                        self.p_den as int,
                    ) > u128::MAX
                    ||| binomial_den(self.trials as nat, self.p_den as int) > u128::MAX
                },
            },
    {
        binomial_pmf(k, self.trials, self.p_num, self.p_den)
    }

    /// The mean `n p`, exact in micro-units.
    pub fn mean(&self) -> (m: Stat)
        requires
            self.wf(),
        ensures
            m == Stat::Finite((self.trials * self.p_micros) as i64),
    {
        proof {
            assert(self.trials * self.p_micros <= 500 * 1_000_000) by (nonlinear_arith)
                requires
                    self.trials <= 500,
                    self.p_micros < 1_000_000,
            ;
        }
        Stat::Finite((self.trials * self.p_micros) as i64)
    }

    /// The variance `n p (1 - p)` in micro-units, rounded down.
    pub fn variance(&self) -> (v: Stat)
        requires
            self.wf(),
        ensures
            v == Stat::Finite(
                ((self.trials * self.p_micros * (MICROS - self.p_micros)) / (MICROS as int)) as i64,
            ),
    {
        proof {
            assert(self.trials * self.p_micros <= 500 * 1_000_000 && self.trials * self.p_micros
                * (MICROS - self.p_micros) <= 500 * 1_000_000 * 1_000_000) by (nonlinear_arith)
                requires
                    self.trials <= 500,
                    self.p_micros < 1_000_000,
                    MICROS == 1_000_000,
            ;
        }
        let t: u64 = self.trials * self.p_micros * (MICROS - self.p_micros) / MICROS;
        Stat::Finite(t as i64)
    }

    /// The sampled support runs from 0 to one past the trial count.
    pub fn support_end(&self) -> (e: u64)
        requires
            self.wf(),
        ensures
            e == self.trials + 1,
    {
        self.trials + 1
    }
}

/// The Poisson model of rare event counts.
#[derive(Clone, Copy, Debug, PartialEq, Eq, Structural)]
pub struct Poisson {
    /// Rate in micro-units, in `[0.01, 20]` whole units.
    pub lambda_micros: u64,
}

impl Poisson {
    /// Validity of a Poisson model.
    pub open spec fn wf(self) -> bool {
        10_000 <= self.lambda_micros <= 20 * MICROS
    }

    /// Accepts a rate in `[0.01, 20]` units, the adjustable range.
    pub fn validate(lambda_micros: u64) -> (r: Result<Poisson, ConstraintViolation>)
        ensures
            r is Ok <==> 10_000 <= lambda_micros <= 20 * MICROS,
            r matches Ok(m) ==> m.wf() && m.lambda_micros == lambda_micros,
    {
        if 10_000 <= lambda_micros && lambda_micros <= 20 * MICROS {
            Ok(Poisson { lambda_micros })
        } else {
            Err(ConstraintViolation)
        }
    }

    /// The mean equals the rate.
    pub fn mean(&self) -> (m: Stat)
        requires
            self.wf(),
        ensures
            m == Stat::Finite(self.lambda_micros as i64),
    {
        Stat::Finite(self.lambda_micros as i64)
    }

    /// The variance equals the rate.
    pub fn variance(&self) -> (v: Stat)
        requires
            self.wf(),
        ensures
            v == Stat::Finite(self.lambda_micros as i64),
    {
        Stat::Finite(self.lambda_micros as i64)
    }

    /// The sampled support runs from 0 below 20.
    pub fn support_end(&self) -> (e: u64)
        ensures
            e == 20,
    {
        20
    }
}

/// The geometric model: trials up to and including the first success.
#[derive(Clone, Copy, Debug, PartialEq, Eq, Structural)]
pub struct Geometric {
    /// Success probability in micro-units, in `(0.01, 1]` whole units.
    pub p_micros: u64,
    /// Numerator of the success probability in lowest terms.
    pub p_num: u64,
    /// Denominator of the success probability in lowest terms.
    pub p_den: u64,
}

impl Geometric {
    /// Validity of a geometric model.
    pub open spec fn wf(self) -> bool {
        &&& 10_000 <= self.p_micros <= MICROS
        &&& (self.p_num as nat, self.p_den as nat) == reduced(self.p_micros as nat, MICROS as nat)
        &&& 1 <= self.p_num <= self.p_den <= MICROS
    }

    /// Accepts a success probability in `[0.01, 1]`, the adjustable range.
    pub fn validate(p_micros: u64) -> (r: Result<Geometric, ConstraintViolation>)
        ensures
            r is Ok <==> 10_000 <= p_micros <= MICROS,
            r matches Ok(m) ==> m.wf() && m.p_micros == p_micros,
    {
        if 10_000 <= p_micros && p_micros <= MICROS {
            let (p_num, p_den) = reduce_fraction(p_micros, MICROS);
            Ok(Geometric { p_micros, p_num, p_den })
        } else {
            Err(ConstraintViolation)
        }
    }

    /// Exact mass at `k`; zero for `k == 0`, outside the support.
    pub fn pmf(&self, k: u64) -> (r: Option<Ratio>)
        requires
            self.wf(),
        ensures
            k == 0 ==> r == Some(Ratio { num: 0u128, den: 1u128 }),
            k >= 1 ==> match r {
                Some(v) => {
                    &&& v.num == geometric_num(k as nat, self.p_num as int, self.p_den as int)
                    &&& v.den == geometric_den(k as nat, self.p_den as int)
                },
                None => {
                    ||| geometric_num(k as nat, self.p_num as int, self.p_den as int) > u128::MAX
                    ||| geometric_den(k as nat, self.p_den as int) > u128::MAX
                },
            },
    {
        if k == 0 {
            return Some(Ratio { num: 0, den: 1 });
        }
        geometric_pmf(k, self.p_num, self.p_den)
    }

    /// The mean `1 / p` in micro-units, rounded down.
    pub fn mean(&self) -> (m: Stat)
        requires
            self.wf(),
        ensures
            m == Stat::Finite((1_000_000_000_000u64 / self.p_micros) as i64),
    {
        proof {
            lemma_div_le(1_000_000_000_000, self.p_micros as int);
        }
        Stat::Finite((1_000_000_000_000u64 / self.p_micros) as i64)
    }

    /// The variance `(1 - p) / p^2` in micro-units, rounded down.
    pub fn variance(&self) -> (v: Stat)
        requires
            self.wf(),
        ensures
            v == Stat::Finite(
                (((MICROS - self.p_micros) * 1_000_000_000_000) / (self.p_micros
                    * self.p_micros)) as i64,
            ),
    {
        proof {
            assert((MICROS - self.p_micros) * 1_000_000_000_000 <= 1_000_000
                * 1_000_000_000_000u64) by (nonlinear_arith)
                requires
                    self.p_micros <= MICROS,
                    MICROS == 1_000_000,
            ;
            assert(1 <= self.p_micros * self.p_micros <= 1_000_000_000_000) by (nonlinear_arith)
                requires
                    1 <= self.p_micros <= 1_000_000,
            ;
            lemma_div_le(
                ((MICROS - self.p_micros) * 1_000_000_000_000) as int,
                (self.p_micros * self.p_micros) as int,
            );
        }
        let num: u128 = ((MICROS - self.p_micros) as u128) * 1_000_000_000_000u128;
        let den: u128 = (self.p_micros as u128) * (self.p_micros as u128);
        Stat::Finite((num / den) as i64)
    }

    /// The sampled support runs from 1 below 20.
    pub fn support_end(&self) -> (e: u64)
        ensures
            e == 20,
    {
        20
    }
}

/// The negative binomial model: failures before a required number of
/// successes.
#[derive(Clone, Copy, Debug, PartialEq, Eq, Structural)]
pub struct NegativeBinomial {
    /// Required successes, between 1 and 10.
    pub successes: u64,
    /// Success probability in micro-units, in `[0.01, 0.99]` whole units.
    pub p_micros: u64,
    /// Numerator of the success probability in lowest terms.
    pub p_num: u64,
    /// Denominator of the success probability in lowest terms.
    pub p_den: u64,
}

impl NegativeBinomial {
    /// Validity of a negative binomial model.
    pub open spec fn wf(self) -> bool {
        &&& 1 <= self.successes <= 10
        &&& 10_000 <= self.p_micros <= 990_000
        &&& (self.p_num as nat, self.p_den as nat) == reduced(self.p_micros as nat, MICROS as nat)
        &&& 1 <= self.p_num <= self.p_den <= MICROS
    }

    /// Accepts a success count in `1..=10` and a success probability in
    /// `[0.01, 0.99]`, the adjustable ranges.
    pub fn validate(successes: u64, p_micros: u64) -> (r: Result<
        NegativeBinomial,
        ConstraintViolation,
    >)
        ensures
            r is Ok <==> (1 <= successes <= 10 && 10_000 <= p_micros <= 990_000),
            r matches Ok(m) ==> m.wf() && m.successes == successes && m.p_micros == p_micros,
    {
        if 1 <= successes && successes <= 10 && 10_000 <= p_micros && p_micros <= 990_000 {
            let (p_num, p_den) = reduce_fraction(p_micros, MICROS);
            Ok(NegativeBinomial { successes, p_micros, p_num, p_den })
        } else {
            Err(ConstraintViolation)
        }
    }

    /// Exact mass at `k` failures.
    pub fn pmf(&self, k: u64) -> (r: Option<Ratio>)
        requires
            self.wf(),
        ensures
            match r {
                Some(v) => {
                    &&& v.num == negative_binomial_num(
                        k as nat,
                        self.successes as nat,
                        self.p_num as int,
                        self.p_den as int,
                    )
                    &&& v.den == negative_binomial_den(
                        k as nat,
                        self.successes as nat,
                        self.p_den as int,
                    )
                },
                None => {
                    ||| self.successes + k - 1 > COMBINATION_LIMIT
                    ||| negative_binomial_num(
                        k as nat,
                        self.successes as nat,
                        self.p_num as int,
                        self.p_den as int,
                    ) > u128::MAX
                    ||| negative_binomial_den(
                        k as nat,
                        self.successes as nat,
                        self.p_den as int,
                    ) > u128::MAX
                },
            },
    {
        negative_binomial_pmf(k, self.successes, self.p_num, self.p_den)
    }

    /// The mean `r / p` in micro-units, rounded down.
    pub fn mean(&self) -> (m: Stat)
        requires
            self.wf(),
        ensures
            m == Stat::Finite(((self.successes * 1_000_000_000_000) / (self.p_micros as int)) as i64),
    {
        proof {
            assert(self.successes * 1_000_000_000_000 <= 10 * 1_000_000_000_000u64)
                by (nonlinear_arith)
                requires
                    self.successes <= 10,
            ;
            lemma_div_le((self.successes * 1_000_000_000_000) as int, self.p_micros as int);
        }
        Stat::Finite((self.successes * 1_000_000_000_000 / self.p_micros) as i64)
    }

    /// The variance `r (1 - p) / p^2` in micro-units, rounded down.
    pub fn variance(&self) -> (v: Stat)
        requires
            self.wf(),
        ensures
            v == Stat::Finite(
                ((self.successes * (MICROS - self.p_micros) * 1_000_000_000_000) / (self.p_micros
                    * self.p_micros)) as i64,
            ),
    {
        proof {
            assert(self.successes * (MICROS - self.p_micros) <= 10 * 1_000_000 && self.successes
                * (MICROS - self.p_micros) * 1_000_000_000_000 <= 10 * 1_000_000
                * 1_000_000_000_000) by (nonlinear_arith)
                requires
                    self.successes <= 10,
                    self.p_micros <= MICROS,
                    MICROS == 1_000_000,
            ;
            assert(100_000_000 <= self.p_micros * self.p_micros <= 1_000_000_000_000)
                by (nonlinear_arith)
                requires
                    10_000 <= self.p_micros <= 1_000_000,
            ;
            lemma_div_bounded(
                (self.successes * (MICROS - self.p_micros) * 1_000_000_000_000) as int,
                (self.p_micros * self.p_micros) as int,
                (10 * 1_000_000 * 1_000_000_000_000) as int,
                100_000_000 as int,
            );
        }
        let num: u128 = (self.successes as u128) * ((MICROS - self.p_micros) as u128)
            * 1_000_000_000_000u128;
        let den: u128 = (self.p_micros as u128) * (self.p_micros as u128);
        Stat::Finite((num / den) as i64)
    }

    /// The sampled support runs from 0 below 50.
    pub fn support_end(&self) -> (e: u64)
        ensures
            e == 50,
    {
        50
    }
}

/// The hypergeometric model: marked items among draws without replacement
/// from a finite population.
#[derive(Clone, Copy, Debug, PartialEq, Eq, Structural)]
pub struct Hypergeometric {
    /// Population size, between 1 and 100.
    pub population: u64,
    /// Marked items in the population, at most the population.
    pub marked: u64,
    /// Number of draws, at most the number of marked items.
    pub draws: u64,
}

impl Hypergeometric {
    /// Validity of a hypergeometric model: the joint parameter invariant
    /// `draws <= marked <= population`.
    pub open spec fn wf(self) -> bool {
        &&& 1 <= self.population <= 100
        &&& self.marked <= self.population
        &&& self.draws <= self.marked
    }

    /// Accepts a population in `1..=100` together with marked and draw
    /// counts that respect the joint invariant.
    pub fn validate(population: u64, marked: u64, draws: u64) -> (r: Result<
        Hypergeometric,
        ConstraintViolation,
    >)
        ensures
            r is Ok <==> (1 <= population <= 100 && marked <= population && draws <= marked),
            r matches Ok(m) ==> m.wf() && m.population == population && m.marked == marked
                && m.draws == draws,
    {
        if 1 <= population && population <= 100 && marked <= population && draws <= marked {
            Ok(Hypergeometric { population, marked, draws })
        } else {
            Err(ConstraintViolation)
        }
    }

    /// Exact mass at `x` marked items drawn.
    pub fn pmf(&self, x: u64) -> (r: Option<Ratio>)
        requires
            self.wf(),
        ensures
            match r {
                Some(v) => {
                    &&& v.num == hypergeometric_num(
                        x as nat,
                        self.population as nat,
                        self.marked as nat,
                        self.draws as nat,
                    )
                    &&& v.den == binom(self.population as nat, self.draws as nat)
                },
                None => hypergeometric_num(
                    x as nat,
                    self.population as nat,
                    self.marked as nat,
                    self.draws as nat,
                ) > u128::MAX,
            },
    {
        hypergeometric_pmf(x, self.population, self.marked, self.draws)
    }

    /// The mean `K M / N` in micro-units, rounded down.
    pub fn mean(&self) -> (m: Stat)
        requires
            self.wf(),
        ensures
            m == Stat::Finite(((self.draws * self.marked * MICROS) / (self.population as int)) as i64),
    {
        proof {
            assert(self.draws * self.marked * MICROS <= 100 * 100 * 1_000_000u64)
                by (nonlinear_arith)
                requires
                    self.draws <= 100,
                    self.marked <= 100,
                    MICROS == 1_000_000,
            ;
            lemma_div_le((self.draws * self.marked * MICROS) as int, self.population as int);
        }
        Stat::Finite((self.draws * self.marked * MICROS / self.population) as i64)
    }

    /// The variance `K M (N - M) (N - K) / (N^2 (N - 1))` in micro-units,
    /// rounded down; undefined for a population of one, where the quotient
    /// has no value.
    pub fn variance(&self) -> (v: Stat)
        requires
            self.wf(),
        ensures
            self.population == 1 ==> v == Stat::Undefined,
            self.population >= 2 ==> v == Stat::Finite(
                ((self.draws * self.marked * (self.population - self.marked) * (self.population
                    - self.draws) * MICROS) / (self.population * self.population
                    * (self.population - 1))) as i64,
            ),
    {
        if self.population == 1 {
            return Stat::Undefined;
        }
        proof {
            assert(self.draws * self.marked <= 10_000 && self.draws * self.marked
                * (self.population - self.marked) <= 1_000_000 && self.draws * self.marked
                * (self.population - self.marked) * (self.population - self.draws) <= 100_000_000
                && self.draws * self.marked * (self.population - self.marked) * (self.population
                - self.draws) * MICROS <= 100_000_000 * 1_000_000u64) by (nonlinear_arith)
                requires
                    self.draws <= self.marked <= self.population <= 100,
                    MICROS == 1_000_000,
            ;
            assert(self.population * self.population <= 10_000 && 1 <= self.population
                * self.population * (self.population - 1) <= 1_000_000) by (nonlinear_arith)
                requires
                    2 <= self.population <= 100,
            ;
            lemma_div_le(
                (self.draws * self.marked * (self.population - self.marked) * (self.population
                    - self.draws) * MICROS) as int,
                (self.population * self.population * (self.population - 1)) as int,
            );
        }
        let num: u64 = self.draws * self.marked * (self.population - self.marked)
            * (self.population - self.draws) * MICROS;
        let den: u64 = self.population * self.population * (self.population - 1);
        Stat::Finite((num / den) as i64)
    }

    /// The sampled support runs from 0 to one past the number of draws.
    pub fn support_end(&self) -> (e: u64)
        requires
            self.wf(),
        ensures
            e == self.draws + 1,
    {
        self.draws + 1
    }
}


impl Binomial {
    /// The preferred display domain of the horizontal axis, in micro-units.
    pub fn x_range(&self) -> (r: (i64, i64))
        requires
            self.wf(),
        ensures
            r.0 == 0 && r.1 == (self.trials + 1) * 1_000_000,
    {
        (0i64, (self.trials + 1) as i64 * 1_000_000)
    }

    /// The preferred display range of the vertical axis, in micro-units.
    pub fn y_range(&self) -> (r: (i64, i64))
        ensures
            r.0 == 0 && r.1 == 1_000_000,
    {
        (0i64, 1_000_000i64)
    }
}

impl Poisson {
    /// The preferred display domain of the horizontal axis, in micro-units.
    pub fn x_range(&self) -> (r: (i64, i64))
        ensures
            r.0 == 0 && r.1 == 20_000_000,
    {
        (0i64, 20_000_000)
    }

    /// The preferred display range of the vertical axis, in micro-units.
    pub fn y_range(&self) -> (r: (i64, i64))
        ensures
            r.0 == 0 && r.1 == 1_000_000,
    {
        (0i64, 1_000_000i64)
    }
}

impl Geometric {
    /// The preferred display domain of the horizontal axis, in micro-units.
    pub fn x_range(&self) -> (r: (i64, i64))
        ensures
            r.0 == 1_000_000 && r.1 == 20_000_000,
    {
        (1_000_000i64, 20_000_000)
    }

    /// The preferred display range of the vertical axis, in micro-units.
    pub fn y_range(&self) -> (r: (i64, i64))
        ensures
            r.0 == 0 && r.1 == 1_000_000,
    {
        (0i64, 1_000_000i64)
    }
}

impl NegativeBinomial {
    /// The preferred display domain of the horizontal axis, in micro-units.
    pub fn x_range(&self) -> (r: (i64, i64))
        ensures
            r.0 == 0 && r.1 == 50_000_000,
    {
        (0i64, 50_000_000)
    }

    /// The preferred display range of the vertical axis, in micro-units.
    pub fn y_range(&self) -> (r: (i64, i64))
        ensures
            r.0 == 0 && r.1 == 300_000,
    {
        (0i64, 300_000i64)
    }
}

impl Hypergeometric {
    /// The preferred display domain of the horizontal axis, in micro-units.
    pub fn x_range(&self) -> (r: (i64, i64))
        requires
            self.wf(),
        ensures
            r.0 == 0 && r.1 == (self.draws + 1) * 1_000_000,
    {
        (0i64, (self.draws + 1) as i64 * 1_000_000)
    }

    /// The preferred display range of the vertical axis, in micro-units.
    pub fn y_range(&self) -> (r: (i64, i64))
        ensures
            r.0 == 0 && r.1 == 1_000_000,
    {
        (0i64, 1_000_000i64)
    }
}

} // verus!
