//! The continuous models: parameter validation and the summary statistics
//! that are rational in the parameters.
//!
//! Densities of these models involve exponentials and gamma-function values
//! and are evaluated by the numeric front end; what the library owns is the
//! parameter domain of each model and every mean and variance with a closed
//! rational form, computed exactly in micro-units with the documented
//! degenerate outcomes made explicit.

use vstd::prelude::*;

verus! {

use crate::model::lemma_div_bounded;
use crate::model::lemma_div_le;
use crate::model::ConstraintViolation;
use crate::model::Stat;
use crate::model::MICROS;
use crate::model::MICROS_SQUARED;
use crate::sampling::grid_seq;
use crate::sampling::uniform_grid;

/// The exponential model of waiting times, with rate `lambda`.
#[derive(Clone, Copy, Debug, PartialEq, Eq, Structural)]
pub struct Exponential {
    /// Rate in micro-units, in `[0.01, 20]` whole units.
    pub lambda_micros: u64,
}

impl Exponential {
    /// Validity of an exponential model.
    pub open spec fn wf(self) -> bool {
        10_000 <= self.lambda_micros <= 20 * MICROS
    }

    /// Accepts a rate in `[0.01, 20]` units, the adjustable range.
    pub fn validate(lambda_micros: u64) -> (r: Result<Exponential, ConstraintViolation>)
        ensures
            r is Ok <==> 10_000 <= lambda_micros <= 20 * MICROS,
            r matches Ok(m) ==> m.wf() && m.lambda_micros == lambda_micros,
    {
        if 10_000 <= lambda_micros && lambda_micros <= 20 * MICROS {
            Ok(Exponential { lambda_micros })
        } else {
            Err(ConstraintViolation)
        }
    }

    /// The mean `1 / lambda` in micro-units, rounded down.
    pub fn mean(&self) -> (m: Stat)
        requires
            self.wf(),
        ensures
            m == Stat::Finite((MICROS_SQUARED / self.lambda_micros) as i64),
    {
        proof {
            lemma_div_le(MICROS_SQUARED as int, self.lambda_micros as int);
        }
        Stat::Finite((MICROS_SQUARED / self.lambda_micros) as i64)
    }

    /// The variance `1 / lambda^2` in micro-units, rounded down.
    pub fn variance(&self) -> (v: Stat)
        requires
            self.wf(),
        ensures
            v == Stat::Finite(
                ((1_000_000_000_000_000_000int) / (self.lambda_micros * self.lambda_micros)) as i64,
            ),
    {
        proof {
            assert(1 <= self.lambda_micros * self.lambda_micros <= 400_000_000_000_000)
                by (nonlinear_arith)
                requires
                    1 <= self.lambda_micros <= 20_000_000,
            ;
            lemma_div_le(
                1_000_000_000_000_000_000,
                (self.lambda_micros * self.lambda_micros) as int,
            );
        }
        let den: u128 = (self.lambda_micros as u128) * (self.lambda_micros as u128);
        Stat::Finite((1_000_000_000_000_000_000u128 / den) as i64)
    }

    /// The hazard function is the constant `lambda`.
    pub fn hazard_micros(&self) -> (h: u64)
        requires
            self.wf(),
        ensures
            h == self.lambda_micros,
    {
        self.lambda_micros
    }
}

/// The Weibull model of life data, with shape `k` and scale `lambda`.
///
/// Its mean and variance involve gamma-function values and are computed by
/// the numeric front end.
#[derive(Clone, Copy, Debug, PartialEq, Eq, Structural)]
pub struct Weibull {
    /// Shape in micro-units, in `[0.01, 10]` whole units.
    pub shape_micros: u64,
    /// Scale in micro-units, in `[0.01, 10]` whole units.
    pub scale_micros: u64,
}

impl Weibull {
    /// Validity of a Weibull model.
    pub open spec fn wf(self) -> bool {
        &&& 10_000 <= self.shape_micros <= 10 * MICROS
        &&& 10_000 <= self.scale_micros <= 10 * MICROS
    }

    /// Accepts shape and scale in `[0.01, 10]` units, the adjustable range.
    pub fn validate(shape_micros: u64, scale_micros: u64) -> (r: Result<
        Weibull,
        ConstraintViolation,
    >)
        ensures
            r is Ok <==> (10_000 <= shape_micros <= 10 * MICROS && 10_000 <= scale_micros <= 10
                * MICROS),
            r matches Ok(m) ==> m.wf() && m.shape_micros == shape_micros && m.scale_micros
                == scale_micros,
    {
        if 10_000 <= shape_micros && shape_micros <= 10 * MICROS && 10_000 <= scale_micros
            && scale_micros <= 10 * MICROS {
            Ok(Weibull { shape_micros, scale_micros })
        } else {
            Err(ConstraintViolation)
        }
    }
}

/// The gamma model with shape `alpha` and rate `beta`.
#[derive(Clone, Copy, Debug, PartialEq, Eq, Structural)]
pub struct Gamma {
    /// Shape in micro-units, in `[0.01, 10]` whole units.
    pub shape_micros: u64,
    /// Rate in micro-units, in `[0.01, 10]` whole units.
    pub rate_micros: u64,
}

impl Gamma {
    /// Validity of a gamma model.
    pub open spec fn wf(self) -> bool {
        &&& 10_000 <= self.shape_micros <= 10 * MICROS
        &&& 10_000 <= self.rate_micros <= 10 * MICROS
    }

    /// Accepts shape and rate in `[0.01, 10]` units, the adjustable range.
    pub fn validate(shape_micros: u64, rate_micros: u64) -> (r: Result<Gamma, ConstraintViolation>)
        ensures
            r is Ok <==> (10_000 <= shape_micros <= 10 * MICROS && 10_000 <= rate_micros <= 10
                * MICROS),
            r matches Ok(m) ==> m.wf() && m.shape_micros == shape_micros && m.rate_micros
                == rate_micros,
    {
        if 10_000 <= shape_micros && shape_micros <= 10 * MICROS && 10_000 <= rate_micros
            && rate_micros <= 10 * MICROS {
            Ok(Gamma { shape_micros, rate_micros })
        } else {
            Err(ConstraintViolation)
        }
    }

    /// The mean `alpha / beta` in micro-units, rounded down.
    pub fn mean(&self) -> (m: Stat)
        requires
            self.wf(),
        ensures
            m == Stat::Finite(((self.shape_micros * MICROS) / (self.rate_micros as int)) as i64),
    {
        proof {
            lemma_div_le((self.shape_micros * MICROS) as int, self.rate_micros as int);
        }
        Stat::Finite((self.shape_micros * MICROS / self.rate_micros) as i64)
    }

    /// The variance `alpha / beta^2` in micro-units, rounded down.
    pub fn variance(&self) -> (v: Stat)
        requires
            self.wf(),
        ensures
            v == Stat::Finite(
                ((self.shape_micros * MICROS_SQUARED) / (self.rate_micros
                    * self.rate_micros)) as i64,
            ),
    {
        proof {
            assert(100_000_000 <= self.rate_micros * self.rate_micros <= 100_000_000_000_000)
                by (nonlinear_arith)
                requires
                    10_000 <= self.rate_micros <= 10_000_000,
            ;
            lemma_div_bounded(
                (self.shape_micros * MICROS_SQUARED) as int,
                (self.rate_micros * self.rate_micros) as int,
                (10_000_000 * 1_000_000_000_000) as int,
                100_000_000 as int,
            );
        }
        let num: u128 = (self.shape_micros as u128) * (MICROS_SQUARED as u128);
        let den: u128 = (self.rate_micros as u128) * (self.rate_micros as u128);
        Stat::Finite((num / den) as i64)
    }
}

/// The beta model on the unit interval, with shapes `alpha` and `beta`.
#[derive(Clone, Copy, Debug, PartialEq, Eq, Structural)]
pub struct Beta {
    /// First shape in micro-units, in `[0.01, 10]` whole units.
    pub alpha_micros: u64,
    /// Second shape in micro-units, in `[0.01, 10]` whole units.
    pub beta_micros: u64,
}

impl Beta {
    /// Validity of a beta model.
    pub open spec fn wf(self) -> bool {
        &&& 10_000 <= self.alpha_micros <= 10 * MICROS
        &&& 10_000 <= self.beta_micros <= 10 * MICROS
    }

    /// Accepts both shapes in `[0.01, 10]` units, the adjustable range.
    pub fn validate(alpha_micros: u64, beta_micros: u64) -> (r: Result<Beta, ConstraintViolation>)
        ensures
            r is Ok <==> (10_000 <= alpha_micros <= 10 * MICROS && 10_000 <= beta_micros <= 10
                * MICROS),
            r matches Ok(m) ==> m.wf() && m.alpha_micros == alpha_micros && m.beta_micros
                == beta_micros,
    {
        if 10_000 <= alpha_micros && alpha_micros <= 10 * MICROS && 10_000 <= beta_micros
            && beta_micros <= 10 * MICROS {
            Ok(Beta { alpha_micros, beta_micros })
        } else {
            Err(ConstraintViolation)
        }
    }

    /// The mean `alpha / (alpha + beta)` in micro-units, rounded down.
    pub fn mean(&self) -> (m: Stat)
        requires
            self.wf(),
        ensures
            m == Stat::Finite(
                ((self.alpha_micros * MICROS) / ((self.alpha_micros + self.beta_micros)
                    as int)) as i64,
            ),
    {
        proof {
            lemma_div_le(
                (self.alpha_micros * MICROS) as int,
                (self.alpha_micros + self.beta_micros) as int,
            );
        }
        Stat::Finite((self.alpha_micros * MICROS / (self.alpha_micros + self.beta_micros)) as i64)
    }

    /// The variance `alpha beta / ((alpha + beta)^2 (alpha + beta + 1))` in
    /// micro-units, rounded down.
    pub fn variance(&self) -> (v: Stat)
        requires
            self.wf(),
        ensures
            v == Stat::Finite(
                ((self.alpha_micros * self.beta_micros * MICROS_SQUARED) / ((self.alpha_micros
                    + self.beta_micros) * (self.alpha_micros + self.beta_micros)
                    * (self.alpha_micros + self.beta_micros + MICROS))) as i64,
            ),
    {
        let s: u64 = self.alpha_micros + self.beta_micros;
        proof {
            assert(self.alpha_micros * self.beta_micros <= 100_000_000_000_000 && self.alpha_micros
                * self.beta_micros * MICROS_SQUARED <= 100_000_000_000_000
                * 1_000_000_000_000) by (nonlinear_arith)
                requires
                    self.alpha_micros <= 10_000_000,
                    self.beta_micros <= 10_000_000,
                    MICROS_SQUARED == 1_000_000_000_000,
            ;
            assert(400_000_000 <= s * s <= 400_000_000_000_000 && 400_000_000 * 1_000_000 <= s * s
                * (s + MICROS) && s * s * (s + MICROS) <= 400_000_000_000_000 * 21_000_000)
                by (nonlinear_arith)
                requires
                    20_000 <= s <= 20_000_000,
                    MICROS == 1_000_000,
            ;
            lemma_div_bounded(
                (self.alpha_micros * self.beta_micros * MICROS_SQUARED) as int,
                (s * s * (s + MICROS)) as int,
                (100_000_000_000_000 * 1_000_000_000_000) as int,
                (400_000_000 * 1_000_000) as int,
            );
        }
        let num: u128 = (self.alpha_micros as u128) * (self.beta_micros as u128)
            * (MICROS_SQUARED as u128);
        let den: u128 = (s as u128) * (s as u128) * ((s + MICROS) as u128);
        Stat::Finite((num / den) as i64)
    }
}

/// The chi-squared model with `df` degrees of freedom, the gamma model with
/// shape `df / 2` and rate one half.
#[derive(Clone, Copy, Debug, PartialEq, Eq, Structural)]
pub struct ChiSquared {
    /// Degrees of freedom in micro-units, in `[1, 20]` whole units.
    pub df_micros: u64,
}

impl ChiSquared {
    /// Validity of a chi-squared model.
    pub open spec fn wf(self) -> bool {
        MICROS <= self.df_micros <= 20 * MICROS
    }

    /// Accepts degrees of freedom in `[1, 20]` units, the adjustable range.
    pub fn validate(df_micros: u64) -> (r: Result<ChiSquared, ConstraintViolation>)
        ensures
            r is Ok <==> MICROS <= df_micros <= 20 * MICROS,
            r matches Ok(m) ==> m.wf() && m.df_micros == df_micros,
    {
        if MICROS <= df_micros && df_micros <= 20 * MICROS {
            Ok(ChiSquared { df_micros })
        } else {
            Err(ConstraintViolation)
        }
    }

    /// The mean equals the degrees of freedom.
    pub fn mean(&self) -> (m: Stat)
        requires
            self.wf(),
        ensures
            m == Stat::Finite(self.df_micros as i64),
    {
        Stat::Finite(self.df_micros as i64)
    }

    /// The variance equals twice the degrees of freedom.
    pub fn variance(&self) -> (v: Stat)
        requires
            self.wf(),
        ensures
            v == Stat::Finite((2 * self.df_micros) as i64),
    {
        Stat::Finite((2 * self.df_micros) as i64)
    }
}

/// Student's t model with `df` degrees of freedom.
#[derive(Clone, Copy, Debug, PartialEq, Eq, Structural)]
pub struct StudentT {
    /// Degrees of freedom in micro-units, in `[1, 30]` whole units.
    pub df_micros: u64,
}

impl StudentT {
    /// Validity of a Student's t model.
    pub open spec fn wf(self) -> bool {
        MICROS <= self.df_micros <= 30 * MICROS
    }

    /// Accepts degrees of freedom in `[1, 30]` units, the adjustable range.
    pub fn validate(df_micros: u64) -> (r: Result<StudentT, ConstraintViolation>)
        ensures
            r is Ok <==> MICROS <= df_micros <= 30 * MICROS,
            r matches Ok(m) ==> m.wf() && m.df_micros == df_micros,
    {
        if MICROS <= df_micros && df_micros <= 30 * MICROS {
            Ok(StudentT { df_micros })
        } else {
            Err(ConstraintViolation)
        }
    }

    /// At one degree of freedom the model degenerates to the Cauchy
    /// distribution, which the caption must name.
    pub fn is_cauchy(&self) -> (r: bool)
        requires
            self.wf(),
        ensures
            r == (self.df_micros == MICROS),
    {
        self.df_micros == MICROS
    }

    /// The mean: zero above one degree of freedom, undefined at one, where
    /// the model is the Cauchy distribution.
    pub fn mean(&self) -> (m: Stat)
        requires
            self.wf(),
        ensures
            self.df_micros == MICROS ==> m == Stat::Undefined,
            self.df_micros > MICROS ==> m == Stat::Finite(0i64),
    {
        if self.df_micros == MICROS {
            Stat::Undefined
        } else {
            Stat::Finite(0)
        }
    }

    /// The variance `df / (df - 2)` in micro-units, rounded down; undefined
    /// for `df <= 2`.
    pub fn variance(&self) -> (v: Stat)
        requires
            self.wf(),
        ensures
            self.df_micros <= 2 * MICROS ==> v == Stat::Undefined,
            self.df_micros > 2 * MICROS ==> v == Stat::Finite(
                ((self.df_micros * MICROS) / ((self.df_micros - 2 * MICROS) as int)) as i64,
            ),
    {
        if self.df_micros <= 2 * MICROS {
            return Stat::Undefined;
        }
        proof {
            lemma_div_le(
                (self.df_micros * MICROS) as int,
                (self.df_micros - 2 * MICROS) as int,
            );
        }
        Stat::Finite((self.df_micros * MICROS / (self.df_micros - 2 * MICROS)) as i64)
    }
}

/// The F model with `df1` and `df2` degrees of freedom.
#[derive(Clone, Copy, Debug, PartialEq, Eq, Structural)]
pub struct FDistribution {
    /// Numerator degrees of freedom in micro-units, in `[1, 30]` units.
    pub df1_micros: u64,
    /// Denominator degrees of freedom in micro-units, in `[1, 30]` units.
    pub df2_micros: u64,
}

impl FDistribution {
    /// Validity of an F model.
    pub open spec fn wf(self) -> bool {
        &&& MICROS <= self.df1_micros <= 30 * MICROS
        &&& MICROS <= self.df2_micros <= 30 * MICROS
    }

    /// Accepts both degrees of freedom in `[1, 30]` units, the adjustable
    /// range.
    pub fn validate(df1_micros: u64, df2_micros: u64) -> (r: Result<
        FDistribution,
        ConstraintViolation,
    >)
        ensures
            r is Ok <==> (MICROS <= df1_micros <= 30 * MICROS && MICROS <= df2_micros <= 30
                * MICROS),
            r matches Ok(m) ==> m.wf() && m.df1_micros == df1_micros && m.df2_micros == df2_micros,
    {
        if MICROS <= df1_micros && df1_micros <= 30 * MICROS && MICROS <= df2_micros && df2_micros
            <= 30 * MICROS {
            Ok(FDistribution { df1_micros, df2_micros })
        } else {
            Err(ConstraintViolation)
        }
    }

    /// The mean `df2 / (df2 - 2)` in micro-units, rounded down; it diverges
    /// to infinity for `df2 <= 2` and is reported so, never as a quiet
    /// not-a-number.
    pub fn mean(&self) -> (m: Stat)
        requires
            self.wf(),
        ensures
            self.df2_micros <= 2 * MICROS ==> m == Stat::Infinite,
            self.df2_micros > 2 * MICROS ==> m == Stat::Finite(
                ((self.df2_micros * MICROS) / ((self.df2_micros - 2 * MICROS) as int)) as i64,
            ),
    {
        if self.df2_micros <= 2 * MICROS {
            return Stat::Infinite;
        }
        proof {
            lemma_div_le(
                (self.df2_micros * MICROS) as int,
                (self.df2_micros - 2 * MICROS) as int,
            );
        }
        Stat::Finite((self.df2_micros * MICROS / (self.df2_micros - 2 * MICROS)) as i64)
    }

    /// The variance `2 df2^2 (df1 + df2 - 2) / (df1 (df2 - 2)^2 (df2 - 4))`
    /// in micro-units, rounded down; it diverges for `df2 <= 4`.
    pub fn variance(&self) -> (v: Stat)
        requires
            self.wf(),
        ensures
            self.df2_micros <= 4 * MICROS ==> v == Stat::Infinite,
            self.df2_micros > 4 * MICROS ==> v == Stat::Finite(
                ((2 * self.df2_micros * self.df2_micros * (self.df1_micros + self.df2_micros - 2
                    * MICROS) * MICROS_SQUARED) / (self.df1_micros * (self.df2_micros - 2 * MICROS)
                    * (self.df2_micros - 2 * MICROS) * (self.df2_micros - 4 * MICROS))) as i64,
            ),
    {
        if self.df2_micros <= 4 * MICROS {
            return Stat::Infinite;
        }
        let d1: u64 = self.df1_micros;
        let d2: u64 = self.df2_micros;
        proof {
            assert(2 * d2 * d2 <= 1_800_000_000_000_000 && 2 * d2 * d2 * (d1 + d2 - 2 * MICROS)
                <= 1_800_000_000_000_000 * 58_000_000 && 2 * d2 * d2 * (d1 + d2 - 2 * MICROS)
                * MICROS_SQUARED <= 1_800_000_000_000_000 * 58_000_000 * 1_000_000_000_000)
                by (nonlinear_arith)
                requires
                    1_000_000 <= d1 <= 30_000_000,
                    4_000_000 < d2 <= 30_000_000,
                    MICROS == 1_000_000,
                    MICROS_SQUARED == 1_000_000_000_000,
            ;
            assert(d1 * (d2 - 2 * MICROS) <= 1_000_000_000_000_000 && d1 * (d2 - 2 * MICROS) * (d2
                - 2 * MICROS) <= 30_000_000_000_000_000_000_000 && d1 * (d2 - 2 * MICROS) * (d2 - 2
                * MICROS) * (d2 - 4 * MICROS) >= 1_000_000 * 2_000_000 * 2_000_000 && d1 * (d2 - 2
                * MICROS) * (d2 - 2 * MICROS) * (d2 - 4 * MICROS)
                <= 30_000_000_000_000_000_000_000 * 26_000_000) by (nonlinear_arith)
                requires
                    1_000_000 <= d1 <= 30_000_000,
                    4_000_000 < d2 <= 30_000_000,
                    MICROS == 1_000_000,
            ;
            lemma_div_bounded(
                (2 * d2 * d2 * (d1 + d2 - 2 * MICROS) * MICROS_SQUARED) as int,
                (d1 * (d2 - 2 * MICROS) * (d2 - 2 * MICROS) * (d2 - 4 * MICROS)) as int,
                (1_800_000_000_000_000 * 58_000_000 * 1_000_000_000_000) as int,
                (1_000_000 * 2_000_000 * 2_000_000) as int,
            );
        }
        let num: u128 = 2u128 * (d2 as u128) * (d2 as u128) * ((d1 + d2 - 2 * MICROS) as u128)
            * (MICROS_SQUARED as u128);
        let den: u128 = (d1 as u128) * ((d2 - 2 * MICROS) as u128) * ((d2 - 2 * MICROS) as u128)
            * ((d2 - 4 * MICROS) as u128);
        Stat::Finite((num / den) as i64)
    }
}

/// The log-normal model with location `mu` and scale `sigma`.
///
/// Its mean and variance involve exponentials and are computed by the
/// numeric front end from the textbook moment formulas.
#[derive(Clone, Copy, Debug, PartialEq, Eq, Structural)]
pub struct LogNormal {
    /// Location in micro-units, in `[-3, 3]` whole units.
    pub mu_micros: i64,
    /// Scale in micro-units, in `[0.1, 3]` whole units.
    pub sigma_micros: u64,
}

impl LogNormal {
    /// Validity of a log-normal model.
    pub open spec fn wf(self) -> bool {
        &&& -3_000_000 <= self.mu_micros <= 3_000_000
        &&& 100_000 <= self.sigma_micros <= 3 * MICROS
    }

    /// Accepts a location in `[-3, 3]` and a scale in `[0.1, 3]` units, the
    /// adjustable ranges.
    pub fn validate(mu_micros: i64, sigma_micros: u64) -> (r: Result<
        LogNormal,
        ConstraintViolation,
    >)
        ensures
            r is Ok <==> (-3_000_000 <= mu_micros <= 3_000_000 && 100_000 <= sigma_micros <= 3
                * MICROS),
            r matches Ok(m) ==> m.wf() && m.mu_micros == mu_micros && m.sigma_micros
                == sigma_micros,
    {
        if -3_000_000 <= mu_micros && mu_micros <= 3_000_000 && 100_000 <= sigma_micros
            && sigma_micros <= 3 * MICROS {
            Ok(LogNormal { mu_micros, sigma_micros })
        } else {
            Err(ConstraintViolation)
        }
    }
}

/// The bivariate normal model, with the conditioning abscissa for the
/// derived one-dimensional conditional distribution of `Y` given `X`.
#[derive(Clone, Copy, Debug, PartialEq, Eq, Structural)]
pub struct BivariateNormal {
    /// Mean of `X` in micro-units, in `[-3, 3]` whole units.
    pub mean_x: i64,
    /// Mean of `Y` in micro-units, in `[-3, 3]` whole units.
    pub mean_y: i64,
    /// Variance of `X` in micro-units, in `[0.1, 3]` whole units.
    pub var_x: u64,
    /// Variance of `Y` in micro-units, in `[0.1, 3]` whole units.
    pub var_y: u64,
    /// Correlation in micro-units, in `[-0.99, 0.99]`.
    pub rho_micros: i64,
    /// Conditioning abscissa in micro-units, in `[-3, 3]` whole units.
    pub cond_x: i64,
}

impl BivariateNormal {
    /// Validity of a bivariate normal model.
    pub open spec fn wf(self) -> bool {
        &&& -3_000_000 <= self.mean_x <= 3_000_000
        &&& -3_000_000 <= self.mean_y <= 3_000_000
        &&& 100_000 <= self.var_x <= 3 * MICROS
        &&& 100_000 <= self.var_y <= 3 * MICROS
        &&& -990_000 <= self.rho_micros <= 990_000
        &&& -3_000_000 <= self.cond_x <= 3_000_000
    }

    /// Accepts means and the conditioning abscissa in `[-3, 3]`, variances
    /// in `[0.1, 3]` and a correlation in `[-0.99, 0.99]`, the adjustable
    /// ranges.
    pub fn validate(
        mean_x: i64,
        mean_y: i64,
        var_x: u64,
        var_y: u64,
        rho_micros: i64,
        cond_x: i64,
    ) -> (r: Result<BivariateNormal, ConstraintViolation>)
        ensures
            r is Ok <==> (-3_000_000 <= mean_x <= 3_000_000 && -3_000_000 <= mean_y <= 3_000_000
                && 100_000 <= var_x <= 3 * MICROS && 100_000 <= var_y <= 3 * MICROS && -990_000
                <= rho_micros <= 990_000 && -3_000_000 <= cond_x <= 3_000_000),
            r matches Ok(m) ==> m.wf() && m == (BivariateNormal {
                mean_x,
                mean_y,
                var_x,
                var_y,
                rho_micros,
                cond_x,
            }),
    {
        if -3_000_000 <= mean_x && mean_x <= 3_000_000 && -3_000_000 <= mean_y && mean_y
            <= 3_000_000 && 100_000 <= var_x && var_x <= 3 * MICROS && 100_000 <= var_y && var_y
            <= 3 * MICROS && -990_000 <= rho_micros && rho_micros <= 990_000 && -3_000_000 <= cond_x
            && cond_x <= 3_000_000 {
            Ok(BivariateNormal { mean_x, mean_y, var_x, var_y, rho_micros, cond_x })
        } else {
            Err(ConstraintViolation)
        }
    }

    /// The conditional variance of `Y` given `X`, the exact rational
    /// `var_y (1 - rho^2)` in micro-units, rounded down.  It does not
    /// depend on the conditioning abscissa.
    pub fn conditional_variance(&self) -> (v: Stat)
        requires
            self.wf(),
        ensures
            v == Stat::Finite(
                ((self.var_y * (MICROS_SQUARED - self.rho_micros * self.rho_micros))
                    / (MICROS_SQUARED as int)) as i64,
            ),
    {
        proof {
            assert(0 <= self.rho_micros * self.rho_micros <= 980_100_000_000 && self.var_y
                * (MICROS_SQUARED - self.rho_micros * self.rho_micros) <= 3_000_000
                * 1_000_000_000_000) by (nonlinear_arith)
                requires
                    -990_000 <= self.rho_micros <= 990_000,
                    self.var_y <= 3_000_000,
                    MICROS_SQUARED == 1_000_000_000_000,
            ;
            lemma_div_le(
                (self.var_y * (MICROS_SQUARED - self.rho_micros * self.rho_micros)) as int,
                MICROS_SQUARED as int,
            );
        }
        let r2: i64 = self.rho_micros * self.rho_micros;
        let num: u128 = (self.var_y as u128) * ((MICROS_SQUARED as i64 - r2) as u128);
        Stat::Finite((num / (MICROS_SQUARED as u128)) as i64)
    }
}


impl Exponential {
    /// The uniform grid the density curve is sampled over.
    pub fn sample_grid(&self) -> (g: Vec<i64>)
        ensures
            g@ == grid_seq(0, 500, 10_000),
    {
        uniform_grid(0, 500, 10_000)
    }

    /// The preferred display domain of the horizontal axis, in micro-units.
    pub fn x_range(&self) -> (r: (i64, i64))
        ensures
            r.0 == 0 && r.1 == 5_000_000,
    {
        (0i64, 5_000_000i64)
    }

    /// The preferred display range of the vertical axis, in micro-units.
    pub fn y_range(&self) -> (r: (i64, i64))
        ensures
            r.0 == 0 && r.1 == 1_000_000,
    {
        (0i64, 1_000_000i64)
    }
}

impl Weibull {
    /// The uniform grid the density curve is sampled over.
    pub fn sample_grid(&self) -> (g: Vec<i64>)
        ensures
            g@ == grid_seq(0, 500, 10_000),
    {
        uniform_grid(0, 500, 10_000)
    }

    /// The preferred display domain of the horizontal axis, in micro-units.
    pub fn x_range(&self) -> (r: (i64, i64))
        ensures
            r.0 == 0 && r.1 == 5_000_000,
    {
        (0i64, 5_000_000i64)
    }

    /// The preferred display range of the vertical axis, in micro-units.
    pub fn y_range(&self) -> (r: (i64, i64))
        ensures
            r.0 == 0 && r.1 == 1_000_000,
    {
        (0i64, 1_000_000i64)
    }
}

impl Gamma {
    /// The uniform grid the density curve is sampled over.
    pub fn sample_grid(&self) -> (g: Vec<i64>)
        ensures
            g@ == grid_seq(0, 2_000, 10_000),
    {
        uniform_grid(0, 2_000, 10_000)
    }

    /// The preferred display domain of the horizontal axis, in micro-units.
    pub fn x_range(&self) -> (r: (i64, i64))
        ensures
            r.0 == 0 && r.1 == 20_000_000,
    {
        (0i64, 20_000_000i64)
    }

    /// The preferred display range of the vertical axis, in micro-units.
    pub fn y_range(&self) -> (r: (i64, i64))
        ensures
            r.0 == 0 && r.1 == 1_000_000,
    {
        (0i64, 1_000_000i64)
    }
}

impl Beta {
    /// The uniform grid the density curve is sampled over.
    pub fn sample_grid(&self) -> (g: Vec<i64>)
        ensures
            g@ == grid_seq(0, 1_000, 1_000),
    {
        uniform_grid(0, 1_000, 1_000)
    }

    /// The preferred display domain of the horizontal axis, in micro-units.
    pub fn x_range(&self) -> (r: (i64, i64))
        ensures
            r.0 == 0 && r.1 == 1_000_000,
    {
        (0i64, 1_000_000i64)
    }

    /// The preferred display range of the vertical axis, in micro-units.
    pub fn y_range(&self) -> (r: (i64, i64))
        ensures
            r.0 == 0 && r.1 == 2_000_000,
    {
        (0i64, 2_000_000i64)
    }
}

impl ChiSquared {
    /// The uniform grid the density curve is sampled over.
    pub fn sample_grid(&self) -> (g: Vec<i64>)
        ensures
            g@ == grid_seq(0, 2_000, 10_000),
    {
        uniform_grid(0, 2_000, 10_000)
    }

    /// The preferred display domain of the horizontal axis, in micro-units.
    pub fn x_range(&self) -> (r: (i64, i64))
        ensures
            r.0 == 0 && r.1 == 20_000_000,
    {
        (0i64, 20_000_000i64)
    }

    /// The preferred display range of the vertical axis, in micro-units.
    pub fn y_range(&self) -> (r: (i64, i64))
        ensures
            r.0 == 0 && r.1 == 500_000,
    {
        (0i64, 500_000i64)
    }
}

impl StudentT {
    /// The uniform grid the density curve is sampled over.
    pub fn sample_grid(&self) -> (g: Vec<i64>)
        ensures
            g@ == grid_seq(-500, 1_000, 10_000),
    {
        uniform_grid(-500, 1_000, 10_000)
    }

    /// The preferred display domain of the horizontal axis, in micro-units.
    pub fn x_range(&self) -> (r: (i64, i64))
        ensures
            r.0 == -5_000_000 && r.1 == 5_000_000,
    {
        (-5_000_000i64, 5_000_000i64)
    }

    /// The preferred display range of the vertical axis, in micro-units.
    pub fn y_range(&self) -> (r: (i64, i64))
        ensures
            r.0 == 0 && r.1 == 400_000,
    {
        (0i64, 400_000i64)
    }
}

impl FDistribution {
    /// The uniform grid the density curve is sampled over.
    pub fn sample_grid(&self) -> (g: Vec<i64>)
        ensures
            g@ == grid_seq(1, 499, 10_000),
    {
        uniform_grid(1, 499, 10_000)
    }

    /// The preferred display domain of the horizontal axis, in micro-units.
    pub fn x_range(&self) -> (r: (i64, i64))
        ensures
            r.0 == 0 && r.1 == 5_000_000,
    {
        (0i64, 5_000_000i64)
    }

    /// The preferred display range of the vertical axis, in micro-units.
    pub fn y_range(&self) -> (r: (i64, i64))
        ensures
            r.0 == 0 && r.1 == 1_000_000,
    {
        (0i64, 1_000_000i64)
    }
}

impl LogNormal {
    /// The uniform grid the density curve is sampled over.
    pub fn sample_grid(&self) -> (g: Vec<i64>)
        ensures
            g@ == grid_seq(1, 999, 5_000),
    {
        uniform_grid(1, 999, 5_000)
    }

    /// The preferred display domain of the horizontal axis, in micro-units.
    pub fn x_range(&self) -> (r: (i64, i64))
        ensures
            r.0 == 0 && r.1 == 5_000_000,
    {
        (0i64, 5_000_000i64)
    }

    /// The preferred display range of the vertical axis, in micro-units.
    pub fn y_range(&self) -> (r: (i64, i64))
        ensures
            r.0 == 0 && r.1 == 2_000_000,
    {
        (0i64, 2_000_000i64)
    }
}

impl BivariateNormal {
    /// The uniform grid the density curve is sampled over.
    pub fn sample_grid(&self) -> (g: Vec<i64>)
        ensures
            g@ == grid_seq(-300, 601, 20_000),
    {
        uniform_grid(-300, 601, 20_000)
    }

    /// The preferred display domain of the horizontal axis, in micro-units.
    pub fn x_range(&self) -> (r: (i64, i64))
        ensures
            r.0 == -3_000_000 && r.1 == 3_000_000,
    {
        (-3_000_000i64, 3_000_000i64)
    }

    /// The preferred display range of the vertical axis, in micro-units.
    pub fn y_range(&self) -> (r: (i64, i64))
        ensures
            r.0 == 0 && r.1 == 1_000_000,
    {
        (0i64, 1_000_000i64)
    }
}

} // verus!
