//! Shared vocabulary of the distribution models.
//!
//! Real-valued parameters and statistics are carried as exact integer
//! micro-units: one unit of the quantity equals `MICROS` micro-units.  A
//! summary statistic is never a quiet not-a-number: where a mean or a
//! variance is undefined or infinite for the current parameters it is said
//! so explicitly.

use vstd::prelude::*;

verus! {

use vstd::arithmetic::div_mod::lemma_div_is_ordered;
use vstd::arithmetic::div_mod::lemma_div_is_ordered_by_denominator;
use vstd::arithmetic::div_mod::lemma_div_pos_is_pos;

/// Micro-units per whole unit.
pub const MICROS: u64 = 1_000_000;

/// Micro-units squared, the scale factor of a product of two micro-valued
/// quantities.
pub const MICROS_SQUARED: u64 = 1_000_000_000_000;

/// A summary statistic of a model: a finite value in micro-units, or one of
/// the documented degenerate outcomes.
#[derive(Clone, Copy, Debug, PartialEq, Eq, Structural)]
pub enum Stat {
    /// The statistic has no defined value for the current parameters.
    Undefined,
    /// The statistic diverges to infinity for the current parameters.
    Infinite,
    /// The statistic equals the carried number of micro-units.
    Finite(i64),
}

/// A parsed parameter value fell outside the declared domain of its model
/// and no clamping rule applied.
#[derive(Clone, Copy, Debug, PartialEq, Eq, Structural)]
pub struct ConstraintViolation;

/// Why an edit of a parameter was rejected; the parameter keeps its prior
/// value in either case.
#[derive(Clone, Copy, Debug, PartialEq, Eq, Structural)]
pub enum ParamError {
    /// The raw input could not be parsed into the parameter's type.
    Parse,
    /// The parsed value violated a domain rule that has no clamp.
    Constraint,
}

/// Division shrinks a non-negative numerator.
pub proof fn lemma_div_le(x: int, d: int)
    requires
        x >= 0,
        d >= 1,
    ensures
        0 <= x / d <= x,
{
    lemma_div_is_ordered_by_denominator(x, 1, d);
    lemma_div_pos_is_pos(x, d);
}

/// A quotient of a bounded numerator and a denominator bounded below is
/// bounded by the quotient of the bounds.
pub proof fn lemma_div_bounded(x: int, d: int, xhi: int, dlo: int)
    requires
        0 <= x <= xhi,
        1 <= dlo <= d,
    ensures
        0 <= x / d <= xhi / dlo,
{
    lemma_div_is_ordered_by_denominator(x, dlo, d);
    lemma_div_is_ordered(x, xhi, dlo);
    lemma_div_pos_is_pos(x, d);
}

} // verus!
