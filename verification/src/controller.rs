//! Parameter controllers: the single entry point through which the host
//! edits a model's parameters.
//!
//! An edit parses the raw input, clamps the parsed value into the
//! parameter's declared range, and cascades to dependent parameters in one
//! fixed order, so that the joint invariant holds after every call.  A
//! failed edit leaves every parameter unchanged: a cascade is never applied
//! partially.

use vstd::prelude::*;

verus! {

use crate::model::ParamError;
use crate::parse::decimal_value;
use crate::parse::parse_micros;
use crate::parse::wf_decimal;

/// A value forced into an inclusive range.
pub open spec fn clamped(v: int, lo: int, hi: int) -> int {
    if v < lo {
        lo
    } else if v > hi {
        hi
    } else {
        v
    }
}

/// Clamp a value into an inclusive range.
pub fn clamp(v: i64, lo: i64, hi: i64) -> (r: i64)
    requires
        lo <= hi,
    ensures
        r == clamped(v as int, lo as int, hi as int),
        lo <= r <= hi,
{
    if v < lo {
        lo
    } else if v > hi {
        hi
    } else {
        v
    }
}

/// Whether raw bytes denote a whole number of units (an integer-typed
/// parameter accepts no fractional part).
pub open spec fn wf_integer(s: Seq<u8>) -> bool {
    wf_decimal(s) && decimal_value(s) % 1_000_000 == 0
}

/// The whole number a well-formed integer input denotes.
pub open spec fn integer_value(s: Seq<u8>) -> int {
    decimal_value(s) / 1_000_000
}

/// Parse raw bytes as an integer-typed parameter value.
pub fn parse_integer(raw: &Vec<u8>) -> (r: Result<i64, ParamError>)
    ensures
        r is Ok <==> wf_integer(raw@),
        r is Err ==> r == Err::<i64, ParamError>(ParamError::Parse),
        r matches Ok(v) ==> v == integer_value(raw@),
{
    match parse_micros(raw) {
        Ok(v) => {
            if v >= 0 {
                if v % 1_000_000 == 0 {
                    Ok(v / 1_000_000)
                } else {
                    Err(ParamError::Parse)
                }
            } else {
                let a = -v;
                if a % 1_000_000 == 0 {
                    let q = a / 1_000_000;
                    proof {
                        vstd::arithmetic::div_mod::lemma_fundamental_div_mod(a as int, 1_000_000);
                        vstd::arithmetic::div_mod::lemma_div_multiples_vanish(
                            -(a as int / 1_000_000),
                            1_000_000,
                        );
                    }
                    Ok(-q)
                } else {
                    proof {
                        vstd::arithmetic::div_mod::lemma_mod_neg_neg(v as int, 1_000_000);
                    }
                    Err(ParamError::Parse)
                }
            }
        },
        Err(e) => Err(e),
    }
}

/// A single adjustable parameter with an inclusive range as its clamp rule.
#[derive(Clone, Copy, Debug, PartialEq, Eq, Structural)]
pub struct ScalarParam {
    /// Current value in micro-units.
    pub value: i64,
    /// Lower bound of the declared range, in micro-units.
    pub lo: i64,
    /// Upper bound of the declared range, in micro-units.
    pub hi: i64,
}

impl ScalarParam {
    /// The value always sits inside the declared range.
    pub open spec fn wf(self) -> bool {
        self.lo <= self.value <= self.hi
    }

    /// A parameter at its default value.
    pub fn new(initial: i64, lo: i64, hi: i64) -> (p: ScalarParam)
        requires
            lo <= initial <= hi,
        ensures
            p == (ScalarParam { value: initial, lo, hi }),
            p.wf(),
    {
        ScalarParam { value: initial, lo, hi }
    }

    /// Edit the parameter from raw input: parse, then clamp into the
    /// declared range.  Unparseable input changes nothing.
    pub fn set(&mut self, raw: &Vec<u8>) -> (r: Result<(), ParamError>)
        requires
            old(self).wf(),
        ensures
            final(self).lo == old(self).lo,
            final(self).hi == old(self).hi,
            final(self).wf(),
            r is Ok <==> wf_decimal(raw@),
            r is Err ==> *final(self) == *old(self),
            r is Ok ==> final(self).value == clamped(
                decimal_value(raw@),
                old(self).lo as int,
                old(self).hi as int,
            ),
    {
        match parse_micros(raw) {
            Ok(v) => {
                self.value = clamp(v, self.lo, self.hi);
                Ok(())
            },
            Err(e) => Err(e),
        }
    }
}

/// The three interdependent hypergeometric parameters: population `N`,
/// marked items `M` and draws `K`, jointly constrained by
/// `K <= M <= N`.
#[derive(Clone, Copy, Debug, PartialEq, Eq, Structural)]
pub struct HypergeometricController {
    /// Population size `N`, in `1..=100`.
    pub population: i64,
    /// Marked items `M`, at most the population.
    pub marked: i64,
    /// Draws `K`, at most the number of marked items.
    pub draws: i64,
}

/// The state after an edit of the population: the new value is clamped
/// into the declared range, then the marked count is clamped to the
/// population and the draw count to the smaller of the two.
pub open spec fn population_cascade(c: HypergeometricController, v: int)
    -> HypergeometricController {
    let n2 = clamped(v, 1, 100);
    let m2 = if c.marked > n2 {
        n2
    } else {
        c.marked as int
    };
    let k2 = if c.draws > m2 {
        m2
    } else {
        c.draws as int
    };
    HypergeometricController { population: n2 as i64, marked: m2 as i64, draws: k2 as i64 }
}

/// The state after an accepted edit of the marked count: the draw count
/// is forced down to the new marked count where it exceeds it.
pub open spec fn marked_cascade(c: HypergeometricController, v: int) -> HypergeometricController {
    let k2 = if c.draws > v {
        v
    } else {
        c.draws as int
    };
    HypergeometricController { population: c.population, marked: v as i64, draws: k2 as i64 }
}

impl HypergeometricController {
    /// The joint invariant `K <= M <= N` with the population in range.
    pub open spec fn wf(self) -> bool {
        &&& 1 <= self.population <= 100
        &&& 0 <= self.marked <= self.population
        &&& 0 <= self.draws <= self.marked
    }

    /// The controller at its default values.
    pub fn new() -> (c: HypergeometricController)
        ensures
            c == (HypergeometricController { population: 50i64, marked: 20i64, draws: 10i64 }),
            c.wf(),
    {
        HypergeometricController { population: 50, marked: 20, draws: 10 }
    }

    /// Edit the population `N`.  One call clamps `N` into its range and
    /// cascades: `M` is forced down to the new `N` where it exceeds it, and
    /// `K` down to the resulting `M`; no second edit is needed.
    pub fn set_population(&mut self, raw: &Vec<u8>) -> (r: Result<(), ParamError>)
        requires
            old(self).wf(),
        ensures
            final(self).wf(),
            r is Ok <==> wf_integer(raw@),
            r is Err ==> *final(self) == *old(self),
            r is Ok ==> *final(self) == population_cascade(*old(self), integer_value(raw@)),
    {
        let v = match parse_integer(raw) {
            Ok(v) => v,
            Err(e) => {
                return Err(e);
            },
        };
        let n2 = clamp(v, 1, 100);
        if self.marked > n2 {
            self.marked = n2;
        }
        if self.draws > self.marked {
            self.draws = self.marked;
        }
        self.population = n2;
        Ok(())
    }

    /// Edit the marked count `M`.  A value outside `0..=N` has no clamp
    /// rule and is rejected with the prior state retained; an accepted
    /// value forces `K` down to the new `M` where it exceeds it.
    pub fn set_marked(&mut self, raw: &Vec<u8>) -> (r: Result<(), ParamError>)
        requires
            old(self).wf(),
        ensures
            final(self).wf(),
            r is Ok <==> (wf_integer(raw@) && 0 <= integer_value(raw@) <= old(self).population),
            !wf_integer(raw@) ==> r == Err::<(), ParamError>(ParamError::Parse),
            wf_integer(raw@) && !(0 <= integer_value(raw@) <= old(self).population) ==> r == Err::<
                (),
                ParamError,
            >(ParamError::Constraint),
            r is Err ==> *final(self) == *old(self),
            r is Ok ==> *final(self) == marked_cascade(*old(self), integer_value(raw@)),
    {
        let v = match parse_integer(raw) {
            Ok(v) => v,
            Err(e) => {
                return Err(e);
            },
        };
        if v < 0 || v > self.population {
            return Err(ParamError::Constraint);
        }
        self.marked = v;
        if self.draws > v {
            self.draws = v;
        }
        Ok(())
    }

    /// Edit the draw count `K`.  A value outside zero up to `min(N, M)`
    /// has no clamp rule and is rejected with the prior state retained.
    pub fn set_draws(&mut self, raw: &Vec<u8>) -> (r: Result<(), ParamError>)
        requires
            old(self).wf(),
        ensures
            final(self).wf(),
            final(self).population == old(self).population,
            final(self).marked == old(self).marked,
            r is Ok <==> (wf_integer(raw@) && 0 <= integer_value(raw@) <= old(self).marked),
            !wf_integer(raw@) ==> r == Err::<(), ParamError>(ParamError::Parse),
            wf_integer(raw@) && !(0 <= integer_value(raw@) <= old(self).marked) ==> r == Err::<
                (),
                ParamError,
            >(ParamError::Constraint),
            r is Err ==> *final(self) == *old(self),
            r is Ok ==> final(self).draws == integer_value(raw@),
    {
        let v = match parse_integer(raw) {
            Ok(v) => v,
            Err(e) => {
                return Err(e);
            },
        };
        let upper = if self.marked < self.population {
            self.marked
        } else {
            self.population
        };
        if v < 0 || v > upper {
            return Err(ParamError::Constraint);
        }
        self.draws = v;
        Ok(())
    }
}

/// Law: one edit of the population cascades all the way down.  Setting `N`
/// below the current `M` clamps `M` to the new `N`, and where that new `M`
/// falls below the current `K`, `K` is clamped too — in the same call.
pub proof fn lemma_population_cascade_clamps(c: HypergeometricController, v: int)
    requires
        c.wf(),
        1 <= v <= 100,
        v < c.marked,
    ensures
        population_cascade(c, v).population == v,
        population_cascade(c, v).marked == v,
        c.draws > v ==> population_cascade(c, v).draws == v,
        c.draws <= v ==> population_cascade(c, v).draws == c.draws,
        population_cascade(c, v).wf(),
{
}

/// Law: every edit preserves the joint invariant — no sequence of edits
/// can leave the parameters where `validate` would reject them.  The
/// population cascade absorbs any value; a marked edit is only accepted
/// inside its range, where the cascade restores the invariant.
pub proof fn lemma_cascades_preserve_invariant(c: HypergeometricController, v: int)
    requires
        c.wf(),
    ensures
        population_cascade(c, v).wf(),
        0 <= v <= c.population ==> marked_cascade(c, v).wf(),
{
}

} // verus!
