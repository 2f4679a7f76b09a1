//! The sampling engine: deterministic grids of abscissae.
//!
//! A curve is drawn by evaluating a model over an ordered grid.  The grid
//! is a pure function of its first index, point count and step, so two
//! samplings with identical inputs are identical — there is no hidden
//! randomness or time dependence.  Ordinates are attached by the caller,
//! which pairs each abscissa with the model's value there.

use vstd::prelude::*;

verus! {

/// The abscissae of a uniform grid in micro-units: index `first + j`
/// scaled by `step`, for `j` below `count`.
pub open spec fn grid_seq(first: int, count: nat, step: int) -> Seq<i64> {
    Seq::new(count, |j: int| ((first + j) * step) as i64)
}

/// Build a uniform grid of `count` abscissae starting at index `first`
/// with `step` micro-units between neighbours.
pub fn uniform_grid(first: i64, count: usize, step: i64) -> (g: Vec<i64>)
    requires
        -1_000 <= first <= 1_000,
        count <= 3_000,
        0 < step <= 1_000_000,
    ensures
        g@.len() == count,
        forall|j: int| 0 <= j < count ==> g@[j] == (first + j) * step,
        g@ == grid_seq(first as int, count as nat, step as int),
{
    let mut g: Vec<i64> = Vec::new();
    let mut j: usize = 0;
    while j < count
        invariant
            0 <= j <= count <= 3_000,
            -1_000 <= first <= 1_000,
            0 < step <= 1_000_000,
            g@.len() == j,
            forall|i: int| 0 <= i < j ==> g@[i] == (first + i) * step,
        decreases count - j,
    {
        proof {
            assert(-4_000_000_000 <= (first + j) * step <= 4_000_000_000) by (nonlinear_arith)
                requires
                    -1_000 <= first <= 1_000,
                    0 <= j <= 3_000,
                    0 < step <= 1_000_000,
            ;
        }
        g.push((first + (j as i64)) * step);
        j = j + 1;
    }
    proof {
        assert(g@ =~= grid_seq(first as int, count as nat, step as int));
    }
    g
}

/// Build the integer support grid `start`, `start + 1`, ... below `end`.
pub fn index_grid(start: u64, end: u64) -> (g: Vec<u64>)
    requires
        start <= end,
        end <= 1_000_000,
    ensures
        g@.len() == end - start,
        forall|j: int| 0 <= j < end - start ==> g@[j] == start + j,
{
    let mut g: Vec<u64> = Vec::new();
    let mut v: u64 = start;
    while v < end
        invariant
            start <= v <= end <= 1_000_000,
            g@.len() == v - start,
            forall|j: int| 0 <= j < v - start ==> g@[j] == start + j,
        decreases end - v,
    {
        g.push(v);
        v = v + 1;
    }
    g
}

/// An ordered series of sampled points: abscissae in micro-units paired
/// positionally with the caller's ordinates.  A series is produced fresh
/// on every parameter change and never cached.
pub struct SampleSeries<Y> {
    /// Abscissae in micro-units.
    pub xs: Vec<i64>,
    /// Ordinates, one per abscissa.
    pub ys: Vec<Y>,
}

impl<Y> SampleSeries<Y> {
    /// A series pairs every abscissa with exactly one ordinate.
    pub open spec fn wf(self) -> bool {
        self.xs@.len() == self.ys@.len()
    }

    /// Pair a grid with its ordinates.
    pub fn from_parts(xs: Vec<i64>, ys: Vec<Y>) -> (s: SampleSeries<Y>)
        requires
            xs@.len() == ys@.len(),
        ensures
            s.xs == xs,
            s.ys == ys,
            s.wf(),
    {
        SampleSeries { xs, ys }
    }

    /// Number of sampled points.
    pub fn len(&self) -> (n: usize)
        requires
            self.wf(),
        ensures
            n == self.xs@.len(),
    {
        self.xs.len()
    }
}

/// Law: sampling is deterministic.  Two grids produced from identical
/// first index, point count and step are identical sequences; no state of
/// the engine and no outside source enters the result.
pub proof fn lemma_sampling_deterministic(
    a: Seq<i64>,
    b: Seq<i64>,
    first: int,
    count: nat,
    step: int,
)
    requires
        a == grid_seq(first, count, step),
        b == grid_seq(first, count, step),
    ensures
        a == b,
{
}

} // verus!
