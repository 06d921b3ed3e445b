use vstd::prelude::*;

verus! {

/// A pair of counters for one coverage metric: how many items exist and how
/// many of them were covered by at least one test run.
#[derive(Debug, Clone, Copy, PartialEq, Eq, Structural)]
pub struct AggregatedCoverageCounters {
    pub count: u32,
    pub covered_count: u32,
}

impl AggregatedCoverageCounters {
    pub fn new(count: u32, covered_count: u32) -> (r: Self)
        ensures
            r == (AggregatedCoverageCounters { count, covered_count }),
    {
        AggregatedCoverageCounters { count, covered_count }
    }

    /// Sums another pair of counters into this one.
    pub fn add(&mut self, other: &Self)
        requires
            old(self).count + other.count <= u32::MAX,
            old(self).covered_count + other.covered_count <= u32::MAX,
        ensures
            final(self).count == old(self).count + other.count,
            final(self).covered_count == old(self).covered_count + other.covered_count,
    {
        self.count = self.count + other.count;
        self.covered_count = self.covered_count + other.covered_count;
    }

    /// The covered share in hundredths of a percent, rounded to the nearest
    /// unit; undefined (`None`) when nothing was counted, so that no division
    /// by zero can occur.
    pub fn percentage_hundredths(&self) -> (r: Option<u64>)
        ensures
            r == spec_percentage_hundredths(self.covered_count as nat, self.count as nat),
    {
        if self.count == 0 {
            None
        } else {
            Some(((self.covered_count as u64) * 10000 + (self.count as u64) / 2) / (self.count as u64))
        }
    }
}

/// Covered items out of counted items, in hundredths of a percent, rounded to
/// the nearest unit; `None` when nothing was counted.
pub open spec fn spec_percentage_hundredths(covered: nat, count: nat) -> Option<u64> {
    if count == 0 {
        None
    } else {
        Some((((covered * 10000 + count / 2) / count) as u64))
    }
}

impl Default for AggregatedCoverageCounters {
    fn default() -> (r: Self)
        ensures
            r == (AggregatedCoverageCounters { count: 0u32, covered_count: 0u32 }),
    {
        AggregatedCoverageCounters { count: 0, covered_count: 0 }
    }
}

/// One counter pair per metric kind: lines, functions and branches.
#[derive(Debug, Clone, Copy, PartialEq, Eq, Structural)]
pub struct AggregatedCoverage {
    pub lines: AggregatedCoverageCounters,
    pub functions: AggregatedCoverageCounters,
    pub branches: AggregatedCoverageCounters,
}

/// Whether two aggregates can be summed without exceeding the counters' range.
pub open spec fn add_fits(a: AggregatedCoverage, b: AggregatedCoverage) -> bool {
    &&& a.lines.count + b.lines.count <= u32::MAX
    &&& a.lines.covered_count + b.lines.covered_count <= u32::MAX
    &&& a.functions.count + b.functions.count <= u32::MAX
    &&& a.functions.covered_count + b.functions.covered_count <= u32::MAX
    &&& a.branches.count + b.branches.count <= u32::MAX
    &&& a.branches.covered_count + b.branches.covered_count <= u32::MAX
}

/// The element-wise sum of two aggregates, as a mathematical value.
pub open spec fn spec_add(a: AggregatedCoverage, b: AggregatedCoverage) -> AggregatedCoverage {
    AggregatedCoverage {
        lines: AggregatedCoverageCounters {
            count: (a.lines.count + b.lines.count) as u32,
            covered_count: (a.lines.covered_count + b.lines.covered_count) as u32,
        },
        functions: AggregatedCoverageCounters {
            count: (a.functions.count + b.functions.count) as u32,
            covered_count: (a.functions.covered_count + b.functions.covered_count) as u32,
        },
        branches: AggregatedCoverageCounters {
            count: (a.branches.count + b.branches.count) as u32,
            covered_count: (a.branches.covered_count + b.branches.covered_count) as u32,
        },
    }
}

/// The all-zero aggregate, the neutral element of `spec_add`.
pub open spec fn spec_zero() -> AggregatedCoverage {
    AggregatedCoverage {
        lines: AggregatedCoverageCounters { count: 0u32, covered_count: 0u32 },
        functions: AggregatedCoverageCounters { count: 0u32, covered_count: 0u32 },
        branches: AggregatedCoverageCounters { count: 0u32, covered_count: 0u32 },
    }
}

impl AggregatedCoverage {
    /// Sums another aggregate into this one, element-wise.
    pub fn add(&mut self, other: &Self)
        requires
            add_fits(*old(self), *other),
        ensures
            *final(self) == spec_add(*old(self), *other),
    {
        self.lines.add(&other.lines);
        self.functions.add(&other.functions);
        self.branches.add(&other.branches);
    }
}

impl Default for AggregatedCoverage {
    fn default() -> (r: Self)
        ensures
            r == spec_zero(),
    {
        AggregatedCoverage {
            lines: AggregatedCoverageCounters::default(),
            functions: AggregatedCoverageCounters::default(),
            branches: AggregatedCoverageCounters::default(),
        }
    }
}

/// An aggregate as six unbounded integers, in the order lines count, lines
/// covered, functions count, functions covered, branches count, branches
/// covered. Sums over whole trees are stated in these, where no overflow can
/// blur them.
pub open spec fn cov_totals(a: AggregatedCoverage) -> (int, int, int, int, int, int) {
    (
        a.lines.count as int,
        a.lines.covered_count as int,
        a.functions.count as int,
        a.functions.covered_count as int,
        a.branches.count as int,
        a.branches.covered_count as int,
    )
}

pub open spec fn t6_add(
    x: (int, int, int, int, int, int),
    y: (int, int, int, int, int, int),
) -> (int, int, int, int, int, int) {
    (x.0 + y.0, x.1 + y.1, x.2 + y.2, x.3 + y.3, x.4 + y.4, x.5 + y.5)
}

pub open spec fn t6_zero() -> (int, int, int, int, int, int) {
    (0int, 0int, 0int, 0int, 0int, 0int)
}

pub open spec fn t6_le(x: (int, int, int, int, int, int), y: (int, int, int, int, int, int)) -> bool {
    x.0 <= y.0 && x.1 <= y.1 && x.2 <= y.2 && x.3 <= y.3 && x.4 <= y.4 && x.5 <= y.5
}

pub open spec fn t6_nonneg(x: (int, int, int, int, int, int)) -> bool {
    0 <= x.0 && 0 <= x.1 && 0 <= x.2 && 0 <= x.3 && 0 <= x.4 && 0 <= x.5
}

pub open spec fn t6_fits(x: (int, int, int, int, int, int)) -> bool {
    x.0 <= u32::MAX && x.1 <= u32::MAX && x.2 <= u32::MAX && x.3 <= u32::MAX && x.4 <= u32::MAX
        && x.5 <= u32::MAX
}

/// Element-wise addition of aggregates is commutative.
pub proof fn lemma_add_commutes(a: AggregatedCoverage, b: AggregatedCoverage)
    requires
        add_fits(a, b),
    ensures
        spec_add(a, b) == spec_add(b, a),
{
}

/// Element-wise addition of aggregates is associative, so records may be
/// merged in any grouping.
pub proof fn lemma_add_associates(a: AggregatedCoverage, b: AggregatedCoverage, c: AggregatedCoverage)
    requires
        add_fits(b, c),
        add_fits(a, spec_add(b, c)),
    ensures
        add_fits(a, b),
        add_fits(spec_add(a, b), c),
        spec_add(spec_add(a, b), c) == spec_add(a, spec_add(b, c)),
{
}

} // verus!
