//! Run configuration, the running tally of measurements, and the summary
//! records that a benchmark run hands back.

use crate::error::BenchError;
use vstd::prelude::*;

verus! {

/// Where a statistics record comes from: which codec, which flavour of it,
/// where the bytes went, what kind of build, and how many repetitions.
#[derive(Debug, Clone, Copy, PartialEq, Eq)]
pub struct RunInfo {
    pub strategy: &'static str,
    pub version: &'static str,
    pub output: &'static str,
    pub debug: bool,
    pub iterations: u64,
}

/// The sum of a sequence of measurements.
pub open spec fn total(runs: Seq<u64>) -> int
    decreases runs.len(),
{
    if runs.len() == 0 {
        0
    } else {
        total(runs.drop_last()) + runs.last()
    }
}

/// `m` occurs in `runs` and nothing in `runs` is below it.
pub open spec fn is_min(m: u64, runs: Seq<u64>) -> bool {
    &&& exists|i: int| 0 <= i < runs.len() && runs[i] == m
    &&& forall|i: int| 0 <= i < runs.len() ==> m <= runs[i]
}

/// `m` occurs in `runs` and nothing in `runs` is above it.
pub open spec fn is_max(m: u64, runs: Seq<u64>) -> bool {
    &&& exists|i: int| 0 <= i < runs.len() && runs[i] == m
    &&& forall|i: int| 0 <= i < runs.len() ==> runs[i] <= m
}

/// Adding one measurement adds it to the sum.
pub proof fn lemma_total_push(runs: Seq<u64>, nanos: u64)
    ensures
        total(runs.push(nanos)) == total(runs) + nanos,
{
    assert(runs.push(nanos).drop_last() =~= runs);
}

/// A sum of `u64` measurements is at most as many times `u64::MAX`.
pub proof fn lemma_total_bound(runs: Seq<u64>)
    ensures
        0 <= total(runs) <= runs.len() * u64::MAX,
    decreases runs.len(),
{
    if runs.len() > 0 {
        lemma_total_bound(runs.drop_last());
        assert(total(runs) <= (runs.len() - 1) * u64::MAX + u64::MAX);
        assert((runs.len() - 1) * u64::MAX + u64::MAX == runs.len() * u64::MAX)
            by (nonlinear_arith);
    }
}

/// A truncated quotient times the divisor falls short of the dividend by
/// less than the divisor.
pub proof fn lemma_quotient_rounding(sum: int, n: int)
    requires
        sum >= 0,
        n > 0,
    ensures
        (sum / n) * n <= sum < (sum / n) * n + n,
{
    assert((sum / n) * n <= sum && sum < (sum / n) * n + n) by (nonlinear_arith)
        requires
            n > 0,
            sum >= 0,
    ;
}

/// The running aggregate of one timed phase: how many measurements came in,
/// their sum, the least and the greatest, and the measurements themselves
/// where the phase retains them.
pub struct Tally {
    keep: bool,
    runs: Vec<u64>,
    count: u64,
    total_ns: u128,
    min_ns: u64,
    max_ns: u64,
    seen: Ghost<Seq<u64>>,
}

impl Tally {
    /// Every measurement recorded so far, oldest first.
    pub closed spec fn seen(&self) -> Seq<u64> {
        self.seen@
    }

    /// Whether the tally retains each measurement or only the aggregates.
    pub closed spec fn keeps_runs(&self) -> bool {
        self.keep
    }

    /// The aggregates agree with the measurements recorded.
    pub closed spec fn wf(&self) -> bool {
        &&& self.count == self.seen@.len()
        &&& self.total_ns == total(self.seen@)
        &&& self.runs@ == if self.keep { self.seen@ } else { Seq::<u64>::empty() }
        &&& if self.seen@.len() == 0 {
            self.min_ns == u64::MAX && self.max_ns == 0
        } else {
            is_min(self.min_ns, self.seen@) && is_max(self.max_ns, self.seen@)
        }
    }

    /// An empty tally.
    pub fn new(keep_runs: bool) -> (tally: Tally)
        ensures
            tally.wf(),
            tally.seen() == Seq::<u64>::empty(),
            tally.keeps_runs() == keep_runs,
    {
        Tally {
            keep: keep_runs,
            runs: Vec::new(),
            count: 0,
            total_ns: 0,
            min_ns: u64::MAX,
            max_ns: 0,
            seen: Ghost(Seq::empty()),
        }
    }

    /// How many measurements have been recorded.
    pub fn count(&self) -> (n: u64)
        requires
            self.wf(),
        ensures
            n == self.seen().len(),
    {
        self.count
    }

    /// Takes in one measurement.
    pub fn record(&mut self, nanos: u64)
        requires
            old(self).wf(),
            old(self).seen().len() < u64::MAX,
        ensures
            final(self).wf(),
            final(self).seen() == old(self).seen().push(nanos),
            final(self).keeps_runs() == old(self).keeps_runs(),
    {
        let ghost before = self.seen@;
        proof {
            lemma_total_push(before, nanos);
            lemma_total_bound(before);
            assert(before.len() * u64::MAX + nanos <= u128::MAX) by (nonlinear_arith)
                requires
                    before.len() < u64::MAX,
                    nanos <= u64::MAX,
            ;
        }
        if self.keep {
            self.runs.push(nanos);
        }
        if self.count == 0 || nanos < self.min_ns {
            self.min_ns = nanos;
        }
        if self.count == 0 || nanos > self.max_ns {
            self.max_ns = nanos;
        }
        self.total_ns = self.total_ns + nanos as u128;
        self.count = self.count + 1;
        self.seen = Ghost(before.push(nanos));
        proof {
            let after = before.push(nanos);
            assert(after[before.len() as int] == nanos);
            if before.len() > 0 {
                let lo = choose|i: int| 0 <= i < before.len() && before[i] == old(self).min_ns;
                let hi = choose|i: int| 0 <= i < before.len() && before[i] == old(self).max_ns;
                assert(after[lo] == old(self).min_ns);
                assert(after[hi] == old(self).max_ns);
            }
        }
    }
}

/// The retained measurements of a phase with their extremes.
#[derive(Debug, Clone, PartialEq, Eq)]
pub struct Spread {
    pub runs: Vec<u64>,
    pub min_ns: u64,
    pub max_ns: u64,
}

/// What the measurements of one phase come to.
#[derive(Debug, Clone, PartialEq, Eq)]
pub struct PhaseStats {
    pub total_ns: u128,
    pub avg_ns: u64,
    pub spread: Option<Spread>,
}

/// The record of a serialization phase.
#[derive(Debug, Clone, PartialEq, Eq)]
pub struct SerStats {
    pub info: RunInfo,
    /// Length in bytes of the serialized form the phase ended with.
    pub size: u64,
    /// `size` times the number of iterations.
    pub total_bytes: u128,
    pub total_ns: u128,
    pub avg_ns: u64,
    pub spread: Option<Spread>,
}

/// The record of a deserialization phase.
#[derive(Debug, Clone, PartialEq, Eq)]
pub struct DeStats {
    pub info: RunInfo,
    /// Length in bytes of the buffer read, times the number of iterations.
    pub total_bytes: u128,
    pub total_ns: u128,
    pub avg_ns: u64,
    pub spread: Option<Spread>,
}

/// `spread` is what a phase that measured `seen` reports of the single
/// measurements: all of them with their extremes if it retains them, nothing
/// if it does not.
pub open spec fn spread_of(spread: Option<Spread>, seen: Seq<u64>, keep_runs: bool) -> bool {
    match spread {
        Some(s) => {
            &&& keep_runs
            &&& s.runs@ == seen
            &&& is_min(s.min_ns, seen)
            &&& is_max(s.max_ns, seen)
        },
        None => !keep_runs,
    }
}

impl PhaseStats {
    /// These are the sum, the truncated average and the spread of `seen`.
    pub open spec fn summarizes(&self, seen: Seq<u64>, keep_runs: bool) -> bool {
        &&& seen.len() > 0
        &&& self.total_ns == total(seen)
        &&& self.avg_ns == total(seen) / seen.len() as int
        &&& spread_of(self.spread, seen, keep_runs)
    }
}

impl SerStats {
    /// This record describes a phase configured by `info` that measured
    /// `seen`, one measurement per iteration, and ended with `size` bytes.
    pub open spec fn summarizes(&self, info: RunInfo, seen: Seq<u64>, size: u64, keep_runs: bool) -> bool {
        &&& self.info == info
        &&& self.size == size
        &&& self.total_bytes == size * info.iterations
        &&& seen.len() == info.iterations
        &&& seen.len() > 0
        &&& self.total_ns == total(seen)
        &&& self.avg_ns == total(seen) / seen.len() as int
        &&& spread_of(self.spread, seen, keep_runs)
    }
}

impl DeStats {
    /// This record describes a phase configured by `info` that measured
    /// `seen`, one measurement per iteration, each reading `size` bytes.
    pub open spec fn summarizes(&self, info: RunInfo, seen: Seq<u64>, size: u64, keep_runs: bool) -> bool {
        &&& self.info == info
        &&& self.total_bytes == size * info.iterations
        &&& seen.len() == info.iterations
        &&& seen.len() > 0
        &&& self.total_ns == total(seen)
        &&& self.avg_ns == total(seen) / seen.len() as int
        &&& spread_of(self.spread, seen, keep_runs)
    }
}

impl Tally {
    /// Closes the phase after `iterations` measurements.
    ///
    /// Fails with `ZeroIterations` where `iterations` is zero, and with
    /// `Incomplete` where the tally holds another number of measurements.
    pub fn finish(self, iterations: u64) -> (res: Result<PhaseStats, BenchError>)
        requires
            self.wf(),
        ensures
            match res {
                Ok(stats) => {
                    &&& iterations > 0
                    &&& self.seen().len() == iterations
                    &&& stats.summarizes(self.seen(), self.keeps_runs())
                },
                Err(e) => {
                    &&& iterations == 0 || self.seen().len() != iterations
                    &&& e == if iterations == 0 {
                        BenchError::ZeroIterations
                    } else {
                        BenchError::Incomplete
                    }
                },
            },
    {
        if iterations == 0 {
            return Err(BenchError::ZeroIterations);
        }
        if self.count != iterations {
            return Err(BenchError::Incomplete);
        }
        proof {
            lemma_total_bound(self.seen@);
            assert(self.total_ns as int / iterations as int <= u64::MAX) by (nonlinear_arith)
                requires
                    iterations > 0,
                    0 <= self.total_ns as int <= iterations * u64::MAX,
            ;
        }
        let avg_ns = (self.total_ns / iterations as u128) as u64;
        let spread = if self.keep {
            Some(Spread { runs: self.runs, min_ns: self.min_ns, max_ns: self.max_ns })
        } else {
            None
        };
        Ok(PhaseStats { total_ns: self.total_ns, avg_ns, spread })
    }
}

/// The byte volume of a phase: `size` bytes in each of `iterations` calls.
pub fn byte_volume(size: u64, iterations: u64) -> (volume: u128)
    ensures
        volume == size * iterations,
{
    assert(size * iterations <= u128::MAX) by (nonlinear_arith)
        requires
            size <= u64::MAX,
            iterations <= u64::MAX,
    ;
    size as u128 * iterations as u128
}

impl SerStats {
    /// The record of a serialization phase that ended with `size` bytes.
    ///
    /// Fails as [`Tally::finish`] does.
    pub fn new(info: RunInfo, size: u64, tally: Tally) -> (res: Result<SerStats, BenchError>)
        requires
            tally.wf(),
        ensures
            match res {
                Ok(stats) => stats.summarizes(info, tally.seen(), size, tally.keeps_runs()),
                Err(e) => {
                    &&& info.iterations == 0 || tally.seen().len() != info.iterations
                    &&& e == if info.iterations == 0 {
                        BenchError::ZeroIterations
                    } else {
                        BenchError::Incomplete
                    }
                },
            },
    {
        match tally.finish(info.iterations) {
            Ok(phase) => Ok(
                SerStats {
                    info,
                    size,
                    total_bytes: byte_volume(size, info.iterations),
                    total_ns: phase.total_ns,
                    avg_ns: phase.avg_ns,
                    spread: phase.spread,
                },
            ),
            Err(e) => Err(e),
        }
    }
}

impl DeStats {
    /// The record of a deserialization phase whose calls each read `size`
    /// bytes.
    ///
    /// Fails as [`Tally::finish`] does.
    pub fn new(info: RunInfo, size: u64, tally: Tally) -> (res: Result<DeStats, BenchError>)
        requires
            tally.wf(),
        ensures
            match res {
                Ok(stats) => stats.summarizes(info, tally.seen(), size, tally.keeps_runs()),
                Err(e) => {
                    &&& info.iterations == 0 || tally.seen().len() != info.iterations
                    &&& e == if info.iterations == 0 {
                        BenchError::ZeroIterations
                    } else {
                        BenchError::Incomplete
                    }
                },
            },
    {
        match tally.finish(info.iterations) {
            Ok(phase) => Ok(
                DeStats {
                    info,
                    total_bytes: byte_volume(size, info.iterations),
                    total_ns: phase.total_ns,
                    avg_ns: phase.avg_ns,
                    spread: phase.spread,
                },
            ),
            Err(e) => Err(e),
        }
    }
}

/// The least and the greatest of the retained measurements enclose every
/// one of them.
pub proof fn lemma_extremes_enclose(spread: Spread, seen: Seq<u64>)
    requires
        spread_of(Some(spread), seen, true),
    ensures
        forall|i: int|
            0 <= i < spread.runs@.len() ==> spread.min_ns <= (#[trigger] spread.runs@[i])
                <= spread.max_ns,
{
}

impl SerStats {
    /// The average times the number of iterations falls short of the sum of
    /// the measurements by less than the number of iterations: the division
    /// drops the remainder and nothing else.
    pub proof fn lemma_average_within_rounding(
        self,
        info: RunInfo,
        seen: Seq<u64>,
        size: u64,
        keep_runs: bool,
    )
        requires
            self.summarizes(info, seen, size, keep_runs),
        ensures
            self.total_ns == total(seen),
            self.avg_ns * info.iterations <= self.total_ns,
            self.total_ns < self.avg_ns * info.iterations + info.iterations,
    {
        lemma_total_bound(seen);
        lemma_quotient_rounding(total(seen), seen.len() as int);
    }
}

impl DeStats {
    /// The average times the number of iterations falls short of the sum of
    /// the measurements by less than the number of iterations: the division
    /// drops the remainder and nothing else.
    pub proof fn lemma_average_within_rounding(
        self,
        info: RunInfo,
        seen: Seq<u64>,
        size: u64,
        keep_runs: bool,
    )
        requires
            self.summarizes(info, seen, size, keep_runs),
        ensures
            self.total_ns == total(seen),
            self.avg_ns * info.iterations <= self.total_ns,
            self.total_ns < self.avg_ns * info.iterations + info.iterations,
    {
        lemma_total_bound(seen);
        lemma_quotient_rounding(total(seen), seen.len() as int);
    }
}

} // verus!
