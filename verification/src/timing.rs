//! How long the cycles take. Every so many cycles a summary is made of them.
use crate::text::decimal;
use rayon::iter::{IntoParallelRefIterator, ParallelIterator};
use vstd::prelude::*;
use vstd::string::StringExecFns;

verus! {

/// Nanoseconds in a second.
pub const NANOS_PER_SEC: u128 = 1_000_000_000;

/// Nanoseconds in a millisecond.
pub const NANOS_PER_MILLI: u128 = 1_000_000;

/// The shortest of some durations, or the longest that there can be where there are none.
pub open spec fn shortest_of(samples: Seq<u64>) -> u64
    decreases samples.len(),
{
    if samples.len() == 0 {
        u64::MAX
    } else {
        let before = shortest_of(samples.drop_last());
        if samples.last() < before {
            samples.last()
        } else {
            before
        }
    }
}

/// The longest of some durations, or zero where there are none.
pub open spec fn longest_of(samples: Seq<u64>) -> u64
    decreases samples.len(),
{
    if samples.len() == 0 {
        0
    } else {
        let before = longest_of(samples.drop_last());
        if samples.last() > before {
            samples.last()
        } else {
            before
        }
    }
}

/// Some durations together.
pub open spec fn total_of(samples: Seq<u64>) -> int
    decreases samples.len(),
{
    if samples.len() == 0 {
        0
    } else {
        total_of(samples.drop_last()) + samples.last()
    }
}

/// The shortest, the longest and the sum of some durations, in nanoseconds.
#[derive(Clone, Copy, PartialEq, Eq, Structural, Debug)]
pub struct Spread {
    pub shortest: u64,
    pub longest: u64,
    pub total: u128,
}

/// `spread` is that of the samples.
pub open spec fn is_spread_of(spread: Spread, samples: Seq<u64>) -> bool {
    &&& spread.shortest == shortest_of(samples)
    &&& spread.longest == longest_of(samples)
    &&& spread.total == total_of(samples)
}

/// The spread of two lots of durations together.
pub open spec fn merged(a: Spread, b: Spread) -> Spread {
    Spread {
        shortest: if a.shortest < b.shortest {
            a.shortest
        } else {
            b.shortest
        },
        longest: if a.longest > b.longest {
            a.longest
        } else {
            b.longest
        },
        total: (a.total + b.total) as u128,
    }
}

/// The spread of one duration.
pub open spec fn single(sample: u64) -> Spread {
    Spread { shortest: sample, longest: sample, total: sample as u128 }
}

impl Spread {
    /// The spread of no duration.
    pub fn empty() -> (s: Spread)
        ensures
            is_spread_of(s, Seq::empty()),
            s.shortest == u64::MAX && s.longest == 0 && s.total == 0,
    {
        Spread { shortest: u64::MAX, longest: 0, total: 0 }
    }

    /// The spread with one more duration.
    pub fn absorb(self, sample: u64) -> (s: Spread)
        requires
            self.total + sample <= u128::MAX,
        ensures
            s == merged(self, single(sample)),
            s.shortest == if self.shortest < sample {
                self.shortest
            } else {
                sample
            },
            s.longest == if self.longest > sample {
                self.longest
            } else {
                sample
            },
            s.total == self.total + sample,
            forall|samples: Seq<u64>|
                is_spread_of(self, samples) ==> #[trigger] is_spread_of(s, samples.push(sample)),
    {
        let s = Spread {
            shortest: if self.shortest < sample {
                self.shortest
            } else {
                sample
            },
            longest: if self.longest > sample {
                self.longest
            } else {
                sample
            },
            total: self.total + sample as u128,
        };
        proof {
            assert forall|samples: Seq<u64>| is_spread_of(self, samples) implies
                #[trigger] is_spread_of(s, samples.push(sample)) by {
                assert(samples.push(sample).drop_last() =~= samples);
            }
        }
        s
    }

    /// The spread of two lots of durations together.
    pub fn merge(self, other: Spread) -> (s: Spread)
        requires
            self.total + other.total <= u128::MAX,
        ensures
            s == merged(self, other),
            s.shortest == if self.shortest < other.shortest {
                self.shortest
            } else {
                other.shortest
            },
            s.longest == if self.longest > other.longest {
                self.longest
            } else {
                other.longest
            },
            s.total == self.total + other.total,
    {
        Spread {
            shortest: if self.shortest < other.shortest {
                self.shortest
            } else {
                other.shortest
            },
            longest: if self.longest > other.longest {
                self.longest
            } else {
                other.longest
            },
            total: self.total + other.total,
        }
    }
}

/// However the samples are divided, the spreads of the parts together make the spread of them all.
pub proof fn spread_of_parts(a: Seq<u64>, b: Seq<u64>, x: Spread, y: Spread)
    requires
        is_spread_of(x, a),
        is_spread_of(y, b),
        x.total + y.total <= u128::MAX,
    ensures
        is_spread_of(merged(x, y), a + b),
{
    parts_add_up(a, b);
}

proof fn parts_add_up(a: Seq<u64>, b: Seq<u64>)
    ensures
        total_of(a + b) == total_of(a) + total_of(b),
        shortest_of(a + b) == if shortest_of(a) < shortest_of(b) {
            shortest_of(a)
        } else {
            shortest_of(b)
        },
        longest_of(a + b) == if longest_of(a) > longest_of(b) {
            longest_of(a)
        } else {
            longest_of(b)
        },
    decreases b.len(),
{
    if b.len() == 0 {
        assert(a + b =~= a);
    } else {
        parts_add_up(a, b.drop_last());
        assert((a + b).drop_last() =~= a + b.drop_last());
    }
}

/// The order in which three spreads are merged makes no difference, and the spread of no duration
/// changes nothing.
pub proof fn merging_is_associative(a: Spread, b: Spread, c: Spread, none: Spread)
    requires
        a.total + b.total + c.total <= u128::MAX,
        is_spread_of(none, Seq::empty()),
    ensures
        merged(merged(a, b), c) == merged(a, merged(b, c)),
        merged(a, none) == a,
        merged(none, a) == a,
{
}

/// The shortest and the longest duration are among the samples and bound them all.
pub proof fn spread_bounds_the_samples(samples: Seq<u64>)
    requires
        samples.len() > 0,
    ensures
        samples.contains(shortest_of(samples)),
        samples.contains(longest_of(samples)),
        forall|i: int|
            0 <= i < samples.len() ==> shortest_of(samples) <= #[trigger] samples[i] <= longest_of(
                samples,
            ),
    decreases samples.len(),
{
    let init = samples.drop_last();
    assert(samples[samples.len() - 1] == samples.last());
    if init.len() > 0 {
        spread_bounds_the_samples(init);
        let i = choose|i: int| 0 <= i < init.len() && init[i] == shortest_of(init);
        assert(samples[i] == shortest_of(init));
        let j = choose|j: int| 0 <= j < init.len() && init[j] == longest_of(init);
        assert(samples[j] == longest_of(init));
        assert forall|i: int| 0 <= i < samples.len() implies shortest_of(samples)
            <= #[trigger] samples[i] <= longest_of(samples) by {
            if i < init.len() {
                assert(init[i] == samples[i]);
            }
        }
    } else {
        assert(shortest_of(init) == u64::MAX);
        assert(longest_of(init) == 0);
    }
}

/// The durations together are their sum. Those of two lots are added, and without any there is
/// neither a shortest nor a longest.
pub proof fn total_is_the_sum(samples: Seq<u64>)
    ensures
        total_of(samples) == samples.fold_left(0int, |total: int, d: u64| total + d),
        shortest_of(Seq::empty()) == u64::MAX,
        longest_of(Seq::empty()) == 0,
    decreases samples.len(),
{
    if samples.len() > 0 {
        total_is_the_sum(samples.drop_last());
    }
}

/// What a spread says: the shortest and the longest of the samples, which are among them and bound
/// them all, and their sum.
pub proof fn spread_tells_of_the_samples(spread: Spread, samples: Seq<u64>)
    requires
        is_spread_of(spread, samples),
    ensures
        spread.total == samples.fold_left(0int, |total: int, d: u64| total + d),
        samples.len() == 0 ==> spread.shortest == u64::MAX && spread.longest == 0,
        samples.len() > 0 ==> samples.contains(spread.shortest) && samples.contains(spread.longest),
        forall|i: int|
            0 <= i < samples.len() ==> spread.shortest <= #[trigger] samples[i] <= spread.longest,
{
    total_is_the_sum(samples);
    if samples.len() > 0 {
        spread_bounds_the_samples(samples);
    }
}

proof fn total_is_bounded(samples: Seq<u64>)
    ensures
        0 <= total_of(samples) <= samples.len() * u64::MAX,
    decreases samples.len(),
{
    if samples.len() > 0 {
        total_is_bounded(samples.drop_last());
        assert((samples.len() - 1) * u64::MAX + u64::MAX == samples.len() * u64::MAX)
            by (nonlinear_arith)
            requires
                samples.len() > 0,
        ;
    }
}

/// How samples are divided: into parts that are folded in order, whose spreads are then merged two
/// neighbours at a time.
pub enum Division {
    Part(Seq<u64>),
    Both(Box<Division>, Box<Division>),
}

/// The samples that were divided, in order.
pub open spec fn divided(d: Division) -> Seq<u64>
    decreases d,
{
    match d {
        Division::Part(samples) => samples,
        Division::Both(a, b) => divided(*a) + divided(*b),
    }
}

/// What folding a part in order gives, from an empty spread.
pub open spec fn folded(samples: Seq<u64>) -> Spread
    decreases samples.len(),
{
    if samples.len() == 0 {
        Spread { shortest: u64::MAX, longest: 0, total: 0 }
    } else {
        merged(folded(samples.drop_last()), single(samples.last()))
    }
}

/// What merging the spreads of the parts gives.
pub open spec fn reduced(d: Division) -> Spread
    decreases d,
{
    match d {
        Division::Part(samples) => folded(samples),
        Division::Both(a, b) => merged(reduced(*a), reduced(*b)),
    }
}

/// The spread comes about by dividing the samples in some way.
pub open spec fn comes_from_a_division(s: Spread, samples: Seq<u64>) -> bool {
    exists|d: Division| #[trigger] divided(d) == samples && s == reduced(d)
}

proof fn folded_is_the_spread(samples: Seq<u64>)
    requires
        total_of(samples) <= u128::MAX,
    ensures
        is_spread_of(folded(samples), samples),
    decreases samples.len(),
{
    if samples.len() > 0 {
        total_is_bounded(samples.drop_last());
        folded_is_the_spread(samples.drop_last());
    }
}

/// However the samples are divided, folding the parts and merging their spreads gives the spread of
/// all samples.
pub proof fn any_division_gives_the_spread(d: Division)
    requires
        total_of(divided(d)) <= u128::MAX,
    ensures
        is_spread_of(reduced(d), divided(d)),
    decreases d,
{
    match d {
        Division::Part(samples) => {
            folded_is_the_spread(samples);
        },
        Division::Both(a, b) => {
            parts_add_up(divided(*a), divided(*b));
            total_is_bounded(divided(*a));
            total_is_bounded(divided(*b));
            any_division_gives_the_spread(*a);
            any_division_gives_the_spread(*b);
            spread_of_parts(divided(*a), divided(*b), reduced(*a), reduced(*b));
        },
    }
}

/// Calls `par_iter` of rayon, and `fold` and `reduce` on what it returns. rayon divides the samples
/// into parts, folds each part in order from an empty spread, and merges the spreads of neighbours.
/// How it divides them, and in which order it merges, it leaves open: it is claimed only that the
/// result comes about in one of these ways.
#[verifier::external_body]
fn fold_in_parallel(samples: &Vec<u64>) -> (s: Spread)
    requires
        total_of(samples@) <= u128::MAX,
    ensures
        comes_from_a_division(s, samples@),
{
    samples.par_iter().fold(|| Spread::empty(), |s, d| s.absorb(*d)).reduce(
        || Spread::empty(),
        |a, b| a.merge(b),
    )
}

/// The spread of the samples.
pub fn summarize(samples: &Vec<u64>) -> (s: Spread)
    ensures
        is_spread_of(s, samples@),
        s.total == samples@.fold_left(0int, |total: int, d: u64| total + d),
        samples@.len() == 0 ==> s.shortest == u64::MAX && s.longest == 0,
        samples@.len() > 0 ==> samples@.contains(s.shortest) && samples@.contains(s.longest),
        forall|i: int|
            0 <= i < samples@.len() ==> s.shortest <= #[trigger] samples@[i] <= s.longest,
{
    proof {
        if samples@.len() > 0 {
            spread_bounds_the_samples(samples@);
        }
        total_is_the_sum(samples@);
        total_is_bounded(samples@);
        assert(samples@.len() == samples.len() <= usize::MAX <= u64::MAX);
        assert(samples@.len() * u64::MAX <= u128::MAX) by (nonlinear_arith)
            requires
                samples@.len() <= u64::MAX,
        ;
    }
    let s = fold_in_parallel(samples);
    proof {
        let d = choose|d: Division| #[trigger] divided(d) == samples@ && s == reduced(d);
        any_division_gives_the_spread(d);
    }
    s
}

/// A summary of the cycles: how many there were, and in whole units how long they took.
#[derive(Clone, Copy, PartialEq, Eq, Structural, Debug)]
pub struct TimingReport {
    pub cycles: usize,
    pub total_seconds: u128,
    pub shortest_millis: u128,
    pub longest_millis: u128,
    pub average_millis: usize,
}

/// The summary of the samples. The sum in milliseconds is taken modulo the range of `usize` before
/// the average is made.
pub open spec fn is_report_of(report: TimingReport, interval: usize, samples: Seq<u64>) -> bool {
    &&& report.cycles == interval
    &&& report.total_seconds == total_of(samples) / (NANOS_PER_SEC as int)
    &&& report.shortest_millis == shortest_of(samples) as int / (NANOS_PER_MILLI as int)
    &&& report.longest_millis == longest_of(samples) as int / (NANOS_PER_MILLI as int)
    &&& report.average_millis == (total_of(samples) / (NANOS_PER_MILLI as int) % (usize::MAX + 1))
        / (interval as int)
}

/// What is said of a summary.
pub open spec fn report_text(report: TimingReport) -> Seq<char> {
    crate::text::digits(report.cycles as nat) + " cycles took "@ + crate::text::digits(
        report.total_seconds as nat,
    ) + " total seconds. Min: "@ + crate::text::digits(report.shortest_millis as nat) + ", Max: "@
        + crate::text::digits(report.longest_millis as nat) + ", Avg: "@ + crate::text::digits(
        report.average_millis as nat,
    )
}

/// What a summary says: the sum of the samples in whole seconds, the shortest and the longest of
/// them in whole milliseconds, and the sum in milliseconds divided by the number of cycles.
pub proof fn report_tells_of_the_samples(report: TimingReport, interval: usize, samples: Seq<u64>)
    requires
        is_report_of(report, interval, samples),
        samples.len() > 0,
    ensures
        ({
            let total = samples.fold_left(0int, |total: int, d: u64| total + d);
            &&& report.cycles == interval
            &&& report.total_seconds == total / 1_000_000_000
            &&& report.average_millis == (total / 1_000_000 % (usize::MAX + 1)) / (interval as int)
            &&& exists|shortest: u64| #[trigger]
                samples.contains(shortest) && report.shortest_millis == shortest as int / 1_000_000
                    && forall|i: int| 0 <= i < samples.len() ==> shortest <= #[trigger] samples[i]
            &&& exists|longest: u64| #[trigger]
                samples.contains(longest) && report.longest_millis == longest as int / 1_000_000
                    && forall|i: int| 0 <= i < samples.len() ==> #[trigger] samples[i] <= longest
        }),
{
    total_is_the_sum(samples);
    spread_bounds_the_samples(samples);
}

impl TimingReport {
    /// What is said of the summary.
    pub fn message(&self) -> (m: String)
        ensures
            m@ == report_text(*self),
            m@ == crate::text::digits(self.cycles as nat) + " cycles took "@
                + crate::text::digits(self.total_seconds as nat) + " total seconds. Min: "@
                + crate::text::digits(self.shortest_millis as nat) + ", Max: "@
                + crate::text::digits(self.longest_millis as nat) + ", Avg: "@
                + crate::text::digits(self.average_millis as nat),
    {
        let mut m = decimal(self.cycles as u128);
        m.append(" cycles took ");
        m.append(decimal(self.total_seconds).as_str());
        m.append(" total seconds. Min: ");
        m.append(decimal(self.shortest_millis).as_str());
        m.append(", Max: ");
        m.append(decimal(self.longest_millis).as_str());
        m.append(", Avg: ");
        m.append(decimal(self.average_millis as u128).as_str());
        m
    }
}

/// The durations of the cycles since the last summary, in nanoseconds.
pub struct TimingLog {
    pub samples: Vec<u64>,
    pub interval: usize,
}

/// The most samples that there can be room for: a sample takes eight bytes, and a list at most
/// `isize::MAX` bytes.
pub open spec fn room_limit() -> int {
    isize::MAX as int / 8
}

/// Taking note of a cycle turns `before` into `after` and returns `r`. With the last cycle of a
/// summary the summary is returned, and a new one begins.
pub open spec fn takes_note(
    before: TimingLog,
    elapsed: u64,
    after: TimingLog,
    r: Option<TimingReport>,
) -> bool {
    let samples = before.samples@.push(elapsed);
    &&& after.interval == before.interval
    &&& if samples.len() >= before.interval {
        &&& r matches Some(report) && is_report_of(report, before.interval, samples)
        &&& after.samples@.len() == 0
    } else {
        &&& r is None
        &&& after.samples@ == samples
    }
}

/// Taking note of a cycle adds its duration to the others. With every `interval`-th cycle a summary
/// of all of them is returned, and the next one starts without any.
pub proof fn notes_are_summarised(
    before: TimingLog,
    elapsed: u64,
    after: TimingLog,
    r: Option<TimingReport>,
)
    requires
        takes_note(before, elapsed, after, r),
    ensures
        after.interval == before.interval,
        before.samples@.len() + 1 < before.interval ==> r is None && after.samples@
            == before.samples@.push(elapsed),
        before.samples@.len() + 1 >= before.interval ==> after.samples@.len() == 0 && (
        r matches Some(report) && ({
            let samples = before.samples@.push(elapsed);
            let total = samples.fold_left(0int, |total: int, d: u64| total + d);
            &&& report.cycles == before.interval
            &&& report.total_seconds == total / 1_000_000_000
            &&& report.average_millis == (total / 1_000_000 % (usize::MAX + 1)) / (
            before.interval as int)
            &&& exists|shortest: u64| #[trigger]
                samples.contains(shortest) && report.shortest_millis == shortest as int / 1_000_000
                    && forall|i: int| 0 <= i < samples.len() ==> shortest <= #[trigger] samples[i]
            &&& exists|longest: u64| #[trigger]
                samples.contains(longest) && report.longest_millis == longest as int / 1_000_000
                    && forall|i: int| 0 <= i < samples.len() ==> #[trigger] samples[i] <= longest
        })),
{
    let samples = before.samples@.push(elapsed);
    total_is_the_sum(samples);
    spread_bounds_the_samples(samples);
}

impl TimingLog {
    /// Whether there can be room for so many samples.
    pub fn has_room_for(interval: usize) -> (r: bool)
        ensures
            r == (interval <= room_limit()),
            r == (interval <= isize::MAX as int / 8),
    {
        interval <= isize::MAX as usize / 8
    }

    /// There are fewer cycles than a summary is made of.
    pub open spec fn wf(self) -> bool {
        self.samples@.len() < self.interval
    }

    /// No cycle has been timed. A summary is made after every `interval` cycles, and room for that
    /// many is set aside, so that taking note of a cycle does not move the others. The contract is
    /// silent on that room, which depends on the allocator.
    pub fn new(interval: usize) -> (t: TimingLog)
        requires
            interval <= room_limit(),
        ensures
            t.samples@.len() == 0,
            t.interval == interval,
            interval > 0 ==> t.wf(),
    {
        TimingLog { samples: Vec::with_capacity(interval), interval }
    }

    /// Takes note of how long a cycle took. With the last cycle of a summary the summary is
    /// returned, and a new one begins.
    pub fn record(&mut self, elapsed: u64) -> (r: Option<TimingReport>)
        requires
            old(self).interval > 0,
        ensures
            takes_note(*old(self), elapsed, *final(self), r),
            final(self).wf(),
            final(self).interval == old(self).interval,
            old(self).samples@.len() + 1 < old(self).interval ==> r is None && final(self).samples@
                == old(self).samples@.push(elapsed),
            old(self).samples@.len() + 1 >= old(self).interval ==> final(self).samples@.len() == 0,
            old(self).samples@.len() + 1 >= old(self).interval ==> (r matches Some(report) && ({
                let samples = old(self).samples@.push(elapsed);
                let total = samples.fold_left(0int, |total: int, d: u64| total + d);
                &&& report.cycles == old(self).interval
                &&& report.total_seconds == total / 1_000_000_000
                &&& report.average_millis == (total / 1_000_000 % (usize::MAX + 1)) / (old(
                    self,
                ).interval as int)
                &&& exists|shortest: u64| #[trigger]
                    samples.contains(shortest) && report.shortest_millis == shortest as int
                        / 1_000_000 && forall|i: int|
                        0 <= i < samples.len() ==> shortest <= #[trigger] samples[i]
                &&& exists|longest: u64| #[trigger]
                    samples.contains(longest) && report.longest_millis == longest as int / 1_000_000
                        && forall|i: int|
                        0 <= i < samples.len() ==> #[trigger] samples[i] <= longest
            })),
    {
        proof {
            let samples = self.samples@.push(elapsed);
            total_is_the_sum(samples);
            spread_bounds_the_samples(samples);
        }
        self.samples.push(elapsed);
        if self.samples.len() < self.interval {
            return None;
        }
        let spread = summarize(&self.samples);
        self.samples.clear();
        let range: u128 = usize::MAX as u128 + 1;
        let millis: usize = (spread.total / NANOS_PER_MILLI % range) as usize;
        Some(
            TimingReport {
                cycles: self.interval,
                total_seconds: spread.total / NANOS_PER_SEC,
                shortest_millis: spread.shortest as u128 / NANOS_PER_MILLI,
                longest_millis: spread.longest as u128 / NANOS_PER_MILLI,
                average_millis: millis / self.interval,
            },
        )
    }
}

} // verus!
