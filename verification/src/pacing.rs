//! When the next cycle starts. Times are in nanoseconds of a clock that never goes back.
use vstd::prelude::*;

verus! {

/// The time from one cycle to the next: ten milliseconds.
pub const TARGET_INTERVAL: u64 = 10_000_000;

/// How long before its time a cycle is waited for awake: half a millisecond.
pub const SPIN_TIME: u64 = 500_000;

/// How to wait for the end of a cycle: sleep first where that is worth it, and then stay awake
/// until the time has come.
#[derive(Clone, Copy, PartialEq, Eq, Structural, Debug)]
pub struct Wait {
    pub sleep: Option<u128>,
    pub until: u128,
}

/// The deadline of a cycle whose work is done now and that was due to end at `due`. One that is
/// late ends an interval from now.
pub open spec fn deadline_of(now: int, due: int) -> int {
    if now >= due {
        now + TARGET_INTERVAL
    } else {
        due
    }
}

/// How long to sleep: up to a spin time before the cycle is due, if it is not late and that is
/// still to come.
pub open spec fn sleep_of(now: int, due: int) -> Option<int> {
    if now < due && now + SPIN_TIME < due {
        Some(due - SPIN_TIME - now)
    } else {
        None
    }
}

/// The deadline of cycle `i`, where the work of each cycle is done at the given times, and the
/// first cycle is due at `first`. Each cycle is due an interval after the deadline of the one
/// before it.
pub open spec fn deadline(first: int, works: Seq<u64>, i: int) -> int
    decreases i,
{
    if i <= 0 {
        deadline_of(works[0] as int, first)
    } else {
        deadline_of(works[i] as int, deadline(first, works, i - 1) + TARGET_INTERVAL)
    }
}

/// The rhythm of the cycles.
pub struct Pacer {
    pub due: u128,
}

impl Pacer {
    /// The first cycle is due now.
    pub fn new(now: u64) -> (p: Pacer)
        ensures
            p.due == now,
    {
        Pacer { due: now as u128 }
    }

    /// How to wait for the end of the cycle. The next one is due an interval later.
    pub fn wait(&mut self, now: u64) -> (w: Wait)
        requires
            old(self).due + TARGET_INTERVAL <= u128::MAX,
        ensures
            w.until == deadline_of(now as int, old(self).due as int),
            sleep_of(now as int, old(self).due as int) == match w.sleep {
                Some(nanos) => Some(nanos as int),
                None => None,
            },
            final(self).due == w.until + TARGET_INTERVAL,
            now >= old(self).due ==> w.until == now + 10_000_000 && w.sleep is None,
            now < old(self).due ==> w.until == old(self).due,
            now < old(self).due ==> w.sleep == if now + 500_000 < old(self).due {
                Some((old(self).due - 500_000 - now) as u128)
            } else {
                None
            },
            final(self).due == w.until + 10_000_000,
    {
        let now: u128 = now as u128;
        let mut sleep: Option<u128> = None;
        let mut until: u128 = self.due;
        if now >= self.due {
            until = now + TARGET_INTERVAL as u128;
        } else if (SPIN_TIME as u128) < self.due - now {
            sleep = Some(self.due - SPIN_TIME as u128 - now);
        }
        self.due = until + TARGET_INTERVAL as u128;
        Wait { sleep, until }
    }
}

/// No cycle ends before it is due, nor in the past; and sleep ends exactly a spin time before the
/// deadline.
pub proof fn sleep_ends_before_the_deadline(now: int, due: int)
    ensures
        deadline_of(now, due) >= due,
        deadline_of(now, due) > now,
        sleep_of(now, due) matches Some(sleep) ==> sleep > 0 && now + sleep + SPIN_TIME
            == deadline_of(now, due),
{
}

/// The first cycle ends an interval after its work is done. After that the deadlines are exactly
/// an interval apart as long as the work fits in, without drift; a cycle whose work does not fit
/// in ends an interval after its work is done, so that no cycles are run back to back to catch up.
pub proof fn deadlines_keep_the_rhythm(first: int, works: Seq<u64>, i: int)
    requires
        0 <= i,
        i + 1 < works.len(),
        first <= works[0],
    ensures
        deadline(first, works, 0) == works[0] + TARGET_INTERVAL,
        works[i + 1] < deadline(first, works, i) + TARGET_INTERVAL ==> deadline(
            first,
            works,
            i + 1,
        ) == deadline(first, works, i) + TARGET_INTERVAL,
        works[i + 1] >= deadline(first, works, i) + TARGET_INTERVAL ==> deadline(
            first,
            works,
            i + 1,
        ) == works[i + 1] + TARGET_INTERVAL,
        deadline(first, works, i + 1) >= deadline(first, works, i) + TARGET_INTERVAL,
{
}

/// The deadlines in nanoseconds: the first is ten milliseconds after the work of the first cycle was
/// done, or when that cycle was due, if the work was done before. Each other is ten milliseconds
/// after the one before it, or, where the work was not done by then, after the work was done.
pub proof fn deadlines_are_ten_milliseconds_apart(first: int, works: Seq<u64>, i: int)
    requires
        0 <= i < works.len(),
    ensures
        first <= works[0] ==> deadline(first, works, 0) == works[0] + 10_000_000,
        first > works[0] ==> deadline(first, works, 0) == first,
        i > 0 && works[i] < deadline(first, works, i - 1) + 10_000_000 ==> deadline(first, works, i)
            == deadline(first, works, i - 1) + 10_000_000,
        i > 0 && works[i] >= deadline(first, works, i - 1) + 10_000_000 ==> deadline(
            first,
            works,
            i,
        ) == works[i] + 10_000_000,
{
}

/// A cycle that is late ends ten milliseconds from now, without sleep; any other ends when it is
/// due. Sleep is worth it if there is more than half a millisecond to go, and ends that much before.
pub proof fn waiting_for_a_cycle(now: int, due: int)
    ensures
        now >= due ==> deadline_of(now, due) == now + 10_000_000 && sleep_of(now, due) is None,
        now < due ==> deadline_of(now, due) == due,
        now < due <= now + 500_000 ==> sleep_of(now, due) is None,
        now + 500_000 < due ==> sleep_of(now, due) == Some(due - 500_000 - now),
{
}

/// As long as the work of every cycle fits in, the deadlines do not drift: `n` cycles later it is
/// exactly `n` intervals later.
pub proof fn punctual_cycles_do_not_drift(first: int, works: Seq<u64>, i: int, n: int)
    requires
        0 <= i,
        0 <= n,
        i + n < works.len(),
        forall|k: int|
            i < k <= i + n ==> (#[trigger] works[k]) < deadline(first, works, k - 1)
                + TARGET_INTERVAL,
    ensures
        deadline(first, works, i + n) == deadline(first, works, i) + n * TARGET_INTERVAL,
    decreases n,
{
    if n > 0 {
        punctual_cycles_do_not_drift(first, works, i, n - 1);
        assert(works[i + n] < deadline(first, works, i + n - 1) + TARGET_INTERVAL);
    }
}

/// The deadline of a cycle does not depend on the cycles after it.
pub proof fn deadline_depends_on_the_past(first: int, a: Seq<u64>, b: Seq<u64>, i: int)
    requires
        0 <= i < a.len(),
        i < b.len(),
        forall|k: int| 0 <= k <= i ==> a[k] == b[k],
    ensures
        deadline(first, a, i) == deadline(first, b, i),
    decreases i,
{
    if i > 0 {
        deadline_depends_on_the_past(first, a, b, i - 1);
    }
}

} // verus!
