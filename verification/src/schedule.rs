//! When to refresh: once at start if the day is still young, then every
//! night at the target time.

use crate::clock::TimeOfDay;
use crate::clock::NANOS_PER_DAY;
use crate::clock::NANOS_PER_SEC;
use vstd::prelude::*;

verus! {

/// Retries granted to each resource in the catch-up run at start.
pub const STARTUP_RETRIES: usize = 0;

/// Retries granted to each resource in the nightly run.
pub const NIGHTLY_RETRIES: usize = 10;

/// The time of the nightly run, 05:30.
pub open spec fn target() -> TimeOfDay {
    TimeOfDay::at(5, 30, 0)
}

/// The time from which a start no longer triggers a catch-up run, 19:00.
pub open spec fn cutoff() -> TimeOfDay {
    TimeOfDay::at(19, 0, 0)
}

/// Nanoseconds from `now` to the next time the clock shows the target: the
/// rest of the way there while `now` is before it, else the way to the
/// target of the following day.
pub open spec fn wait_nanos(now: TimeOfDay) -> int {
    if now.before(target()) {
        target().nanos_since(now)
    } else {
        target().nanos_since(now) + NANOS_PER_DAY
    }
}

/// A span of time to sleep through.
#[derive(Clone, Copy, Debug, PartialEq, Eq)]
pub struct Wait {
    /// Whole seconds.
    pub secs: u64,
    /// Nanoseconds beyond the whole seconds, below a thousand million.
    pub nanos: u32,
}

impl Wait {
    /// The span in nanoseconds.
    pub open spec fn total_nanos(self) -> int {
        self.secs * NANOS_PER_SEC + self.nanos
    }

    /// The span of `total` nanoseconds.
    pub open spec fn of_nanos(total: int) -> Wait {
        Wait {
            secs: (total / NANOS_PER_SEC as int) as u64,
            nanos: (total % NANOS_PER_SEC as int) as u32,
        }
    }

    /// Whole hours in the span.
    pub fn hours(&self) -> (h: u64)
        ensures
            h == self.secs / 3600,
    {
        self.secs / 3600
    }

    /// Whole minutes in the span beyond its whole hours.
    pub fn minutes(&self) -> (m: u64)
        ensures
            m == (self.secs / 60) % 60,
    {
        (self.secs / 60) % 60
    }
}

/// The time of the nightly run.
pub fn target_time() -> (t: TimeOfDay)
    ensures
        t == target(),
{
    TimeOfDay::from_hms(5, 30, 0).unwrap()
}

/// The time from which a start no longer triggers a catch-up run.
pub fn cutoff_time() -> (t: TimeOfDay)
    ensures
        t == cutoff(),
{
    TimeOfDay::from_hms(19, 0, 0).unwrap()
}

/// The wait is never empty and never longer than a day.
pub proof fn lemma_wait_bounds(now: TimeOfDay)
    requires
        now.wf(),
    ensures
        0 < wait_nanos(now) <= NANOS_PER_DAY,
{
    TimeOfDay::lemma_at(5, 30, 0);
}

/// Outside a leap second, a clock that shows `now` shows the target once
/// the wait has passed.
pub proof fn lemma_wait_ends_at_target(now: TimeOfDay)
    requires
        now.wf(),
        now.frac() < NANOS_PER_SEC,
    ensures
        (now.secs() * NANOS_PER_SEC + now.frac() + wait_nanos(now)) % (NANOS_PER_DAY as int)
            == target().secs() * NANOS_PER_SEC,
{
    TimeOfDay::lemma_at(5, 30, 0);
}

/// How long to sleep at `now` until the next nightly run.
pub fn wait_until_target(now: &TimeOfDay) -> (w: Wait)
    ensures
        w == Wait::of_nanos(wait_nanos(*now)),
        w.total_nanos() == wait_nanos(*now),
        w.nanos < NANOS_PER_SEC,
{
    let target = target_time();
    proof {
        use_type_invariant(now);
        lemma_wait_bounds(*now);
        TimeOfDay::lemma_at(5, 30, 0);
    }
    let till_target: i64 = target.signed_nanos_since(now);
    let total: i64 = if now.is_before(&target) {
        till_target
    } else {
        till_target + NANOS_PER_DAY
    };
    Wait { secs: (total / NANOS_PER_SEC) as u64, nanos: (total % NANOS_PER_SEC) as u32 }
}

/// What the driver of the daemon does next.
#[derive(Clone, Copy, Debug, PartialEq, Eq)]
pub enum DaemonStep {
    /// Refresh every resource once, granting each this many retries.
    RunCycle { retries: usize },
    /// Sleep through the wait.
    Sleep { wait: Wait },
}

/// Where the daemon stands between two steps.
#[derive(Clone, Copy, Debug, PartialEq, Eq)]
pub enum Daemon {
    /// Just started: nothing was done yet.
    Starting,
    /// A cycle was handed out, or skipped at start: the sleep comes next.
    Awake,
    /// The sleep was handed out: the nightly cycle comes next.
    Asleep,
}

impl Daemon {
    /// The state and the step that follow `self` when the clock shows `now`.
    ///
    /// At start a cycle without retries runs if `now` is before the cutoff;
    /// else the daemon goes to sleep at once. From then on sleep and the
    /// nightly cycle take turns, for ever.
    pub open spec fn next(self, now: TimeOfDay) -> (Daemon, DaemonStep) {
        match self {
            Daemon::Starting => if now.before(cutoff()) {
                (Daemon::Awake, DaemonStep::RunCycle { retries: STARTUP_RETRIES })
            } else {
                (Daemon::Asleep, DaemonStep::Sleep { wait: Wait::of_nanos(wait_nanos(now)) })
            },
            Daemon::Awake => (
                Daemon::Asleep,
                DaemonStep::Sleep { wait: Wait::of_nanos(wait_nanos(now)) },
            ),
            Daemon::Asleep => (Daemon::Awake, DaemonStep::RunCycle { retries: NIGHTLY_RETRIES }),
        }
    }

    /// A daemon that has just started.
    pub fn new() -> (d: Daemon)
        ensures
            d == Daemon::Starting,
    {
        Daemon::Starting
    }

    /// Takes the step that is due when the clock shows `now`. The driver
    /// calls this once at start and again whenever the step before is done.
    pub fn advance(&mut self, now: &TimeOfDay) -> (step: DaemonStep)
        ensures
            (*final(self), step) == old(self).next(*now),
    {
        match *self {
            Daemon::Starting => {
                if now.is_before(&cutoff_time()) {
                    *self = Daemon::Awake;
                    DaemonStep::RunCycle { retries: STARTUP_RETRIES }
                } else {
                    *self = Daemon::Asleep;
                    DaemonStep::Sleep { wait: wait_until_target(now) }
                }
            },
            Daemon::Awake => {
                *self = Daemon::Asleep;
                DaemonStep::Sleep { wait: wait_until_target(now) }
            },
            Daemon::Asleep => {
                *self = Daemon::Awake;
                DaemonStep::RunCycle { retries: NIGHTLY_RETRIES }
            },
        }
    }
}

/// A cycle is followed by a sleep until the next target, and a sleep by
/// the nightly cycle, whatever the clock shows: only the first step of
/// all can be the catch-up run.
pub proof fn lemma_sleep_and_cycle_take_turns(daemon: Daemon, now: TimeOfDay, then: TimeOfDay)
    ensures
        ({
            let (after, first) = daemon.next(now);
            let (_, second) = after.next(then);
            &&& first is RunCycle ==> second == (DaemonStep::Sleep {
                wait: Wait::of_nanos(wait_nanos(then)),
            })
            &&& first is Sleep ==> second == (DaemonStep::RunCycle { retries: NIGHTLY_RETRIES })
            &&& first == (DaemonStep::RunCycle { retries: STARTUP_RETRIES }) ==> daemon
                == Daemon::Starting && now.before(cutoff())
        }),
{
}

} // verus!
