use vstd::prelude::*;

verus! {

/// After this many failed cycles in a row the loop backs off.
pub const FAILURE_THRESHOLD: u32 = 5;

/// A backoff wait lasts this many normal intervals.
pub const BACKOFF_FACTOR: u64 = 2;

/// How one cycle of the polling loop ended.
#[derive(Clone, Copy, Debug, PartialEq, Eq, Structural)]
pub enum CycleOutcome {
    /// The sensor was read and the reading delivered.
    Reported,
    /// The sensor could not be read.
    ReadFailed,
    /// The reading was decoded but could not be delivered.
    ReportFailed,
}

/// A configuration that cannot be used.
#[derive(Clone, Copy, Debug, PartialEq, Eq, Structural)]
pub enum ConfigError {
    /// The read interval must be a positive number of seconds.
    ZeroInterval,
}

/// The scheduling state of the polling loop: the configured interval and the
/// number of failed cycles since the last success or backoff.
pub struct PollPolicy {
    interval_secs: u64,
    failures: u32,
}

pub open spec fn is_failure(o: CycleOutcome) -> bool {
    o != CycleOutcome::Reported
}

/// The failure count after a cycle, before a backoff resets it.
pub open spec fn count_after(failures: int, o: CycleOutcome) -> int {
    if is_failure(o) {
        failures + 1
    } else {
        0
    }
}

/// The wait after a cycle that leaves `count` failures in a row: the normal
/// interval, or at the threshold twice that (capped at the largest `u64`).
pub open spec fn wait_for(interval: u64, count: int) -> u64 {
    if count >= FAILURE_THRESHOLD {
        if BACKOFF_FACTOR * interval <= u64::MAX {
            (BACKOFF_FACTOR * interval) as u64
        } else {
            u64::MAX
        }
    } else {
        interval
    }
}

/// The failure count once the wait after a cycle has begun.
pub open spec fn failures_after(failures: int, o: CycleOutcome) -> int {
    if count_after(failures, o) >= FAILURE_THRESHOLD {
        0
    } else {
        count_after(failures, o)
    }
}

impl PollPolicy {
    pub closed spec fn interval(&self) -> u64 {
        self.interval_secs
    }

    pub closed spec fn failures(&self) -> int {
        self.failures as int
    }

    pub open spec fn wf(&self) -> bool {
        &&& self.interval() > 0
        &&& 0 <= self.failures() < FAILURE_THRESHOLD
    }

    /// A policy with the given read interval and no failure yet; an interval of
    /// zero is refused.
    pub fn new(interval_secs: u64) -> (r: Result<PollPolicy, ConfigError>)
        ensures
            interval_secs == 0 <==> r is Err,
            r matches Err(e) ==> e == ConfigError::ZeroInterval,
            r matches Ok(p) ==> p.wf() && p.interval() == interval_secs && p.failures() == 0,
    {
        if interval_secs == 0 {
            Err(ConfigError::ZeroInterval)
        } else {
            Ok(PollPolicy { interval_secs, failures: 0 })
        }
    }

    /// The configured read interval, in seconds.
    pub fn interval_secs(&self) -> (r: u64)
        ensures
            r == self.interval(),
    {
        self.interval_secs
    }

    /// The number of failed cycles since the last success or backoff.
    pub fn consecutive_failures(&self) -> (r: u32)
        ensures
            r == self.failures(),
    {
        self.failures
    }

    /// Records how a cycle ended and returns how many seconds to wait before
    /// the next one. A success resets the failure count; a failure of either
    /// kind increments it, and when it reaches the threshold the wait is
    /// doubled and the count starts again from zero.
    pub fn record(&mut self, outcome: CycleOutcome) -> (wait_secs: u64)
        requires
            old(self).wf(),
        ensures
            final(self).wf(),
            final(self).interval() == old(self).interval(),
            final(self).failures() == failures_after(old(self).failures(), outcome),
            wait_secs == wait_for(old(self).interval(), count_after(old(self).failures(), outcome)),
    {
        let count: u32 = match outcome {
            CycleOutcome::Reported => 0,
            _ => self.failures + 1,
        };
        if count >= FAILURE_THRESHOLD {
            self.failures = 0;
            if self.interval_secs <= u64::MAX / BACKOFF_FACTOR {
                BACKOFF_FACTOR * self.interval_secs
            } else {
                u64::MAX
            }
        } else {
            self.failures = count;
            self.interval_secs
        }
    }
}

/// Five failed cycles in a row, of either kind and in any mix, from a fresh
/// count: the first four waits are the normal interval, the fifth is twice
/// the interval, and the failure count is back to zero after it.
pub proof fn lemma_backoff_after_five_failures(
    interval: u64,
    o1: CycleOutcome,
    o2: CycleOutcome,
    o3: CycleOutcome,
    o4: CycleOutcome,
    o5: CycleOutcome,
)
    requires
        interval > 0,
        2 * interval <= u64::MAX,
        is_failure(o1),
        is_failure(o2),
        is_failure(o3),
        is_failure(o4),
        is_failure(o5),
    ensures
        ({
            let c1 = failures_after(0, o1);
            let c2 = failures_after(c1, o2);
            let c3 = failures_after(c2, o3);
            let c4 = failures_after(c3, o4);
            &&& wait_for(interval, count_after(0, o1)) == interval
            &&& wait_for(interval, count_after(c1, o2)) == interval
            &&& wait_for(interval, count_after(c2, o3)) == interval
            &&& wait_for(interval, count_after(c3, o4)) == interval
            &&& wait_for(interval, count_after(c4, o5)) == 2 * interval
            &&& failures_after(c4, o5) == 0
        }),
{
}

/// A success always resets the failure count and is followed by a normal wait.
pub proof fn lemma_success_resets(interval: u64, failures: int)
    requires
        0 <= failures < FAILURE_THRESHOLD,
    ensures
        failures_after(failures, CycleOutcome::Reported) == 0,
        wait_for(interval, count_after(failures, CycleOutcome::Reported)) == interval,
{
}

} // verus!
