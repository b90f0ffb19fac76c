use vstd::prelude::*;

verus! {

/// Decides when a progress report is due: no more often than once per
/// interval. Times are counted in nanoseconds from any fixed start.
#[derive(Debug, Clone, Copy)]
pub struct ReportTimer {
    previous: u64,
    interval: u64,
}

impl ReportTimer {
    /// When the last report was made (or the timer was started).
    pub closed spec fn previous_report(&self) -> nat {
        self.previous as nat
    }

    /// The least time that must pass between two reports.
    pub closed spec fn report_interval(&self) -> nat {
        self.interval as nat
    }

    /// Starts a timer at `now`, reporting at most once per `interval`.
    pub fn new(now: u64, interval: u64) -> (t: ReportTimer)
        ensures
            t.previous_report() == now,
            t.report_interval() == interval,
    {
        ReportTimer { previous: now, interval }
    }

    /// Whether a report is due at `now`: more than the interval has passed
    /// since the previous one. A time before the previous report counts as
    /// no time passed. When a report is due, `now` becomes the time of the
    /// previous report.
    pub fn is_due(&mut self, now: u64) -> (due: bool)
        ensures
            due == (now - old(self).previous_report() > old(self).report_interval()),
            final(self).report_interval() == old(self).report_interval(),
            final(self).previous_report() == if due {
                now as nat
            } else {
                old(self).previous_report()
            },
    {
        let elapsed = now.saturating_sub(self.previous);
        if elapsed > self.interval {
            self.previous = now;
            true
        } else {
            false
        }
    }
}

} // verus!
