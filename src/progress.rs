use vstd::prelude::*;

verus! {

/// Milliseconds that must pass between two progress reports.
pub const REPORT_INTERVAL_MS: u64 = 1000;

/// Whole percent of `total` that `done` bytes make; an empty file is done.
pub open spec fn percent_of(done: nat, total: nat) -> nat {
    if total == 0 {
        100
    } else {
        (done * 100) / total
    }
}

/// Bytes per second for `done` bytes over `elapsed_ms` milliseconds, held
/// to the range of `u64`; under one millisecond the bytes themselves.
pub open spec fn rate_of(done: nat, elapsed_ms: nat) -> nat {
    if elapsed_ms == 0 {
        done
    } else if (done * 1000) / elapsed_ms > u64::MAX {
        u64::MAX as nat
    } else {
        (done * 1000) / elapsed_ms
    }
}

/// The percentage never passes 100 while no more than the total is done.
pub proof fn lemma_percent_at_most_full(done: nat, total: nat)
    requires
        done <= total,
    ensures
        percent_of(done, total) <= 100,
{
    if total > 0 {
        assert((done * 100) / total <= (total * 100) / total) by (nonlinear_arith)
            requires
                done <= total,
                total > 0,
        {
            vstd::arithmetic::div_mod::lemma_div_is_ordered(
                (done * 100) as int,
                (total * 100) as int,
                total as int,
            );
        }
        assert((total * 100) / total == 100) by (nonlinear_arith)
            requires
                total > 0,
        {
            vstd::arithmetic::div_mod::lemma_div_multiples_vanish(100, total as int);
        }
    }
}

/// Milliseconds from `start_ms` to `now_ms`; none where the clock reads
/// earlier than the start.
pub open spec fn elapsed_since(start_ms: u64, now_ms: u64) -> u64 {
    if now_ms >= start_ms {
        (now_ms - start_ms) as u64
    } else {
        0
    }
}

/// One progress report of a file transfer.
#[derive(Debug, Clone, Copy)]
pub struct ProgressSample {
    pub bytes_transferred: u64,
    pub bytes_total: u64,
    pub percent: u64,
    pub elapsed_ms: u64,
    /// Average throughput since the transfer began, in bytes per second.
    pub bytes_per_sec: u64,
}

/// Tracks the bytes of one file transfer and when progress was last
/// reported.
#[derive(Debug, Clone, Copy)]
pub struct ProgressMeter {
    pub total: u64,
    pub transferred: u64,
    pub started_ms: u64,
    pub last_report_ms: u64,
}

impl ProgressSample {
    /// The sample reports `done` of `total` bytes after `elapsed` ms.
    pub open spec fn reports(&self, done: u64, total: u64, elapsed: u64) -> bool {
        &&& self.bytes_transferred == done
        &&& self.bytes_total == total
        &&& self.percent == percent_of(done as nat, total as nat)
        &&& self.elapsed_ms == elapsed
        &&& self.bytes_per_sec == rate_of(done as nat, elapsed as nat)
    }

    /// What every sample satisfies.
    pub open spec fn in_bounds(&self) -> bool {
        self.bytes_transferred <= self.bytes_total && self.percent <= 100
    }
}

impl ProgressMeter {
    pub open spec fn wf(&self) -> bool {
        self.transferred <= self.total
    }

    /// A meter for a file of `total` bytes whose transfer starts at `now_ms`.
    pub fn new(total: u64, now_ms: u64) -> (r: ProgressMeter)
        ensures
            r.wf(),
            r.total == total,
            r.transferred == 0,
            r.started_ms == now_ms,
            r.last_report_ms == now_ms,
    {
        ProgressMeter { total, transferred: 0, started_ms: now_ms, last_report_ms: now_ms }
    }

    /// The report of the bytes done so far, at `now_ms`.
    pub fn sample(&self, now_ms: u64) -> (r: ProgressSample)
        requires
            self.wf(),
        ensures
            r.reports(self.transferred, self.total, elapsed_since(self.started_ms, now_ms)),
            r.in_bounds(),
    {
        let elapsed = now_ms.saturating_sub(self.started_ms);
        let percent: u64 = if self.total == 0 {
            100
        } else {
            ((self.transferred as u128 * 100) / self.total as u128) as u64
        };
        proof {
            lemma_percent_at_most_full(self.transferred as nat, self.total as nat);
        }
        let rate: u64 = if elapsed == 0 {
            self.transferred
        } else {
            let q = (self.transferred as u128 * 1000) / elapsed as u128;
            if q > u64::MAX as u128 {
                u64::MAX
            } else {
                q as u64
            }
        };
        ProgressSample {
            bytes_transferred: self.transferred,
            bytes_total: self.total,
            percent,
            elapsed_ms: elapsed,
            bytes_per_sec: rate,
        }
    }

    /// Counts `n` more bytes sent at `now_ms`, and reports where at least a
    /// second has passed since the last report.
    pub fn record(&mut self, n: u64, now_ms: u64) -> (r: Option<ProgressSample>)
        requires
            old(self).wf(),
            n <= old(self).total - old(self).transferred,
        ensures
            final(self).wf(),
            final(self).total == old(self).total,
            final(self).started_ms == old(self).started_ms,
            final(self).transferred == old(self).transferred + n,
            (now_ms >= old(self).last_report_ms && now_ms - old(self).last_report_ms
                >= REPORT_INTERVAL_MS) ==> r is Some && final(self).last_report_ms == now_ms,
            !(now_ms >= old(self).last_report_ms && now_ms - old(self).last_report_ms
                >= REPORT_INTERVAL_MS) ==> r is None && final(self).last_report_ms == old(
                self,
            ).last_report_ms,
            r is Some ==> r->0.in_bounds() && r->0.reports(
                final(self).transferred,
                final(self).total,
                elapsed_since(final(self).started_ms, now_ms),
            ),
    {
        self.transferred = self.transferred + n;
        if now_ms >= self.last_report_ms && now_ms - self.last_report_ms >= REPORT_INTERVAL_MS {
            self.last_report_ms = now_ms;
            Some(self.sample(now_ms))
        } else {
            None
        }
    }

    /// The closing report, made whatever time has passed.
    pub fn finish(&self, now_ms: u64) -> (r: ProgressSample)
        requires
            self.wf(),
        ensures
            r.in_bounds(),
            r.reports(self.transferred, self.total, elapsed_since(self.started_ms, now_ms)),
    {
        self.sample(now_ms)
    }
}

} // verus!
