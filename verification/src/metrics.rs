//! Running account of metered bytes and elapsed time, from which throughput is
//! reported.

use vstd::prelude::*;

verus! {

/// Milliseconds in a second.
pub const MILLIS_PER_SECOND: u64 = 1000;

/// What a session has moved, and since when. Instants are milliseconds on a
/// clock that the caller reads; the clock starts with the first event and is
/// never reset, and the total never goes down.
#[derive(Debug, Clone, Copy, PartialEq, Eq, Structural)]
pub struct SessionMetrics {
    pub total_metered_bytes: u64,
    pub started_at: Option<u64>,
}

/// The sum of two counts, held at the largest count there is.
pub open spec fn saturating_sum(a: u64, b: u64) -> u64 {
    if a + b > u64::MAX {
        u64::MAX
    } else {
        (a + b) as u64
    }
}

/// Bytes per second, rounded down, for `total` bytes in `elapsed` milliseconds:
/// zero where no time has passed, and held at the largest count there is.
pub open spec fn bytes_per_second(total: u64, elapsed: u64) -> u64 {
    if elapsed == 0 {
        0
    } else if total * MILLIS_PER_SECOND / (elapsed as int) > u64::MAX {
        u64::MAX
    } else {
        (total * MILLIS_PER_SECOND / (elapsed as int)) as u64
    }
}

impl SessionMetrics {
    /// The account before the first event.
    pub open spec fn fresh() -> SessionMetrics {
        SessionMetrics { total_metered_bytes: 0, started_at: None }
    }

    /// The account after an event at `now` that moved `bytes` metered bytes.
    pub open spec fn observed(self, now: u64, bytes: u64) -> SessionMetrics {
        SessionMetrics {
            total_metered_bytes: saturating_sum(self.total_metered_bytes, bytes),
            started_at: match self.started_at {
                Some(at) => Some(at),
                None => Some(now),
            },
        }
    }

    /// Milliseconds from the first event to `now`; zero where the clock has
    /// not come past the first event.
    pub open spec fn elapsed(self, now: u64) -> u64 {
        match self.started_at {
            Some(at) => if now >= at {
                (now - at) as u64
            } else {
                0
            },
            None => 0,
        }
    }

    /// The throughput at `now`, in bytes per second: none before the first
    /// event, zero while no time has passed.
    pub open spec fn throughput_at(self, now: u64) -> Option<u64> {
        match self.started_at {
            Some(at) => Some(bytes_per_second(self.total_metered_bytes, self.elapsed(now))),
            None => None,
        }
    }

    /// An account of nothing, not yet started.
    pub fn new() -> (m: SessionMetrics)
        ensures
            m == SessionMetrics::fresh(),
    {
        SessionMetrics { total_metered_bytes: 0, started_at: None }
    }

    /// Counts an event at `now` that moved `bytes` metered bytes: the first
    /// event starts the clock, every event adds its bytes.
    pub fn observe(&mut self, now: u64, bytes: u64)
        ensures
            *final(self) == old(self).observed(now, bytes),
    {
        if self.started_at.is_none() {
            self.started_at = Some(now);
        }
        self.total_metered_bytes = if bytes > u64::MAX - self.total_metered_bytes {
            u64::MAX
        } else {
            self.total_metered_bytes + bytes
        };
    }

    /// Milliseconds from the first event to `now`.
    pub fn elapsed_millis(&self, now: u64) -> (ms: u64)
        ensures
            ms == self.elapsed(now),
    {
        match self.started_at {
            Some(at) => if now >= at {
                now - at
            } else {
                0
            },
            None => 0,
        }
    }

    /// The throughput at `now`, in bytes per second: `None` before the first
    /// event; zero while no time has passed, rather than a division by zero.
    pub fn throughput(&self, now: u64) -> (rate: Option<u64>)
        ensures
            rate == self.throughput_at(now),
    {
        match self.started_at {
            None => None,
            Some(at) => {
                let elapsed = self.elapsed_millis(now);
                if elapsed == 0 {
                    Some(0)
                } else {
                    let scaled: u128 = (self.total_metered_bytes as u128) * (
                    MILLIS_PER_SECOND as u128);
                    let rate: u128 = scaled / (elapsed as u128);
                    if rate > u64::MAX as u128 {
                        Some(u64::MAX)
                    } else {
                        Some(rate as u64)
                    }
                }
            },
        }
    }
}

/// The total never goes down and the clock, once started, is never reset.
pub proof fn lemma_metrics_monotone(m: SessionMetrics, now: u64, bytes: u64)
    ensures
        m.observed(now, bytes).total_metered_bytes >= m.total_metered_bytes,
        m.observed(now, bytes).started_at is Some,
        m.started_at is Some ==> m.observed(now, bytes).started_at == m.started_at,
{
}

} // verus!
