//! Process watchdog: heartbeat bookkeeping and the hang decision.
use vstd::prelude::*;

verus! {

/// Calls `SystemTime::now().duration_since(UNIX_EPOCH)` and returns whole
/// seconds (zero for a clock before the epoch). The clock gives no promise
/// about the value.
#[verifier::external_body]
pub(crate) fn unix_now() -> u64 {
    std::time::SystemTime::now().duration_since(std::time::UNIX_EPOCH).unwrap_or_default().as_secs()
}

/// No heartbeat for longer than `timeout_secs`: the process is considered hung.
pub open spec fn is_overdue(now: u64, last_heartbeat: u64, timeout_secs: u64) -> bool {
    now - last_heartbeat > timeout_secs
}

/// Process watchdog — records heartbeats and decides when the process hangs.
pub struct Watchdog {
    last_heartbeat: u64,
    running: bool,
    /// Heartbeat timeout, in seconds.
    timeout: u64,
}

impl Watchdog {
    /// Unix time (seconds) of the last heartbeat.
    pub closed spec fn last_heartbeat(&self) -> u64 {
        self.last_heartbeat
    }

    /// Whether the monitor is still meant to run.
    pub closed spec fn running(&self) -> bool {
        self.running
    }

    /// The heartbeat timeout, in seconds.
    pub closed spec fn timeout(&self) -> u64 {
        self.timeout
    }

    /// A running watchdog whose last heartbeat is now.
    pub fn new(timeout: u64) -> (w: Self)
        ensures
            w.running(),
            w.timeout() == timeout,
    {
        Watchdog { last_heartbeat: unix_now(), running: true, timeout }
    }

    /// Signal that the process is alive, at the current time.
    pub fn heartbeat(&mut self)
        ensures
            final(self).running() == old(self).running(),
            final(self).timeout() == old(self).timeout(),
    {
        let now = unix_now();
        self.heartbeat_at(now);
    }

    /// Record a heartbeat at Unix time `now`.
    pub fn heartbeat_at(&mut self, now: u64)
        ensures
            final(self).last_heartbeat() == now,
            final(self).running() == old(self).running(),
            final(self).timeout() == old(self).timeout(),
    {
        self.last_heartbeat = now;
    }

    /// Unix time of the last heartbeat.
    pub fn last_heartbeat_secs(&self) -> (t: u64)
        ensures
            t == self.last_heartbeat(),
    {
        self.last_heartbeat
    }

    /// Whether the monitor is still meant to run.
    pub fn is_running(&self) -> (b: bool)
        ensures
            b == self.running(),
    {
        self.running
    }

    /// Whether, at Unix time `now`, no heartbeat came for longer than the timeout.
    pub fn overdue(&self, now: u64) -> (b: bool)
        requires
            now >= self.last_heartbeat(),
        ensures
            b == is_overdue(now, self.last_heartbeat(), self.timeout()),
    {
        now - self.last_heartbeat > self.timeout
    }
}

/// A heartbeat at the current time is never overdue.
pub proof fn lemma_fresh_heartbeat_not_overdue(now: u64, timeout: u64)
    ensures
        !is_overdue(now, now, timeout),
{
}

/// Once overdue, a watchdog stays overdue while no heartbeat comes.
pub proof fn lemma_overdue_persists(t1: u64, t2: u64, last: u64, timeout: u64)
    requires
        last <= t1 <= t2,
        is_overdue(t1, last, timeout),
    ensures
        is_overdue(t2, last, timeout),
{
}

} // verus!
