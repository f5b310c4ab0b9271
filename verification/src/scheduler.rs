use vstd::prelude::*;

verus! {

/// What the probe scheduler does with a tick: start a refresh, or coalesce
/// the tick because the previous refresh has not returned yet.
#[derive(Clone, Copy, Debug, PartialEq, Eq, Structural)]
pub enum TickAction {
    StartRefresh,
    Coalesce,
}

/// Decides when the periodic health refresh may run. The driver delivers
/// interval ticks and refresh completions; the scheduler guarantees that
/// refreshes never overlap — a tick that arrives while a refresh is still
/// running is coalesced, and the next refresh starts only after the
/// running one completes.
#[derive(Clone, Copy, Debug)]
pub struct ProbeScheduler {
    /// Seconds between probe ticks; the first tick fires one interval
    /// after startup, not immediately.
    pub interval_seconds: u64,
    /// Whether a refresh started and has not completed yet.
    pub refreshing: bool,
}

impl ProbeScheduler {
    /// A scheduler with no refresh running.
    pub fn new(interval_seconds: u64) -> (r: Self)
        ensures
            r.interval_seconds == interval_seconds,
            !r.refreshing,
    {
        ProbeScheduler { interval_seconds, refreshing: false }
    }

    /// Delivers one interval tick. A refresh starts exactly when none is
    /// already running; afterwards one is running either way.
    pub fn on_tick(&mut self) -> (r: TickAction)
        ensures
            r == TickAction::StartRefresh <==> !old(self).refreshing,
            final(self).refreshing,
            final(self).interval_seconds == old(self).interval_seconds,
    {
        if self.refreshing {
            TickAction::Coalesce
        } else {
            self.refreshing = true;
            TickAction::StartRefresh
        }
    }

    /// Reports that the running refresh returned.
    pub fn on_refresh_complete(&mut self)
        requires
            old(self).refreshing,
        ensures
            !final(self).refreshing,
            final(self).interval_seconds == old(self).interval_seconds,
    {
        self.refreshing = false;
    }
}

} // verus!
