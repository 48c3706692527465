//! Heartbeats after the session is established: one KeepAlive per period
//! until the reader marks the session inactive or a send fails.
use vstd::prelude::*;

verus! {

/// Period between two KeepAlive messages, in milliseconds.
pub const KEEP_ALIVE_PERIOD_MS: u64 = 1000;

#[derive(Debug, Clone, Copy, PartialEq, Eq, Structural)]
pub enum KeepAliveAction {
    /// Send one KeepAlive, then wait for the next period.
    Send,
    /// Stop for good, without further I/O.
    Stop,
}

/// Decides, at the end of each period, whether to send a KeepAlive.
pub struct KeepAliveScheduler {
    period_ms: u64,
    stopped: bool,
}

impl KeepAliveScheduler {
    pub closed spec fn period_spec(&self) -> u64 {
        self.period_ms
    }

    pub closed spec fn stopped_spec(&self) -> bool {
        self.stopped
    }

    pub fn new(period_ms: u64) -> (r: Self)
        ensures
            r.period_spec() == period_ms,
            !r.stopped_spec(),
    {
        KeepAliveScheduler { period_ms, stopped: false }
    }

    /// Period between two heartbeats, in milliseconds.
    pub fn period_ms(&self) -> (r: u64)
        ensures
            r == self.period_spec(),
    {
        self.period_ms
    }

    pub fn is_stopped(&self) -> (r: bool)
        ensures
            r == self.stopped_spec(),
    {
        self.stopped
    }

    /// A period has elapsed; `active` is the session's shared flag.
    pub fn on_tick(&mut self, active: bool) -> (r: KeepAliveAction)
        ensures
            r == (if !old(self).stopped_spec() && active {
                KeepAliveAction::Send
            } else {
                KeepAliveAction::Stop
            }),
            final(self).stopped_spec() == (old(self).stopped_spec() || !active),
            final(self).period_spec() == old(self).period_spec(),
    {
        if self.stopped || !active {
            self.stopped = true;
            KeepAliveAction::Stop
        } else {
            KeepAliveAction::Send
        }
    }

    /// The outcome of the last send: a failed send stops the heartbeats.
    pub fn on_sent(&mut self, ok: bool)
        ensures
            final(self).stopped_spec() == (old(self).stopped_spec() || !ok),
            final(self).period_spec() == old(self).period_spec(),
    {
        if !ok {
            self.stopped = true;
        }
    }
}

} // verus!
