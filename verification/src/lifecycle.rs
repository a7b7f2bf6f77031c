//! Cooperative monitor lifecycle: Idle -> Running -> Idle.
//!
//! Each monitor loop runs under a lifecycle cell.  `start` is idempotent and
//! hands out an epoch token for the newly started loop; `stop` clears the
//! running flag without blocking.  A loop keeps going only while its own
//! token matches the current epoch, so a loop left over from before a
//! stop/start cycle retires itself at its next poll: at any moment at most
//! one token is live.

use vstd::prelude::*;

verus! {

/// Lifecycle state shared between a monitor and the loop it spawned.
pub struct Lifecycle {
    pub running: bool,
    pub epoch: u64,
}

impl Lifecycle {
    pub open spec fn is_running_spec(&self) -> bool {
        self.running
    }

    pub open spec fn epoch_spec(&self) -> u64 {
        self.epoch
    }

    /// Whether a loop holding `token` may run another iteration.
    pub open spec fn live_spec(&self, token: u64) -> bool {
        self.running && token == self.epoch
    }

    pub fn new() -> (r: Lifecycle)
        ensures
            !r.is_running_spec(),
            r.epoch_spec() == 0,
    {
        Lifecycle { running: false, epoch: 0 }
    }

    /// Start the monitor.  Returns the token for the new loop, or `None` if a
    /// loop is already running (idempotent: no second loop is spawned).
    pub fn start(&mut self) -> (r: Option<u64>)
        requires
            old(self).epoch_spec() < u64::MAX,
        ensures
            final(self).is_running_spec(),
            old(self).is_running_spec() ==> r is None && *final(self) == *old(self),
            !old(self).is_running_spec() ==> {
                &&& r == Some(final(self).epoch_spec())
                &&& final(self).epoch_spec() == old(self).epoch_spec() + 1
                &&& final(self).live_spec(final(self).epoch_spec())
            },
    {
        if self.running {
            None
        } else {
            self.running = true;
            self.epoch = self.epoch + 1;
            Some(self.epoch)
        }
    }

    /// Request the running loop to stop at its next poll.
    pub fn stop(&mut self)
        ensures
            !final(self).is_running_spec(),
            final(self).epoch_spec() == old(self).epoch_spec(),
    {
        self.running = false;
    }

    pub fn is_running(&self) -> (r: bool)
        ensures
            r == self.is_running_spec(),
    {
        self.running
    }

    /// Polled at the top of each loop iteration by the loop holding `token`.
    pub fn live(&self, token: u64) -> (r: bool)
        ensures
            r == self.live_spec(token),
    {
        self.running && token == self.epoch
    }
}

/// At most one loop per lifecycle is ever live: two live tokens are the same
/// token.
pub proof fn lemma_at_most_one_live_loop(s: Lifecycle, t1: u64, t2: u64)
    requires
        s.live_spec(t1),
        s.live_spec(t2),
    ensures
        t1 == t2,
{
}

/// Stopping and immediately restarting never yields two concurrently running
/// loops: every token issued before the restart is dead afterwards, and only
/// the freshly issued token is live.
pub proof fn lemma_stop_start_retires_old_loops(s: Lifecycle, stopped: Lifecycle, restarted: Lifecycle, token: u64)
    requires
        s.epoch_spec() < u64::MAX,
        // the stop request
        !stopped.is_running_spec(),
        stopped.epoch_spec() == s.epoch_spec(),
        // the restart, as `start` leaves it from the stopped state
        restarted.is_running_spec(),
        restarted.epoch_spec() == stopped.epoch_spec() + 1,
        token == restarted.epoch_spec(),
    ensures
        forall|t: u64| t <= s.epoch_spec() ==> !restarted.live_spec(t),
        restarted.live_spec(token),
        forall|t: u64| restarted.live_spec(t) ==> t == token,
{
}

} // verus!
