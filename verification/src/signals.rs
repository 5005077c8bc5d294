//! The shutdown signal: fired once, seen by all.
//!
//! One side fires the signal; any number of subscribers wait for it. The
//! waiting itself is the caller's; here is what is decided: whether a signal
//! is the first, whether a subscriber has anything to wait for, and when the
//! side that fired has waited long enough for the subscribers to go.

use vstd::prelude::*;

verus! {

/// How long to pause between two looks at the subscribers, in milliseconds.
pub const CHECK_PAUSE: u64 = 1_000;

/// The signal and those who wait for it.
#[derive(Debug, Clone, Copy, PartialEq, Eq, Structural)]
pub struct Shutdown {
    /// Whether the signal has been fired.
    pub fired: bool,
    /// How many subscribers have not gone yet.
    pub subscribers: usize,
}

/// What the side that fired does next while it waits for the subscribers.
#[derive(Debug, Clone, Copy, PartialEq, Eq, Structural)]
pub enum Wait {
    /// All subscribers are gone: the wait is over.
    Drained,
    /// The time allowed is up, and subscribers are left: the wait is over
    /// all the same.
    TimedOut,
    /// Look again after this many milliseconds.
    Pause(u64),
}

impl Shutdown {
    /// The state after the signal has been fired, for the first time or
    /// again.
    pub open spec fn signalled(self) -> Shutdown {
        Shutdown { fired: true, ..self }
    }

    /// A signal that is armed, with no subscribers.
    pub fn new() -> (r: Self)
        ensures
            r == (Shutdown { fired: false, subscribers: 0 }),
    {
        Shutdown { fired: false, subscribers: 0 }
    }

    /// Takes in a subscriber, before or after the signal. Answers whether
    /// there was room to count it.
    pub fn subscribe(&mut self) -> (counted: bool)
        ensures
            counted <==> old(self).subscribers < usize::MAX,
            final(self).fired == old(self).fired,
            final(self).subscribers == if counted {
                (old(self).subscribers + 1) as usize
            } else {
                old(self).subscribers
            },
    {
        if self.subscribers < usize::MAX {
            self.subscribers = self.subscribers + 1;
            true
        } else {
            false
        }
    }

    /// Lets a subscriber go.
    pub fn release(&mut self)
        ensures
            final(self).fired == old(self).fired,
            final(self).subscribers == if old(self).subscribers > 0 {
                (old(self).subscribers - 1) as usize
            } else {
                0
            },
    {
        if self.subscribers > 0 {
            self.subscribers = self.subscribers - 1;
        }
    }

    /// Fires the signal. Answers whether this call was the one that fired
    /// it; a later call changes nothing. It does not matter whether anyone
    /// is subscribed.
    pub fn signal(&mut self) -> (first: bool)
        ensures
            first == !old(self).fired,
            *final(self) == old(self).signalled(),
    {
        let first: bool = !self.fired;
        self.fired = true;
        first
    }

    /// Whether a subscriber's wait is over: it is as soon as the signal has
    /// been fired, whether the subscriber came before or after.
    pub fn recv(&self) -> (resolved: bool)
        ensures
            resolved == self.fired,
    {
        self.fired
    }

    /// What the side that fired does after `elapsed` of the `duration`
    /// allowed, both in milliseconds. Without subscribers the wait is over;
    /// so it is when the time is up; else there is a pause, no longer than
    /// what is left of the time.
    pub fn wait(&self, elapsed: u64, duration: u64) -> (r: Wait)
        ensures
            self.subscribers == 0 ==> r == Wait::Drained,
            self.subscribers > 0 && elapsed >= duration ==> r == Wait::TimedOut,
            self.subscribers > 0 && elapsed < duration ==> r == Wait::Pause(
                if duration - elapsed < CHECK_PAUSE {
                    (duration - elapsed) as u64
                } else {
                    CHECK_PAUSE
                },
            ),
    {
        if self.subscribers == 0 {
            Wait::Drained
        } else if elapsed >= duration {
            Wait::TimedOut
        } else {
            let left: u64 = duration - elapsed;
            if left < CHECK_PAUSE {
                Wait::Pause(left)
            } else {
                Wait::Pause(CHECK_PAUSE)
            }
        }
    }
}

/// Firing twice is firing once, and once fired, every subscriber's wait is
/// over, whether it subscribed before the signal or after it.
pub proof fn lemma_signal_is_idempotent(s: Shutdown)
    ensures
        s.signalled().signalled() == s.signalled(),
        s.signalled().fired,
        (Shutdown { subscribers: (s.subscribers + 1) as usize, ..s.signalled() }).fired,
{
}

} // verus!
