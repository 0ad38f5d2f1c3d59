//! The busy sleep: a future that looks at the clock in every poll.

use vstd::prelude::*;

use crate::poll::Poll;

verus! {

/// A sleep of `duration` that began at `since`, in nanoseconds. The clock's
/// readings are nanoseconds since an instant of the driver's choice.
#[derive(Clone, Copy, Debug)]
pub struct Sleep {
    pub duration: u128,
    pub since: u128,
}

impl Sleep {
    /// The time that has passed at `now`; none if the clock ran backwards.
    pub open spec fn elapsed(self, now: u128) -> nat {
        if now >= self.since {
            (now - self.since) as nat
        } else {
            0
        }
    }

    /// What a poll at `now` comes to.
    pub open spec fn outcome(self, now: u128) -> Poll<()> {
        if self.elapsed(now) >= self.duration {
            Poll::Ready(())
        } else {
            Poll::Pending
        }
    }

    /// Polls the sleep when the clock reads `now`: it is ready as soon as its
    /// duration has passed.
    pub fn poll(&self, now: u128) -> (poll: Poll<()>)
        ensures
            poll == self.outcome(now),
            poll is Ready <==> self.duration == 0 || now >= self.since + self.duration,
    {
        let elapsed: u128 = if now >= self.since {
            now - self.since
        } else {
            0
        };
        if elapsed >= self.duration {
            Poll::Ready(())
        } else {
            Poll::Pending
        }
    }
}

/// A sleep that begins when the clock reads `now`.
#[must_use]
pub fn sleep(duration: u128, now: u128) -> (sleep: Sleep)
    ensures
        sleep == (Sleep { duration, since: now }),
{
    Sleep { duration, since: now }
}

/// A sleep is over exactly if its duration has passed since it began, at once
/// if it has none, whatever the clock reads.
pub proof fn a_sleep_is_over_when_its_time_has_passed(sleep: Sleep, now: u128)
    ensures
        sleep.outcome(now) is Ready <==> sleep.duration == 0 || now >= sleep.since
            + sleep.duration,
{
}

/// A sleep that is no shorter and began no earlier than another is not over
/// before it.
pub proof fn longer_sleeps_end_later(a: Sleep, b: Sleep, now: u128)
    requires
        a.since <= b.since,
        a.duration <= b.duration,
    ensures
        b.outcome(now) is Ready ==> a.outcome(now) is Ready,
{
}

/// A sleep is never over early, and once over it stays over while the clock
/// does not run backwards.
pub proof fn a_sleep_ends_once(sleep: Sleep, now: u128, later: u128)
    requires
        now <= later,
    ensures
        sleep.outcome(now) is Ready ==> sleep.outcome(later) is Ready,
        now >= sleep.since ==> (sleep.outcome(now) is Ready <==> now >= sleep.since
            + sleep.duration),
        sleep.duration == 0 ==> sleep.outcome(now) is Ready,
{
}

} // verus!
