//! The loops that drive a single future.

use vstd::prelude::*;

use crate::poll::Poll;

verus! {

/// How long the busy loop sleeps between two polls, in nanoseconds.
pub const BUSY_PAUSE: u128 = 1_000_000;

/// How a loop goes on after a poll.
pub enum Next {
    /// Leave the loop.
    Stop,
    /// Sleep for that many nanoseconds and poll again.
    Pause(u128),
    /// Park the thread until it is unparked and poll again.
    Park,
}

/// What to print after a poll, and how to go on. The text of a pause is printed
/// without a line end.
pub struct Turn {
    pub say: &'static str,
    pub next: Next,
}

/// What a task that was polled is announced with: nothing while it is pending.
pub fn announce(poll: &Poll<()>) -> (line: Option<&'static str>)
    ensures
        line == match *poll {
            Poll::Ready(_) => Some("ready"),
            Poll::Pending => None,
        },
{
    match poll {
        Poll::Ready(_) => Some("ready"),
        Poll::Pending => None,
    }
}

/// What a single poll is reported with.
pub fn polled_once(poll: &Poll<()>) -> (line: &'static str)
    ensures
        line == match *poll {
            Poll::Ready(_) => "ready",
            Poll::Pending => "pending",
        },
{
    match poll {
        Poll::Ready(_) => "ready",
        Poll::Pending => "pending",
    }
}

/// The busy loop's turn: poll again and again, with a short pause in between.
pub fn busy_turn(poll: &Poll<()>) -> (turn: Turn)
    ensures
        turn == match *poll {
            Poll::Ready(_) => Turn { say: "ready", next: Next::Stop },
            Poll::Pending => Turn { say: ".", next: Next::Pause(1_000_000) },
        },
{
    match poll {
        Poll::Ready(_) => Turn { say: "ready", next: Next::Stop },
        Poll::Pending => Turn { say: ".", next: Next::Pause(BUSY_PAUSE) },
    }
}

/// The parking loop's turn: poll again only after a wake-up.
pub fn parking_turn(poll: &Poll<()>) -> (turn: Turn)
    ensures
        turn == match *poll {
            Poll::Ready(_) => Turn { say: "ready", next: Next::Stop },
            Poll::Pending => Turn { say: "parking", next: Next::Park },
        },
{
    match poll {
        Poll::Ready(_) => Turn { say: "ready", next: Next::Stop },
        Poll::Pending => Turn { say: "parking", next: Next::Park },
    }
}

} // verus!
