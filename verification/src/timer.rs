//! The timed sleep: a future that has a timer thread wake its task.

use vstd::prelude::*;

verus! {

/// A sleep of `duration` nanoseconds.
#[derive(Clone, Copy, Debug)]
pub struct Sleep {
    pub duration: u128,
    /// Whether the timer thread was started.
    pub started: bool,
    /// Whether the timer thread has slept its time.
    pub ready: bool,
}

/// What a timer thread is started with. The waker is handed out only once the
/// sleep is marked as over.
pub struct Alarm<W> {
    nanos: u128,
    waker: W,
}

impl<W> Alarm<W> {
    /// How long the thread is to sleep.
    pub closed spec fn duration(&self) -> u128 {
        self.nanos
    }

    /// The waker that the thread is to call.
    pub closed spec fn waker(&self) -> W {
        self.waker
    }

    /// How long the thread is to sleep, in nanoseconds.
    pub fn nanos(&self) -> (nanos: u128)
        ensures
            nanos == self.duration(),
    {
        self.nanos
    }

    /// Marks `sleep` as over, after the thread has slept its time, and hands
    /// out the waker to call.
    pub fn ring(self, sleep: &mut Sleep) -> (waker: W)
        requires
            old(sleep).started,
            old(sleep).duration == self.duration(),
        ensures
            *final(sleep) == old(sleep).fired(),
            final(sleep).ready,
            final(sleep).started == old(sleep).started,
            final(sleep).duration == old(sleep).duration,
            waker == self.waker(),
    {
        sleep.ready = true;
        self.waker
    }
}

impl<'a, W: Clone> Alarm<&'a W> {
    /// The alarm with a waker of its own, for a thread to take along.
    pub fn owned(self) -> (alarm: Alarm<W>)
        ensures
            alarm.duration() == self.duration(),
            cloned(*self.waker(), alarm.waker()),
    {
        Alarm { nanos: self.nanos, waker: self.waker.clone() }
    }
}

/// What to do for a poll of a sleep.
pub enum TimerAction<W> {
    /// The poll is ready.
    Done,
    /// Start a thread that sleeps for the alarm's time, rings the alarm and
    /// calls the waker that it gets; the poll is pending.
    Start(Alarm<W>),
    /// The poll is pending.
    Wait,
}

impl Sleep {
    /// The sleep before its first poll.
    pub open spec fn fresh(duration: u128) -> Self {
        Sleep { duration, started: false, ready: false }
    }

    /// Whether a poll is ready.
    pub open spec fn is_over(self) -> bool {
        self.ready
    }

    /// Whether a poll starts the timer thread.
    pub open spec fn starts(self) -> bool {
        !self.ready && !self.started
    }

    /// The sleep after a poll.
    pub open spec fn polled(self) -> Self {
        if self.starts() {
            Sleep { started: true, ..self }
        } else {
            self
        }
    }

    /// The sleep after the timer thread has slept its time.
    pub open spec fn fired(self) -> Self {
        Sleep { ready: true, ..self }
    }

    /// Polls the sleep for a task with the waker `waker`.
    pub fn poll<W>(&mut self, waker: W) -> (action: TimerAction<W>)
        ensures
            *final(self) == old(self).polled(),
            final(self).duration == old(self).duration,
            final(self).ready == old(self).ready,
            final(self).started == (old(self).started || !old(self).ready),
            action is Done <==> old(self).ready,
            action is Start <==> !old(self).ready && !old(self).started,
            action is Done <==> old(self).is_over(),
            action is Start <==> old(self).starts(),
            action matches TimerAction::Start(alarm) ==> alarm.duration() == old(self).duration
                && alarm.waker() == waker,
    {
        if self.ready {
            TimerAction::Done
        } else if !self.started {
            self.started = true;
            TimerAction::Start(Alarm { nanos: self.duration, waker })
        } else {
            TimerAction::Wait
        }
    }
}

/// A sleep of `duration` nanoseconds, timed from its first poll.
#[must_use]
pub fn sleep(duration: u128) -> (sleep: Sleep)
    ensures
        sleep == Sleep::fresh(duration),
        sleep.duration == duration,
        !sleep.started,
        !sleep.ready,
{
    Sleep { duration, started: false, ready: false }
}

/// A poll is ready exactly if the sleep is marked as over, starts the thread
/// exactly if the sleep is neither over nor started, and changes nothing but to
/// mark the sleep as started; ringing changes nothing but to mark it as over.
pub proof fn a_sleep_changes_by_its_marks_alone(sleep: Sleep)
    ensures
        sleep.is_over() <==> sleep.ready,
        sleep.starts() <==> !sleep.ready && !sleep.started,
        sleep.polled().duration == sleep.duration,
        sleep.polled().ready == sleep.ready,
        sleep.polled().started == (sleep.started || !sleep.ready),
        sleep.fired().duration == sleep.duration,
        sleep.fired().started == sleep.started,
        sleep.fired().ready,
{
}

/// A second poll in a row changes nothing and starts nothing.
pub proof fn a_second_poll_changes_nothing(sleep: Sleep)
    ensures
        sleep.polled().polled() == sleep.polled(),
        !sleep.polled().starts(),
{
}

/// A sleep with its timer thread, in time. The thread's steps are those of an
/// alarm: it sleeps, rings and then calls the waker.
pub struct Timer<W> {
    pub sleep: Sleep,
    /// The current time.
    pub now: nat,
    /// While the thread sleeps: when it was started, and its waker.
    pub sleeping: Option<(nat, W)>,
    /// Between ringing and waking: the waker that is about to be called.
    pub waking: Option<W>,
    /// The waker that was called.
    pub woken: Option<W>,
    /// How many threads were started.
    pub threads: nat,
}

/// What can happen to a sleep and its thread.
pub enum TimerEvent<W> {
    /// A task with that waker polls the sleep.
    Poll(W),
    /// The thread has slept its time and rings.
    Ring,
    /// The thread calls the waker.
    Wake,
    /// So much time passes.
    Pass(nat),
}

impl<W> Timer<W> {
    /// A sleep that was never polled.
    pub open spec fn init(duration: u128, now: nat) -> Self {
        Timer {
            sleep: Sleep::fresh(duration),
            now,
            sleeping: None,
            waking: None,
            woken: None,
            threads: 0,
        }
    }

    /// The thread rings only when it has slept for the whole duration since it
    /// was started, and calls the waker only after that.
    pub open spec fn enabled(self, event: TimerEvent<W>) -> bool {
        match event {
            TimerEvent::Ring => self.sleeping matches Some((since, _)) && self.now >= since
                + self.sleep.duration,
            TimerEvent::Wake => self.waking is Some,
            _ => true,
        }
    }

    /// The state after an event.
    pub open spec fn step(self, event: TimerEvent<W>) -> Self {
        match event {
            TimerEvent::Poll(waker) => {
                let sleep = self.sleep.polled();
                if self.sleep.starts() {
                    Timer {
                        sleep,
                        sleeping: Some((self.now, waker)),
                        threads: self.threads + 1,
                        ..self
                    }
                } else {
                    Timer { sleep, ..self }
                }
            },
            TimerEvent::Ring => Timer {
                sleep: self.sleep.fired(),
                sleeping: None,
                waking: Some((self.sleeping->0).1),
                ..self
            },
            TimerEvent::Wake => Timer { waking: None, woken: self.waking, ..self },
            TimerEvent::Pass(time) => Timer { now: self.now + time, ..self },
        }
    }

    /// The state after a history of events.
    pub open spec fn run(self, events: Seq<TimerEvent<W>>) -> Self
        decreases events.len(),
    {
        if events.len() == 0 {
            self
        } else {
            self.run(events.drop_last()).step(events.last())
        }
    }

    /// Whether each event of a history was enabled when it came.
    pub open spec fn admits(self, events: Seq<TimerEvent<W>>) -> bool
        decreases events.len(),
    {
        events.len() > 0 ==> self.admits(events.drop_last()) && self.run(
            events.drop_last(),
        ).enabled(events.last())
    }

    /// When the first poll of a history came, and with which waker.
    pub open spec fn first_poll(self, events: Seq<TimerEvent<W>>) -> Option<(nat, W)>
        decreases events.len(),
    {
        if events.len() == 0 {
            None
        } else {
            self.run(events.drop_last()).first_with(
                self.first_poll(events.drop_last()),
                events.last(),
            )
        }
    }

    /// Whether a history holds a ring of the thread.
    pub open spec fn rang(events: Seq<TimerEvent<W>>) -> bool {
        exists|i: int| 0 <= i < events.len() && #[trigger] events[i] is Ring
    }

    /// What every history of a sleep comes to, told by its first poll `first`:
    /// before it nothing has happened; after it one thread sleeps from then on,
    /// or has rung in time, or has also called that poll's waker.
    pub open spec fn told_by(self, duration: u128, first: Option<(nat, W)>) -> bool {
        &&& self.sleep.duration == duration
        &&& match first {
            None => {
                &&& self.sleep == Sleep::fresh(duration)
                &&& self.threads == 0
                &&& self.sleeping is None && self.waking is None && self.woken is None
            },
            Some((since, waker)) => {
                &&& self.sleep.started
                &&& self.threads == 1
                &&& since <= self.now
                &&& self.sleep.ready ==> {
                    &&& self.now >= since + duration
                    &&& self.sleeping is None
                    &&& (self.waking == Some(waker) && self.woken is None || self.waking is None
                        && self.woken == Some(waker))
                }
                &&& !self.sleep.ready ==> {
                    &&& self.sleeping == Some((since, waker))
                    &&& self.waking is None && self.woken is None
                }
            },
        }
    }

    /// The first poll once `event` has come on top of what `first` tells.
    pub open spec fn first_with(self, first: Option<(nat, W)>, event: TimerEvent<W>) -> Option<
        (nat, W),
    > {
        match (first, event) {
            (None, TimerEvent::Poll(waker)) => Some((self.now, waker)),
            _ => first,
        }
    }

    /// What holds of every history is kept by each event.
    pub proof fn step_keeps_told_by(
        self,
        duration: u128,
        first: Option<(nat, W)>,
        event: TimerEvent<W>,
    )
        requires
            self.told_by(duration, first),
            self.enabled(event),
        ensures
            self.step(event).told_by(duration, self.first_with(first, event)),
    {
    }

    proof fn every_history_is_told_by_its_first_poll(
        duration: u128,
        start: nat,
        events: Seq<TimerEvent<W>>,
    )
        requires
            Self::init(duration, start).admits(events),
        ensures
            ({
                let timer = Self::init(duration, start);
                timer.run(events).told_by(duration, timer.first_poll(events))
            }),
        decreases events.len(),
    {
        if events.len() > 0 {
            let before = events.drop_last();
            let timer = Self::init(duration, start);
            Self::every_history_is_told_by_its_first_poll(duration, start, before);
            timer.run(before).step_keeps_told_by(duration, timer.first_poll(before), events.last());
        }
    }

    /// A sleep is never over before its duration has passed since its first
    /// poll, and a first poll is never ready.
    pub proof fn never_ready_before_its_time(
        duration: u128,
        start: nat,
        events: Seq<TimerEvent<W>>,
    )
        requires
            Self::init(duration, start).admits(events),
            Self::init(duration, start).run(events).sleep.is_over(),
        ensures
            ({
                let timer = Self::init(duration, start);
                &&& timer.first_poll(events) is Some
                &&& timer.run(events).now >= (timer.first_poll(events)->0).0 + duration
            }),
    {
        Self::every_history_is_told_by_its_first_poll(duration, start, events);
    }

    /// The sleep is marked as over before the wake-up is sent, so that a poll
    /// after the wake-up is ready, and the task that is woken is the one whose
    /// poll was the first to be pending.
    pub proof fn a_poll_after_the_wake_up_is_ready(
        duration: u128,
        start: nat,
        events: Seq<TimerEvent<W>>,
    )
        requires
            Self::init(duration, start).admits(events),
            Self::init(duration, start).run(events).woken is Some,
        ensures
            ({
                let timer = Self::init(duration, start);
                &&& timer.run(events).sleep.is_over()
                &&& timer.first_poll(events) is Some
                &&& timer.run(events).woken == Some((timer.first_poll(events)->0).1)
            }),
    {
        Self::every_history_is_told_by_its_first_poll(duration, start, events);
    }

    /// However often it is polled, a sleep starts one thread: with its first
    /// poll, and never another.
    pub proof fn the_first_poll_starts_the_only_thread(
        duration: u128,
        start: nat,
        events: Seq<TimerEvent<W>>,
    )
        requires
            Self::init(duration, start).admits(events),
        ensures
            ({
                let timer = Self::init(duration, start);
                timer.run(events).threads == if timer.first_poll(events) is Some {
                    1nat
                } else {
                    0
                }
            }),
    {
        Self::every_history_is_told_by_its_first_poll(duration, start, events);
    }

    /// A sleep is over exactly once its thread has rung, and stays so.
    pub proof fn over_exactly_after_ringing(
        duration: u128,
        start: nat,
        events: Seq<TimerEvent<W>>,
    )
        ensures
            Self::init(duration, start).run(events).sleep.is_over() <==> Self::rang(events),
        decreases events.len(),
    {
        if events.len() > 0 {
            let before = events.drop_last();
            Self::over_exactly_after_ringing(duration, start, before);
            if Self::rang(before) {
                let i = choose|i: int| 0 <= i < before.len() && #[trigger] before[i] is Ring;
                assert(events[i] is Ring);
            } else if events.last() is Ring {
                assert(events[events.len() - 1] is Ring);
            } else if Self::rang(events) {
                let i = choose|i: int| 0 <= i < events.len() && #[trigger] events[i] is Ring;
                assert(before[i] is Ring);
            }
        }
    }

    /// A thread that has slept its time can always ring, and one that has rung
    /// can always call the waker: a pending sleep is not stuck.
    pub proof fn a_pending_sleep_is_not_stuck(
        duration: u128,
        start: nat,
        events: Seq<TimerEvent<W>>,
    )
        requires
            Self::init(duration, start).admits(events),
            Self::init(duration, start).first_poll(events) is Some,
        ensures
            ({
                let timer = Self::init(duration, start);
                let after = timer.run(events);
                &&& !after.sleep.is_over() && after.now >= (timer.first_poll(events)->0).0
                    + duration ==> after.enabled(TimerEvent::Ring)
                &&& after.sleep.is_over() && after.woken is None ==> after.enabled(TimerEvent::Wake)
            }),
    {
        Self::every_history_is_told_by_its_first_poll(duration, start, events);
    }
}

} // verus!
