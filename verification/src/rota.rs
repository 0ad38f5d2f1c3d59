//! The waker-less executor: every task is polled in every round.

use std::collections::VecDeque;

use vstd::prelude::*;

use crate::poll::Poll;

verus! {

/// How long the thread sleeps after a round, in nanoseconds.
pub const ROUND_PAUSE: u128 = 1_000_000;

/// Where the rota stands in its loop.
pub enum Phase {
    /// About to take the futures that were spawned.
    Collecting,
    /// A task is being polled.
    Polling,
    /// Sleeping between two rounds.
    Pausing,
    /// No task is left.
    Finished,
}

/// What the rota asks its driver to do next.
pub enum Action<F> {
    /// Take the futures that were spawned and report them to `spawned`.
    Collect,
    /// Poll the future and report to `polled`.
    Poll(F),
    /// Sleep for that many nanoseconds and report to `rested`.
    Pause(u128),
    /// Leave the loop.
    Finish,
}

/// What the driver reports back.
pub enum Event<F> {
    /// The futures that were spawned, in spawn order.
    Spawned(Seq<F>),
    /// The task in flight was polled.
    Polled(F, Poll<()>),
    /// The pause is over.
    Rested,
}

/// The mathematical state of a rota.
pub struct State<F> {
    /// The tasks that this round is yet to poll.
    pub queue: Seq<F>,
    /// The tasks that stay for the next round.
    pub kept: Seq<F>,
    pub phase: Phase,
}

impl<F> State<F> {
    /// The state before the first turn of the loop.
    pub open spec fn init() -> Self {
        State { queue: Seq::empty(), kept: Seq::empty(), phase: Phase::Collecting }
    }

    /// Tasks are queued only while a round is under way, and the rota finishes
    /// only with no tasks at all.
    pub open spec fn wf(self) -> bool {
        &&& !(self.phase is Polling) ==> self.queue.len() == 0
        &&& self.phase is Finished ==> self.kept.len() == 0
    }

    /// Polls the next task of the round; after the last, pauses.
    pub open spec fn poll_next(self) -> (Self, Action<F>) {
        if self.queue.len() > 0 {
            (
                State { queue: self.queue.drop_first(), phase: Phase::Polling, ..self },
                Action::Poll(self.queue.first()),
            )
        } else {
            (State { phase: Phase::Pausing, ..self }, Action::Pause(ROUND_PAUSE))
        }
    }

    /// The events that the rota can take in this state.
    pub open spec fn enabled(self, event: Event<F>) -> bool {
        match event {
            Event::Spawned(_) => self.phase is Collecting,
            Event::Polled(_, _) => self.phase is Polling,
            Event::Rested => self.phase is Pausing,
        }
    }

    /// The state and the action that follow an event. New tasks go behind the
    /// tasks that are there; a task that is ready is dropped.
    pub open spec fn step(self, event: Event<F>) -> (Self, Action<F>) {
        match event {
            Event::Spawned(futs) => {
                let all = self.kept + futs;
                if all.len() == 0 {
                    (State { phase: Phase::Finished, ..self }, Action::Finish)
                } else {
                    (State { queue: all, kept: Seq::empty(), ..self }).poll_next()
                }
            },
            Event::Polled(fut, poll) => {
                let kept = if poll is Pending {
                    self.kept.push(fut)
                } else {
                    self.kept
                };
                (State { kept, ..self }).poll_next()
            },
            Event::Rested => (State { phase: Phase::Collecting, ..self }, Action::Collect),
        }
    }

    /// The state after a history of events.
    pub open spec fn run(self, events: Seq<Event<F>>) -> Self
        decreases events.len(),
    {
        if events.len() == 0 {
            self
        } else {
            self.run(events.drop_last()).step(events.last()).0
        }
    }

    /// The action that the last event of a history was answered with.
    pub open spec fn reply(self, events: Seq<Event<F>>) -> Action<F> {
        self.run(events.drop_last()).step(events.last()).1
    }

    /// The history of a round that starts with `futs` spawned, as far as
    /// `polled` goes.
    pub open spec fn round(futs: Seq<F>, polled: Seq<(F, Poll<()>)>) -> Seq<Event<F>> {
        seq![Event::Spawned(futs)] + polled.map_values(
            |p: (F, Poll<()>)| Event::Polled(p.0, p.1),
        )
    }

    /// The tasks of `polled` that were pending, in the order they were polled.
    pub open spec fn survivors(polled: Seq<(F, Poll<()>)>) -> Seq<F> {
        polled.filter(|p: (F, Poll<()>)| p.1 is Pending).map_values(|p: (F, Poll<()>)| p.0)
    }

    /// Every event that can happen leads from a well-formed state to a
    /// well-formed state.
    pub proof fn step_keeps_wf(self, event: Event<F>)
        requires
            self.wf(),
            self.enabled(event),
        ensures
            self.step(event).0.wf(),
    {
    }

    /// A round polls every task once, old tasks first and new ones in spawn
    /// order; the tasks that stay keep their order. After the last task the
    /// thread pauses, whether or not a task stayed.
    pub proof fn a_round_polls_every_task_in_order(
        self,
        futs: Seq<F>,
        polled: Seq<(F, Poll<()>)>,
    )
        requires
            self.wf(),
            self.enabled(Event::Spawned(futs)),
            self.kept.len() + futs.len() > 0,
            polled.len() <= self.kept.len() + futs.len(),
        ensures
            ({
                let events = Self::round(futs, polled);
                let after = self.run(events);
                let all = self.kept + futs;
                let n = polled.len() as int;
                &&& after.kept == Self::survivors(polled)
                &&& n < all.len() ==> {
                    &&& self.reply(events) == Action::Poll(all[n])
                    &&& after.queue == all.skip(n + 1)
                    &&& after.phase is Polling
                }
                &&& n == all.len() ==> {
                    &&& self.reply(events) == Action::<F>::Pause(ROUND_PAUSE)
                    &&& after.queue.len() == 0
                    &&& after.phase is Pausing
                }
            }),
        decreases polled.len(),
    {
        reveal_with_fuel(State::run, 2);
        let events = Self::round(futs, polled);
        let all = self.kept + futs;
        if polled.len() == 0 {
            assert(events.drop_last() =~= Seq::empty());
            assert(events.last() == Event::Spawned(futs));
            assert(self.run(Seq::empty()) == self);
            reveal(Seq::filter);
            assert(Self::survivors(polled) =~= Seq::empty());
            assert(all.drop_first() =~= all.skip(1));
        } else {
            let before = polled.drop_last();
            self.a_round_polls_every_task_in_order(futs, before);
            assert(events.drop_last() =~= Self::round(futs, before));
            let (fut, poll) = polled.last();
            assert(events.last() == Event::Polled(fut, poll));
            let prev = self.run(Self::round(futs, before));
            let n = polled.len() as int;
            reveal(Seq::filter);
            assert(Self::survivors(polled) =~= if poll is Pending {
                Self::survivors(before).push(fut)
            } else {
                Self::survivors(before)
            });
            assert(n < all.len() ==> prev.queue.drop_first() =~= all.skip(n + 1));
            assert(n < all.len() ==> prev.queue.first() == all[n]);
        }
    }

    /// The pause changes no task: the rota collects next, with the tasks that
    /// stayed as they were.
    pub proof fn the_pause_changes_no_task(self)
        requires
            self.wf(),
            self.phase is Pausing,
        ensures
            self.step(Event::Rested).1 is Collect,
            self.step(Event::Rested).0.kept == self.kept,
            self.step(Event::Rested).0.queue.len() == 0,
            self.step(Event::Rested).0.phase is Collecting,
    {
    }

    /// The tasks of a round are those that stayed, followed by those that were
    /// spawned: the first is polled at once, the others wait their turn, and
    /// nothing has stayed yet.
    pub proof fn spawned_tasks_go_behind_the_others(self, futs: Seq<F>)
        requires
            self.wf(),
            self.phase is Collecting,
            self.kept.len() + futs.len() > 0,
        ensures
            ({
                let (after, action) = self.step(Event::Spawned(futs));
                let (k, n) = (self.kept.len() as int, futs.len() as int);
                &&& action is Poll
                &&& after.phase is Polling
                &&& after.kept.len() == 0
                &&& after.queue.len() + 1 == k + n
                &&& forall|i: int|
                    0 <= i < k ==> (seq![action->Poll_0] + after.queue)[i] == #[trigger] self.kept[i]
                &&& forall|i: int|
                    0 <= i < n ==> (seq![action->Poll_0] + after.queue)[k + i]
                        == #[trigger] futs[i]
            }),
    {
    }

    /// A task that was polled stays exactly if it is pending, behind those that
    /// stayed before it, which stay. The next task in the queue is polled next;
    /// with none, the rota pauses.
    pub proof fn a_polled_task_stays_exactly_if_pending(self, fut: F, poll: Poll<()>)
        requires
            self.wf(),
            self.phase is Polling,
        ensures
            ({
                let (after, action) = self.step(Event::Polled(fut, poll));
                &&& poll is Pending ==> after.kept == self.kept.push(fut)
                &&& poll is Ready ==> after.kept == self.kept
                &&& self.queue.len() > 0 ==> {
                    &&& action == Action::Poll(self.queue[0])
                    &&& after.queue == self.queue.skip(1)
                    &&& after.phase is Polling
                }
                &&& self.queue.len() == 0 ==> {
                    &&& action == Action::<F>::Pause(1_000_000)
                    &&& after.queue.len() == 0
                    &&& after.phase is Pausing
                }
            }),
    {
        if self.queue.len() > 0 {
            assert(self.queue.drop_first() =~= self.queue.skip(1));
        }
    }

    /// The tasks of the next round are the survivors of this one, in the order
    /// they were polled, followed by the newly spawned.
    pub proof fn the_next_round_has_the_survivors(
        self,
        futs: Seq<F>,
        polled: Seq<(F, Poll<()>)>,
        more: Seq<F>,
    )
        requires
            self.wf(),
            self.phase is Collecting,
            self.kept.len() + futs.len() > 0,
            polled.len() == self.kept.len() + futs.len(),
        ensures
            ({
                let paused = Self::round(futs, polled).push(Event::Rested);
                let events = paused.push(Event::Spawned(more));
                let all = Self::survivors(polled) + more;
                &&& self.reply(paused) is Collect
                &&& self.run(paused).kept == Self::survivors(polled)
                &&& self.run(paused).phase is Collecting
                &&& all.len() > 0 ==> self.reply(events) == Action::Poll(all[0]) && self.run(
                    events,
                ).queue == all.skip(1)
                &&& all.len() == 0 ==> self.reply(events) is Finish
            }),
    {
        let round = Self::round(futs, polled);
        let paused = round.push(Event::Rested);
        let events = paused.push(Event::Spawned(more));
        let all = Self::survivors(polled) + more;
        self.a_round_polls_every_task_in_order(futs, polled);
        assert(paused.drop_last() =~= round);
        assert(events.drop_last() =~= paused);
        if all.len() > 0 {
            assert(all.drop_first() =~= all.skip(1));
        }
    }

    /// The survivors are the pending tasks in the order they were polled: one
    /// more task that was polled comes last if it is pending, and is no
    /// survivor if it is ready.
    pub proof fn survivors_are_the_pending(polled: Seq<(F, Poll<()>)>, fut: F, poll: Poll<()>)
        ensures
            Self::survivors(Seq::empty()) == Seq::<F>::empty(),
            poll is Pending ==> Self::survivors(polled.push((fut, poll))) == Self::survivors(
                polled,
            ).push(fut),
            poll is Ready ==> Self::survivors(polled.push((fut, poll))) == Self::survivors(polled),
    {
        reveal(Seq::filter);
        assert(polled.push((fut, poll)).drop_last() =~= polled);
        assert(Self::survivors(Seq::empty()) =~= Seq::empty());
        assert(Self::survivors(polled.push((fut, poll))) =~= if poll is Pending {
            Self::survivors(polled).push(fut)
        } else {
            Self::survivors(polled)
        });
    }

    /// The loop ends exactly when a turn finds no task: none stayed and none
    /// was spawned.
    pub proof fn finish_means_no_task(self, event: Event<F>)
        requires
            self.wf(),
            self.enabled(event),
        ensures
            self.step(event).1 is Finish <==> (event matches Event::Spawned(futs)
                && futs.len() == 0 && self.kept.len() == 0),
    {
    }
}

/// The rota's tasks and its place in the loop. Futures `F` pass through it
/// unseen.
pub struct Rota<F> {
    queue: VecDeque<F>,
    kept: VecDeque<F>,
    phase: Phase,
}

impl<F> View for Rota<F> {
    type V = State<F>;

    closed spec fn view(&self) -> State<F> {
        State { queue: self.queue@, kept: self.kept@, phase: self.phase }
    }
}

impl<F> Rota<F> {
    /// A rota with no tasks.
    pub fn new() -> (rota: Self)
        ensures
            rota@ == State::<F>::init(),
            rota@.wf(),
            rota@.queue.len() == 0,
            rota@.kept.len() == 0,
            rota@.phase is Collecting,
    {
        Rota { queue: VecDeque::new(), kept: VecDeque::new(), phase: Phase::Collecting }
    }

    fn poll_next(&mut self) -> (action: Action<F>)
        ensures
            (final(self)@, action) == old(self)@.poll_next(),
    {
        match self.queue.pop_front() {
            Some(fut) => {
                assert(self.queue@ == old(self)@.queue.drop_first());
                self.phase = Phase::Polling;
                Action::Poll(fut)
            },
            None => {
                self.phase = Phase::Pausing;
                Action::Pause(ROUND_PAUSE)
            },
        }
    }

    /// Adds the futures that were spawned since the last turn and begins a
    /// round, unless there is no task at all.
    pub fn spawned(&mut self, futs: Vec<F>) -> (action: Action<F>)
        requires
            old(self)@.wf(),
            old(self)@.phase is Collecting,
        ensures
            final(self)@.wf(),
            (final(self)@, action) == old(self)@.step(Event::Spawned(futs@)),
    {
        let mut tasks: VecDeque<F> = VecDeque::new();
        tasks.append(&mut self.kept);
        let ghost kept = tasks@;
        for fut in it: futs
            invariant
                tasks@ == kept + it.seq().take(it.index()),
        {
            tasks.push_back(fut);
        }
        assert(tasks@ == old(self)@.kept + futs@);
        if tasks.len() == 0 {
            self.phase = Phase::Finished;
            Action::Finish
        } else {
            self.queue = tasks;
            self.poll_next()
        }
    }

    /// Takes back the task that was polled and goes on with the round.
    pub fn polled(&mut self, fut: F, poll: Poll<()>) -> (action: Action<F>)
        requires
            old(self)@.wf(),
            old(self)@.phase is Polling,
        ensures
            final(self)@.wf(),
            (final(self)@, action) == old(self)@.step(Event::Polled(fut, poll)),
    {
        match poll {
            Poll::Pending => {
                self.kept.push_back(fut);
            },
            Poll::Ready(_) => {},
        }
        self.poll_next()
    }

    /// Goes on after the pause between two rounds.
    pub fn rested(&mut self) -> (action: Action<F>)
        requires
            old(self)@.wf(),
            old(self)@.phase is Pausing,
        ensures
            final(self)@.wf(),
            (final(self)@, action) == old(self)@.step(Event::Rested),
            final(self)@.kept == old(self)@.kept,
            final(self)@.phase is Collecting,
            action is Collect,
    {
        self.phase = Phase::Collecting;
        Action::Collect
    }
}

} // verus!
