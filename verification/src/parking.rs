//! The executor with its parked thread and the wakers that unpark it, step by
//! step in any interleaving. Nothing here is executable: the steps are those of
//! `executor` and `wake`, and what is proved of them holds of every run.

use vstd::prelude::*;

use crate::bell::Mailbox;
use crate::executor::{Action, Event, State, Task};
use crate::poll::Poll;

verus! {

/// The executor's and the wakers' shared state.
#[verifier::reject_recursive_types(F)]
#[verifier::reject_recursive_types(W)]
pub struct Runtime<F, W> {
    pub executor: State<F, W>,
    /// The tasks that were woken and not yet taken from the wake set.
    pub woken: Set<usize>,
    /// Whether the thread was unparked since it last parked.
    pub token: bool,
    /// How many wakers have recorded a task and are yet to unpark the thread.
    pub waking: nat,
    /// Whether the thread has come back from parking and is about to empty the
    /// wake set.
    pub awake: bool,
}

/// The steps of the executor and of the wakers.
pub enum RuntimeEvent<F, W> {
    /// A waker records a task.
    Wake(usize),
    /// A waker that has recorded a task unparks the thread.
    Unpark,
    /// Parking ends, by the token or for no reason.
    Return,
    /// The executor takes an event.
    Turn(Event<F, W>),
}

impl<F, W> Runtime<F, W> {
    /// The state before the first turn of the loop.
    pub open spec fn init() -> Self {
        Runtime {
            executor: State::init(),
            woken: Set::empty(),
            token: false,
            waking: 0,
            awake: false,
        }
    }

    /// The thread returns only from parking, and the woken ids that the
    /// executor gets are those of the wake set.
    pub open spec fn enabled(self, event: RuntimeEvent<F, W>) -> bool {
        match event {
            RuntimeEvent::Wake(_) => true,
            RuntimeEvent::Unpark => self.waking > 0,
            RuntimeEvent::Return => self.executor.phase is Parked && !self.awake,
            RuntimeEvent::Turn(turn) => self.executor.enabled(turn) && (turn matches Event::Unparked(
                ids,
            ) ==> self.awake && ids.to_set() == self.woken),
        }
    }

    /// The state after an event.
    pub open spec fn step(self, event: RuntimeEvent<F, W>) -> Self {
        match event {
            RuntimeEvent::Wake(id) => Runtime {
                woken: crate::bell::posted(self.woken, id),
                waking: self.waking + 1,
                ..self
            },
            RuntimeEvent::Unpark => Runtime {
                token: true,
                waking: (self.waking - 1) as nat,
                ..self
            },
            RuntimeEvent::Return => Runtime { token: false, awake: true, ..self },
            RuntimeEvent::Turn(turn) => {
                let executor = self.executor.step(turn).0;
                if turn is Unparked {
                    Runtime {
                        executor,
                        woken: crate::bell::collected(),
                        awake: false,
                        ..self
                    }
                } else {
                    Runtime { executor, ..self }
                }
            },
        }
    }

    /// The state after a history of events.
    pub open spec fn run(self, events: Seq<RuntimeEvent<F, W>>) -> Self
        decreases events.len(),
    {
        if events.len() == 0 {
            self
        } else {
            self.run(events.drop_last()).step(events.last())
        }
    }

    /// Whether each event of a history was enabled when it came.
    pub open spec fn admits(self, events: Seq<RuntimeEvent<F, W>>) -> bool
        decreases events.len(),
    {
        events.len() > 0 ==> self.admits(events.drop_last()) && self.run(
            events.drop_last(),
        ).enabled(events.last())
    }

    /// The wake set as a mailbox whose bell is the thread's token.
    pub open spec fn mailbox(self) -> Mailbox<usize> {
        Mailbox { mail: self.woken, rung: self.token, ringing: self.waking, awake: self.awake }
    }

    /// No wake-up is lost: while a woken task is not yet taken, the thread has
    /// returned from parking, or its token is set, or a waker is about to set
    /// it. The thread is never parked for good over a woken task.
    pub proof fn no_wake_up_is_lost(events: Seq<RuntimeEvent<F, W>>)
        requires
            Self::init().admits(events),
        ensures
            Self::init().run(events).mailbox().attended(),
            Self::init().run(events).executor.wf(),
        decreases events.len(),
    {
        if events.len() > 0 {
            Self::no_wake_up_is_lost(events.drop_last());
            let before = Self::init().run(events.drop_last());
            if let RuntimeEvent::Turn(turn) = events.last() {
                before.executor.step_keeps_wf(turn);
            }
        }
    }

    /// A woken task stays recorded until the executor takes the wake set.
    pub proof fn a_wake_up_stays_until_taken(self, events: Seq<RuntimeEvent<F, W>>, id: usize)
        requires
            self.woken.contains(id),
            forall|i: int|
                0 <= i < events.len() ==> !(#[trigger] events[i] matches RuntimeEvent::Turn(turn)
                    && turn is Unparked),
        ensures
            self.run(events).woken.contains(id),
        decreases events.len(),
    {
        if events.len() > 0 {
            let before = events.drop_last();
            assert forall|i: int| 0 <= i < before.len() implies !(
            #[trigger] before[i] matches RuntimeEvent::Turn(turn) && turn is Unparked) by {
                assert(before[i] == events[i]);
            }
            self.a_wake_up_stays_until_taken(before, id);
            assert(events[events.len() - 1] == events.last());
        }
    }

    /// A woken task is resumed with the future and the waker that it waits
    /// with, at its place in the turn that follows, however the tasks before
    /// it are polled.
    pub proof fn a_woken_task_is_resumed(self, ids: Seq<usize>, id: usize) -> (place: int)
        requires
            self.executor.wf(),
            self.enabled(RuntimeEvent::Turn(Event::Unparked(ids))),
            self.woken.contains(id),
        ensures
            0 <= place < ids.len(),
            ids[place] == id,
            self.executor.tasks.contains_key(id),
            forall|polled: Seq<(Task<F, W>, Poll<()>)>|
                polled.len() == place ==> self.executor.reply(
                    #[trigger] State::resume_turn(ids, polled),
                ) == (Action::Resume { id, task: self.executor.tasks[id] }),
    {
        assert(ids.to_set().contains(id));
        let place = ids.index_of(id);
        assert(0 <= place < ids.len() && ids[place] == id);
        assert forall|polled: Seq<(Task<F, W>, Poll<()>)>| polled.len() == place implies self
            .executor.reply(#[trigger] State::resume_turn(ids, polled)) == (Action::Resume {
            id,
            task: self.executor.tasks[id],
        }) by {
            self.executor.woken_tasks_are_resumed_once(ids, polled);
        }
        place
    }
}

} // verus!
