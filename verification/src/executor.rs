//! The waker-driven executor: it starts the tasks that were spawned, parks the
//! thread, and resumes the tasks whose wakers were called.

use std::collections::HashMap;
use std::collections::VecDeque;

use vstd::prelude::*;

use crate::poll::Poll;

verus! {

broadcast use vstd::std_specs::hash::group_hash_axioms;

/// A task that is waiting to be woken: its future and the waker made for it.
pub struct Task<F, W> {
    pub fut: F,
    pub waker: W,
}

/// Where the executor stands in its loop.
pub enum Phase {
    /// About to take the futures that were spawned.
    Collecting,
    /// The new task `id` is being polled for the first time.
    Starting { id: usize },
    /// Waiting for a waker to unpark the thread.
    Parked,
    /// The woken task `id` is being polled again.
    Resuming { id: usize },
    /// No task is left.
    Finished,
}

/// What the executor asks its driver to do next.
pub enum Action<F, W> {
    /// Take the futures that were spawned and report them to `spawned`.
    Collect,
    /// Make a waker for `id`, poll `fut` with it and report to `started`.
    Start { id: usize, fut: F },
    /// Park the thread, then report the woken ids to `unparked`.
    Park,
    /// Poll `task.fut` with `task.waker` and report to `resumed`.
    Resume { id: usize, task: Task<F, W> },
    /// Leave the loop.
    Finish,
}

/// What the driver reports back.
pub enum Event<F, W> {
    /// The futures that were spawned, in spawn order.
    Spawned(Seq<F>),
    /// The task in flight was polled for the first time.
    Started(Task<F, W>, Poll<()>),
    /// The thread was unparked and these tasks were woken.
    Unparked(Seq<usize>),
    /// The task in flight was polled again.
    Resumed(Task<F, W>, Poll<()>),
}

/// The mathematical state of an executor.
pub struct State<F, W> {
    /// The tasks that wait to be woken, by id.
    pub tasks: Map<usize, Task<F, W>>,
    /// The id that the next new task gets.
    pub next_task_id: nat,
    /// Spawned futures that are yet to be started, in spawn order.
    pub incoming: Seq<F>,
    /// Woken ids that are yet to be resumed.
    pub woken: Seq<usize>,
    pub phase: Phase,
}

impl<F, W> State<F, W> {
    /// The state before the first turn of the loop.
    pub open spec fn init() -> Self {
        State {
            tasks: Map::empty(),
            next_task_id: 0,
            incoming: Seq::empty(),
            woken: Seq::empty(),
            phase: Phase::Collecting,
        }
    }

    /// The task that the driver is polling right now.
    pub open spec fn in_flight(self) -> Option<usize> {
        match self.phase {
            Phase::Starting { id } => Some(id),
            Phase::Resuming { id } => Some(id),
            _ => None,
        }
    }

    /// What every reachable state has: ids are handed out in order and never
    /// twice, the task in flight is not in the table, and every woken id is
    /// that of a waiting task.
    pub open spec fn wf(self) -> bool {
        &&& self.tasks.dom().finite()
        &&& self.next_task_id + self.incoming.len() <= usize::MAX
        &&& forall|id: usize| #[trigger]
            self.tasks.contains_key(id) ==> id < self.next_task_id
        &&& self.woken.no_duplicates()
        &&& forall|i: int|
            0 <= i < self.woken.len() ==> self.tasks.contains_key(#[trigger] self.woken[i])
        &&& self.in_flight() matches Some(id) ==> id < self.next_task_id
            && !self.tasks.contains_key(id)
        &&& self.phase matches Phase::Starting { id } ==> id + 1 == self.next_task_id
        &&& !(self.phase is Starting) ==> self.incoming.len() == 0
        &&& !(self.phase is Resuming) ==> self.woken.len() == 0
        &&& self.phase is Finished ==> self.tasks.is_empty()
        &&& self.phase is Parked ==> !self.tasks.is_empty()
    }

    /// Starts the next spawned future; with none left, parks while a task
    /// waits and finishes otherwise.
    pub open spec fn start_next(self) -> (Self, Action<F, W>) {
        if self.incoming.len() > 0 {
            let id = self.next_task_id as usize;
            (
                State {
                    next_task_id: self.next_task_id + 1,
                    incoming: self.incoming.drop_first(),
                    phase: Phase::Starting { id },
                    ..self
                },
                Action::Start { id, fut: self.incoming.first() },
            )
        } else if self.tasks.is_empty() {
            (State { phase: Phase::Finished, ..self }, Action::Finish)
        } else {
            (State { phase: Phase::Parked, ..self }, Action::Park)
        }
    }

    /// Resumes the next woken task; with none left, goes back to collecting.
    pub open spec fn resume_next(self) -> (Self, Action<F, W>) {
        if self.woken.len() > 0 {
            let id = self.woken.first();
            (
                State {
                    tasks: self.tasks.remove(id),
                    woken: self.woken.drop_first(),
                    phase: Phase::Resuming { id },
                    ..self
                },
                Action::Resume { id, task: self.tasks[id] },
            )
        } else {
            (State { phase: Phase::Collecting, ..self }, Action::Collect)
        }
    }

    /// The table after the task in flight was polled: a pending task waits in
    /// it, a finished one is dropped.
    pub open spec fn settle(self, task: Task<F, W>, poll: Poll<()>) -> Self {
        match (self.in_flight(), poll) {
            (Some(id), Poll::Pending) => State { tasks: self.tasks.insert(id, task), ..self },
            _ => self,
        }
    }

    /// The events that the executor can take in this state.
    pub open spec fn enabled(self, event: Event<F, W>) -> bool {
        match event {
            Event::Spawned(futs) => self.phase is Collecting && self.next_task_id + futs.len()
                <= usize::MAX,
            Event::Started(_, _) => self.phase is Starting,
            Event::Unparked(ids) => self.phase is Parked && ids.no_duplicates() && forall|i: int|
                0 <= i < ids.len() ==> self.tasks.contains_key(#[trigger] ids[i]),
            Event::Resumed(_, _) => self.phase is Resuming,
        }
    }

    /// The state and the action that follow an event.
    pub open spec fn step(self, event: Event<F, W>) -> (Self, Action<F, W>) {
        match event {
            Event::Spawned(futs) => (State { incoming: futs, ..self }).start_next(),
            Event::Started(task, poll) => self.settle(task, poll).start_next(),
            Event::Unparked(ids) => (State { woken: ids, ..self }).resume_next(),
            Event::Resumed(task, poll) => self.settle(task, poll).resume_next(),
        }
    }
}

/// The executor's table of tasks and its place in the loop. Futures `F` and
/// wakers `W` pass through it unseen.
#[verifier::reject_recursive_types(F)]
#[verifier::reject_recursive_types(W)]
pub struct Executor<F, W> {
    tasks: HashMap<usize, Task<F, W>>,
    next_task_id: usize,
    incoming: VecDeque<F>,
    woken: VecDeque<usize>,
    phase: Phase,
}

impl<F, W> View for Executor<F, W> {
    type V = State<F, W>;

    closed spec fn view(&self) -> State<F, W> {
        State {
            tasks: self.tasks@,
            next_task_id: self.next_task_id as nat,
            incoming: self.incoming@,
            woken: self.woken@,
            phase: self.phase,
        }
    }
}

impl<F, W> Executor<F, W> {
    /// An executor with no tasks.
    pub fn new() -> (executor: Self)
        ensures
            executor@ == State::<F, W>::init(),
            executor@.wf(),
            executor@.tasks == Map::<usize, Task<F, W>>::empty(),
            executor@.next_task_id == 0,
            executor@.incoming.len() == 0,
            executor@.woken.len() == 0,
            executor@.phase is Collecting,
    {
        Executor {
            tasks: HashMap::new(),
            next_task_id: 0,
            incoming: VecDeque::new(),
            woken: VecDeque::new(),
            phase: Phase::Collecting,
        }
    }

    fn start_next(&mut self) -> (action: Action<F, W>)
        requires
            old(self)@.next_task_id + old(self)@.incoming.len() <= usize::MAX,
        ensures
            (final(self)@, action) == old(self)@.start_next(),
    {
        match self.incoming.pop_front() {
            Some(fut) => {
                let id: usize = self.next_task_id;
                self.next_task_id = id + 1;
                self.phase = Phase::Starting { id };
                assert(self.incoming@ == old(self)@.incoming.drop_first());
                Action::Start { id, fut }
            },
            None => {
                if self.tasks.is_empty() {
                    self.phase = Phase::Finished;
                    Action::Finish
                } else {
                    self.phase = Phase::Parked;
                    Action::Park
                }
            },
        }
    }

    fn resume_next(&mut self) -> (action: Action<F, W>)
        requires
            old(self)@.woken.len() > 0 ==> old(self)@.tasks.contains_key(old(self)@.woken[0]),
        ensures
            (final(self)@, action) == old(self)@.resume_next(),
    {
        match self.woken.pop_front() {
            Some(id) => {
                assert(self.woken@ == old(self)@.woken.drop_first());
                let task = self.tasks.remove(&id).unwrap();
                self.phase = Phase::Resuming { id };
                Action::Resume { id, task }
            },
            None => {
                self.phase = Phase::Collecting;
                Action::Collect
            },
        }
    }

    fn settle(&mut self, id: usize, task: Task<F, W>, poll: Poll<()>)
        requires
            old(self)@.in_flight() == Some(id),
        ensures
            final(self)@ == old(self)@.settle(task, poll),
    {
        match poll {
            Poll::Pending => {
                self.tasks.insert(id, task);
            },
            Poll::Ready(_) => {},
        }
    }

    /// Takes over the futures that were spawned since the last turn and starts
    /// the first of them.
    pub fn spawned(&mut self, futs: Vec<F>) -> (action: Action<F, W>)
        requires
            old(self)@.wf(),
            old(self)@.enabled(Event::Spawned(futs@)),
        ensures
            final(self)@.wf(),
            (final(self)@, action) == old(self)@.step(Event::Spawned(futs@)),
    {
        let mut incoming: VecDeque<F> = VecDeque::new();
        for fut in it: futs
            invariant
                incoming@ == it.seq().take(it.index()),
        {
            incoming.push_back(fut);
        }
        assert(incoming@ == futs@);
        self.incoming = incoming;
        self.start_next()
    }

    /// Takes back the new task after its first poll.
    pub fn started(&mut self, fut: F, waker: W, poll: Poll<()>) -> (action: Action<F, W>)
        requires
            old(self)@.wf(),
            old(self)@.phase is Starting,
        ensures
            final(self)@.wf(),
            (final(self)@, action) == old(self)@.step(Event::Started(Task { fut, waker }, poll)),
    {
        if let Phase::Starting { id } = self.phase {
            self.settle(id, Task { fut, waker }, poll);
        }
        proof {
            old(self)@.step_keeps_wf(Event::Started(Task { fut, waker }, poll));
        }
        self.start_next()
    }

    /// Takes the ids of the tasks that were woken and resumes the first of
    /// them. Each must be the id of a waiting task, given once.
    pub fn unparked(&mut self, ids: Vec<usize>) -> (action: Action<F, W>)
        requires
            old(self)@.wf(),
            old(self)@.enabled(Event::Unparked(ids@)),
        ensures
            final(self)@.wf(),
            (final(self)@, action) == old(self)@.step(Event::Unparked(ids@)),
    {
        let mut woken: VecDeque<usize> = VecDeque::new();
        for id in it: ids
            invariant
                woken@ == it.seq().take(it.index()),
        {
            woken.push_back(id);
        }
        assert(woken@ == ids@);
        self.woken = woken;
        proof {
            old(self)@.step_keeps_wf(Event::Unparked(ids@));
        }
        self.resume_next()
    }

    /// Takes back a woken task after it was polled.
    pub fn resumed(&mut self, task: Task<F, W>, poll: Poll<()>) -> (action: Action<F, W>)
        requires
            old(self)@.wf(),
            old(self)@.phase is Resuming,
        ensures
            final(self)@.wf(),
            (final(self)@, action) == old(self)@.step(Event::Resumed(task, poll)),
    {
        if let Phase::Resuming { id } = self.phase {
            self.settle(id, task, poll);
        }
        proof {
            old(self)@.step_keeps_wf(Event::Resumed(task, poll));
        }
        self.resume_next()
    }

    /// Whether the task `id` waits to be woken.
    pub fn is_waiting(&self, id: usize) -> (waiting: bool)
        ensures
            waiting == self@.tasks.contains_key(id),
    {
        self.tasks.contains_key(&id)
    }

    /// Whether `count` more tasks can be given ids.
    pub fn has_room_for(&self, count: usize) -> (room: bool)
        ensures
            room == (self@.next_task_id + count <= usize::MAX),
    {
        count <= usize::MAX - self.next_task_id
    }
}

impl<F, W> State<F, W> {
    /// The state after a history of events.
    pub open spec fn run(self, events: Seq<Event<F, W>>) -> Self
        decreases events.len(),
    {
        if events.len() == 0 {
            self
        } else {
            self.run(events.drop_last()).step(events.last()).0
        }
    }

    /// The action that the last event of a history was answered with.
    pub open spec fn reply(self, events: Seq<Event<F, W>>) -> Action<F, W> {
        self.run(events.drop_last()).step(events.last()).1
    }

    /// Whether each event of a history was enabled when it came.
    pub open spec fn admits(self, events: Seq<Event<F, W>>) -> bool
        decreases events.len(),
    {
        events.len() > 0 ==> self.admits(events.drop_last()) && self.run(
            events.drop_last(),
        ).enabled(events.last())
    }

    /// Whether the task `id` existed and is over: neither waiting nor being
    /// polled.
    pub open spec fn retired(self, id: usize) -> bool {
        &&& id < self.next_task_id
        &&& !self.tasks.contains_key(id)
        &&& self.in_flight() != Some(id)
    }

    /// Every event that can happen leads from a well-formed state to a
    /// well-formed state.
    pub proof fn step_keeps_wf(self, event: Event<F, W>)
        requires
            self.wf(),
            self.enabled(event),
        ensures
            self.step(event).0.wf(),
    {
    }

    /// Every history leads from a well-formed state to a well-formed state.
    pub proof fn run_keeps_wf(self, events: Seq<Event<F, W>>)
        requires
            self.wf(),
            self.admits(events),
        ensures
            self.run(events).wf(),
        decreases events.len(),
    {
        if events.len() > 0 {
            self.run_keeps_wf(events.drop_last());
            self.run(events.drop_last()).step_keeps_wf(events.last());
        }
    }

    /// A task whose poll came back ready is over.
    pub proof fn ready_retires(self, task: Task<F, W>, id: usize)
        requires
            self.wf(),
            self.in_flight() == Some(id),
        ensures
            self.phase is Starting ==> self.step(Event::Started(task, Poll::Ready(()))).0.retired(
                id,
            ),
            self.phase is Resuming ==> self.step(Event::Resumed(task, Poll::Ready(()))).0.retired(
                id,
            ),
    {
    }

    /// A task whose poll came back pending waits with the future and the waker
    /// that it was polled with.
    pub proof fn pending_waits(self, task: Task<F, W>, id: usize)
        requires
            self.wf(),
            self.in_flight() == Some(id),
        ensures
            self.phase is Starting ==> ({
                let after = self.step(Event::Started(task, Poll::Pending)).0;
                after.tasks.contains_key(id) && after.tasks[id] == task
            }),
            self.phase is Resuming ==> ({
                let after = self.step(Event::Resumed(task, Poll::Pending)).0;
                after.tasks.contains_key(id) && after.tasks[id] == task
            }),
    {
    }

    /// A task that is over stays over, whatever happens, and is never handed
    /// out to be polled again.
    pub proof fn retired_stays_retired(self, events: Seq<Event<F, W>>, id: usize)
        requires
            self.wf(),
            self.admits(events),
            self.retired(id),
        ensures
            self.run(events).retired(id),
            events.len() > 0 ==> match self.reply(events) {
                Action::Start { id: polled, .. } => polled != id,
                Action::Resume { id: polled, .. } => polled != id,
                _ => true,
            },
        decreases events.len(),
    {
        if events.len() > 0 {
            self.retired_stays_retired(events.drop_last(), id);
            self.run_keeps_wf(events.drop_last());
        }
    }

    /// The loop ends only when every task that was ever given an id is over,
    /// and it ends as soon as that holds and no new future was spawned.
    pub proof fn finish_means_all_over(self, event: Event<F, W>)
        requires
            self.wf(),
            self.enabled(event),
        ensures
            self.step(event).1 is Finish ==> forall|id: usize|
                id < self.step(event).0.next_task_id ==> self.step(event).0.retired(id),
            event is Spawned && event->Spawned_0.len() == 0 && (forall|id: usize|
                id < self.next_task_id ==> self.retired(id)) ==> self.step(event).1 is Finish,
    {
        if event is Spawned && event->Spawned_0.len() == 0 && (forall|id: usize|
            id < self.next_task_id ==> self.retired(id)) {
            assert(self.tasks.dom() =~= Set::empty()) by {
                assert forall|id: usize| !self.tasks.contains_key(id) by {
                    if self.tasks.contains_key(id) {
                        assert(self.retired(id));
                    }
                }
            }
            assert(self.tasks.is_empty());
        }
    }

    /// The history of a turn that starts `futs`, as far as `polled` goes.
    pub open spec fn start_turn(futs: Seq<F>, polled: Seq<(Task<F, W>, Poll<()>)>) -> Seq<
        Event<F, W>,
    > {
        seq![Event::Spawned(futs)] + polled.map_values(
            |p: (Task<F, W>, Poll<()>)| Event::Started(p.0, p.1),
        )
    }

    /// `tasks` with the new tasks that were left pending, numbered from `base`.
    pub open spec fn joined(
        tasks: Map<usize, Task<F, W>>,
        base: nat,
        polled: Seq<(Task<F, W>, Poll<()>)>,
    ) -> Map<usize, Task<F, W>> {
        Map::new(
            |id: usize|
                tasks.contains_key(id) || base <= id < base + polled.len() && polled[id
                    - base].1 is Pending,
            |id: usize|
                if base <= id < base + polled.len() {
                    polled[id - base].0
                } else {
                    tasks[id]
                },
        )
    }

    /// What holds in a turn that starts `futs` once `polled` is reported: the
    /// state is `after` and the last reply was `reply`.
    pub open spec fn start_stage(
        self,
        futs: Seq<F>,
        polled: Seq<(Task<F, W>, Poll<()>)>,
        after: Self,
        reply: Action<F, W>,
    ) -> bool {
        let base = self.next_task_id;
        let n = polled.len() as int;
        &&& after.tasks == Self::joined(self.tasks, base, polled)
        &&& n < futs.len() ==> {
            &&& reply == Action::<F, W>::Start { id: (base + n) as usize, fut: futs[n] }
            &&& after.next_task_id == base + n + 1
            &&& after.incoming == futs.skip(n + 1)
            &&& after.phase == Phase::Starting { id: (base + n) as usize }
        }
        &&& n == futs.len() ==> {
            &&& reply == if after.tasks.is_empty() {
                Action::<F, W>::Finish
            } else {
                Action::<F, W>::Park
            }
            &&& after.next_task_id == base + n
            &&& after.phase == if after.tasks.is_empty() {
                Phase::Finished
            } else {
                Phase::Parked
            }
        }
    }

    proof fn start_stage_first(self, futs: Seq<F>)
        requires
            self.wf(),
            self.enabled(Event::Spawned(futs)),
        ensures
            ({
                let (after, reply) = self.step(Event::Spawned(futs));
                self.start_stage(futs, Seq::empty(), after, reply)
            }),
    {
        assert(Self::joined(self.tasks, self.next_task_id, Seq::empty()) =~= self.tasks);
        if futs.len() > 0 {
            assert(futs.drop_first() =~= futs.skip(1));
        }
    }

    proof fn start_stage_next(
        self,
        futs: Seq<F>,
        polled: Seq<(Task<F, W>, Poll<()>)>,
        prev: Self,
        reply: Action<F, W>,
        task: Task<F, W>,
        poll: Poll<()>,
    )
        requires
            self.wf(),
            self.enabled(Event::Spawned(futs)),
            polled.len() < futs.len(),
            self.start_stage(futs, polled, prev, reply),
        ensures
            ({
                let (after, reply) = prev.step(Event::Started(task, poll));
                self.start_stage(futs, polled.push((task, poll)), after, reply)
            }),
    {
        let base = self.next_task_id;
        let n = polled.len() as int;
        assert(prev.settle(task, poll).tasks =~= Self::joined(
            self.tasks,
            base,
            polled.push((task, poll)),
        ));
        if n + 1 < futs.len() {
            assert(prev.incoming.drop_first() =~= futs.skip(n + 2));
            assert(prev.incoming.first() == futs[n + 1]);
        }
    }

    /// Every spawned future is polled once per spawn, in spawn order, under
    /// consecutive fresh ids; those left pending join the waiting tasks, which
    /// stay as they were. The thread is then parked, unless no task waits.
    pub proof fn spawned_futures_are_started_in_order(
        self,
        futs: Seq<F>,
        polled: Seq<(Task<F, W>, Poll<()>)>,
    )
        requires
            self.wf(),
            self.enabled(Event::Spawned(futs)),
            polled.len() <= futs.len(),
        ensures
            self.admits(Self::start_turn(futs, polled)),
            self.start_stage(
                futs,
                polled,
                self.run(Self::start_turn(futs, polled)),
                self.reply(Self::start_turn(futs, polled)),
            ),
        decreases polled.len(),
    {
        let events = Self::start_turn(futs, polled);
        if polled.len() == 0 {
            assert(events.drop_last() =~= Seq::empty());
            assert(self.run(events.drop_last()) == self);
            assert(self.admits(events.drop_last()));
            assert(polled =~= Seq::empty());
            self.start_stage_first(futs);
        } else {
            let before = polled.drop_last();
            let (task, poll) = polled.last();
            self.spawned_futures_are_started_in_order(futs, before);
            assert(events.drop_last() =~= Self::start_turn(futs, before));
            assert(events.last() == Event::Started(task, poll));
            assert(before.push((task, poll)) =~= polled);
            self.start_stage_next(
                futs,
                before,
                self.run(Self::start_turn(futs, before)),
                self.reply(Self::start_turn(futs, before)),
                task,
                poll,
            );
        }
    }

    /// The first future that is yet to be started is started next, under the
    /// next id, and the others stay in order behind it. With none left the loop
    /// ends exactly if no task waits, and no id is used up.
    pub proof fn the_next_future_is_started_next(self, event: Event<F, W>, futs: Seq<F>)
        requires
            self.wf(),
            self.enabled(event),
            match event {
                Event::Spawned(spawned) => futs == spawned,
                Event::Started(_, _) => futs == self.incoming,
                _ => false,
            },
        ensures
            ({
                let (after, action) = self.step(event);
                &&& after.woken.len() == 0
                &&& futs.len() > 0 ==> {
                    let id = self.next_task_id as usize;
                    &&& action == Action::<F, W>::Start { id, fut: futs[0] }
                    &&& after.phase == Phase::Starting { id }
                    &&& after.next_task_id == self.next_task_id + 1
                    &&& after.incoming == futs.skip(1)
                }
                &&& futs.len() == 0 ==> {
                    &&& after.next_task_id == self.next_task_id
                    &&& after.incoming.len() == 0
                    &&& action is Finish || action is Park
                    &&& action is Finish <==> after.phase is Finished
                    &&& action is Park <==> after.phase is Parked
                    &&& action is Park <==> exists|id: usize| #[trigger]
                        after.tasks.contains_key(id)
                }
            }),
    {
        let (after, action) = self.step(event);
        if futs.len() > 0 {
            assert(futs.drop_first() =~= futs.skip(1));
        } else if !after.tasks.is_empty() {
            let id = after.tasks.dom().choose();
            assert(after.tasks.contains_key(id));
        }
    }

    /// The first woken task that is yet to be resumed is resumed next, with the
    /// future and the waker that it waits with, and the others stay in order
    /// behind it. With none left the executor collects. No id is used up.
    pub proof fn the_next_woken_task_is_resumed_next(self, event: Event<F, W>, ids: Seq<usize>)
        requires
            self.wf(),
            self.enabled(event),
            match event {
                Event::Unparked(woken) => ids == woken,
                Event::Resumed(_, _) => ids == self.woken,
                _ => false,
            },
        ensures
            ({
                let (after, action) = self.step(event);
                &&& after.next_task_id == self.next_task_id
                &&& after.incoming.len() == 0
                &&& ids.len() > 0 ==> {
                    &&& self.tasks.contains_key(ids[0])
                    &&& action == Action::Resume { id: ids[0], task: self.tasks[ids[0]] }
                    &&& !after.tasks.contains_key(ids[0])
                    &&& after.phase == Phase::Resuming { id: ids[0] }
                    &&& after.woken == ids.skip(1)
                }
                &&& ids.len() == 0 ==> {
                    &&& action is Collect
                    &&& after.phase is Collecting
                    &&& after.woken.len() == 0
                }
            }),
    {
        if ids.len() > 0 {
            assert(ids.drop_first() =~= ids.skip(1));
            assert(self.tasks.contains_key(ids[0]));
        }
    }

    /// An event leaves every task alone but the one that was polled and the one
    /// that is handed out to be resumed: the others wait on, or do not, with
    /// the same future and waker.
    pub proof fn the_other_tasks_stay_untouched(self, event: Event<F, W>, id: usize)
        requires
            self.wf(),
            self.enabled(event),
            self.phase != (Phase::Starting { id }),
            self.phase != (Phase::Resuming { id }),
        ensures
            ({
                let (after, action) = self.step(event);
                (action matches Action::Resume { id: handed, .. } ==> handed != id) ==> {
                    &&& after.tasks.contains_key(id) <==> self.tasks.contains_key(id)
                    &&& after.tasks.contains_key(id) ==> after.tasks[id] == self.tasks[id]
                }
            }),
    {
    }

    /// The task that was polled waits exactly if it is pending, with the future
    /// and the waker that were reported.
    pub proof fn a_polled_task_waits_exactly_if_pending(
        self,
        event: Event<F, W>,
        id: usize,
        task: Task<F, W>,
        poll: Poll<()>,
    )
        requires
            self.wf(),
            self.phase == (Phase::Starting { id }) && event == Event::Started(task, poll)
                || self.phase == (Phase::Resuming { id }) && event == Event::Resumed(task, poll),
        ensures
            self.step(event).0.tasks.contains_key(id) <==> poll is Pending,
            poll is Pending ==> self.step(event).0.tasks[id] == task,
    {
        if self.phase is Resuming && self.woken.len() > 0 {
            assert(self.tasks.contains_key(self.woken[0]));
        }
    }

    /// The executor is not stuck: in each phase but the last it takes the event
    /// that its driver reports, whatever was spawned, woken or polled, as long
    /// as there are ids left and each woken id is that of a waiting task.
    pub proof fn the_executor_takes_what_its_phase_asks_for(
        self,
        futs: Seq<F>,
        ids: Seq<usize>,
        task: Task<F, W>,
        poll: Poll<()>,
    )
        requires
            self.wf(),
        ensures
            self.enabled(Event::Spawned(futs)) <==> self.phase is Collecting && self.next_task_id
                + futs.len() <= usize::MAX,
            self.enabled(Event::Started(task, poll)) <==> self.phase is Starting,
            self.enabled(Event::Unparked(ids)) <==> self.phase is Parked && ids.no_duplicates()
                && ids.to_set().subset_of(self.tasks.dom()),
            self.enabled(Event::Resumed(task, poll)) <==> self.phase is Resuming,
    {
        if forall|i: int| 0 <= i < ids.len() ==> self.tasks.contains_key(#[trigger] ids[i]) {
            assert(ids.to_set().subset_of(self.tasks.dom()));
        }
        if ids.to_set().subset_of(self.tasks.dom()) {
            assert forall|i: int| 0 <= i < ids.len() implies self.tasks.contains_key(
                #[trigger] ids[i],
            ) by {
                assert(ids.to_set().contains(ids[i]));
            }
        }
    }

    /// The history of a turn that resumes `ids`, as far as `polled` goes.
    pub open spec fn resume_turn(ids: Seq<usize>, polled: Seq<(Task<F, W>, Poll<()>)>) -> Seq<
        Event<F, W>,
    > {
        seq![Event::Unparked(ids)] + polled.map_values(
            |p: (Task<F, W>, Poll<()>)| Event::Resumed(p.0, p.1),
        )
    }

    /// `tasks` without the resumed tasks that were ready, and with the
    /// resumed tasks that were left pending.
    pub open spec fn resettled(
        tasks: Map<usize, Task<F, W>>,
        ids: Seq<usize>,
        polled: Seq<(Task<F, W>, Poll<()>)>,
    ) -> Map<usize, Task<F, W>> {
        Map::new(
            |id: usize|
                tasks.contains_key(id) && (ids.contains(id) && ids.index_of(id) < polled.len()
                    ==> polled[ids.index_of(id)].1 is Pending),
            |id: usize|
                if ids.contains(id) && ids.index_of(id) < polled.len() {
                    polled[ids.index_of(id)].0
                } else {
                    tasks[id]
                },
        )
    }

    /// What holds in a turn that resumes `ids` once `polled` is reported: the
    /// state is `after` and the last reply was `reply`.
    pub open spec fn resume_stage(
        self,
        ids: Seq<usize>,
        polled: Seq<(Task<F, W>, Poll<()>)>,
        after: Self,
        reply: Action<F, W>,
    ) -> bool {
        let n = polled.len() as int;
        &&& after.next_task_id == self.next_task_id
        &&& n < ids.len() ==> {
            &&& reply == Action::Resume { id: ids[n], task: self.tasks[ids[n]] }
            &&& after.tasks == Self::resettled(self.tasks, ids, polled).remove(ids[n])
            &&& after.woken == ids.skip(n + 1)
            &&& after.phase == Phase::Resuming { id: ids[n] }
        }
        &&& n == ids.len() ==> {
            &&& reply is Collect
            &&& after.tasks == Self::resettled(self.tasks, ids, polled)
            &&& after.phase is Collecting
        }
    }

    proof fn resume_stage_first(self, ids: Seq<usize>)
        requires
            self.wf(),
            self.enabled(Event::Unparked(ids)),
        ensures
            ({
                let (after, reply) = self.step(Event::Unparked(ids));
                self.resume_stage(ids, Seq::empty(), after, reply)
            }),
    {
        let none = Seq::<(Task<F, W>, Poll<()>)>::empty();
        assert forall|id: usize| #[trigger] ids.contains(id) implies ids.index_of(id) >= 0 by {
            assert(0 <= ids.index_of(id) < ids.len());
        }
        assert(Self::resettled(self.tasks, ids, none) =~= self.tasks);
        if ids.len() > 0 {
            assert(ids.drop_first() =~= ids.skip(1));
        }
    }

    proof fn resume_stage_next(
        self,
        ids: Seq<usize>,
        polled: Seq<(Task<F, W>, Poll<()>)>,
        prev: Self,
        reply: Action<F, W>,
        task: Task<F, W>,
        poll: Poll<()>,
    )
        requires
            self.wf(),
            self.enabled(Event::Unparked(ids)),
            polled.len() < ids.len(),
            self.resume_stage(ids, polled, prev, reply),
        ensures
            ({
                let (after, reply) = prev.step(Event::Resumed(task, poll));
                self.resume_stage(ids, polled.push((task, poll)), after, reply)
            }),
    {
        let n = polled.len() as int;
        let more = polled.push((task, poll));
        assert forall|i: int| 0 <= i < ids.len() implies ids.contains(#[trigger] ids[i])
            && ids.index_of(ids[i]) == i by {
            let j = ids.index_of(ids[i]);
            assert(0 <= j < ids.len() && ids[j] == ids[i]);
        }
        assert forall|id: usize| #[trigger] ids.contains(id) implies 0 <= ids.index_of(id)
            < ids.len() && ids[ids.index_of(id)] == id by {}
        let settled = prev.settle(task, poll).tasks;
        let target = Self::resettled(self.tasks, ids, more);
        assert(self.tasks.contains_key(ids[n]));
        assert forall|id: usize| settled.contains_key(id) == target.contains_key(id) by {
            if id != ids[n] && ids.contains(id) {
                assert(ids.index_of(id) != n);
            }
        }
        assert forall|id: usize| settled.contains_key(id) implies settled[id] == target[id] by {
            if id != ids[n] && ids.contains(id) {
                assert(ids.index_of(id) != n);
            }
        }
        assert(settled =~= target);
        if n + 1 < ids.len() {
            assert(prev.woken.drop_first() =~= ids.skip(n + 2));
            assert(prev.woken.first() == ids[n + 1]);
            assert(ids.index_of(ids[n + 1]) == n + 1);
        }
    }

    /// Every woken task is polled exactly once, with the future and the waker
    /// that it waited with; those that are ready leave the table, those that
    /// are pending wait on, and the tasks that were not woken stay untouched.
    /// The executor then looks for spawned futures again.
    pub proof fn woken_tasks_are_resumed_once(
        self,
        ids: Seq<usize>,
        polled: Seq<(Task<F, W>, Poll<()>)>,
    )
        requires
            self.wf(),
            self.enabled(Event::Unparked(ids)),
            polled.len() <= ids.len(),
        ensures
            self.admits(Self::resume_turn(ids, polled)),
            self.resume_stage(
                ids,
                polled,
                self.run(Self::resume_turn(ids, polled)),
                self.reply(Self::resume_turn(ids, polled)),
            ),
        decreases polled.len(),
    {
        let events = Self::resume_turn(ids, polled);
        if polled.len() == 0 {
            assert(events.drop_last() =~= Seq::empty());
            assert(self.run(events.drop_last()) == self);
            assert(self.admits(events.drop_last()));
            assert(polled =~= Seq::empty());
            self.resume_stage_first(ids);
        } else {
            let before = polled.drop_last();
            let (task, poll) = polled.last();
            self.woken_tasks_are_resumed_once(ids, before);
            assert(events.drop_last() =~= Self::resume_turn(ids, before));
            assert(events.last() == Event::Resumed(task, poll));
            assert(before.push((task, poll)) =~= polled);
            self.resume_stage_next(
                ids,
                before,
                self.run(Self::resume_turn(ids, before)),
                self.reply(Self::resume_turn(ids, before)),
                task,
                poll,
            );
        }
    }
}

} // verus!
