//! The selector: it waits until sockets can be written to and wakes the tasks
//! that registered for them. A ping pipe interrupts the wait whenever there
//! are new registrations.

use std::collections::HashMap;

use vstd::prelude::*;

verus! {

broadcast use vstd::std_specs::hash::group_hash_axioms;

/// The byte that is written to the ping pipe for a registration.
pub const PING: u8 = 0;

/// The size of the buffer that the ping pipe is drained with.
pub const DRAIN_BUF: usize = 16;

/// Whether `pairs` lists every entry of `map` once, in any order.
pub open spec fn lists<W>(pairs: Seq<(i32, W)>, map: Map<i32, W>) -> bool {
    &&& forall|i: int, j: int|
        0 <= i < j < pairs.len() ==> (#[trigger] pairs[i]).0 != (#[trigger] pairs[j]).0
    &&& forall|i: int|
        0 <= i < pairs.len() ==> map.contains_key((#[trigger] pairs[i]).0) && map[pairs[i].0]
            == pairs[i].1
    &&& forall|fd: i32| #[trigger]
        map.contains_key(fd) ==> exists|i: int|
            0 <= i < pairs.len() && (#[trigger] pairs[i]).0 == fd
}

/// The writers whose descriptors are among `writable`.
pub open spec fn woken<W>(writers: Map<i32, W>, writable: Seq<i32>) -> Map<i32, W> {
    writers.restrict(writable.to_set())
}

/// The writers whose descriptors are not among `writable`.
pub open spec fn left<W>(writers: Map<i32, W>, writable: Seq<i32>) -> Map<i32, W> {
    writers.remove_keys(writable.to_set())
}

/// The writers after new registrations came in; a new one replaces an old one
/// of the same descriptor.
pub open spec fn absorbed<W>(writers: Map<i32, W>, new_wfds: Map<i32, W>) -> Map<i32, W> {
    writers.union_prefer_right(new_wfds)
}

fn keys_of<W>(map: &HashMap<i32, W>) -> (keys: Vec<i32>)
    ensures
        keys@.no_duplicates(),
        keys@.to_set() == map@.dom(),
{
    let mut keys: Vec<i32> = Vec::new();
    let ghost all = vstd::std_specs::iter::IteratorSpec::remaining(
        &vstd::std_specs::hash::spec_keys_iter(map),
    ).unref();
    for fd in it: map.keys()
        invariant
            it.seq().unref() == all,
            keys@ == all.take(it.index()),
    {
        keys.push(*fd);
    }
    assert(keys@ == all);
    keys
}

/// Registrations that the selector has not seen yet: by descriptor, the waker
/// to call once the descriptor can be written to.
#[verifier::reject_recursive_types(W)]
pub struct NewWfds<W> {
    wakers: HashMap<i32, W>,
}

impl<W> View for NewWfds<W> {
    type V = Map<i32, W>;

    closed spec fn view(&self) -> Map<i32, W> {
        self.wakers@
    }
}

impl<W> NewWfds<W> {
    /// No registrations.
    pub fn new() -> (new_wfds: Self)
        ensures
            new_wfds@ == Map::<i32, W>::empty(),
    {
        NewWfds { wakers: HashMap::new() }
    }
}

/// The new registrations once `waker` was registered for `fd`.
pub open spec fn registered<W>(new_wfds: Map<i32, W>, fd: i32, waker: W) -> Map<i32, W> {
    new_wfds.insert(fd, waker)
}

/// A registration holds from then on, in place of an earlier one for the same
/// descriptor, and touches no other.
pub proof fn a_registration_touches_no_other<W>(
    new_wfds: Map<i32, W>,
    fd: i32,
    waker: W,
    other: i32,
)
    ensures
        registered(new_wfds, fd, waker).contains_key(fd),
        registered(new_wfds, fd, waker)[fd] == waker,
        other != fd ==> (registered(new_wfds, fd, waker).contains_key(other)
            <==> new_wfds.contains_key(other)),
        other != fd && new_wfds.contains_key(other) ==> registered(new_wfds, fd, waker)[other]
            == new_wfds[other],
{
}

/// Registers `waker` for `fd`, in place of an earlier one for `fd` that the
/// selector has not seen. The byte returned is to be written to the ping pipe
/// afterwards.
pub fn register_wfd<W>(new_wfds: &mut NewWfds<W>, fd: i32, waker: W) -> (ping: u8)
    ensures
        final(new_wfds)@ == registered(old(new_wfds)@, fd, waker),
        final(new_wfds)@ == old(new_wfds)@.insert(fd, waker),
        final(new_wfds)@.dom() == crate::bell::posted(old(new_wfds)@.dom(), fd),
        ping == PING,
{
    new_wfds.wakers.insert(fd, waker);
    PING
}

/// What the selector waits for: `read` to become readable or one of `write`
/// to become writable.
pub struct Watch {
    pub read: i32,
    pub write: Vec<i32>,
}

/// What is to be done after a wait: call each waker, and, if `drain` is set,
/// read from the ping pipe and report to `drain_fd`.
pub struct Selected<W> {
    pub wake: Vec<(i32, W)>,
    pub drain: bool,
}

/// What a read from the ping pipe came to.
pub enum ReadOutcome {
    /// That many bytes were read; none at the end of the stream.
    Bytes(usize),
    /// Nothing is there to be read right now.
    WouldBlock,
    /// The read failed with that error number.
    Failed(i32),
}

/// What to do after a read from the ping pipe.
pub enum DrainStep {
    /// Read again.
    Again,
    /// The pipe is drained: absorb the new registrations.
    Absorb,
    /// Panic with that error number.
    Fail(i32),
}

/// How draining goes on after a read.
pub open spec fn drain_step(outcome: ReadOutcome) -> DrainStep {
    match outcome {
        ReadOutcome::Bytes(n) => if n == 0 {
            DrainStep::Absorb
        } else {
            DrainStep::Again
        },
        ReadOutcome::WouldBlock => DrainStep::Absorb,
        ReadOutcome::Failed(errno) => DrainStep::Fail(errno),
    }
}

/// Where the selector stands in its loop.
pub enum SelectorPhase {
    /// Waiting for descriptors to become ready.
    Waiting,
    /// Draining the ping pipe.
    Draining,
    /// About to absorb the new registrations.
    Absorbing,
}

/// The mathematical state of a selector.
#[verifier::reject_recursive_types(W)]
pub struct SelectorState<W> {
    /// The descriptor of the reading end of the ping pipe.
    pub ping_rx: i32,
    /// The waker of each descriptor that is waited on.
    pub writers: Map<i32, W>,
    pub phase: SelectorPhase,
}

impl<W> SelectorState<W> {
    /// A selector that waits on its ping pipe alone.
    pub open spec fn init(ping_rx: i32) -> Self {
        SelectorState { ping_rx, writers: Map::empty(), phase: SelectorPhase::Waiting }
    }

    /// After a wait: the writable descriptors are forgotten, and the ping pipe
    /// is drained if it is readable.
    pub open spec fn selected(self, readable: Seq<i32>, writable: Seq<i32>) -> Self {
        SelectorState {
            writers: left(self.writers, writable),
            phase: if readable.contains(self.ping_rx) {
                SelectorPhase::Draining
            } else {
                SelectorPhase::Waiting
            },
            ..self
        }
    }

    /// After a read from the ping pipe.
    pub open spec fn read(self, outcome: ReadOutcome) -> Self {
        match drain_step(outcome) {
            DrainStep::Absorb => SelectorState { phase: SelectorPhase::Absorbing, ..self },
            _ => self,
        }
    }

    /// After new registrations came in.
    pub open spec fn absorb(self, new_wfds: Map<i32, W>) -> Self {
        SelectorState {
            writers: absorbed(self.writers, new_wfds),
            phase: SelectorPhase::Waiting,
            ..self
        }
    }
}

/// The ping pipe is drained next exactly when it is among the readable
/// descriptors, whatever else became ready; otherwise the selector waits on.
/// The descriptor of the ping pipe stays the same.
pub proof fn the_pipe_is_drained_exactly_if_readable<W>(
    selector: SelectorState<W>,
    readable: Seq<i32>,
    writable: Seq<i32>,
)
    ensures
        selector.selected(readable, writable).phase is Draining <==> readable.contains(
            selector.ping_rx,
        ),
        selector.selected(readable, writable).phase is Waiting <==> !readable.contains(
            selector.ping_rx,
        ),
        selector.selected(readable, writable).ping_rx == selector.ping_rx,
{
}

/// A wait tells the writers apart by their own descriptor alone: one whose
/// descriptor is writable is woken and forgotten, any other one is kept with
/// its waker and not woken. No descriptor comes in.
pub proof fn a_wait_concerns_the_writable_alone<W>(
    selector: SelectorState<W>,
    readable: Seq<i32>,
    writable: Seq<i32>,
    fd: i32,
)
    ensures
        ({
            let after = selector.selected(readable, writable).writers;
            let wake = woken(selector.writers, writable);
            &&& after.contains_key(fd) <==> selector.writers.contains_key(fd)
                && !writable.contains(fd)
            &&& after.contains_key(fd) ==> after[fd] == selector.writers[fd]
            &&& wake.contains_key(fd) <==> selector.writers.contains_key(fd) && writable.contains(
                fd,
            )
            &&& wake.contains_key(fd) ==> wake[fd] == selector.writers[fd]
        }),
{
}

/// Two waits one after the other leave the writers that one wait with the
/// descriptors of both would leave.
pub proof fn waits_add_up<W>(
    selector: SelectorState<W>,
    readable: Seq<i32>,
    first: Seq<i32>,
    second: Seq<i32>,
)
    ensures
        selector.selected(readable, first).selected(readable, second).writers == selector.selected(
            readable,
            first + second,
        ).writers,
{
    assert forall|fd: i32| (first + second).contains(fd) <==> first.contains(fd)
        || second.contains(fd) by {
        if first.contains(fd) {
            assert((first + second)[first.index_of(fd)] == fd);
        }
        if second.contains(fd) {
            assert((first + second)[first.len() + second.index_of(fd)] == fd);
        }
    }
    assert(selector.selected(readable, first).selected(readable, second).writers
        =~= selector.selected(readable, first + second).writers);
}

/// A wait in which nothing became ready changes nothing.
pub proof fn an_idle_wait_changes_nothing<W>(selector: SelectorState<W>)
    requires
        selector.phase is Waiting,
    ensures
        selector.selected(Seq::empty(), Seq::empty()) == selector,
{
    assert(selector.selected(Seq::empty(), Seq::empty()).writers =~= selector.writers);
}

/// A read from the ping pipe changes no registration. Draining goes on while
/// bytes come, ends once none came, and fails with the error of the read.
pub proof fn a_read_changes_no_registration<W>(selector: SelectorState<W>, outcome: ReadOutcome)
    requires
        selector.phase is Draining,
    ensures
        selector.read(outcome).ping_rx == selector.ping_rx,
        selector.read(outcome).writers == selector.writers,
        selector.read(outcome).phase is Absorbing <==> outcome is WouldBlock || outcome
            == ReadOutcome::Bytes(0),
        selector.read(outcome).phase is Draining <==> outcome is Failed || (
        outcome matches ReadOutcome::Bytes(n) && n > 0),
        drain_step(outcome) is Absorb <==> selector.read(outcome).phase is Absorbing,
        drain_step(outcome) is Again <==> (outcome matches ReadOutcome::Bytes(n) && n > 0),
        outcome matches ReadOutcome::Failed(errno) ==> drain_step(outcome) == DrainStep::Fail(
            errno,
        ),
{
}

/// Absorbing takes in every new registration with its waker and keeps every
/// old one whose descriptor was not registered anew. The selector then waits
/// again, on the same ping pipe.
pub proof fn absorbing_takes_all_and_loses_none<W>(
    selector: SelectorState<W>,
    new_wfds: Map<i32, W>,
    fd: i32,
)
    ensures
        ({
            let after = selector.absorb(new_wfds);
            &&& after.ping_rx == selector.ping_rx
            &&& after.phase is Waiting
            &&& after.writers.contains_key(fd) <==> selector.writers.contains_key(fd)
                || new_wfds.contains_key(fd)
            &&& new_wfds.contains_key(fd) ==> after.writers[fd] == new_wfds[fd]
            &&& selector.writers.contains_key(fd) && !new_wfds.contains_key(fd)
                ==> after.writers[fd] == selector.writers[fd]
        }),
{
}

/// The registrations that the selector waits on, and its place in the loop.
#[verifier::reject_recursive_types(W)]
pub struct Selector<W> {
    ping_rx: i32,
    writers: HashMap<i32, W>,
    phase: SelectorPhase,
}

impl<W> View for Selector<W> {
    type V = SelectorState<W>;

    closed spec fn view(&self) -> SelectorState<W> {
        SelectorState { ping_rx: self.ping_rx, writers: self.writers@, phase: self.phase }
    }
}

impl<W> Selector<W> {
    /// A selector that waits on its ping pipe alone.
    pub fn new(ping_rx: i32) -> (selector: Self)
        ensures
            selector@ == SelectorState::<W>::init(ping_rx),
            selector@.ping_rx == ping_rx,
            selector@.writers == Map::<i32, W>::empty(),
            selector@.phase is Waiting,
    {
        Selector { ping_rx, writers: HashMap::new(), phase: SelectorPhase::Waiting }
    }

    /// What to wait for: the ping pipe and every registered descriptor.
    pub fn watch(&self) -> (watch: Watch)
        ensures
            watch.read == self@.ping_rx,
            watch.write@.no_duplicates(),
            watch.write@.to_set() == self@.writers.dom(),
    {
        Watch { read: self.ping_rx, write: keys_of(&self.writers) }
    }

    /// Takes the descriptors that became ready. The wakers of writable
    /// descriptors are handed out and forgotten, the others are kept.
    pub fn selected(&mut self, readable: &Vec<i32>, writable: &Vec<i32>) -> (selected: Selected<W>)
        requires
            old(self)@.phase is Waiting,
        ensures
            final(self)@ == old(self)@.selected(readable@, writable@),
            lists(selected.wake@, woken(old(self)@.writers, writable@)),
            selected.drain == (final(self)@.phase is Draining),
            selected.drain == readable@.contains(old(self)@.ping_rx),
            final(self)@.ping_rx == old(self)@.ping_rx,
            forall|i: int|
                0 <= i < selected.wake@.len() ==> writable@.contains(
                    (#[trigger] selected.wake@[i]).0,
                ) && old(self)@.writers.contains_key(selected.wake@[i].0)
                    && old(self)@.writers[selected.wake@[i].0] == selected.wake@[i].1,
            forall|i: int, j: int|
                0 <= i < j < selected.wake@.len() ==> (#[trigger] selected.wake@[i]).0 != (
                #[trigger] selected.wake@[j]).0,
            forall|fd: i32| #[trigger]
                old(self)@.writers.contains_key(fd) && writable@.contains(fd) ==> exists|i: int|
                    0 <= i < selected.wake@.len() && (#[trigger] selected.wake@[i]).0 == fd,
            forall|fd: i32| #[trigger]
                final(self)@.writers.contains_key(fd) <==> old(self)@.writers.contains_key(fd)
                    && !writable@.contains(fd),
            forall|fd: i32| #[trigger]
                final(self)@.writers.contains_key(fd) ==> final(self)@.writers[fd] == old(
                    self,
                )@.writers[fd],
    {
        let mut wake: Vec<(i32, W)> = Vec::new();
        let ghost before = self.writers@;
        assert(left(before, writable@.take(0)) =~= before);
        for i in 0..writable.len()
            invariant
                self.ping_rx == old(self).ping_rx,
                self.phase == old(self).phase,
                self.writers@ == left(before, writable@.take(i as int)),
                lists(wake@, woken(before, writable@.take(i as int))),
        {
            let fd: i32 = writable[i];
            let ghost done = writable@.take(i as int);
            let ghost now = writable@.take(i + 1);
            let ghost wake_before = wake@;
            assert(now =~= done.push(fd));
            assert(now.to_set() =~= done.to_set().insert(fd)) by {
                broadcast use vstd::seq_lib::group_seq_properties;
            }
            match self.writers.remove(&fd) {
                Some(waker) => {
                    wake.push((fd, waker));
                    proof {
                        assert forall|k: i32| #[trigger]
                            woken(before, now).contains_key(k) implies exists|j: int|
                            0 <= j < wake@.len() && (#[trigger] wake@[j]).0 == k by {
                            if k == fd {
                                assert(wake@[wake_before.len() as int].0 == k);
                            } else {
                                assert(woken(before, done).contains_key(k));
                                let j = choose|j: int|
                                    0 <= j < wake_before.len() && (#[trigger] wake_before[j]).0
                                        == k;
                                assert(wake@[j].0 == k);
                            }
                        }
                    }
                },
                None => {
                    assert(woken(before, now) =~= woken(before, done));
                },
            }
            assert(self.writers@ =~= left(before, now));
        }
        assert(writable@.take(writable@.len() as int) =~= writable@);
        let mut drain: bool = false;
        for i in 0..readable.len()
            invariant
                self.ping_rx == old(self).ping_rx,
                self.phase == old(self).phase,
                self.writers@ == left(before, writable@),
                drain == readable@.take(i as int).contains(self.ping_rx),
        {
            assert(readable@.take(i + 1) =~= readable@.take(i as int).push(readable@[i as int]));
            if readable[i] == self.ping_rx {
                assert(readable@.take(i + 1)[i as int] == self.ping_rx);
                drain = true;
            }
        }
        assert(readable@.take(readable@.len() as int) =~= readable@);
        if drain {
            self.phase = SelectorPhase::Draining;
        }
        let selected = Selected { wake, drain };
        proof {
            assert forall|fd: i32| #[trigger]
                old(self)@.writers.contains_key(fd) && writable@.contains(
                fd,
            ) implies exists|i: int|
                0 <= i < selected.wake@.len() && (#[trigger] selected.wake@[i]).0 == fd by {
                let all = woken(before, writable@);
                assert(lists(selected.wake@, all));
                assert(all.contains_key(fd));
                let i = choose|i: int|
                    0 <= i < selected.wake@.len() && (#[trigger] selected.wake@[i]).0 == fd;
                assert(selected.wake@[i].0 == fd);
            }
        }
        selected
    }

    /// Takes the outcome of a read from the ping pipe and tells how to go on.
    pub fn drain_fd(&mut self, outcome: ReadOutcome) -> (step: DrainStep)
        requires
            old(self)@.phase is Draining,
        ensures
            final(self)@ == old(self)@.read(outcome),
            step == drain_step(outcome),
            final(self)@.ping_rx == old(self)@.ping_rx,
            final(self)@.writers == old(self)@.writers,
            step is Absorb <==> outcome is WouldBlock || outcome == ReadOutcome::Bytes(0),
            step is Fail <==> outcome is Failed,
            outcome matches ReadOutcome::Failed(errno) ==> step == DrainStep::Fail(errno),
            final(self)@.phase is Absorbing <==> step is Absorb,
            final(self)@.phase is Draining <==> !(step is Absorb),
    {
        match outcome {
            ReadOutcome::Bytes(0) => {
                self.phase = SelectorPhase::Absorbing;
                DrainStep::Absorb
            },
            ReadOutcome::Bytes(_) => DrainStep::Again,
            ReadOutcome::WouldBlock => {
                self.phase = SelectorPhase::Absorbing;
                DrainStep::Absorb
            },
            ReadOutcome::Failed(errno) => DrainStep::Fail(errno),
        }
    }

    /// Takes over every new registration, once the ping pipe is drained, and
    /// leaves none behind.
    pub fn absorb(&mut self, new_wfds: &mut NewWfds<W>)
        requires
            old(self)@.phase is Absorbing,
        ensures
            final(self)@ == old(self)@.absorb(old(new_wfds)@),
            final(new_wfds)@ == Map::<i32, W>::empty(),
            final(new_wfds)@.dom() == crate::bell::collected::<i32>(),
            final(self)@.ping_rx == old(self)@.ping_rx,
            final(self)@.phase is Waiting,
            forall|fd: i32| #[trigger]
                final(self)@.writers.contains_key(fd) <==> old(self)@.writers.contains_key(fd)
                    || old(new_wfds)@.contains_key(fd),
            forall|fd: i32| #[trigger]
                old(new_wfds)@.contains_key(fd) ==> final(self)@.writers[fd] == old(
                    new_wfds,
                )@[fd],
            forall|fd: i32| #[trigger]
                old(self)@.writers.contains_key(fd) && !old(new_wfds)@.contains_key(fd)
                    ==> final(self)@.writers[fd] == old(self)@.writers[fd],
    {
        let fds = keys_of(&new_wfds.wakers);
        let ghost before = self.writers@;
        let ghost new = new_wfds.wakers@;
        assert(absorbed(before, new.restrict(fds@.take(0).to_set())) =~= before);
        assert(new.remove_keys(fds@.take(0).to_set()) =~= new);
        for i in 0..fds.len()
            invariant
                self.ping_rx == old(self).ping_rx,
                fds@.no_duplicates(),
                fds@.to_set() == new.dom(),
                self.writers@ == absorbed(before, new.restrict(fds@.take(i as int).to_set())),
                new_wfds.wakers@ == new.remove_keys(fds@.take(i as int).to_set()),
        {
            let fd: i32 = fds[i];
            let ghost done = fds@.take(i as int);
            let ghost now = fds@.take(i + 1);
            assert(now =~= done.push(fd));
            assert(now.to_set() =~= done.to_set().insert(fd)) by {
                broadcast use vstd::seq_lib::group_seq_properties;
            }
            assert(fds@.to_set().contains(fd)) by {
                assert(fds@.contains(fds@[i as int]));
            }
            assert(!done.contains(fd));
            let waker = new_wfds.wakers.remove(&fd).unwrap();
            self.writers.insert(fd, waker);
            assert(self.writers@ =~= absorbed(before, new.restrict(now.to_set())));
            assert(new_wfds.wakers@ =~= new.remove_keys(now.to_set()));
        }
        assert(fds@.take(fds@.len() as int) =~= fds@);
        assert(self.writers@ =~= absorbed(before, new));
        assert(new_wfds.wakers@ =~= Map::empty());
        assert(new_wfds.wakers@.dom() =~= Set::empty());
        self.phase = SelectorPhase::Waiting;
    }
}

/// What a read of up to `DRAIN_BUF` bytes from a non-blocking pipe that holds
/// `held` bytes comes to.
pub open spec fn pipe_read(held: nat) -> ReadOutcome {
    if held == 0 {
        ReadOutcome::WouldBlock
    } else if held < DRAIN_BUF {
        ReadOutcome::Bytes(held as usize)
    } else {
        ReadOutcome::Bytes(DRAIN_BUF)
    }
}

/// How many bytes a non-blocking pipe still holds once draining it stops.
pub open spec fn drained(held: nat) -> nat
    decreases held,
{
    let outcome = pipe_read(held);
    match (drain_step(outcome), outcome) {
        (DrainStep::Again, ReadOutcome::Bytes(n)) => if 0 < n <= held {
            drained((held - n) as nat)
        } else {
            held
        },
        _ => held,
    }
}

/// Draining a non-blocking pipe leaves it empty, however many bytes it held.
pub proof fn draining_empties_the_pipe(held: nat)
    ensures
        drained(held) == 0,
    decreases held,
{
    if held > 0 {
        if held < DRAIN_BUF {
            draining_empties_the_pipe(0);
        } else {
            draining_empties_the_pipe((held - DRAIN_BUF) as nat);
        }
    }
}

/// A registration is honoured: once it is absorbed, its waker is the one that
/// is handed out when the descriptor becomes writable, and only then.
pub proof fn a_registration_is_woken_when_writable<W>(
    writers: Map<i32, W>,
    new_wfds: Map<i32, W>,
    fd: i32,
    waker: W,
    writable: Seq<i32>,
)
    ensures
        ({
            let now = absorbed(writers, new_wfds.insert(fd, waker));
            &&& now.contains_key(fd) && now[fd] == waker
            &&& writable.contains(fd) ==> woken(now, writable).contains_key(fd) && woken(
                now,
                writable,
            )[fd] == waker
            &&& !writable.contains(fd) ==> !woken(now, writable).contains_key(fd) && left(
                now,
                writable,
            ).contains_key(fd) && left(now, writable)[fd] == waker
        }),
{
}

/// A wait splits the writers: each is either woken or left, and a woken one is
/// not woken again without a new registration.
pub proof fn a_writer_is_woken_or_left<W>(
    writers: Map<i32, W>,
    writable: Seq<i32>,
    later: Seq<i32>,
)
    ensures
        woken(writers, writable).union_prefer_right(left(writers, writable)) == writers,
        woken(writers, writable).dom().disjoint(left(writers, writable).dom()),
        woken(left(writers, writable), later).dom().disjoint(woken(writers, writable).dom()),
{
    assert(woken(writers, writable).union_prefer_right(left(writers, writable)) =~= writers);
}

} // verus!
