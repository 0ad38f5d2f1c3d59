//! The selector with its ping pipe and the tasks that register with it, step
//! by step in any interleaving. Nothing here is executable: the selector's
//! steps are those of `selector::Selector`, whose contracts speak of the same
//! state, and what is proved of them holds of every run.

use vstd::prelude::*;

use crate::bell::Mailbox;
use crate::selector::{ReadOutcome, SelectorState};

verus! {

/// The selector's and the tasks' shared state.
#[verifier::reject_recursive_types(W)]
pub struct Reactor<W> {
    pub selector: SelectorState<W>,
    /// Registrations that the selector has not seen.
    pub new_wfds: Map<i32, W>,
    /// How many bytes the ping pipe holds.
    pub pipe: nat,
    /// How many tasks have registered and are yet to write their ping.
    pub pinging: nat,
}

/// The steps of the selector and of the tasks.
pub enum ReactorEvent<W> {
    /// A task registers.
    Register(i32, W),
    /// A task that has registered writes its ping.
    Ping,
    /// A wait ends with these descriptors readable and those writable.
    Select(Seq<i32>, Seq<i32>),
    /// The selector reads from the ping pipe.
    Read,
    /// The selector absorbs the new registrations.
    Absorb,
}

impl<W> Reactor<W> {
    /// The state before anything happens.
    pub open spec fn init(ping_rx: i32) -> Self {
        Reactor {
            selector: SelectorState::init(ping_rx),
            new_wfds: Map::empty(),
            pipe: 0,
            pinging: 0,
        }
    }

    /// The selector does what its phase asks for, and the ping pipe is readable
    /// only while it holds a byte.
    pub open spec fn enabled(self, event: ReactorEvent<W>) -> bool {
        match event {
            ReactorEvent::Register(_, _) => true,
            ReactorEvent::Ping => self.pinging > 0,
            ReactorEvent::Select(readable, _) => self.selector.phase is Waiting && (
            readable.contains(self.selector.ping_rx) ==> self.pipe > 0),
            ReactorEvent::Read => self.selector.phase is Draining,
            ReactorEvent::Absorb => self.selector.phase is Absorbing,
        }
    }

    /// The state after an event.
    pub open spec fn step(self, event: ReactorEvent<W>) -> Self {
        match event {
            ReactorEvent::Register(fd, waker) => Reactor {
                new_wfds: crate::selector::registered(self.new_wfds, fd, waker),
                pinging: self.pinging + 1,
                ..self
            },
            ReactorEvent::Ping => Reactor {
                pipe: self.pipe + 1,
                pinging: (self.pinging - 1) as nat,
                ..self
            },
            ReactorEvent::Select(readable, writable) => Reactor {
                selector: self.selector.selected(readable, writable),
                ..self
            },
            ReactorEvent::Read => {
                let outcome = crate::selector::pipe_read(self.pipe);
                Reactor {
                    selector: self.selector.read(outcome),
                    pipe: match outcome {
                        ReadOutcome::Bytes(n) => (self.pipe - n) as nat,
                        _ => self.pipe,
                    },
                    ..self
                }
            },
            ReactorEvent::Absorb => Reactor {
                selector: self.selector.absorb(self.new_wfds),
                new_wfds: Map::empty(),
                ..self
            },
        }
    }

    /// The state after a history of events.
    pub open spec fn run(self, events: Seq<ReactorEvent<W>>) -> Self
        decreases events.len(),
    {
        if events.len() == 0 {
            self
        } else {
            self.run(events.drop_last()).step(events.last())
        }
    }

    /// Whether each event of a history was enabled when it came.
    pub open spec fn admits(self, events: Seq<ReactorEvent<W>>) -> bool
        decreases events.len(),
    {
        events.len() > 0 ==> self.admits(events.drop_last()) && self.run(
            events.drop_last(),
        ).enabled(events.last())
    }

    /// The registrations as a mailbox whose bell is the ping pipe.
    pub open spec fn mailbox(self) -> Mailbox<i32> {
        Mailbox {
            mail: self.new_wfds.dom(),
            rung: self.pipe > 0,
            ringing: self.pinging,
            awake: !(self.selector.phase is Waiting),
        }
    }

    /// Whether the selector holds `waker` for `fd`, absorbed or not.
    pub open spec fn holds(self, fd: i32, waker: W) -> bool {
        if self.new_wfds.contains_key(fd) {
            self.new_wfds[fd] == waker
        } else {
            self.selector.writers.contains_key(fd) && self.selector.writers[fd] == waker
        }
    }

    /// The selector never goes on waiting over a registration that it has not
    /// seen: the ping pipe is readable or about to become so.
    pub proof fn no_registration_is_overlooked(ping_rx: i32, events: Seq<ReactorEvent<W>>)
        requires
            Self::init(ping_rx).admits(events),
        ensures
            Self::init(ping_rx).run(events).mailbox().attended(),
        decreases events.len(),
    {
        let after = Self::init(ping_rx).run(events);
        if events.len() > 0 {
            Self::no_registration_is_overlooked(ping_rx, events.drop_last());
            if events.last() is Absorb {
                assert(after.new_wfds.dom() =~= Set::empty());
            }
        } else {
            assert(after.new_wfds.dom() =~= Set::empty());
        }
    }

    /// A waker stays registered until its descriptor becomes writable or the
    /// descriptor is registered anew.
    pub proof fn a_waker_is_held_until_its_turn(
        self,
        events: Seq<ReactorEvent<W>>,
        fd: i32,
        waker: W,
    )
        requires
            self.holds(fd, waker),
            forall|i: int|
                0 <= i < events.len() ==> match #[trigger] events[i] {
                    ReactorEvent::Register(other, _) => other != fd,
                    ReactorEvent::Select(_, writable) => !writable.contains(fd),
                    _ => true,
                },
        ensures
            self.run(events).holds(fd, waker),
        decreases events.len(),
    {
        if events.len() > 0 {
            let before = events.drop_last();
            assert forall|i: int| 0 <= i < before.len() implies match #[trigger] before[i] {
                ReactorEvent::Register(other, _) => other != fd,
                ReactorEvent::Select(_, writable) => !writable.contains(fd),
                _ => true,
            } by {
                assert(before[i] == events[i]);
            }
            self.a_waker_is_held_until_its_turn(before, fd, waker);
            assert(events[events.len() - 1] == events.last());
        }
    }

    /// In every run the selector's ping pipe stays the one that it was made
    /// with.
    pub proof fn the_ping_pipe_stays_the_same(ping_rx: i32, events: Seq<ReactorEvent<W>>)
        requires
            Self::init(ping_rx).admits(events),
        ensures
            Self::init(ping_rx).run(events).selector.ping_rx == ping_rx,
        decreases events.len(),
    {
        if events.len() > 0 {
            Self::the_ping_pipe_stays_the_same(ping_rx, events.drop_last());
        }
    }

    /// A registration that is there when a wait finds the ping pipe readable is
    /// absorbed in that same turn: however the steps of others fall in between,
    /// by the time the selector waits again it waits on that descriptor, with
    /// the waker that was registered.
    pub proof fn a_registration_is_absorbed_in_its_turn(
        self,
        readable: Seq<i32>,
        writable: Seq<i32>,
        later: Seq<ReactorEvent<W>>,
        fd: i32,
    )
        requires
            self.enabled(ReactorEvent::Select(readable, writable)),
            readable.contains(self.selector.ping_rx),
            self.new_wfds.contains_key(fd),
            self.step(ReactorEvent::Select(readable, writable)).admits(later),
            forall|i: int|
                0 <= i < later.len() ==> match #[trigger] later[i] {
                    ReactorEvent::Register(other, _) => other != fd,
                    ReactorEvent::Select(_, _) => false,
                    _ => true,
                },
        ensures
            ({
                let after = self.step(ReactorEvent::Select(readable, writable)).run(later);
                if after.selector.phase is Waiting {
                    &&& after.selector.writers.contains_key(fd)
                    &&& after.selector.writers[fd] == self.new_wfds[fd]
                    &&& exists|i: int| 0 <= i < later.len() && #[trigger] later[i] is Absorb
                } else {
                    &&& after.new_wfds.contains_key(fd)
                    &&& after.new_wfds[fd] == self.new_wfds[fd]
                }
            }),
        decreases later.len(),
    {
        if later.len() > 0 {
            let before = later.drop_last();
            assert forall|i: int| 0 <= i < before.len() implies match #[trigger] before[i] {
                ReactorEvent::Register(other, _) => other != fd,
                ReactorEvent::Select(_, _) => false,
                _ => true,
            } by {
                assert(before[i] == later[i]);
            }
            self.a_registration_is_absorbed_in_its_turn(readable, writable, before, fd);
            assert(later[later.len() - 1] == later.last());
            let prev = self.step(ReactorEvent::Select(readable, writable)).run(before);
            if prev.selector.phase is Waiting {
                let i = choose|i: int| 0 <= i < before.len() && #[trigger] before[i] is Absorb;
                assert(later[i] is Absorb);
            }
        }
    }

    /// A turn that drains the ping pipe comes to its end: after `reads` reads
    /// the pipe is empty and the new registrations are absorbed, none of which
    /// got lost meanwhile.
    pub proof fn a_drain_comes_to_its_end(self) -> (reads: nat)
        requires
            self.selector.phase is Draining,
        ensures
            reads > 0,
            self.admits(Seq::new(reads, |i: int| ReactorEvent::Read)),
            self.run(Seq::new(reads, |i: int| ReactorEvent::Read)).selector.phase is Absorbing,
            self.run(Seq::new(reads, |i: int| ReactorEvent::Read)).pipe == 0,
            self.run(Seq::new(reads, |i: int| ReactorEvent::Read)).new_wfds == self.new_wfds,
            self.run(Seq::new(reads, |i: int| ReactorEvent::Read)).selector.writers
                == self.selector.writers,
        decreases self.pipe,
    {
        let once = seq![ReactorEvent::<W>::Read];
        let next = self.step(ReactorEvent::Read);
        assert(once.drop_last() =~= Seq::empty());
        assert(self.run(once.drop_last()) == self);
        assert(self.run(once) == next);
        assert(self.admits(once.drop_last()));
        assert(self.admits(once));
        if self.pipe == 0 {
            assert(Seq::new(1, |i: int| ReactorEvent::<W>::Read) =~= once);
            1
        } else {
            let rest = next.a_drain_comes_to_its_end();
            let later = Seq::new(rest, |i: int| ReactorEvent::<W>::Read);
            self.a_run_goes_on(once, later);
            assert(Seq::new(rest + 1, |i: int| ReactorEvent::<W>::Read) =~= once + later);
            rest + 1
        }
    }

    proof fn a_run_goes_on(self, first: Seq<ReactorEvent<W>>, later: Seq<ReactorEvent<W>>)
        ensures
            self.run(first + later) == self.run(first).run(later),
            self.admits(first) && self.run(first).admits(later) ==> self.admits(first + later),
        decreases later.len(),
    {
        if later.len() == 0 {
            assert(first + later =~= first);
        } else {
            self.a_run_goes_on(first, later.drop_last());
            assert((first + later).drop_last() =~= first + later.drop_last());
        }
    }

    /// The selector absorbs only after a read found the ping pipe empty.
    pub proof fn absorbing_follows_an_empty_read(self)
        requires
            self.enabled(ReactorEvent::Read),
        ensures
            self.step(ReactorEvent::Read).selector.phase is Absorbing <==> self.pipe == 0,
            self.pipe > 0 ==> self.step(ReactorEvent::Read).pipe < self.pipe,
    {
    }
}

} // verus!
