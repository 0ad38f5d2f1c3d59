//! The queue of futures that were spawned and not yet taken by an executor.

use vstd::prelude::*;

verus! {

/// Futures in the order in which they were spawned.
pub struct NewTasks<F> {
    futs: Vec<F>,
}

impl<F> View for NewTasks<F> {
    type V = Seq<F>;

    closed spec fn view(&self) -> Seq<F> {
        self.futs@
    }
}

impl<F> NewTasks<F> {
    /// An empty queue.
    pub fn new() -> (new_tasks: Self)
        ensures
            new_tasks@ == Seq::<F>::empty(),
    {
        NewTasks { futs: Vec::new() }
    }

    /// Takes every queued future, oldest first, and leaves the queue empty.
    pub fn drain(&mut self) -> (futs: Vec<F>)
        ensures
            futs@ == old(self)@,
            final(self)@ == Seq::<F>::empty(),
    {
        let mut futs: Vec<F> = Vec::new();
        std::mem::swap(&mut futs, &mut self.futs);
        futs
    }
}

/// Queues `fut` behind the futures that are already waiting to be started.
pub fn spawn<F>(new_tasks: &mut NewTasks<F>, fut: F)
    ensures
        final(new_tasks)@ == old(new_tasks)@.push(fut),
        final(new_tasks)@ == after_spawns(old(new_tasks)@, seq![fut]),
{
    new_tasks.futs.push(fut);
    proof {
        spawning_keeps_order(old(new_tasks)@, seq![fut]);
    }
}

/// The queue after each of `futs` was spawned in turn.
pub open spec fn after_spawns<F>(queue: Seq<F>, futs: Seq<F>) -> Seq<F>
    decreases futs.len(),
{
    if futs.len() == 0 {
        queue
    } else {
        after_spawns(queue, futs.drop_last()).push(futs.last())
    }
}

/// Futures are queued in the order in which they are spawned, and none is
/// dropped or doubled.
pub proof fn spawning_keeps_order<F>(queue: Seq<F>, futs: Seq<F>)
    ensures
        after_spawns(queue, futs) == queue + futs,
    decreases futs.len(),
{
    if futs.len() == 0 {
        assert(queue + futs =~= queue);
    } else {
        spawning_keeps_order(queue, futs.drop_last());
        assert((queue + futs.drop_last()).push(futs.last()) =~= queue + futs);
    }
}

} // verus!
