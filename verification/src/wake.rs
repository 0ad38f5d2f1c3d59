//! The set of tasks that were woken since the executor last looked.

use std::collections::HashSet;

use vstd::prelude::*;

verus! {

broadcast use vstd::std_specs::hash::group_hash_axioms;

/// Ids of woken tasks. Wakers add to it from any thread.
pub struct WakeSet {
    task_ids: HashSet<usize>,
}

impl View for WakeSet {
    type V = Set<usize>;

    closed spec fn view(&self) -> Set<usize> {
        self.task_ids@
    }
}

impl WakeSet {
    /// No task is woken.
    pub fn new() -> (set: Self)
        ensures
            set@ == Set::<usize>::empty(),
    {
        WakeSet { task_ids: HashSet::new() }
    }

    /// Records that the task `task_id` is to be polled. The waker unparks the
    /// executor's thread afterwards.
    pub fn wake(&mut self, task_id: usize)
        ensures
            final(self)@ == crate::bell::posted(old(self)@, task_id),
            final(self)@ == old(self)@.insert(task_id),
    {
        self.task_ids.insert(task_id);
    }

    /// Takes every recorded id, each once, in no particular order.
    pub fn drain(&mut self) -> (ids: Vec<usize>)
        ensures
            ids@.no_duplicates(),
            ids@.to_set() == old(self)@,
            final(self)@ == crate::bell::collected::<usize>(),
            final(self)@ == Set::<usize>::empty(),
    {
        let mut ids: Vec<usize> = Vec::new();
        let ghost all = vstd::std_specs::iter::IteratorSpec::remaining(
            &vstd::std_specs::hash::spec_hash_keys_iter(&self.task_ids),
        ).unref();
        for id in it: self.task_ids.iter()
            invariant
                it.seq().unref() == all,
                ids@ == all.take(it.index()),
        {
            ids.push(*id);
        }
        assert(ids@ == all);
        self.task_ids.clear();
        ids
    }
}

/// Waking a task adds that task and changes nothing else; taking the wake set
/// leaves no task in it.
pub proof fn waking_adds_the_task_alone(woken: Set<usize>, a: usize, b: usize)
    ensures
        crate::bell::posted(woken, a).contains(b) <==> a == b || woken.contains(b),
        !crate::bell::collected::<usize>().contains(a),
{
}

/// Waking a task that is already woken changes nothing, and the order in which
/// two tasks are woken does not matter.
pub proof fn waking_is_idempotent_and_unordered(woken: Set<usize>, a: usize, b: usize)
    ensures
        woken.contains(a) ==> crate::bell::posted(woken, a) == woken,
        crate::bell::posted(crate::bell::posted(woken, a), b) == crate::bell::posted(
            crate::bell::posted(woken, b),
            a,
        ),
{
    assert(woken.contains(a) ==> woken.insert(a) =~= woken);
    assert(woken.insert(a).insert(b) =~= woken.insert(b).insert(a));
}

} // verus!
