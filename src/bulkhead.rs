use vstd::prelude::*;

verus! {

/// Caps how many work units run at once: a caller takes one of
/// `max_concurrent_tasks` permits before its work runs and gives it back after.
pub struct Bulkhead {
    pub max_concurrent_tasks: usize,
    pub in_use: usize,
}

impl Bulkhead {
    /// No more permits are out than there are.
    pub open spec fn wf(self) -> bool {
        &&& self.max_concurrent_tasks >= 1
        &&& self.in_use <= self.max_concurrent_tasks
    }

    /// A bulkhead with every permit free; `None` for a capacity of zero,
    /// which would leave every caller waiting forever.
    pub fn new(max_concurrent_tasks: usize) -> (b: Option<Bulkhead>)
        ensures
            b is None <==> max_concurrent_tasks == 0,
            b is Some ==> b->Some_0.wf() && b->Some_0.max_concurrent_tasks == max_concurrent_tasks
                && b->Some_0.in_use == 0,
    {
        if max_concurrent_tasks == 0 {
            None
        } else {
            Some(Bulkhead { max_concurrent_tasks, in_use: 0 })
        }
    }

    /// The number of free permits.
    pub fn available(&self) -> (n: usize)
        requires
            self.wf(),
        ensures
            n == self.max_concurrent_tasks - self.in_use,
    {
        self.max_concurrent_tasks - self.in_use
    }

    /// Takes a permit if one is free.
    pub fn try_acquire(&mut self) -> (granted: bool)
        requires
            old(self).wf(),
        ensures
            final(self).wf(),
            granted == (old(self).in_use < old(self).max_concurrent_tasks),
            final(self).max_concurrent_tasks == old(self).max_concurrent_tasks,
            final(self).in_use == old(self).in_use + if granted {
                1int
            } else {
                0int
            },
    {
        if self.in_use < self.max_concurrent_tasks {
            self.in_use = self.in_use + 1;
            true
        } else {
            false
        }
    }

    /// Gives back a permit that was taken.
    pub fn release(&mut self)
        requires
            old(self).wf(),
            old(self).in_use > 0,
        ensures
            final(self).wf(),
            final(self).max_concurrent_tasks == old(self).max_concurrent_tasks,
            final(self).in_use == old(self).in_use - 1,
    {
        self.in_use = self.in_use - 1;
    }

    /// Runs `func` under a permit if one is free and gives the permit back
    /// afterwards, whatever the outcome; returns `None` without running
    /// `func` when every permit is taken.
    pub fn call<T, E, F: FnOnce() -> Result<T, E>>(&mut self, func: F) -> (r: Option<Result<T, E>>)
        requires
            old(self).wf(),
            func.requires(()),
        ensures
            *final(self) == *old(self),
            r is Some == (old(self).in_use < old(self).max_concurrent_tasks),
            r is Some ==> func.ensures((), r->Some_0),
    {
        if self.try_acquire() {
            let result = func();
            self.release();
            Some(result)
        } else {
            None
        }
    }
}

/// The permits out after each event: a permit taken (`true`) or one
/// given back (`false`), applied in order to a bulkhead.
pub open spec fn in_use_after(b: Bulkhead, events: Seq<bool>) -> int
    decreases events.len(),
{
    if events.len() == 0 {
        b.in_use as int
    } else {
        let before = in_use_after(b, events.drop_last());
        if events.last() {
            if before < b.max_concurrent_tasks {
                before + 1
            } else {
                before
            }
        } else {
            before - 1
        }
    }
}

/// The concurrency bound: whatever the order in which callers ask for and
/// give back permits (a permit is given back only by one who holds it),
/// the number out never exceeds the capacity.
pub proof fn lemma_permits_bounded(b: Bulkhead, events: Seq<bool>)
    requires
        b.wf(),
        forall|i: int| 0 <= i < events.len() && !events[i] ==> in_use_after(b, #[trigger] events.take(i)) > 0,
    ensures
        0 <= in_use_after(b, events) <= b.max_concurrent_tasks,
    decreases events.len(),
{
    if events.len() > 0 {
        let prefix = events.drop_last();
        assert forall|i: int| 0 <= i < prefix.len() && !prefix[i] implies in_use_after(b, #[trigger] prefix.take(i)) > 0 by {
            assert(prefix.take(i) == events.take(i));
            assert(prefix[i] == events[i]);
        }
        lemma_permits_bounded(b, prefix);
        assert(events.take(events.len() - 1) == prefix);
    }
}

} // verus!
