use vstd::prelude::*;

use crate::error::{lift, lift_result, PolicyError};

verus! {

/// Bounds how long a caller waits for one work unit: `max_duration`
/// milliseconds.
///
/// Giving up means that the caller stops waiting; the work unit itself is
/// not stopped and may run on to completion after the caller was told that
/// it timed out.
pub struct Timeout {
    pub max_duration: u64,
}

/// The same guard under its other name.
pub type TimeLimiter = Timeout;

/// The outcome of a guarded call: the work's own result when it completed
/// within `max_duration` milliseconds of being dispatched, a timeout otherwise.
/// `completion` is the time the work took and its result, if it completed.
pub open spec fn guarded<T, E>(max_duration: u64, completion: Option<(u64, Result<T, E>)>) -> Result<
    T,
    PolicyError<E>,
> {
    match completion {
        Some((took, w)) => if took <= max_duration {
            lift(w)
        } else {
            Err(PolicyError::TimedOut)
        },
        None => Err(PolicyError::TimedOut),
    }
}

impl Timeout {
    /// A guard with the given limit.
    pub fn new(max_duration: u64) -> (g: Timeout)
        ensures
            g.max_duration == max_duration,
    {
        Timeout { max_duration }
    }

    /// Settles a call once the wait is over: passes the work's result on
    /// unchanged when it completed within the limit, and reports a timeout
    /// when it did not complete, or completed too late.
    pub fn settle<T, E>(&self, completion: Option<(u64, Result<T, E>)>) -> (r: Result<
        T,
        PolicyError<E>,
    >)
        ensures
            r == guarded(self.max_duration, completion),
    {
        match completion {
            Some((took, w)) => {
                if took <= self.max_duration {
                    lift_result(w)
                } else {
                    Err(PolicyError::TimedOut)
                }
            },
            None => Err(PolicyError::TimedOut),
        }
    }
}

/// Timeout: a work unit that has not completed within the limit, or that
/// completed only after it, yields a timeout rejection.
pub proof fn lemma_late_work_times_out<T, E>(
    max_duration: u64,
    completion: Option<(u64, Result<T, E>)>,
)
    requires
        completion is None || completion->Some_0.0 > max_duration,
    ensures
        guarded(max_duration, completion) == Err::<T, PolicyError<E>>(PolicyError::TimedOut),
{
}

/// Pass-through: a work unit that completed within the limit has its own
/// result, success or error, returned unchanged.
pub proof fn lemma_prompt_work_passes_through<T, E>(max_duration: u64, took: u64, w: Result<T, E>)
    requires
        took <= max_duration,
    ensures
        guarded(max_duration, Some((took, w))) == lift(w),
        w is Ok ==> guarded(max_duration, Some((took, w))) == Ok::<T, PolicyError<E>>(w->Ok_0),
        w is Err ==> guarded(max_duration, Some((took, w))) == Err::<T, PolicyError<E>>(
            PolicyError::Work(w->Err_0),
        ),
{
}

} // verus!
