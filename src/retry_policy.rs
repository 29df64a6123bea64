use vstd::prelude::*;

verus! {

/// Runs a failing work unit again, up to `max_retries` invocations in all,
/// pausing `delay` milliseconds between invocations.
pub struct RetryPolicy {
    pub max_retries: usize,
    pub delay: u64,
}

/// The most invocations a call makes; a limit of zero still runs the work once.
pub open spec fn attempt_limit(max_retries: usize) -> int {
    if max_retries == 0 {
        1
    } else {
        max_retries as int
    }
}

/// `runs` is what the successive invocations of `func` returned during one
/// call under a limit of `max_retries`: at least one invocation, no more
/// than the limit, every one but the last a failure, and a failing last one
/// only when the limit was reached.
pub open spec fn is_retry_run<T, E, F: Fn() -> Result<T, E>>(
    max_retries: usize,
    func: F,
    runs: Seq<Result<T, E>>,
) -> bool {
    &&& 1 <= runs.len() <= attempt_limit(max_retries)
    &&& forall|i: int| 0 <= i < runs.len() ==> func.ensures((), #[trigger] runs[i])
    &&& forall|i: int| 0 <= i < runs.len() - 1 ==> #[trigger] runs[i] is Err
    &&& (runs.last() is Err ==> runs.len() == attempt_limit(max_retries))
}

impl RetryPolicy {
    /// A policy with the given limit and pause.
    pub fn new(max_retries: usize, delay: u64) -> (p: RetryPolicy)
        ensures
            p.max_retries == max_retries,
            p.delay == delay,
    {
        RetryPolicy { max_retries, delay }
    }

    /// Whether a call that has seen `failures` failed invocations runs the work again.
    pub fn should_retry(&self, failures: usize) -> (again: bool)
        ensures
            again == (failures < attempt_limit(self.max_retries)),
    {
        if self.max_retries == 0 {
            failures < 1
        } else {
            failures < self.max_retries
        }
    }

    /// Invokes `work` until it succeeds or the limit is reached, calling
    /// `pause(self.delay)` between invocations. Returns the first success,
    /// or the error of the last invocation.
    pub fn call<T, E, F: Fn() -> Result<T, E>, P: FnMut(u64)>(
        &self,
        work: F,
        mut pause: P,
    ) -> (r: Result<T, E>)
        requires
            work.requires(()),
            forall|d: u64| pause.requires((d,)),
        ensures
            exists|runs: Seq<Result<T, E>>| is_retry_run(self.max_retries, work, runs) && r == runs.last(),
    {
        let ghost mut trace: Seq<Result<T, E>> = Seq::empty();
        let mut attempts: usize = 0;
        loop
            invariant
                attempts < attempt_limit(self.max_retries),
                work.requires(()),
                forall|d: u64| pause.requires((d,)),
                trace.len() == attempts,
                forall|i: int| 0 <= i < trace.len() ==> #[trigger] work.ensures((), trace[i]),
                forall|i: int| 0 <= i < trace.len() ==> #[trigger] trace[i] is Err,
            decreases attempt_limit(self.max_retries) - attempts,
        {
            let result = work();
            proof {
                trace = trace.push(result);
            }
            match result {
                Ok(v) => {
                    proof {
                        assert(is_retry_run(self.max_retries, work, trace));
                    }
                    return Ok(v);
                },
                Err(e) => {
                    attempts = attempts + 1;
                    if !self.should_retry(attempts) {
                        proof {
                            assert(is_retry_run(self.max_retries, work, trace));
                        }
                        return Err(e);
                    }
                    pause(self.delay);
                },
            }
        }
    }
}

/// Exhaustion: when every invocation of the work fails, a call invokes it
/// exactly as many times as the limit allows and returns the error of the
/// last invocation.
pub proof fn lemma_exhaustion<T, E, F: Fn() -> Result<T, E>>(
    max_retries: usize,
    work: F,
    runs: Seq<Result<T, E>>,
    r: Result<T, E>,
)
    requires
        is_retry_run(max_retries, work, runs),
        r == runs.last(),
        forall|w: Result<T, E>| #[trigger] work.ensures((), w) ==> w is Err,
    ensures
        runs.len() == attempt_limit(max_retries),
        r is Err,
        r == runs[attempt_limit(max_retries) - 1],
{
    assert(work.ensures((), runs[runs.len() - 1]));
}

/// Success after failures: when the first `k` invocations fail and the
/// next one, if it is made, succeeds, with `k` below the limit, a call
/// makes exactly `k + 1` invocations and returns that success.
pub proof fn lemma_success_after_failures<T, E, F: Fn() -> Result<T, E>>(
    max_retries: usize,
    work: F,
    runs: Seq<Result<T, E>>,
    r: Result<T, E>,
    k: nat,
)
    requires
        is_retry_run(max_retries, work, runs),
        r == runs.last(),
        k < attempt_limit(max_retries),
        forall|i: int| 0 <= i < k && i < runs.len() ==> #[trigger] runs[i] is Err,
        k < runs.len() ==> runs[k as int] is Ok,
    ensures
        runs.len() == k + 1,
        r is Ok,
        r == runs[k as int],
{
    if runs.len() <= k {
        assert(runs[runs.len() - 1] is Err);
    } else if runs.len() > k + 1 {
        assert(runs[k as int] is Err);
    }
}

} // verus!
