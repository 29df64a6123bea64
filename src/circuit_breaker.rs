use vstd::prelude::*;

use crate::error::{lift, lift_result, PolicyError};

verus! {

/// The three states of a circuit breaker.
#[derive(Clone, Copy, Debug, PartialEq, Eq, Structural)]
pub enum CircuitBreakerState {
    /// Calls run; consecutive failures are counted.
    Closed,
    /// Calls are rejected until the recovery timeout has passed.
    Open,
    /// One probe call decides whether the circuit closes again.
    HalfOpen,
}

/// Fails fast after a run of consecutive failures, then lets one probe
/// call through once `recovery_timeout` milliseconds have passed.
///
/// Times are milliseconds read from a monotonic clock by the caller.
pub struct CircuitBreaker {
    pub state: CircuitBreakerState,
    pub failure_count: usize,
    pub failure_threshold: usize,
    pub recovery_timeout: u64,
    pub last_failure_time: Option<u64>,
}

impl CircuitBreaker {
    /// An open circuit knows when it opened; a closed one has a failure
    /// count that has not yet reached the threshold.
    pub open spec fn wf(self) -> bool {
        &&& (self.state == CircuitBreakerState::Open ==> self.last_failure_time is Some)
        &&& (self.state == CircuitBreakerState::Closed ==> self.failure_count == 0
            || self.failure_count < self.failure_threshold)
    }

    /// The recovery timeout has passed at `now` since the circuit opened.
    pub open spec fn cooled_down(self, now: u64) -> bool {
        match self.last_failure_time {
            Some(t) => now - t >= self.recovery_timeout,
            None => false,
        }
    }

    /// Whether a call made at `now` runs the work unit.
    pub open spec fn admits(self, now: u64) -> bool {
        match self.state {
            CircuitBreakerState::Closed => true,
            CircuitBreakerState::HalfOpen => true,
            CircuitBreakerState::Open => self.cooled_down(now),
        }
    }

    /// The breaker after a call in the closed state whose work succeeded (`ok`) or failed.
    pub open spec fn after_closed(self, now: u64, ok: bool) -> CircuitBreaker {
        if ok {
            CircuitBreaker { failure_count: 0, ..self }
        } else if self.failure_count + 1 >= self.failure_threshold {
            CircuitBreaker {
                state: CircuitBreakerState::Open,
                failure_count: (self.failure_count + 1) as usize,
                last_failure_time: Some(now),
                ..self
            }
        } else {
            CircuitBreaker { failure_count: (self.failure_count + 1) as usize, ..self }
        }
    }

    /// The breaker after a probe call whose work succeeded (`ok`) or failed.
    pub open spec fn after_probe(self, now: u64, ok: bool) -> CircuitBreaker {
        if ok {
            CircuitBreaker { state: CircuitBreakerState::Closed, failure_count: 0, ..self }
        } else {
            CircuitBreaker { state: CircuitBreakerState::Open, last_failure_time: Some(now), ..self }
        }
    }

    /// The breaker after an admitted call at `now` whose work succeeded (`ok`) or failed.
    pub open spec fn after_call(self, now: u64, ok: bool) -> CircuitBreaker {
        match self.state {
            CircuitBreakerState::Closed => self.after_closed(now, ok),
            _ => self.after_probe(now, ok),
        }
    }

    /// A closed breaker with no failures recorded.
    pub fn new(failure_threshold: usize, recovery_timeout: u64) -> (cb: CircuitBreaker)
        ensures
            cb.wf(),
            cb.state == CircuitBreakerState::Closed,
            cb.failure_count == 0,
            cb.failure_threshold == failure_threshold,
            cb.recovery_timeout == recovery_timeout,
            cb.last_failure_time is None,
    {
        CircuitBreaker {
            state: CircuitBreakerState::Closed,
            failure_count: 0,
            failure_threshold,
            recovery_timeout,
            last_failure_time: None,
        }
    }

    /// Runs `func` at time `now` unless the circuit is open and still cooling
    /// down, in which case the call is rejected without running it.
    pub fn call<T, E, F: FnOnce() -> Result<T, E>>(&mut self, now: u64, func: F) -> (r: Result<
        T,
        PolicyError<E>,
    >)
        requires
            old(self).wf(),
            func.requires(()),
        ensures
            final(self).wf(),
            !old(self).admits(now) ==> r == Err::<T, PolicyError<E>>(PolicyError::CircuitOpen)
                && *final(self) == *old(self),
            old(self).admits(now) ==> exists|w: Result<T, E>|
                #[trigger] func.ensures((), w) && r == lift(w) && *final(self) == old(
                    self,
                ).after_call(now, w is Ok),
    {
        match self.state {
            CircuitBreakerState::Closed => self.call_closed(now, func),
            CircuitBreakerState::Open => self.call_open(now, func),
            CircuitBreakerState::HalfOpen => self.call_half_open(now, func),
        }
    }

    /// Runs `func` in the closed state and counts a failure, opening the
    /// circuit once the count reaches the threshold; a success resets it.
    pub fn call_closed<T, E, F: FnOnce() -> Result<T, E>>(&mut self, now: u64, func: F) -> (r:
        Result<T, PolicyError<E>>)
        requires
            old(self).wf(),
            old(self).state == CircuitBreakerState::Closed,
            func.requires(()),
        ensures
            final(self).wf(),
            exists|w: Result<T, E>|
                #[trigger] func.ensures((), w) && r == lift(w) && *final(self) == old(
                    self,
                ).after_closed(now, w is Ok),
    {
        let result = func();
        if result.is_err() {
            self.failure_count = self.failure_count + 1;
            if self.failure_count >= self.failure_threshold {
                self.state = CircuitBreakerState::Open;
                self.last_failure_time = Some(now);
            }
        } else {
            self.failure_count = 0;
        }
        lift_result(result)
    }

    /// In the open state: once the recovery timeout has passed, moves to
    /// half-open and runs `func` as the probe; before that, rejects.
    pub fn call_open<T, E, F: FnOnce() -> Result<T, E>>(&mut self, now: u64, func: F) -> (r:
        Result<T, PolicyError<E>>)
        requires
            old(self).wf(),
            old(self).state == CircuitBreakerState::Open,
            func.requires(()),
        ensures
            final(self).wf(),
            !old(self).cooled_down(now) ==> r == Err::<T, PolicyError<E>>(PolicyError::CircuitOpen)
                && *final(self) == *old(self),
            old(self).cooled_down(now) ==> exists|w: Result<T, E>|
                #[trigger] func.ensures((), w) && r == lift(w) && *final(self) == old(
                    self,
                ).after_probe(now, w is Ok),
    {
        match self.last_failure_time {
            Some(last_failure_time) => {
                if now >= last_failure_time && now - last_failure_time >= self.recovery_timeout {
                    self.state = CircuitBreakerState::HalfOpen;
                    self.call_half_open(now, func)
                } else {
                    Err(PolicyError::CircuitOpen)
                }
            },
            None => Err(PolicyError::CircuitOpen),
        }
    }

    /// Runs the probe: success closes the circuit, failure opens it again
    /// with a fresh cooldown starting at `now`.
    pub fn call_half_open<T, E, F: FnOnce() -> Result<T, E>>(&mut self, now: u64, func: F) -> (r:
        Result<T, PolicyError<E>>)
        requires
            old(self).state == CircuitBreakerState::HalfOpen,
            func.requires(()),
        ensures
            final(self).wf(),
            exists|w: Result<T, E>|
                #[trigger] func.ensures((), w) && r == lift(w) && *final(self) == old(
                    self,
                ).after_probe(now, w is Ok),
    {
        let result = func();
        if result.is_err() {
            self.state = CircuitBreakerState::Open;
            self.last_failure_time = Some(now);
        } else {
            self.state = CircuitBreakerState::Closed;
            self.failure_count = 0;
        }
        lift_result(result)
    }
    /// The breaker after the outcome of a call admitted by `try_acquire`:
    /// a closed circuit counts it, a half-open one settles its probe, and an
    /// open one (tripped while the call ran) restarts its cooldown on a failure.
    pub open spec fn after_outcome(self, now: u64, ok: bool) -> CircuitBreaker {
        match self.state {
            CircuitBreakerState::Closed => self.after_closed(now, ok),
            CircuitBreakerState::HalfOpen => self.after_probe(now, ok),
            CircuitBreakerState::Open => if ok {
                self
            } else {
                CircuitBreaker { last_failure_time: Some(now), ..self }
            },
        }
    }

    /// First half of a call whose work runs outside the breaker's lock:
    /// decides whether a call at `now` may run. A closed circuit admits; an
    /// open one that has cooled down moves to half-open and admits this one
    /// call as its probe; a half-open one already has its probe running and
    /// rejects, as an open one still cooling down does.
    pub fn try_acquire(&mut self, now: u64) -> (admitted: bool)
        requires
            old(self).wf(),
        ensures
            final(self).wf(),
            admitted == (old(self).state == CircuitBreakerState::Closed || (old(self).state
                == CircuitBreakerState::Open && old(self).cooled_down(now))),
            admitted && old(self).state == CircuitBreakerState::Open ==> *final(self) == (
            CircuitBreaker { state: CircuitBreakerState::HalfOpen, ..*old(self) }),
            !(admitted && old(self).state == CircuitBreakerState::Open) ==> *final(self) == *old(
                self,
            ),
    {
        match self.state {
            CircuitBreakerState::Closed => true,
            CircuitBreakerState::HalfOpen => false,
            CircuitBreakerState::Open => match self.last_failure_time {
                Some(t) => {
                    if now >= t && now - t >= self.recovery_timeout {
                        self.state = CircuitBreakerState::HalfOpen;
                        true
                    } else {
                        false
                    }
                },
                None => false,
            },
        }
    }

    /// Second half: records at `now` whether the admitted call's work succeeded.
    pub fn record_outcome(&mut self, now: u64, ok: bool)
        requires
            old(self).wf(),
        ensures
            final(self).wf(),
            *final(self) == old(self).after_outcome(now, ok),
    {
        match self.state {
            CircuitBreakerState::Closed => {
                if ok {
                    self.failure_count = 0;
                } else {
                    self.failure_count = self.failure_count + 1;
                    if self.failure_count >= self.failure_threshold {
                        self.state = CircuitBreakerState::Open;
                        self.last_failure_time = Some(now);
                    }
                }
            },
            CircuitBreakerState::HalfOpen => {
                if ok {
                    self.state = CircuitBreakerState::Closed;
                    self.failure_count = 0;
                } else {
                    self.state = CircuitBreakerState::Open;
                    self.last_failure_time = Some(now);
                }
            },
            CircuitBreakerState::Open => {
                if !ok {
                    self.last_failure_time = Some(now);
                }
            },
        }
    }

    /// The breaker after failing calls made at each of `times`, in order.
    pub open spec fn after_failures(self, times: Seq<u64>) -> CircuitBreaker
        decreases times.len(),
    {
        if times.len() == 0 {
            self
        } else {
            self.after_failures(times.drop_last()).after_call(times.last(), false)
        }
    }
}

/// Fewer failing calls than the threshold leave a fresh closed breaker
/// closed, counting one failure per call.
proof fn lemma_failures_below_threshold(cb: CircuitBreaker, times: Seq<u64>)
    requires
        cb.state == CircuitBreakerState::Closed,
        cb.failure_count == 0,
        times.len() < cb.failure_threshold,
    ensures
        cb.after_failures(times).state == CircuitBreakerState::Closed,
        cb.after_failures(times).failure_count == times.len(),
        cb.after_failures(times).failure_threshold == cb.failure_threshold,
        cb.after_failures(times).recovery_timeout == cb.recovery_timeout,
    decreases times.len(),
{
    if times.len() > 0 {
        lemma_failures_below_threshold(cb, times.drop_last());
    }
}

/// Tripping: a closed breaker with no failures counted, given as many
/// consecutive failing calls as its threshold, runs every one of them and
/// then is open from the time of the last; a call made before the recovery
/// timeout has passed since then is rejected without running its work.
pub proof fn lemma_trips_after_threshold_failures(cb: CircuitBreaker, times: Seq<u64>, now: u64)
    requires
        cb.wf(),
        cb.state == CircuitBreakerState::Closed,
        cb.failure_count == 0,
        cb.failure_threshold >= 1,
        times.len() == cb.failure_threshold,
        now - times.last() < cb.recovery_timeout,
    ensures
        forall|i: int| 0 <= i < times.len() ==> #[trigger] cb.after_failures(times.take(i)).admits(times[i]),
        cb.after_failures(times).state == CircuitBreakerState::Open,
        cb.after_failures(times).last_failure_time == Some(times.last()),
        cb.after_failures(times).wf(),
        !cb.after_failures(times).admits(now),
{
    assert forall|i: int| 0 <= i < times.len() implies #[trigger] cb.after_failures(times.take(i)).admits(times[i]) by {
        lemma_failures_below_threshold(cb, times.take(i));
    }
    lemma_failures_below_threshold(cb, times.drop_last());
}

/// Recovery: an open breaker rejects every call until the recovery timeout
/// has passed since it opened. After that a call runs as a probe: if it
/// succeeds the circuit is closed with no failures counted; if it fails the
/// circuit is open again, its cooldown restarted at the probe's time.
pub proof fn lemma_recovery(cb: CircuitBreaker, now: u64)
    requires
        cb.wf(),
        cb.state == CircuitBreakerState::Open,
    ensures
        now - cb.last_failure_time->Some_0 < cb.recovery_timeout ==> !cb.admits(now),
        now - cb.last_failure_time->Some_0 >= cb.recovery_timeout ==> {
            &&& cb.admits(now)
            &&& cb.after_call(now, true).state == CircuitBreakerState::Closed
            &&& cb.after_call(now, true).failure_count == 0
            &&& cb.after_call(now, true).wf()
            &&& cb.after_call(now, false).state == CircuitBreakerState::Open
            &&& cb.after_call(now, false).last_failure_time == Some(now)
            &&& cb.after_call(now, false).wf()
        },
{
}

} // verus!
