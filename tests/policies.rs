use std::cell::Cell;

use resilience::bulkhead::Bulkhead;
use resilience::circuit_breaker::{CircuitBreaker, CircuitBreakerState};
use resilience::deadline::{TimeLimiter, Timeout};
use resilience::error::{lift_result, PolicyError};
use resilience::rate_limiter::{RateLimiter, POLL_INTERVAL_MS};
use resilience::retry_policy::RetryPolicy;

fn failing() -> Result<(), &'static str> {
    Err("Task failed")
}

fn succeeding() -> Result<(), &'static str> {
    Ok(())
}

// ---- circuit breaker ----

#[test]
fn test_circuitbreaker() {
    let mut breaker = CircuitBreaker::new(3, 5000);
    let mut results = Vec::new();
    for _ in 0..5 {
        results.push(breaker.call(0, failing));
    }
    assert_eq!(results[0], Err(PolicyError::Work("Task failed")));
    assert_eq!(results[1], Err(PolicyError::Work("Task failed")));
    assert_eq!(results[2], Err(PolicyError::Work("Task failed")));
    assert_eq!(results[3], Err(PolicyError::CircuitOpen));
    assert_eq!(results[4], Err(PolicyError::CircuitOpen));
}

#[test]
fn breaker_trips_after_three_failures_and_rejects_without_running() {
    let runs = Cell::new(0u32);
    let work = || {
        runs.set(runs.get() + 1);
        Err::<u32, &str>("down")
    };
    let mut cb = CircuitBreaker::new(3, 1000);
    for t in 0..3u64 {
        assert_eq!(cb.state, CircuitBreakerState::Closed);
        assert_eq!(cb.call(t, &work), Err(PolicyError::Work("down")));
    }
    assert_eq!(cb.state, CircuitBreakerState::Open);
    assert_eq!(cb.last_failure_time, Some(2));
    assert_eq!(runs.get(), 3);
    assert_eq!(cb.call(3, &work), Err(PolicyError::CircuitOpen));
    assert_eq!(runs.get(), 3);
}

#[test]
fn breaker_success_resets_failure_count() {
    let mut cb = CircuitBreaker::new(3, 1000);
    assert!(cb.call(0, failing).is_err());
    assert!(cb.call(1, failing).is_err());
    assert_eq!(cb.failure_count, 2);
    assert_eq!(cb.call(2, || Ok::<u8, &str>(7)), Ok(7));
    assert_eq!(cb.failure_count, 0);
    assert!(cb.call(3, failing).is_err());
    assert!(cb.call(4, failing).is_err());
    assert_eq!(cb.state, CircuitBreakerState::Closed);
}

#[test]
fn breaker_recovers_after_successful_probe() {
    let mut cb = CircuitBreaker::new(1, 500);
    assert!(cb.call(100, failing).is_err());
    assert_eq!(cb.state, CircuitBreakerState::Open);
    // before the recovery timeout: rejected
    assert_eq!(cb.call(599, succeeding), Err(PolicyError::CircuitOpen));
    assert_eq!(cb.state, CircuitBreakerState::Open);
    // after it: the probe runs and closes the circuit
    let runs = Cell::new(0u32);
    let r = cb.call(600, || {
        runs.set(runs.get() + 1);
        Ok::<&str, &str>("fine")
    });
    assert_eq!(r, Ok("fine"));
    assert_eq!(runs.get(), 1);
    assert_eq!(cb.state, CircuitBreakerState::Closed);
    assert_eq!(cb.failure_count, 0);
    assert_eq!(cb.call(601, succeeding), Ok(()));
}

#[test]
fn breaker_failed_probe_reopens_with_fresh_cooldown() {
    let mut cb = CircuitBreaker::new(2, 500);
    assert!(cb.call(0, failing).is_err());
    assert!(cb.call(10, failing).is_err());
    assert_eq!(cb.last_failure_time, Some(10));
    assert_eq!(cb.call(700, failing), Err(PolicyError::Work("Task failed")));
    assert_eq!(cb.state, CircuitBreakerState::Open);
    assert_eq!(cb.last_failure_time, Some(700));
    assert_eq!(cb.call(1100, succeeding), Err(PolicyError::CircuitOpen));
    assert_eq!(cb.call(1200, succeeding), Ok(()));
    assert_eq!(cb.state, CircuitBreakerState::Closed);
}

#[test]
fn breaker_admits_one_probe_at_a_time() {
    let mut cb = CircuitBreaker::new(1, 100);
    assert!(cb.try_acquire(0));
    cb.record_outcome(0, false);
    assert_eq!(cb.state, CircuitBreakerState::Open);
    assert!(!cb.try_acquire(50));
    assert!(cb.try_acquire(100));
    assert_eq!(cb.state, CircuitBreakerState::HalfOpen);
    // a second caller while the probe runs is rejected
    assert!(!cb.try_acquire(101));
    cb.record_outcome(102, true);
    assert_eq!(cb.state, CircuitBreakerState::Closed);
    assert_eq!(cb.failure_count, 0);
}

#[test]
fn breaker_outcome_while_open_restarts_cooldown() {
    let mut cb = CircuitBreaker::new(1, 100);
    assert!(cb.try_acquire(0));
    assert!(cb.try_acquire(0));
    cb.record_outcome(5, false);
    assert_eq!(cb.state, CircuitBreakerState::Open);
    cb.record_outcome(8, false);
    assert_eq!(cb.last_failure_time, Some(8));
    assert!(!cb.try_acquire(107));
    assert!(cb.try_acquire(108));
}

#[test]
fn breaker_step_functions_follow_state() {
    let mut cb = CircuitBreaker::new(2, 100);
    assert_eq!(cb.call_closed(0, failing), Err(PolicyError::Work("Task failed")));
    assert_eq!(cb.call_closed(1, failing), Err(PolicyError::Work("Task failed")));
    assert_eq!(cb.state, CircuitBreakerState::Open);
    assert_eq!(cb.call_open(50, succeeding), Err(PolicyError::CircuitOpen));
    assert_eq!(cb.call_open(101, succeeding), Ok(()));
    assert_eq!(cb.state, CircuitBreakerState::Closed);
    cb.state = CircuitBreakerState::HalfOpen;
    assert_eq!(cb.call_half_open(200, failing), Err(PolicyError::Work("Task failed")));
    assert_eq!(cb.state, CircuitBreakerState::Open);
    assert_eq!(cb.last_failure_time, Some(200));
}

// ---- rate limiter ----

#[test]
fn test_ratelimiter() {
    let mut rl = RateLimiter::new(5, 1000);
    let mut admitted = 0;
    for _ in 0..10 {
        if rl.call(0, succeeding).is_some() {
            admitted += 1;
        }
    }
    assert_eq!(admitted, 5);
    assert_eq!(rl.requests.len(), 5);
}

#[test]
fn rate_limiter_window_slides() {
    let mut rl = RateLimiter::new(2, 1000);
    assert!(rl.try_admit(0));
    assert!(rl.try_admit(400));
    assert!(!rl.try_admit(999));
    // the admission at 0 leaves the window at 1000
    assert!(rl.try_admit(1000));
    assert_eq!(rl.requests, vec![400, 1000]);
    assert!(!rl.try_admit(1399));
    assert!(rl.try_admit(1400));
    assert_eq!(rl.requests, vec![1000, 1400]);
}

#[test]
fn rate_limiter_refusal_does_not_run_work() {
    let runs = Cell::new(0u32);
    let mut rl = RateLimiter::new(1, 50);
    let work = || {
        runs.set(runs.get() + 1);
        Ok::<u32, ()>(runs.get())
    };
    assert_eq!(rl.call(10, &work), Some(Ok(1)));
    assert_eq!(rl.call(20, &work), None);
    assert_eq!(runs.get(), 1);
    assert_eq!(rl.call(60, &work), Some(Ok(2)));
}

#[test]
fn rate_limiter_ten_callers_polling_stay_within_window() {
    // ten callers arrive at 0 and poll until admitted
    let mut rl = RateLimiter::new(5, 1000);
    let mut waiting = 10;
    let mut admissions: Vec<u64> = Vec::new();
    let mut now = 0u64;
    while waiting > 0 {
        let mut still = 0;
        for _ in 0..waiting {
            if rl.try_admit(now) {
                admissions.push(now);
            } else {
                still += 1;
            }
        }
        waiting = still;
        now += POLL_INTERVAL_MS;
    }
    assert_eq!(admissions.len(), 10);
    for &start in &admissions {
        let within = admissions.iter().filter(|&&t| t >= start && t - start < 1000).count();
        assert!(within <= 5);
    }
    assert_eq!(admissions[5], 1000);
}

#[test]
fn rate_limiter_zero_window_never_counts() {
    let mut rl = RateLimiter::new(1, 0);
    assert!(rl.try_admit(5));
    assert!(rl.try_admit(5));
    assert_eq!(rl.requests, vec![5]);
}

// ---- retry policy ----

#[test]
fn test_retrypolicy() {
    let policy = RetryPolicy::new(3, 1000);
    for i in 0..10u32 {
        let runs = Cell::new(0u32);
        let pauses = Cell::new(0u32);
        let r = policy.call(
            || {
                runs.set(runs.get() + 1);
                if i % 2 == 0 {
                    Err("Task failed")
                } else {
                    Ok(())
                }
            },
            |d: u64| {
                assert_eq!(d, 1000);
                pauses.set(pauses.get() + 1);
            },
        );
        if i % 2 == 0 {
            assert_eq!(r, Err("Task failed"));
            assert_eq!(runs.get(), 3);
            assert_eq!(pauses.get(), 2);
        } else {
            assert_eq!(r, Ok(()));
            assert_eq!(runs.get(), 1);
            assert_eq!(pauses.get(), 0);
        }
    }
}

#[test]
fn retry_exhaustion_returns_error_of_last_attempt() {
    let policy = RetryPolicy::new(3, 10);
    let runs = Cell::new(0u32);
    let r: Result<(), u32> = policy.call(
        || {
            runs.set(runs.get() + 1);
            Err(runs.get())
        },
        |_d: u64| {},
    );
    assert_eq!(runs.get(), 3);
    assert_eq!(r, Err(3));
}

#[test]
fn retry_succeeds_on_third_attempt() {
    let policy = RetryPolicy::new(5, 10);
    let runs = Cell::new(0u32);
    let r: Result<&str, u32> = policy.call(
        || {
            runs.set(runs.get() + 1);
            if runs.get() <= 2 {
                Err(runs.get())
            } else {
                Ok("done")
            }
        },
        |_d: u64| {},
    );
    assert_eq!(r, Ok("done"));
    assert_eq!(runs.get(), 3);
}

#[test]
fn retry_limit_zero_runs_once() {
    let policy = RetryPolicy::new(0, 10);
    let runs = Cell::new(0u32);
    let r: Result<(), &str> = policy.call(
        || {
            runs.set(runs.get() + 1);
            Err("no")
        },
        |_d: u64| {},
    );
    assert_eq!(r, Err("no"));
    assert_eq!(runs.get(), 1);
    assert!(!policy.should_retry(1));
    assert!(RetryPolicy::new(3, 0).should_retry(2));
    assert!(!RetryPolicy::new(3, 0).should_retry(3));
}

// ---- deadline guard ----

#[test]
fn test_timelimiter() {
    let guard = TimeLimiter::new(2000);
    for _ in 0..10 {
        // each task takes 3 s; the wait ended at the limit with no result
        let r: Result<(), PolicyError<&str>> = guard.settle(None);
        assert_eq!(r, Err(PolicyError::TimedOut));
        let late: Result<(), PolicyError<&str>> = guard.settle(Some((3000, Ok(()))));
        assert_eq!(late, Err(PolicyError::TimedOut));
    }
}

#[test]
fn test_timeout() {
    let guard = Timeout::new(2000);
    assert_eq!(guard.max_duration, 2000);
    for _ in 0..10 {
        let r: Result<(), PolicyError<&str>> = guard.settle(Some((3000, Ok(()))));
        assert_eq!(r, Err(PolicyError::TimedOut));
    }
}

#[test]
fn deadline_passes_prompt_results_through() {
    let guard = Timeout::new(100);
    assert_eq!(guard.settle::<u8, &str>(Some((40, Ok(9)))), Ok(9));
    assert_eq!(guard.settle::<u8, &str>(Some((100, Err("bad")))), Err(PolicyError::Work("bad")));
    assert_eq!(guard.settle::<u8, &str>(Some((101, Ok(9)))), Err(PolicyError::TimedOut));
}

// ---- bulkhead ----

#[test]
fn bulkhead_rejects_zero_capacity() {
    assert!(Bulkhead::new(0).is_none());
    let b = Bulkhead::new(3).unwrap();
    assert_eq!(b.max_concurrent_tasks, 3);
    assert_eq!(b.available(), 3);
}

#[test]
fn bulkhead_grants_at_most_capacity() {
    let mut b = Bulkhead::new(3).unwrap();
    let mut granted = 0;
    for _ in 0..10 {
        if b.try_acquire() {
            granted += 1;
        }
        assert!(b.in_use <= 3);
    }
    assert_eq!(granted, 3);
    assert_eq!(b.available(), 0);
    b.release();
    assert_eq!(b.available(), 1);
    assert!(b.try_acquire());
    assert!(!b.try_acquire());
}

#[test]
fn bulkhead_call_releases_permit_on_error() {
    let mut b = Bulkhead::new(1).unwrap();
    assert_eq!(b.call(failing), Some(Err("Task failed")));
    assert_eq!(b.in_use, 0);
    assert_eq!(b.call(|| Ok::<u8, ()>(4)), Some(Ok(4)));
    assert!(b.try_acquire());
    assert_eq!(b.call(succeeding), None);
}

// ---- errors ----

#[test]
fn policy_errors_tell_rejection_from_work_failure() {
    assert!(PolicyError::<u8>::CircuitOpen.is_rejection());
    assert!(PolicyError::<u8>::TimedOut.is_rejection());
    assert!(!PolicyError::Work(1u8).is_rejection());
    assert_eq!(lift_result::<u8, u8>(Err(2)), Err(PolicyError::Work(2)));
    assert_eq!(lift_result::<u8, u8>(Ok(3)), Ok(3));
}
