//! Fault-tolerance policies that wrap a fallible unit of work: a bulkhead,
//! a circuit breaker, a sliding-window rate limiter, a retry policy and a
//! deadline guard. Each policy's decisions are verified state machines;
//! time enters as plain millisecond readings of a monotonic clock.
pub mod bulkhead;
pub mod circuit_breaker;
pub mod deadline;
pub mod error;
pub mod rate_limiter;
pub mod retry_policy;
