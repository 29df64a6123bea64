use vstd::prelude::*;

verus! {

/// Why a policy call ended without a success value.
///
/// A rejection made by a policy (`CircuitOpen`, `TimedOut`) is kept apart
/// from the failure of the work unit itself (`Work`).
#[derive(Debug, PartialEq, Eq)]
pub enum PolicyError<E> {
    /// The circuit breaker declined to run the work unit.
    CircuitOpen,
    /// The deadline passed before the work unit completed.
    TimedOut,
    /// The work unit ran and failed with its own error.
    Work(E),
}

/// A work unit's own result, as a policy call reports it.
pub open spec fn lift<T, E>(r: Result<T, E>) -> Result<T, PolicyError<E>> {
    match r {
        Ok(v) => Ok(v),
        Err(e) => Err(PolicyError::Work(e)),
    }
}

/// Reports a work unit's own result unchanged, its error marked as the work's.
pub fn lift_result<T, E>(r: Result<T, E>) -> (out: Result<T, PolicyError<E>>)
    ensures
        out == lift(r),
{
    match r {
        Ok(v) => Ok(v),
        Err(e) => Err(PolicyError::Work(e)),
    }
}

impl<E> PolicyError<E> {
    /// True when a policy declined or gave up, rather than the work failing.
    pub fn is_rejection(&self) -> (r: bool)
        ensures
            r == !(self is Work),
    {
        match self {
            PolicyError::Work(_) => false,
            _ => true,
        }
    }
}

} // verus!
