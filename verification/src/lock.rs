//! The write lock that serialises writers of one database across
//! processes: what each attempt to take it leads to, and its errors.

use vstd::prelude::*;

use crate::text::{owned, push_str};

verus! {

/// Why the write lock was not taken.
#[derive(Debug, Clone, PartialEq, Eq)]
pub enum LockError {
    /// The lock stayed held by another writer past the timeout.
    Timeout,
    /// The lock file could not be opened or locked (the system's message).
    Io(String),
    /// Writes are refused while the circuit breaker is open.
    CircuitBreakerTripped,
}

/// The text a lock error is shown with.
pub open spec fn lock_message_of(e: LockError) -> Seq<char> {
    match e {
        LockError::Timeout => "write lock timeout"@,
        LockError::Io(m) => "write lock I/O error: "@ + m@,
        LockError::CircuitBreakerTripped => "circuit breaker tripped"@,
    }
}

impl LockError {
    /// The text the error is shown with.
    pub fn message(&self) -> (m: String)
        ensures
            m@ == lock_message_of(*self),
    {
        match self {
            LockError::Timeout => owned("write lock timeout"),
            LockError::Io(e) => {
                let mut m = owned("write lock I/O error: ");
                push_str(&mut m, e.as_str());
                m
            },
            LockError::CircuitBreakerTripped => owned("circuit breaker tripped"),
        }
    }
}

/// The outcome of one attempt to lock the lock file.
#[derive(Debug, Clone, PartialEq, Eq)]
pub enum LockAttempt {
    Locked,
    WouldBlock,
    Failed(String),
}

/// What follows an attempt.
#[derive(Debug, Clone, PartialEq, Eq)]
pub enum LockStep {
    /// The lock is held: go on with the write.
    Hold,
    /// Wait ten milliseconds and try again.
    Retry,
    /// Give up with this error.
    GiveUp(LockError),
}

/// What follows an attempt: hold the lock once taken; while another writer
/// holds it, retry until the timeout has passed, then give up; give up at
/// once on a system error.
pub fn next_lock_step(attempt: LockAttempt, elapsed_ms: u64, timeout_ms: u64) -> (s: LockStep)
    ensures
        match attempt {
            LockAttempt::Locked => s == LockStep::Hold,
            LockAttempt::WouldBlock => if elapsed_ms >= timeout_ms {
                s == LockStep::GiveUp(LockError::Timeout)
            } else {
                s == LockStep::Retry
            },
            LockAttempt::Failed(m) => s matches LockStep::GiveUp(LockError::Io(n)) && n@ == m@,
        },
{
    match attempt {
        LockAttempt::Locked => LockStep::Hold,
        LockAttempt::WouldBlock => {
            if elapsed_ms >= timeout_ms {
                LockStep::GiveUp(LockError::Timeout)
            } else {
                LockStep::Retry
            }
        },
        LockAttempt::Failed(m) => LockStep::GiveUp(LockError::Io(m)),
    }
}

/// A writer may try for the lock only while the circuit breaker is closed
/// (or half-open).
pub fn admit_writer(breaker_tripped: bool) -> (r: Result<(), LockError>)
    ensures
        breaker_tripped ==> r == Err::<(), LockError>(LockError::CircuitBreakerTripped),
        !breaker_tripped ==> r is Ok,
{
    if breaker_tripped {
        Err(LockError::CircuitBreakerTripped)
    } else {
        Ok(())
    }
}

} // verus!
