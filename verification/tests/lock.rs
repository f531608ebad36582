use tdg_rust::lock::{admit_writer, next_lock_step, LockAttempt, LockError, LockStep};

#[test]
fn lock_attempts() {
    assert_eq!(next_lock_step(LockAttempt::Locked, 9999, 10), LockStep::Hold);
    assert_eq!(next_lock_step(LockAttempt::WouldBlock, 5, 10), LockStep::Retry);
    assert_eq!(next_lock_step(LockAttempt::WouldBlock, 10, 10), LockStep::GiveUp(LockError::Timeout));
    assert_eq!(
        next_lock_step(LockAttempt::Failed("denied".to_string()), 0, 10),
        LockStep::GiveUp(LockError::Io("denied".to_string()))
    );
}

#[test]
fn tripped_breaker_refuses_writers() {
    assert_eq!(admit_writer(true), Err(LockError::CircuitBreakerTripped));
    assert!(admit_writer(false).is_ok());
    assert_eq!(LockError::Timeout.message(), "write lock timeout");
    assert_eq!(LockError::Io("x".to_string()).message(), "write lock I/O error: x");
    assert_eq!(LockError::CircuitBreakerTripped.message(), "circuit breaker tripped");
}
