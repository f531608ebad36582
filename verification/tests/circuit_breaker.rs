use tdg_rust::circuit_breaker::{CircuitBreaker, CircuitState};
use tdg_rust::error::TdgError;

#[test]
fn test_circuit_breaker_default_state() {
    let mut cb = CircuitBreaker::new();
    assert_eq!(cb.state(), CircuitState::Closed);
    assert!(!cb.is_tripped());
}

#[test]
fn test_circuit_breaker_trips_after_threshold() {
    let mut cb = CircuitBreaker::with_config(3, 60);

    cb.record_failure();
    assert!(!cb.is_tripped());

    cb.record_failure();
    assert!(!cb.is_tripped());

    cb.record_failure();
    assert!(cb.is_tripped());
    assert_eq!(cb.state(), CircuitState::Open);
}

#[test]
fn test_circuit_breaker_success_resets() {
    let mut cb = CircuitBreaker::new();

    cb.record_failure();
    cb.record_failure();
    cb.record_success();

    assert_eq!(cb.failure_count(), 0);
    assert!(!cb.is_tripped());
}

#[test]
fn test_circuit_breaker_manual_reset() {
    let mut cb = CircuitBreaker::with_config(1, 60);

    cb.record_failure();
    assert!(cb.is_tripped());

    cb.reset();
    assert!(!cb.is_tripped());
    assert_eq!(cb.failure_count(), 0);
}

#[test]
fn circuit_breaker_zero_cooldown_half_opens() {
    let mut cb = CircuitBreaker::with_config(1, 0);
    cb.record_failure();
    assert_eq!(cb.state(), CircuitState::Open);
    // The cooldown of zero seconds has elapsed: the breaker lets one request through.
    assert!(!cb.is_tripped());
    assert_eq!(cb.state(), CircuitState::HalfOpen);
    cb.record_failure();
    assert_eq!(cb.state(), CircuitState::Open);
    assert!(!cb.is_tripped());
    cb.record_success();
    assert_eq!(cb.state(), CircuitState::Closed);
    assert_eq!(cb.failure_count(), 0);
}

#[test]
fn circuit_breaker_observation_with_known_cooldown() {
    let mut cb = CircuitBreaker::with_config(2, 600);
    cb.record_failure();
    cb.record_failure();
    assert!(cb.is_tripped_at(false));
    assert_eq!(cb.state(), CircuitState::Open);
    assert!(!cb.is_tripped_at(true));
    assert_eq!(cb.state(), CircuitState::HalfOpen);
}

#[test]
fn circuit_breaker_check_before_write_reports_threshold() {
    let mut cb = CircuitBreaker::with_config(2, 600);
    assert_eq!(cb.check_before_write(), Ok(()));
    cb.record_failure();
    cb.record_failure();
    assert_eq!(cb.check_before_write(), Err(TdgError::CircuitBreakerTripped { threshold: 2 }));
}

#[test]
fn circuit_breaker_success_while_open_changes_nothing() {
    let mut cb = CircuitBreaker::with_config(1, 600);
    cb.record_failure();
    cb.record_success();
    assert_eq!(cb.state(), CircuitState::Open);
    assert_eq!(cb.failure_count(), 1);
}

#[test]
fn circuit_breaker_cooldown_measured_in_seconds() {
    let mut cb = CircuitBreaker::with_config(1, 30);
    cb.record_failure();
    assert_eq!(cb.state(), CircuitState::Open);
    // Before the cooldown has run out the breaker stays open.
    assert!(cb.is_tripped_after(Some(0)));
    assert!(cb.is_tripped_after(Some(29)));
    assert_eq!(cb.state(), CircuitState::Open);
    // At thirty seconds it half-opens and lets a request through.
    assert!(!cb.is_tripped_after(Some(30)));
    assert_eq!(cb.state(), CircuitState::HalfOpen);
    // With no cooldown configured, the first check after tripping half-opens.
    let mut quick = CircuitBreaker::with_config(1, 0);
    quick.record_failure();
    assert!(!quick.is_tripped());
    assert_eq!(quick.state(), CircuitState::HalfOpen);
}

#[test]
fn circuit_breaker_failures_at_given_readings() {
    let mut cb = CircuitBreaker::with_config(2, 1);
    let first = std::time::Instant::now();
    cb.record_failure_at(first);
    cb.record_failure_at(first);
    assert_eq!(cb.state(), CircuitState::Open);
    assert_eq!(cb.failure_count(), 2);
    assert!(cb.is_tripped_after(Some(0)));
}
