use lowart_gateway::breaker::{CircuitBreaker, CircuitState};

fn cell_state(cb: &CircuitBreaker, model: &str) -> Option<CircuitState> {
    cb.stats
        .iter()
        .find(|(id, _)| id == model)
        .map(|(_, h)| h.state)
}

#[test]
fn test_circuit_breaker_transitions() {
    let mut cb = CircuitBreaker::new(3, 100);
    let model = String::from("test-model");

    // Initial state: Closed.
    assert!(cb.is_allowed(&model, 0));

    // Three failures trip the breaker.
    cb.report_result(&model, false, 0);
    cb.report_result(&model, false, 0);
    cb.report_result(&model, false, 0);
    assert!(!cb.is_allowed(&model, 50));

    // After the reset timeout the next probe is admitted (HalfOpen).
    assert!(cb.is_allowed(&model, 110));
    assert_eq!(cell_state(&cb, "test-model"), Some(CircuitState::HalfOpen));

    // A success closes it again.
    cb.report_result(&model, true, 120);
    assert!(cb.is_allowed(&model, 121));
    assert_eq!(cell_state(&cb, "test-model"), Some(CircuitState::Closed));

    // The failure counter was reset: one failure does not trip it.
    cb.report_result(&model, false, 130);
    assert!(cb.is_allowed(&model, 131));
}

#[test]
fn test_circuit_breaker_half_open_failure() {
    let mut cb = CircuitBreaker::new(3, 100);
    let model = String::from("test-model");

    for _ in 0..3 {
        cb.report_result(&model, false, 0);
    }
    assert!(!cb.is_allowed(&model, 10));

    // HalfOpen after the timeout.
    assert!(cb.is_allowed(&model, 110));

    // Success in HalfOpen closes and resets the counter.
    cb.report_result(&model, true, 115);

    // A single failure now must not trip it immediately.
    cb.report_result(&model, false, 120);
    assert!(cb.is_allowed(&model, 121));
}

#[test]
fn test_breaker_trips_exactly_at_threshold() {
    let mut cb = CircuitBreaker::new(2, 1000);
    let model = String::from("m");
    cb.report_result(&model, false, 0);
    assert!(cb.is_allowed(&model, 1));
    cb.report_result(&model, false, 2);
    assert!(!cb.is_allowed(&model, 3));
    assert_eq!(cell_state(&cb, "m"), Some(CircuitState::Open));
}

#[test]
fn test_breaker_models_are_independent() {
    let mut cb = CircuitBreaker::new(1, 1000);
    let a = String::from("a");
    let b = String::from("b");
    cb.report_result(&a, false, 0);
    assert!(!cb.is_allowed(&a, 1));
    assert!(cb.is_allowed(&b, 1));
}

#[test]
fn test_half_open_failure_reopens() {
    let mut cb = CircuitBreaker::new(1, 100);
    let model = String::from("m");
    cb.report_result(&model, false, 0);
    assert!(cb.is_allowed(&model, 200));
    assert_eq!(cell_state(&cb, "m"), Some(CircuitState::HalfOpen));
    // Failure in HalfOpen stamps a new last failure and reopens.
    cb.report_result(&model, false, 210);
    assert_eq!(cell_state(&cb, "m"), Some(CircuitState::Open));
    assert!(!cb.is_allowed(&model, 250));
    assert!(cb.is_allowed(&model, 311));
}
