use cc_switch::circuit_breaker::{CircuitBreaker, CircuitBreakerConfig, CircuitState};
use cc_switch::error_rate::ErrorRate;
use std::time::{Duration, Instant};

#[test]
fn state_names() {
    assert_eq!(CircuitState::Closed.to_string(), "closed");
    assert_eq!(CircuitState::Open.to_string(), "open");
    assert_eq!(CircuitState::HalfOpen.to_string(), "half_open");
}

#[test]
fn default_limits() {
    let config = CircuitBreakerConfig::default();
    assert_eq!(config.failure_threshold, 4);
    assert_eq!(config.success_threshold, 2);
    assert_eq!(config.timeout_seconds, 60);
    assert_eq!(config.min_requests, 10);
    assert!(config.error_rate_threshold.exceeded(7, 11));
    assert!(!config.error_rate_threshold.exceeded(6, 10));
}

#[test]
fn test_circuit_breaker_closed_to_open() {
    let config = CircuitBreakerConfig {
        failure_threshold: 3,
        ..Default::default()
    };
    let mut breaker = CircuitBreaker::new(config, "test:breaker", "Test Breaker");

    assert_eq!(breaker.get_state(), CircuitState::Closed);
    assert!(breaker.allow_request().allowed);

    for _ in 0..3 {
        breaker.record_failure();
    }

    assert_eq!(breaker.get_state(), CircuitState::Open);
    assert!(!breaker.allow_request().allowed);
}

#[test]
fn test_circuit_breaker_half_open_to_closed() {
    let config = CircuitBreakerConfig {
        failure_threshold: 2,
        success_threshold: 2,
        ..Default::default()
    };
    let mut breaker = CircuitBreaker::new(config, "test:breaker", "Test Breaker");

    breaker.record_failure();
    breaker.record_failure();
    assert_eq!(breaker.get_state(), CircuitState::Open);

    breaker.transition_to_half_open();
    assert_eq!(breaker.get_state(), CircuitState::HalfOpen);

    breaker.record_success();
    breaker.record_success();

    assert_eq!(breaker.get_state(), CircuitState::Closed);
}

#[test]
fn test_half_open_transition_does_not_reset_inflight_permit() {
    let config = CircuitBreakerConfig {
        timeout_seconds: 0,
        ..Default::default()
    };
    let mut breaker = CircuitBreaker::new(config, "test:breaker", "Test Breaker");

    breaker.transition_to_open();
    let first = breaker.allow_request();
    assert!(first.allowed);
    assert!(first.permit.is_some());
    assert_eq!(breaker.get_state(), CircuitState::HalfOpen);

    breaker.transition_to_half_open();

    let second = breaker.allow_request();
    assert!(!second.allowed);
    assert!(second.permit.is_none());
}

#[test]
fn test_circuit_breaker_reset() {
    let config = CircuitBreakerConfig {
        failure_threshold: 2,
        ..Default::default()
    };
    let mut breaker = CircuitBreaker::new(config, "test:breaker", "Test Breaker");

    breaker.record_failure();
    breaker.record_failure();
    assert_eq!(breaker.get_state(), CircuitState::Open);

    breaker.reset();
    assert_eq!(breaker.get_state(), CircuitState::Closed);
    assert!(breaker.allow_request().allowed);
}

#[test]
fn test_drop_guard_releases_permit_on_drop() {
    let config = CircuitBreakerConfig {
        timeout_seconds: 0,
        ..Default::default()
    };
    let mut breaker = CircuitBreaker::new(config, "test:raii_drop", "Test RAII Drop");

    breaker.transition_to_open();
    let result = breaker.allow_request();
    assert!(result.allowed);
    let permit = result.permit.expect("HalfOpen 必须返回 permit guard");

    permit.drop(&mut breaker);

    assert_eq!(breaker.get_half_open_requests_for_test(), 0);

    let result2 = breaker.allow_request();
    assert!(result2.allowed);
}

#[test]
fn test_drop_guard_no_op_after_disarm() {
    let config = CircuitBreakerConfig {
        timeout_seconds: 0,
        ..Default::default()
    };
    let mut breaker = CircuitBreaker::new(config, "test:raii_disarm", "Test RAII Disarm");

    breaker.transition_to_open();
    let result = breaker.allow_request();
    let mut permit = result.permit.expect("必须返回 permit guard");

    permit.disarm(&mut breaker);
    assert_eq!(breaker.get_stats().half_open_requests, 0);

    breaker.record_success();
    assert_eq!(breaker.get_stats().half_open_requests, 0);

    // The next probe keeps its permit when the disarmed guard is let go.
    assert!(breaker.allow_request().allowed);
    permit.drop(&mut breaker);
    assert_eq!(breaker.get_stats().half_open_requests, 1);
}

#[test]
fn default_limits_open_at_the_fourth_failure() {
    let mut breaker = CircuitBreaker::new(CircuitBreakerConfig::default(), "a:b", "B");
    for _ in 0..3 {
        breaker.record_failure();
    }
    assert_eq!(breaker.get_state(), CircuitState::Closed);
    breaker.record_failure();
    assert_eq!(breaker.get_state(), CircuitState::Open);
    let stats = breaker.get_stats();
    assert_eq!(stats.consecutive_failures, 0);
    assert_eq!(stats.total_requests, 4);
    assert_eq!(stats.failed_requests, 4);
}

#[test]
fn success_starts_the_failures_anew() {
    let mut breaker = CircuitBreaker::new(CircuitBreakerConfig::default(), "a:b", "B");
    for _ in 0..3 {
        breaker.record_failure();
    }
    breaker.record_success();
    for _ in 0..3 {
        breaker.record_failure();
    }
    assert_eq!(breaker.get_state(), CircuitState::Closed);
    assert_eq!(breaker.get_stats().consecutive_failures, 3);
    assert_eq!(breaker.get_stats().total_requests, 7);
}

#[test]
fn error_rate_opens_once_there_are_enough_requests() {
    let config = CircuitBreakerConfig {
        failure_threshold: 100,
        ..Default::default()
    };
    let mut breaker = CircuitBreaker::new(config, "a:b", "B");
    for _ in 0..4 {
        breaker.record_success();
    }
    // At ten requests the rate is six tenths, which it must exceed.
    for _ in 0..6 {
        breaker.record_failure();
    }
    assert_eq!(breaker.get_state(), CircuitState::Closed);
    breaker.record_failure();
    assert_eq!(breaker.get_state(), CircuitState::Open);
}

#[test]
fn too_few_requests_have_no_error_rate() {
    let config = CircuitBreakerConfig {
        failure_threshold: 100,
        ..Default::default()
    };
    let mut breaker = CircuitBreaker::new(config, "a:b", "B");
    for _ in 0..9 {
        breaker.record_failure();
    }
    assert_eq!(breaker.get_state(), CircuitState::Closed);
    breaker.record_failure();
    assert_eq!(breaker.get_state(), CircuitState::Open);
}

#[test]
fn error_rate_must_exceed_the_threshold() {
    let config = CircuitBreakerConfig {
        failure_threshold: 10,
        success_threshold: 2,
        timeout_seconds: 60,
        error_rate_threshold: ErrorRate::from_bits(0.5f64.to_bits()),
        min_requests: 2,
    };
    let mut breaker = CircuitBreaker::new(config, "k", "n");
    breaker.record_success();
    breaker.record_failure();
    assert_eq!(breaker.get_state(), CircuitState::Closed);
    breaker.record_failure();
    assert_eq!(breaker.get_state(), CircuitState::Open);
}

#[test]
fn counters_agree() {
    let config = CircuitBreakerConfig {
        failure_threshold: 3,
        timeout_seconds: 0,
        ..Default::default()
    };
    let mut breaker = CircuitBreaker::new(config, "a:b", "B");
    for success in [true, false, false, true, false, false, false, true, true, false, true] {
        breaker.allow_request();
        if success {
            breaker.record_success();
        } else {
            breaker.record_failure();
        }
        let stats = breaker.get_stats();
        assert!(stats.consecutive_failures <= stats.failed_requests);
        assert!(stats.failed_requests <= stats.total_requests);
        assert!(stats.consecutive_successes <= stats.total_requests - stats.failed_requests);
        assert!(stats.state == CircuitState::HalfOpen || stats.consecutive_successes == 0);
        assert!(stats.state != CircuitState::Closed || stats.consecutive_failures < 3);
    }
}

#[test]
fn open_breaker_waits_for_its_timeout() {
    let mut breaker = CircuitBreaker::new(CircuitBreakerConfig::default(), "a:b", "B");
    breaker.transition_to_open();
    assert!(!breaker.is_available_after(59));
    assert!(!breaker.allow_request_after(59).allowed);
    assert_eq!(breaker.get_state(), CircuitState::Open);
    assert!(breaker.is_available_after(60));
    assert_eq!(breaker.get_state(), CircuitState::HalfOpen);
    assert_eq!(breaker.get_half_open_requests_for_test(), 0);
}

#[test]
fn due_breaker_lets_one_probe_through() {
    let mut breaker = CircuitBreaker::new(CircuitBreakerConfig::default(), "a:b", "B");
    breaker.transition_to_open();
    let probe = breaker.allow_request_after(60);
    assert!(probe.allowed);
    assert_eq!(probe.permit.as_ref().map(|p| p.circuit_key().to_string()), Some("a:b".to_string()));
    assert!(!breaker.allow_request_after(60).allowed);
    assert_eq!(breaker.get_half_open_requests_for_test(), 1);
}

#[test]
fn failed_probe_opens_again() {
    let config = CircuitBreakerConfig {
        timeout_seconds: 0,
        ..Default::default()
    };
    let mut breaker = CircuitBreaker::new(config, "a:b", "B");
    breaker.transition_to_open();
    assert!(breaker.allow_request().allowed);
    breaker.record_failure();
    assert_eq!(breaker.get_state(), CircuitState::Open);
    assert_eq!(breaker.get_half_open_requests_for_test(), 0);
}

#[test]
fn closed_breaker_gives_no_permit() {
    let mut breaker = CircuitBreaker::new(CircuitBreakerConfig::default(), "a:b", "B");
    let answer = breaker.allow_request();
    assert!(answer.allowed);
    assert!(answer.permit.is_none());
    assert!(breaker.is_available());
    assert_eq!(breaker.circuit_key(), "a:b");
    assert_eq!(breaker.provider_name(), "B");
    assert_eq!(breaker.open_secs(), 0);
}

#[test]
fn releasing_without_permit_changes_nothing() {
    let mut breaker = CircuitBreaker::new(CircuitBreakerConfig::default(), "a:b", "B");
    let before = breaker.get_stats();
    breaker.release_half_open_permit();
    assert_eq!(breaker.get_stats(), before);
}

#[test]
fn new_limits_keep_the_counters() {
    let mut breaker = CircuitBreaker::new(CircuitBreakerConfig::default(), "a:b", "B");
    breaker.record_failure();
    breaker.record_failure();
    breaker.update_config(CircuitBreakerConfig {
        failure_threshold: 3,
        error_rate_threshold: ErrorRate::Never,
        ..Default::default()
    });
    assert_eq!(breaker.get_stats().consecutive_failures, 2);
    assert_eq!(breaker.get_state(), CircuitState::Closed);
    breaker.record_failure();
    assert_eq!(breaker.get_state(), CircuitState::Open);
}

#[test]
fn seconds_are_counted_from_the_last_opening() {
    let mut breaker = CircuitBreaker::new(CircuitBreakerConfig::default(), "a:b", "B");
    let opened_at = Instant::now().checked_sub(Duration::from_millis(61500)).unwrap();
    breaker.transition_to_open_at(opened_at);
    assert!(breaker.open_secs() >= 61);
    assert!(breaker.open_secs() < 90);
    assert!(breaker.is_available());
    assert_eq!(breaker.get_state(), CircuitState::HalfOpen);

    breaker.transition_to_open();
    assert!(breaker.open_secs() < 30);
    assert!(!breaker.is_available());
}
