use meilibridge::error::retry::{
    after_failure, capped_delay, io_error_retryable, next_retry, postgres_error_retryable, IoErrorKind,
    PostgresErrorInfo, RetryConfig, RetryPolicy, RetryStep,
};
use meilibridge::error::{MeiliBridgeError, Retryable};

fn config(jitter: bool) -> RetryConfig {
    RetryConfig { max_retries: 2, initial_delay_ms: 100, max_delay_ms: 1000, multiplier: 0x4000_0000_0000_0000, jitter }
}

#[test]
fn default_retry_config_values() {
    let c = RetryConfig::default();
    assert_eq!(c.max_retries, 3);
    assert_eq!(c.initial_delay_ms, 1000);
    assert_eq!(c.max_delay_ms, 60000);
    assert_eq!(f64::from_bits(c.multiplier), 2.0);
    assert!(c.jitter);
}

#[test]
fn policies_give_their_configuration() {
    assert!(RetryPolicy::Disabled.config().is_none());
    assert_eq!(RetryPolicy::Default.config().unwrap().max_retries, 3);
    assert_eq!(RetryPolicy::Custom(config(false)).config().unwrap().max_retries, 2);
}

#[test]
fn retries_stop_at_the_limit() {
    let c = config(false);
    assert_eq!(next_retry(&c, 0, 100, true, 0), RetryStep::Retry { attempt: 1, wait_ms: 100 });
    assert_eq!(next_retry(&c, 1, 200, true, 0), RetryStep::Retry { attempt: 2, wait_ms: 200 });
    assert_eq!(next_retry(&c, 2, 400, true, 0), RetryStep::GiveUp);
    assert_eq!(next_retry(&c, 0, 100, false, 0), RetryStep::GiveUp);
}

#[test]
fn jitter_is_added_and_saturates() {
    let c = config(true);
    assert_eq!(next_retry(&c, 0, 100, true, 20), RetryStep::Retry { attempt: 1, wait_ms: 120 });
    assert_eq!(next_retry(&c, 0, u64::MAX, true, 5), RetryStep::Retry { attempt: 1, wait_ms: u64::MAX });
}

#[test]
fn random_jitter_stays_within_a_quarter() {
    let c = config(true);
    for _ in 0..50 {
        match after_failure(&c, 0, 400, true) {
            RetryStep::Retry { attempt, wait_ms } => {
                assert_eq!(attempt, 1);
                assert!((400..=500).contains(&wait_ms));
            }
            RetryStep::GiveUp => panic!("should retry"),
        }
    }
    assert_eq!(after_failure(&c, 2, 400, true), RetryStep::GiveUp);
}

#[test]
fn delays_are_capped() {
    let c = config(false);
    assert_eq!(capped_delay(800, &c), 800);
    assert_eq!(capped_delay(1600, &c), 1000);
}

#[test]
fn io_error_kinds_that_retry() {
    assert!(io_error_retryable(IoErrorKind::TimedOut));
    assert!(io_error_retryable(IoErrorKind::WouldBlock));
    assert!(!io_error_retryable(IoErrorKind::Other));
}

#[test]
fn postgres_errors_that_retry() {
    let by_code = |c: &str| PostgresErrorInfo { code: Some(c.to_string()), closed: false, io_kind: None };
    assert!(postgres_error_retryable(&by_code("40001")));
    assert!(postgres_error_retryable(&by_code("08006")));
    assert!(!postgres_error_retryable(&by_code("23505")));
    assert!(postgres_error_retryable(&PostgresErrorInfo { code: None, closed: true, io_kind: None }));
    assert!(postgres_error_retryable(&PostgresErrorInfo {
        code: None,
        closed: false,
        io_kind: Some(IoErrorKind::ConnectionReset)
    }));
    assert!(!postgres_error_retryable(&PostgresErrorInfo {
        code: None,
        closed: false,
        io_kind: Some(IoErrorKind::WouldBlock)
    }));
    assert!(!postgres_error_retryable(&PostgresErrorInfo { code: None, closed: false, io_kind: None }));
}

#[test]
fn bridge_errors_that_retry() {
    assert!(MeiliBridgeError::Io("x".to_string()).is_retryable());
    assert!(MeiliBridgeError::Database("x".to_string()).is_retryable());
    assert!(MeiliBridgeError::Meilisearch("request timeout".to_string()).is_retryable());
    assert!(MeiliBridgeError::Meilisearch("Too Many Requests".to_string()).is_retryable());
    assert!(!MeiliBridgeError::Meilisearch("bad request".to_string()).is_retryable());
    assert!(!MeiliBridgeError::Validation("x".to_string()).is_retryable());
}
