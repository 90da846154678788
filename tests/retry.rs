use entra_id_backend::error::{EntraIdError, FetchFailure, FetchFailureKind};
use entra_id_backend::retry::{is_retryable_error, RetryConfig, RetryDecision};

fn failure(kind: FetchFailureKind) -> FetchFailure {
    FetchFailure { kind, message: String::new() }
}

fn status(code: u16) -> FetchFailure {
    failure(FetchFailureKind::Status(code))
}

/// Counts the attempts of a fetch whose requests meet `outcomes` in turn.
fn attempts(config: &RetryConfig, outcomes: &[Option<FetchFailure>]) -> u32 {
    let mut n: u32 = 0;
    for outcome in outcomes {
        n += 1;
        match outcome {
            None => return n,
            Some(f) => {
                if config.on_fetch_failure(n, f) == RetryDecision::GiveUp {
                    return n;
                }
            }
        }
    }
    n
}

#[test]
fn retry_config_rejects_bad_parameters() {
    assert!(matches!(RetryConfig::new(0, 100, 2000, 800, 1200, 5000), Err(EntraIdError::Initialize(_))));
    assert!(matches!(RetryConfig::new(3, 100, 999, 800, 1200, 5000), Err(EntraIdError::Initialize(_))));
    assert!(matches!(RetryConfig::new(3, 100, 2000, 1300, 1200, 5000), Err(EntraIdError::Initialize(_))));
    assert!(matches!(RetryConfig::new(3, 100, 2000, 800, 1200, 0), Err(EntraIdError::Initialize(_))));
    assert!(RetryConfig::new(3, 100, 1000, 1000, 1000, 5000).is_ok());
}

#[test]
fn retryable_errors() {
    assert!(is_retryable_error(&failure(FetchFailureKind::Timeout)));
    assert!(is_retryable_error(&failure(FetchFailureKind::Connect)));
    assert!(is_retryable_error(&status(429)));
    assert!(is_retryable_error(&status(500)));
    assert!(is_retryable_error(&status(503)));
    assert!(is_retryable_error(&status(599)));
    assert!(!is_retryable_error(&status(400)));
    assert!(!is_retryable_error(&status(404)));
    assert!(!is_retryable_error(&status(600)));
    assert!(!is_retryable_error(&failure(FetchFailureKind::Other)));
}

#[test]
fn backoff_grows_and_is_capped() {
    let c = RetryConfig::new(10, 100, 2000, 1000, 1000, 1000).unwrap();
    assert_eq!(c.delay_with_jitter(1, 1000), 100);
    assert_eq!(c.delay_with_jitter(2, 1000), 200);
    assert_eq!(c.delay_with_jitter(3, 1000), 400);
    assert_eq!(c.delay_with_jitter(4, 1000), 800);
    assert_eq!(c.delay_with_jitter(5, 1000), 1000);
    assert_eq!(c.delay_with_jitter(4_000_000_000, 1000), 1000);
    // Jitter scales the wait.
    assert_eq!(c.delay_with_jitter(2, 1200), 240);
    assert_eq!(c.delay_with_jitter(2, 800), 160);
    assert_eq!(c.delay_with_jitter(2, 0), 0);
    // Products are rounded down at each step: 100 * 1.5 * 1.5 = 225.
    let c = RetryConfig::new(10, 100, 1500, 1000, 1000, 10_000).unwrap();
    assert_eq!(c.delay_with_jitter(3, 1000), 225);
    assert_eq!(c.delay_with_jitter(0, 1000), 100);
    // The product is rounded down once: 1 * 1.5 * 1.5 = 2.25 gives 2.
    let c = RetryConfig::new(10, 1, 1500, 1000, 1000, 10_000).unwrap();
    assert_eq!(c.delay_with_jitter(3, 1000), 2);
    assert_eq!(c.delay_with_jitter(5, 1000), 5);
    // 7 * 1.5 * 1.5 * 1.5 * 0.9 = 21.2625.
    let c = RetryConfig::new(10, 7, 1500, 900, 900, 10_000).unwrap();
    assert_eq!(c.delay_with_jitter(4, 900), 21);
    // A factor of 1 keeps the initial wait, however many attempts.
    let c = RetryConfig::new(10, 300, 1000, 1000, 1000, 10_000).unwrap();
    assert_eq!(c.delay_with_jitter(4_000_000_000, 1500), 450);
    // A slow growth still reaches the cap.
    let c = RetryConfig::new(10, 1, 1001, 1000, 1000, 60_000).unwrap();
    assert_eq!(c.delay_with_jitter(4_000_000_000, 1000), 60_000);
}

#[test]
fn random_delay_stays_in_jitter_range() {
    let c = RetryConfig::new(10, 1000, 1000, 800, 1200, 60_000).unwrap();
    for _ in 0..50 {
        let d = c.calculate_delay(1);
        assert!((800..=1200).contains(&d));
    }
}

#[test]
fn transient_failures_then_success_take_four_attempts() {
    let c = RetryConfig::new(5, 1, 2000, 0, 0, 10).unwrap();
    let outcomes = vec![Some(status(429)), Some(status(500)), Some(status(503)), None];
    assert_eq!(attempts(&c, &outcomes), 4);
}

#[test]
fn bad_request_aborts_after_one_attempt() {
    let c = RetryConfig::new(5, 1, 2000, 0, 0, 10).unwrap();
    let outcomes = vec![Some(status(400)), None];
    assert_eq!(attempts(&c, &outcomes), 1);
}

#[test]
fn attempts_are_bounded() {
    let c = RetryConfig::new(2, 1, 2000, 0, 0, 10).unwrap();
    let outcomes = vec![Some(status(500)), Some(status(500)), Some(status(500)), None];
    assert_eq!(attempts(&c, &outcomes), 2);
    assert_eq!(c.max_attempts(), 2);
}

#[test]
fn retry_waits_the_backoff() {
    let c = RetryConfig::new(5, 100, 2000, 1000, 1000, 10_000).unwrap();
    assert_eq!(c.on_fetch_failure(2, &status(503)), RetryDecision::RetryAfter(200));
    assert_eq!(c.on_fetch_failure(5, &status(503)), RetryDecision::GiveUp);
}
