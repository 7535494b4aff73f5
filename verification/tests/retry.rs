use mediaforge::MediaForgeError;
use mediaforge::RetryConfig;
use mediaforge::run_retry;

#[test]
fn test_retry_config() {
    let config = RetryConfig::for_network();
    assert_eq!(config.max_attempts, 5);
    assert_eq!(config.base_delay, 3);

    // Test exponential backoff
    assert_eq!(config.calculate_delay(1), 3); // Base delay for first retry
    assert_eq!(config.calculate_delay(2), 6); // 2x base delay
    assert_eq!(config.calculate_delay(3), 12); // 4x base delay
    assert!(config.calculate_delay(10) <= config.max_delay); // Capped at max
}

#[test]
fn test_retry_mechanism() {
    let config = RetryConfig {
        max_attempts: 3,
        base_delay: 0, // No delay for testing
        max_delay: 0,
        exponential_backoff: false,
    };

    // Test successful retry: two failures, then success, in three calls.
    let outcomes: Vec<Result<String, MediaForgeError>> = vec![
        Err(MediaForgeError::NetworkError("Temporary failure".to_string())),
        Err(MediaForgeError::NetworkError("Temporary failure".to_string())),
        Ok("Success".to_string()),
    ];
    let (result, call_count) = run_retry(&config, outcomes);
    assert!(result.is_ok());
    assert_eq!(result.unwrap(), "Success");
    assert_eq!(call_count, 3);

    // Test non-retryable error
    let outcomes2: Vec<Result<String, MediaForgeError>> = vec![
        Err(MediaForgeError::InvalidUrl("Bad URL".to_string())),
        Err(MediaForgeError::InvalidUrl("Bad URL".to_string())),
        Err(MediaForgeError::InvalidUrl("Bad URL".to_string())),
    ];
    let (result2, call_count2) = run_retry(&config, outcomes2);
    assert!(result2.is_err());
    // Should fail immediately without retries for non-retryable errors
    assert_eq!(call_count2, 1);
}

#[test]
fn retry_exhaustion_surfaces_last_error() {
    let config = RetryConfig {
        max_attempts: 3,
        base_delay: 0,
        max_delay: 0,
        exponential_backoff: false,
    };
    let outcomes: Vec<Result<u32, MediaForgeError>> = vec![
        Err(MediaForgeError::NetworkError("first".to_string())),
        Err(MediaForgeError::NetworkError("second".to_string())),
        Err(MediaForgeError::NetworkError("third".to_string())),
    ];
    let (result, calls) = run_retry(&config, outcomes);
    assert_eq!(calls, 3);
    match result {
        Err(MediaForgeError::NetworkError(m)) => assert_eq!(m, "third"),
        _ => panic!("expected the last network error"),
    }
}

#[test]
fn retry_stops_at_first_success() {
    let config = RetryConfig::for_network();
    let outcomes: Vec<Result<u32, MediaForgeError>> = vec![
        Ok(7),
        Err(MediaForgeError::NetworkError("never seen".to_string())),
        Ok(8),
        Ok(9),
        Ok(10),
    ];
    let (result, calls) = run_retry(&config, outcomes);
    assert_eq!(result.unwrap(), 7);
    assert_eq!(calls, 1);
}

#[test]
fn retry_zero_budget_reports_exhaustion() {
    let config = RetryConfig {
        max_attempts: 0,
        base_delay: 0,
        max_delay: 0,
        exponential_backoff: false,
    };
    let outcomes: Vec<Result<u32, MediaForgeError>> = vec![];
    let (result, calls) = run_retry(&config, outcomes);
    assert_eq!(calls, 0);
    match result {
        Err(MediaForgeError::TemporaryError(m)) => {
            assert_eq!(m, "All retry attempts exhausted")
        },
        _ => panic!("expected exhaustion error"),
    }
}

#[test]
fn default_config_and_flat_backoff() {
    let d = RetryConfig::default();
    assert_eq!(d.max_attempts, 3);
    assert_eq!(d.base_delay, 2);
    assert_eq!(d.max_delay, 60);
    assert!(d.exponential_backoff);

    let fs = RetryConfig::for_filesystem();
    assert_eq!(fs.max_attempts, 2);
    assert_eq!(fs.base_delay, 1);
    assert!(!fs.exponential_backoff);
    // A flat policy always waits the base delay.
    assert_eq!(fs.calculate_delay(1), 1);
    assert_eq!(fs.calculate_delay(7), 1);

    // The exponential cap binds exactly.
    let net = RetryConfig::for_network();
    assert_eq!(net.calculate_delay(4), 24);
    assert_eq!(net.calculate_delay(5), 30);
    assert_eq!(net.calculate_delay(6), 30);
}
