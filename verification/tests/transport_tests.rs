use mycron::codec::JobScheduleStatus;
use mycron::error::ClientError;
use mycron::present::conclude_schedule;
use mycron::transport::{
    backoff_delay, next_decision, plan_get, plan_schedule, run_attempts, AttemptOutcome, Endpoint,
    HttpClientConfig, RetryDecision,
};

fn config_with(max_retries: u32) -> HttpClientConfig {
    HttpClientConfig::with_base_url("https://x.com")
        .max_retries(max_retries)
        .build()
        .unwrap()
}

#[test]
fn test_builder_defaults_and_overrides() {
    let config = HttpClientConfig::with_base_url("https://x.com").build().unwrap();
    assert_eq!(config.timeout_ms, 4000);
    assert_eq!(config.max_retries, 3);
    assert_eq!(config.retry_delay_ms, 1000);
    // URL parsing normalizes the base: the builder does not echo its input.
    assert_eq!(config.base_url, "https://x.com/");

    let config = HttpClientConfig::with_base_url("https://x.com")
        .timeout(250)
        .max_retries(1)
        .retry_delay(10)
        .build()
        .unwrap();
    assert_eq!(config.timeout_ms, 250);
    assert_eq!(config.max_retries, 1);
    assert_eq!(config.retry_delay_ms, 10);
}

#[test]
fn test_builder_rejects_invalid_url() {
    let err = HttpClientConfig::with_base_url("not a url").build().unwrap_err();
    assert!(matches!(err, ClientError::Url(_)));
    assert_eq!(err.message(), "URL error: not a url");
}

#[test]
fn test_endpoint_paths() {
    assert_eq!(Endpoint::Schedule.as_path(), "schedule");
    assert_eq!(Endpoint::Jobs.as_path(), "jobs");
    assert_eq!(Endpoint::Logs.as_path(), "logs");
    assert_eq!(Endpoint::Cancel.as_path(), "cancel");
}

#[test]
fn test_plan_schedule_resolves_url_and_encodes_body() {
    let config = config_with(2);
    let (url, body) = plan_schedule(&config, "* * * * * *", "echo hello").unwrap();
    assert_eq!(url, "https://x.com/schedule");
    assert_eq!(body, "{\"cron\":\"* * * * * *\",\"command\":\"echo hello\"}");

    let url = plan_get(&config, &Endpoint::Jobs).unwrap();
    assert_eq!(url, "https://x.com/jobs");
}

#[test]
fn test_backoff_doubles_and_saturates() {
    assert_eq!(backoff_delay(1000, 0), 1000);
    assert_eq!(backoff_delay(1000, 1), 2000);
    assert_eq!(backoff_delay(1000, 2), 4000);
    assert_eq!(backoff_delay(u64::MAX - 1, 1), u64::MAX);
    assert_eq!(backoff_delay(u64::MAX, 3), u64::MAX);
}

#[test]
fn test_transient_then_success_recovers() {
    let config = config_with(2);
    let outcomes = vec![
        AttemptOutcome::Response { status: 500, body: "oops".to_string() },
        AttemptOutcome::Response { status: 200, body: "fine".to_string() },
    ];
    let (used, delays, result) = run_attempts(&config, &outcomes).unwrap();
    assert_eq!(used, 2);
    assert!(used <= (config.max_retries + 1) as usize);
    assert_eq!(delays, vec![1000]);
    assert_eq!(result.unwrap(), "fine");
}

#[test]
fn test_fatal_status_never_retried() {
    let config = config_with(3);
    let outcomes = vec![
        AttemptOutcome::Response { status: 404, body: "no such job".to_string() },
        AttemptOutcome::Response { status: 200, body: "never reached".to_string() },
    ];
    let (used, delays, result) = run_attempts(&config, &outcomes).unwrap();
    assert_eq!(used, 1);
    assert!(delays.is_empty());
    match result.unwrap_err() {
        ClientError::ApiError { status, body } => {
            assert_eq!(status, 404);
            assert_eq!(body, "no such job");
        },
        other => panic!("expected an API error, got: {}", other.message()),
    }
}

#[test]
fn test_exhausted_retries_surface_last_failure() {
    let config = config_with(1);
    let outcomes = vec![
        AttemptOutcome::Transient("timeout".to_string()),
        AttemptOutcome::Transient("reset".to_string()),
    ];
    let (used, delays, result) = run_attempts(&config, &outcomes).unwrap();
    assert_eq!(used, 2);
    assert_eq!(delays, vec![1000]);
    match result.unwrap_err() {
        ClientError::Network(reason) => assert_eq!(reason, "reset"),
        other => panic!("expected a network error, got: {}", other.message()),
    }

    // A 5xx that survives the budget is classified as an API error.
    let outcomes = vec![
        AttemptOutcome::Response { status: 503, body: "a".to_string() },
        AttemptOutcome::Response { status: 502, body: "b".to_string() },
    ];
    let (used, delays, result) = run_attempts(&config, &outcomes).unwrap();
    assert_eq!(used, 2);
    assert_eq!(delays, vec![1000]);
    match result.unwrap_err() {
        ClientError::ApiError { status, body } => {
            assert_eq!(status, 502);
            assert_eq!(body, "b");
        },
        other => panic!("expected an API error, got: {}", other.message()),
    }
}

#[test]
fn test_backoff_schedule_over_several_retries() {
    let config = HttpClientConfig::with_base_url("https://x.com")
        .max_retries(3)
        .retry_delay(100)
        .build()
        .unwrap();
    let outcomes = vec![
        AttemptOutcome::Transient("t1".to_string()),
        AttemptOutcome::Transient("t2".to_string()),
        AttemptOutcome::Transient("t3".to_string()),
        AttemptOutcome::Response { status: 204, body: "".to_string() },
    ];
    let (used, delays, result) = run_attempts(&config, &outcomes).unwrap();
    assert_eq!(used, 4);
    assert_eq!(delays, vec![100, 200, 400]);
    assert_eq!(result.unwrap(), "");
}

#[test]
fn test_run_attempts_needs_an_outcome_per_attempt() {
    // The replay stops with nothing when the recorded outcomes end while the
    // policy still wants to retry.
    let config = config_with(3);
    let outcomes = vec![AttemptOutcome::Transient("timeout".to_string())];
    assert!(run_attempts(&config, &outcomes).is_none());
}

#[test]
fn test_next_decision_cases() {
    let config = config_with(2);
    match next_decision(&config, 0, AttemptOutcome::Response { status: 200, body: "ok".to_string() })
    {
        RetryDecision::Succeed(body) => assert_eq!(body, "ok"),
        _ => panic!("expected success"),
    }
    match next_decision(&config, 0, AttemptOutcome::Response { status: 500, body: "e".to_string() })
    {
        RetryDecision::Retry { delay_ms } => assert_eq!(delay_ms, 1000),
        _ => panic!("expected a retry"),
    }
    match next_decision(&config, 2, AttemptOutcome::Transient("reset".to_string())) {
        RetryDecision::Fail(ClientError::Network(reason)) => assert_eq!(reason, "reset"),
        _ => panic!("expected a network failure"),
    }
}

#[test]
fn test_conclude_schedule() {
    let body = "{\"job_id\":\"j9\",\"next_run\":{\"secs\":30,\"nanos\":0},\"status\":\"s\"}";
    let message = conclude_schedule(Ok(body.to_string())).unwrap();
    assert_eq!(message, "Job scheduled successfully, job-id: j9, next-run: 30s");
    assert_eq!(JobScheduleStatus::Scheduled, JobScheduleStatus::Scheduled);

    let err = conclude_schedule(Ok("not json".to_string())).unwrap_err();
    assert!(matches!(err, ClientError::Serde(_)));

    let err = conclude_schedule(Err(ClientError::Network("down".to_string()))).unwrap_err();
    assert_eq!(err.message(), "Network error: down");
}

#[test]
fn test_api_error_message_carries_status_and_body() {
    let err = ClientError::ApiError { status: 404, body: "missing".to_string() };
    assert_eq!(err.message(), "API error (status: 404): missing");
}
