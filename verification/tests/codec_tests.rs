use mycron::codec::{decode_schedule_request, JobScheduleRequest, JobScheduleResponse, JobScheduleStatus};
use mycron::error::ClientError;

#[test]
fn test_encode_schedule_request_exact_body() {
    let request = JobScheduleRequest::new("* * * * * *", "echo hello");
    assert_eq!(
        request.json(),
        "{\"cron\":\"* * * * * *\",\"command\":\"echo hello\"}"
    );
}

#[test]
fn test_encode_escapes_special_characters() {
    let request = JobScheduleRequest::new("* * * * * *", "say \"hi\\there\"\n\u{1}");
    assert_eq!(
        request.json(),
        "{\"cron\":\"* * * * * *\",\"command\":\"say \\\"hi\\\\there\\\"\\n\\u0001\"}"
    );
}

#[test]
fn test_request_round_trip() {
    let cases = vec![
        ("* * * * * *", "echo hello"),
        ("0 0 12 * * 1-5", "backup --all \"quoted\""),
        ("*/5 * * * * *", "line1\nline2\ttabbed\\slash"),
        ("1 2 3 4 5 6", "\u{1}\u{2}control\u{1f}"),
    ];
    for (cron, command) in cases {
        let body = JobScheduleRequest::new(cron, command).json();
        let decoded = decode_schedule_request(&body).unwrap();
        assert_eq!(decoded.cron, cron);
        assert_eq!(decoded.command, command);
    }
}

#[test]
fn test_decode_request_rejects_bad_bodies() {
    assert!(decode_schedule_request("").is_err());
    assert!(decode_schedule_request("{}").is_err());
    assert!(decode_schedule_request("{\"cron\":\"* * * * * *\"}").is_err());
    assert!(decode_schedule_request("{\"cron\":\"a\",\"cron\":\"b\",\"command\":\"c\"}").is_err());
    assert!(decode_schedule_request("{\"cron\":\"a\",\"command\":\"c\",\"extra\":\"d\"}").is_err());
    assert!(decode_schedule_request("{\"cron\":\"a\",\"command\":\"c\"} trailing").is_err());
}

#[test]
fn test_decode_response_scheduled() {
    let body = "{\"job_id\":\"job123\",\"next_run\":{\"secs\":90,\"nanos\":0},\"status\":\"s\"}";
    let response = JobScheduleResponse::from_str(body).unwrap();
    assert_eq!(response.job_id, "job123");
    assert_eq!(response.next_run.secs, 90);
    assert_eq!(response.next_run.nanos, 0);
    assert_eq!(response.status, JobScheduleStatus::Scheduled);
    let message = response.message();
    assert!(message.contains("scheduled"));
    assert!(message.contains("job123"));
    assert_eq!(message, "Job scheduled successfully, job-id: job123, next-run: 90s");
}

#[test]
fn test_decode_response_failed_status_and_field_order() {
    let body = " { \"status\" : \"f\" , \"next_run\" : { \"nanos\" : 500 , \"secs\" : 2 } , \"job_id\" : \"xyz\" } ";
    let response = JobScheduleResponse::from_str(body).unwrap();
    assert_eq!(response.job_id, "xyz");
    assert_eq!(response.next_run.secs, 2);
    assert_eq!(response.next_run.nanos, 500);
    assert_eq!(response.status, JobScheduleStatus::Failed);
    assert_eq!(response.message(), "Job scheduling failed, job-id: xyz, next-run: 2s");
}

#[test]
fn test_decode_response_rejects_unknown_status_tag() {
    let body = "{\"job_id\":\"job123\",\"next_run\":{\"secs\":90,\"nanos\":0},\"status\":\"x\"}";
    let err = JobScheduleResponse::from_str(body).unwrap_err();
    assert!(matches!(err, ClientError::Serde(_)));
}

#[test]
fn test_decode_response_rejects_malformed_bodies() {
    let cases = vec![
        "",
        "not json",
        "{\"job_id\":\"a\",\"next_run\":{\"secs\":1,\"nanos\":0}}",
        "{\"job_id\":\"a\",\"job_id\":\"b\",\"next_run\":{\"secs\":1,\"nanos\":0},\"status\":\"s\"}",
        "{\"job_id\":\"a\",\"next_run\":{\"secs\":1,\"nanos\":1000000000},\"status\":\"s\"}",
        "{\"job_id\":\"a\",\"next_run\":{\"secs\":99999999999999999999999,\"nanos\":0},\"status\":\"s\"}",
        "{\"job_id\":\"a\",\"next_run\":{\"secs\":1,\"nanos\":0},\"status\":\"s\",\"more\":\"x\"}",
    ];
    for case in cases {
        assert!(
            JobScheduleResponse::from_str(case).is_err(),
            "expected decode failure for `{}`",
            case
        );
    }
}

#[test]
fn test_decode_response_unescapes_strings() {
    let body = "{\"job_id\":\"a\\\"b\\\\c\\nd\\u0009e\",\"next_run\":{\"secs\":0,\"nanos\":0},\"status\":\"s\"}";
    let response = JobScheduleResponse::from_str(body).unwrap();
    assert_eq!(response.job_id, "a\"b\\c\nd\te");
}
