use mycron::cli::{CliArgs, CliSubcommand, ParseError};
use mycron::cron::{validate_cron_expression, CronError};
use mycron::error::AppError;

fn parse_args(args: &str) -> Result<CliArgs, ParseError> {
    let parts: Vec<String> = shell_words::split(args).expect("Failed to split shell-style args");
    CliArgs::try_parse_from(&parts)
}

#[test]
fn test_create_subcommand_valid() {
    let args = parse_args(
        "appname schedule --when '* * * * * *' --run 'echo hello' --server https://xyz.com -v",
    )
    .unwrap();

    if let CliSubcommand::Schedule(create_args) = args.subcommand() {
        assert_eq!(create_args.run(), "echo hello");
        assert_eq!(create_args.when(), "* * * * * *");
        assert_eq!(create_args.server(), "https://xyz.com");
        assert!(create_args.isverbose());
    } else {
        panic!("Expected `schedule` subcommand");
    }
}

#[test]
fn test_create_subcommand_invalid_schedule() {
    let err = parse_args(
        "appname schedule --when '* * * * *' --run 'echo hello' --server https://xyz.com",
    )
    .unwrap_err();
    assert!(
        err.message().contains("Invalid cron expression"),
        "Expected invalid cron error, got: {}",
        err.message()
    );
}

#[test]
fn test_create_subcommand_missing_server() {
    let err = parse_args("appname schedule --when '* * * * * *' --run 'echo hello'").unwrap_err();
    assert!(
        err.message().contains("--server"),
        "Expected missing server error, got: {}",
        err.message()
    );
}

#[test]
fn test_list_subcommand() {
    let args = parse_args("appname jobs --server https://xyz.com").unwrap();

    if let CliSubcommand::Jobs(list_args) = args.subcommand() {
        assert_eq!(list_args.server(), "https://xyz.com");
        assert!(!list_args.isverbose());
    } else {
        panic!("Expected List subcommand");
    }
}

#[test]
fn test_delete_subcommand() {
    let args = parse_args("appname cancel --job-id job123 --server https://xyz.com -v").unwrap();

    if let CliSubcommand::Cancel(delete_args) = args.subcommand() {
        assert_eq!(delete_args.job_id(), "job123");
        assert_eq!(delete_args.server(), "https://xyz.com");
        assert!(delete_args.isverbose());
    } else {
        panic!("Expected Delete subcommand");
    }
}

#[test]
fn test_logs_subcommand() {
    let args = parse_args("appname logs --job-id job123 --server https://xyz.com").unwrap();

    if let CliSubcommand::Logs(logs_args) = args.subcommand() {
        assert_eq!(logs_args.job_id(), "job123");
        assert_eq!(logs_args.server(), "https://xyz.com");
        assert!(!logs_args.isverbose());
    } else {
        panic!("Expected Logs subcommand");
    }
}

#[test]
fn test_missing_server_on_every_command() {
    let cases = vec![
        "appname schedule --when '* * * * * *' --run 'echo hello'",
        "appname jobs",
        "appname cancel --job-id job123",
        "appname logs --job-id job123",
    ];
    for case in cases {
        let err = parse_args(case).unwrap_err();
        assert!(
            err.message().contains("--server"),
            "Expected missing server error for `{}`, got: {}",
            case,
            err.message()
        );
    }
}

#[test]
fn test_unknown_command_and_flag() {
    let err = parse_args("appname frobnicate --server https://xyz.com").unwrap_err();
    assert!(err.message().contains("unrecognized command"));

    let err = parse_args("appname jobs --server https://xyz.com --frob x").unwrap_err();
    assert!(err.message().contains("unexpected argument"));
}

#[test]
fn test_flag_without_value_and_duplicate_flag() {
    let err = parse_args("appname jobs --server").unwrap_err();
    assert!(matches!(err, ParseError::MissingValue(_)));

    let err = parse_args("appname jobs --server https://a.com --server https://b.com").unwrap_err();
    assert!(matches!(err, ParseError::DuplicateFlag(_)));
}

#[test]
fn test_cron_validator_accepts_valid_six_field_expressions() {
    let cases = vec![
        "* * * * * *",
        "0 0 12 1 1 0",
        "0/5 1-10,20 * 1 12 0-6",
        "59 59 23 31 12 6",
        "*/2 * * * * *",
    ];
    for case in cases {
        let out = validate_cron_expression(case).unwrap();
        assert_eq!(out, case);
    }
}

#[test]
fn test_cron_validator_rejects_wrong_field_count() {
    assert_eq!(
        validate_cron_expression("* * * * *").unwrap_err(),
        CronError::WrongFieldCount(5)
    );
    assert_eq!(validate_cron_expression("").unwrap_err(), CronError::WrongFieldCount(0));
    assert_eq!(
        validate_cron_expression("* * * * *").unwrap_err().message(),
        "Invalid cron expression"
    );
    assert_eq!(
        validate_cron_expression("* * * * * * *").unwrap_err(),
        CronError::WrongFieldCount(7)
    );
}

#[test]
fn test_cron_validator_rejects_out_of_range_and_malformed() {
    assert_eq!(
        validate_cron_expression("60 * * * * *").unwrap_err(),
        CronError::InvalidField(0)
    );
    assert_eq!(
        validate_cron_expression("* * 24 * * *").unwrap_err(),
        CronError::InvalidField(2)
    );
    assert_eq!(
        validate_cron_expression("* * * 0 * *").unwrap_err(),
        CronError::InvalidField(3)
    );
    assert_eq!(
        validate_cron_expression("* * * * 13 *").unwrap_err(),
        CronError::InvalidField(4)
    );
    assert_eq!(
        validate_cron_expression("* * * * * 7").unwrap_err(),
        CronError::InvalidField(5)
    );
    assert_eq!(
        validate_cron_expression("a * * * * *").unwrap_err(),
        CronError::InvalidField(0)
    );
    assert_eq!(
        validate_cron_expression("5-1 * * * * *").unwrap_err(),
        CronError::InvalidField(0)
    );
    assert_eq!(
        validate_cron_expression("*/0 * * * * *").unwrap_err(),
        CronError::InvalidField(0)
    );
    assert_eq!(
        validate_cron_expression("1,,2 * * * * *").unwrap_err(),
        CronError::InvalidField(0)
    );
    assert!(validate_cron_expression("* * * * * *").is_ok());
}

#[test]
fn test_app_error_exit_codes() {
    let cli = AppError::Cli(ParseError::MissingCommand);
    assert_eq!(cli.exit_code(), 2);
    let client = AppError::Client(mycron::error::ClientError::Init("boom".to_string()));
    assert_eq!(client.exit_code(), 10);
    assert_eq!(client.message(), "Client initialization failed: boom");
}
