use sentinel::cli::{
    parse_buffer_size, parse_interval, parse_max_file_size, parse_percentage, CliArgs, CliError,
    CliFlag, OutputFormat,
};

#[test]
fn parses_documented_defaults() {
    let args = CliArgs::try_parse_from(&["sentinel"]).expect("default CLI args should parse");

    assert_eq!(args.interval, 5);
    assert_eq!(args.format, OutputFormat::Json);
    assert_eq!(args.output_dir, "./logs");
    assert_eq!(args.cpu_threshold, 90);
    assert_eq!(args.ram_threshold, 85);
    assert_eq!(args.alert_consecutive, 3);
    assert_eq!(args.max_file_size, 10);
    assert_eq!(args.rotate_every, 0);
    assert_eq!(args.max_files, 10);
    assert_eq!(args.webhook_url, None);
    assert_eq!(args.buffer_size, 10);
    assert!(!args.verbose);
}

#[test]
fn rejects_interval_below_minimum() {
    let result = CliArgs::try_parse_from(&["sentinel", "--interval", "0"]);

    assert!(result.is_err());
}

#[test]
fn rejects_thresholds_outside_percentage_range() {
    let cpu_result = CliArgs::try_parse_from(&["sentinel", "--cpu-threshold", "101"]);
    let ram_result = CliArgs::try_parse_from(&["sentinel", "--ram-threshold", "-1"]);

    assert!(cpu_result.is_err());
    assert!(ram_result.is_err());
}

#[test]
fn rejects_max_file_size_below_minimum() {
    let result = CliArgs::try_parse_from(&["sentinel", "--max-file-size", "0"]);

    assert!(result.is_err());
}

#[test]
fn rejects_interval_zero_with_a_message_naming_the_interval() {
    let err = CliArgs::try_parse_from(&["sentinel", "--interval", "0"]).unwrap_err();

    assert_eq!(
        err,
        CliError::InvalidValue(
            CliFlag::Interval,
            "0".to_string(),
            "interval must be at least 1 second".to_string()
        )
    );
    assert!(err.message().contains("interval"));
    assert_eq!(
        err.message(),
        "invalid value '0' for '--interval': interval must be at least 1 second"
    );
}

#[test]
fn rejects_invalid_format() {
    let err = CliArgs::try_parse_from(&["sentinel", "--format", "xml"]).unwrap_err();

    assert!(matches!(err, CliError::InvalidValue(CliFlag::Format, _, _)));
}

#[test]
fn rejects_buffer_size_zero() {
    let err = CliArgs::try_parse_from(&["sentinel", "--buffer-size", "0"]).unwrap_err();

    assert!(matches!(err, CliError::InvalidValue(CliFlag::BufferSize, _, _)));
}

#[test]
fn rejects_max_file_size_zero_with_its_reason() {
    let err = CliArgs::try_parse_from(&["sentinel", "--max-file-size", "0"]).unwrap_err();

    assert_eq!(
        err,
        CliError::InvalidValue(
            CliFlag::MaxFileSize,
            "0".to_string(),
            "max-file-size must be at least 1 MB".to_string()
        )
    );
}

#[test]
fn parses_every_option_in_long_and_short_forms() {
    let args = CliArgs::try_parse_from(&[
        "sentinel",
        "-i",
        "15",
        "--format=csv",
        "-o",
        "/var/log/sentinel",
        "--cpu-threshold",
        "80",
        "--ram-threshold=70",
        "--alert-consecutive",
        "4",
        "--max-file-size",
        "32",
        "--rotate-every",
        "6",
        "--max-files",
        "12",
        "--webhook-url",
        "https://example.com/hook",
        "--buffer-size",
        "24",
        "-v",
    ])
    .expect("all options should parse");

    assert_eq!(args.interval, 15);
    assert_eq!(args.format, OutputFormat::Csv);
    assert_eq!(args.output_dir, "/var/log/sentinel");
    assert_eq!(args.cpu_threshold, 80);
    assert_eq!(args.ram_threshold, 70);
    assert_eq!(args.alert_consecutive, 4);
    assert_eq!(args.max_file_size, 32);
    assert_eq!(args.rotate_every, 6);
    assert_eq!(args.max_files, 12);
    assert_eq!(args.webhook_url.as_deref(), Some("https://example.com/hook"));
    assert_eq!(args.buffer_size, 24);
    assert!(args.verbose);
}

#[test]
fn parses_clustered_short_flags_with_attached_value() {
    let args = CliArgs::try_parse_from(&["sentinel", "-vi7"]).expect("cluster should parse");

    assert!(args.verbose);
    assert_eq!(args.interval, 7);
}

#[test]
fn help_and_version_requests_stop_parsing() {
    assert_eq!(
        CliArgs::try_parse_from(&["sentinel", "--help"]),
        Err(CliError::HelpRequested)
    );
    assert_eq!(
        CliArgs::try_parse_from(&["sentinel", "-V"]),
        Err(CliError::VersionRequested)
    );
}

#[test]
fn rejects_unknown_duplicate_and_valueless_arguments() {
    assert_eq!(
        CliArgs::try_parse_from(&["sentinel", "--colour"]),
        Err(CliError::UnknownArgument("--colour".to_string()))
    );
    assert_eq!(
        CliArgs::try_parse_from(&["sentinel", "extra"]),
        Err(CliError::UnknownArgument("extra".to_string()))
    );
    assert_eq!(
        CliArgs::try_parse_from(&["sentinel", "-i", "5", "--interval", "6"]),
        Err(CliError::DuplicateArgument(CliFlag::Interval))
    );
    assert_eq!(
        CliArgs::try_parse_from(&["sentinel", "--interval"]),
        Err(CliError::MissingValue(CliFlag::Interval))
    );
    assert_eq!(
        CliArgs::try_parse_from(&["sentinel", "--verbose=yes"]),
        Err(CliError::UnexpectedValue(CliFlag::Verbose))
    );
}

#[test]
fn error_messages_name_the_option() {
    assert_eq!(
        CliError::MissingValue(CliFlag::OutputDir).message(),
        "a value is required for '--output-dir' but none was supplied"
    );
    assert_eq!(
        CliError::DuplicateArgument(CliFlag::MaxFiles).message(),
        "the argument '--max-files' cannot be used multiple times"
    );
    assert_eq!(
        CliError::UnexpectedValue(CliFlag::Verbose).message(),
        "unexpected value for '--verbose': the flag takes no value"
    );
    assert_eq!(
        CliError::UnknownArgument("x".to_string()).message(),
        "unexpected argument 'x' found"
    );
    assert_eq!(CliFlag::WebhookUrl.long_name(), "webhook-url");
}

#[test]
fn value_parsers_follow_their_ranges() {
    assert_eq!(parse_interval("1"), Ok(1));
    assert_eq!(parse_interval("+9"), Ok(9));
    assert_eq!(
        parse_interval("0"),
        Err("interval must be at least 1 second".to_string())
    );
    assert_eq!(
        parse_interval("five"),
        Err("interval must be a positive integer".to_string())
    );
    assert_eq!(
        parse_interval("-3"),
        Err("interval must be a positive integer".to_string())
    );

    assert_eq!(parse_percentage("0"), Ok(0));
    assert_eq!(parse_percentage("100"), Ok(100));
    assert_eq!(parse_percentage("-0"), Ok(0));
    assert_eq!(
        parse_percentage("101"),
        Err("threshold must be between 0 and 100".to_string())
    );
    assert_eq!(
        parse_percentage("-1"),
        Err("threshold must be between 0 and 100".to_string())
    );
    assert_eq!(
        parse_percentage("40000"),
        Err("threshold must be an integer between 0 and 100".to_string())
    );
    assert_eq!(
        parse_percentage("12.5"),
        Err("threshold must be an integer between 0 and 100".to_string())
    );

    assert_eq!(parse_max_file_size("1"), Ok(1));
    assert_eq!(
        parse_max_file_size("0"),
        Err("max-file-size must be at least 1 MB".to_string())
    );
    assert_eq!(
        parse_max_file_size("18446744073709551616"),
        Err("max-file-size must be a positive integer".to_string())
    );

    assert_eq!(parse_buffer_size("3"), Ok(3));
    assert!(parse_buffer_size("0").is_err());
}

#[test]
fn every_option_is_found_by_its_long_name() {
    let value_options = [
        CliFlag::Interval,
        CliFlag::Format,
        CliFlag::OutputDir,
        CliFlag::CpuThreshold,
        CliFlag::RamThreshold,
        CliFlag::AlertConsecutive,
        CliFlag::MaxFileSize,
        CliFlag::RotateEvery,
        CliFlag::MaxFiles,
        CliFlag::WebhookUrl,
        CliFlag::BufferSize,
    ];
    for flag in value_options {
        let option = format!("--{}", flag.long_name());
        assert_eq!(
            CliArgs::try_parse_from(&["sentinel", option.as_str()]),
            Err(CliError::MissingValue(flag))
        );
    }
    assert!(CliArgs::try_parse_from(&["sentinel", "--verbose"]).unwrap().verbose);
    assert_eq!(
        CliArgs::try_parse_from(&["sentinel", "--version"]),
        Err(CliError::VersionRequested)
    );
}

#[test]
fn a_separate_value_may_not_look_like_an_option() {
    assert_eq!(
        CliArgs::try_parse_from(&["sentinel", "--output-dir", "--verbose"]),
        Err(CliError::MissingValue(CliFlag::OutputDir))
    );
    assert_eq!(
        CliArgs::try_parse_from(&["sentinel", "--output-dir", "-"]).unwrap().output_dir,
        "-"
    );
    assert_eq!(
        CliArgs::try_parse_from(&["sentinel", "--cpu-threshold=-0"]).unwrap().cpu_threshold,
        0
    );
}
