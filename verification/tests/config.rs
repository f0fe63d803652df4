use sentinel::cli::{CliArgs, OutputFormat};
use sentinel::config::{AppConfig, ConfigError, WebhookUrl};

fn sample_args() -> CliArgs {
    CliArgs {
        interval: 15,
        format: OutputFormat::Csv,
        output_dir: "./custom-logs".to_string(),
        cpu_threshold: 80,
        ram_threshold: 70,
        alert_consecutive: 4,
        max_file_size: 32,
        rotate_every: 6,
        max_files: 12,
        webhook_url: Some("https://example.com/hook".to_string()),
        buffer_size: 24,
        verbose: true,
    }
}

#[test]
fn converts_cli_values_to_semantic_types() {
    let config = AppConfig::try_from(sample_args()).expect("config conversion should succeed");

    assert_eq!(config.interval, 15);
    assert_eq!(config.format, OutputFormat::Csv);
    assert_eq!(config.output_dir, "./custom-logs");
    assert_eq!(config.cpu_threshold, 80);
    assert_eq!(config.ram_threshold, 70);
    assert_eq!(config.alert_consecutive, 4);
    assert_eq!(config.max_file_size_mb, 32);
    assert_eq!(config.rotate_every, Some(6 * 60 * 60));
    assert_eq!(config.max_files, 12);
    assert_eq!(
        config.webhook_url.as_ref().map(|u| u.as_str()),
        Some(
            WebhookUrl::parse("https://example.com/hook")
                .expect("URL should be valid")
                .as_str()
        )
    );
    assert_eq!(config.buffer_size, 24);
    assert!(config.verbose);
}

#[test]
fn maps_disabled_time_rotation_to_none() {
    let mut args = sample_args();
    args.rotate_every = 0;

    let config = AppConfig::try_from(args).expect("config conversion should succeed");

    assert_eq!(config.rotate_every, None);
}

#[test]
fn rejects_rotate_every_values_that_overflow_seconds() {
    let mut args = sample_args();
    args.rotate_every = u64::MAX / 60;

    let result = AppConfig::try_from(args);

    assert!(matches!(result, Err(ConfigError::RotateEveryTooLarge(_))));
}

#[test]
fn debug_output_redacts_webhook_url() {
    let config = AppConfig::try_from(sample_args()).expect("config conversion should succeed");

    let debug_output = config.redacted_debug();

    assert!(
        !debug_output.contains("https://example.com/hook"),
        "debug output must not expose the full webhook URL"
    );
    assert!(
        debug_output.contains("<redacted>"),
        "debug output should indicate the webhook URL was redacted"
    );
}

#[test]
fn invalid_webhook_url_errors_do_not_echo_the_secret() {
    let mut args = sample_args();
    args.webhook_url = Some("hooks.slack.com/services/T000/B000/very-secret-token".to_string());

    let error_text = match AppConfig::try_from(args) {
        Ok(_) => panic!("invalid webhook URL should fail"),
        Err(e) => e.message(),
    };

    assert!(
        !error_text.contains("very-secret-token"),
        "invalid webhook URL errors must not echo secret values"
    );
    assert_eq!(error_text, "invalid webhook URL");
}

#[test]
fn debug_output_has_the_shape_of_the_struct_debug() {
    let config = AppConfig::try_from(sample_args()).expect("config conversion should succeed");

    assert_eq!(
        config.redacted_debug(),
        "AppConfig { interval: 15s, format: Csv, output_dir: \"./custom-logs\", \
         cpu_threshold: 80, ram_threshold: 70, alert_consecutive: 4, max_file_size_mb: 32, \
         rotate_every: Some(21600s), max_files: 12, webhook_url: Some(\"<redacted>\"), \
         buffer_size: 24, verbose: true }"
    );

    let mut args = sample_args();
    args.webhook_url = None;
    args.rotate_every = 0;
    args.interval = 0;
    let config = AppConfig::try_from(args).expect("config conversion should succeed");
    let text = config.redacted_debug();
    assert!(text.contains("interval: 0ns"));
    assert!(text.contains("rotate_every: None"));
    assert!(text.contains("webhook_url: None"));
}

#[test]
fn rotate_every_error_names_the_hours() {
    let mut args = sample_args();
    args.rotate_every = u64::MAX;

    match AppConfig::try_from(args) {
        Err(e) => {
            assert_eq!(e, ConfigError::RotateEveryTooLarge(u64::MAX));
            assert_eq!(
                e.message(),
                "rotate-every is too large to convert from hours to seconds: 18446744073709551615"
            );
        }
        Ok(_) => panic!("overflowing rotation period should fail"),
    }
}

#[test]
fn largest_rotation_period_that_fits_is_accepted() {
    let mut args = sample_args();
    args.rotate_every = u64::MAX / 3600;

    let config = AppConfig::try_from(args).expect("the period fits in seconds");

    assert_eq!(config.rotate_every, Some((u64::MAX / 3600) * 3600));
}

#[test]
fn webhook_url_parts_come_from_the_url_parser() {
    let url = WebhookUrl::parse("https://discord.com:8443/api/webhooks/123/secret?x=1")
        .expect("URL should be valid");

    assert_eq!(url.scheme(), "https");
    assert_eq!(url.host_str(), Some("discord.com"));
    assert_eq!(url.port(), Some(8443));
    assert_eq!(url.path(), "/api/webhooks/123/secret");
    assert_eq!(
        url.as_str(),
        "https://discord.com:8443/api/webhooks/123/secret?x=1"
    );

    let default_port = WebhookUrl::parse("HTTPS://Example.COM:443/a/../b").expect("valid");
    assert_eq!(default_port.port(), None);
    assert_eq!(default_port.host_str(), Some("example.com"));
    assert_eq!(default_port.path(), "/b");

    assert!(WebhookUrl::parse("not a url").is_none());
}

#[test]
fn debug_output_renders_the_directory_as_a_path() {
    let mut args = sample_args();
    args.output_dir = "./it's \"logs\"\t".to_string();
    let config = AppConfig::try_from(args).expect("config conversion should succeed");

    assert!(config.redacted_debug().contains(&format!(
        "output_dir: {:?}",
        std::path::PathBuf::from("./it's \"logs\"\t")
    )));
}
