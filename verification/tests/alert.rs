use sentinel::alert::logger::LogAlertDispatcher;
use sentinel::alert::{Alert, AlertEvaluator, AlertType, ResourceState};
use sentinel::cli::OutputFormat;
use sentinel::config::AppConfig;

fn make_config(cpu_threshold: u8, ram_threshold: u8, consecutive: u32) -> AppConfig {
    AppConfig {
        interval: 5,
        format: OutputFormat::Json,
        output_dir: "./logs".to_string(),
        cpu_threshold,
        ram_threshold,
        alert_consecutive: consecutive,
        max_file_size_mb: 10,
        rotate_every: None,
        max_files: 10,
        webhook_url: None,
        buffer_size: 10,
        verbose: false,
    }
}

/// Evaluates a snapshot with the given CPU and RAM usage, comparing the
/// gauges with the thresholds as the engine does, and pairs each alert with
/// the reading that triggered it.
fn evaluate(
    evaluator: &mut AlertEvaluator,
    config: &AppConfig,
    cpu_usage: f32,
    ram_usage: f32,
) -> Vec<(Alert, f32)> {
    let cpu_above = cpu_usage >= f32::from(config.cpu_threshold);
    let ram_above = ram_usage >= f32::from(config.ram_threshold);
    evaluator
        .evaluate("2026-04-27T12:00:00Z", cpu_above, ram_above, config)
        .into_iter()
        .map(|alert| {
            let value = match alert.alert_type {
                AlertType::Cpu => cpu_usage,
                _ => ram_usage,
            };
            (alert, value)
        })
        .collect()
}

#[test]
fn no_alert_when_below_threshold() {
    let mut evaluator = AlertEvaluator::new();
    let config = make_config(90, 85, 3);

    let alerts = evaluate(&mut evaluator, &config, 50.0, 40.0);

    assert!(alerts.is_empty());
}

#[test]
fn no_alert_when_above_for_fewer_than_n_readings() {
    let mut evaluator = AlertEvaluator::new();
    let config = make_config(90, 85, 3);

    assert!(evaluate(&mut evaluator, &config, 95.0, 90.0).is_empty());
    assert!(evaluate(&mut evaluator, &config, 95.0, 90.0).is_empty());
}

#[test]
fn alert_fires_at_exactly_n_consecutive_readings() {
    let mut evaluator = AlertEvaluator::new();
    let config = make_config(90, 85, 3);

    evaluate(&mut evaluator, &config, 95.0, 90.0);
    evaluate(&mut evaluator, &config, 95.0, 90.0);
    let alerts = evaluate(&mut evaluator, &config, 95.0, 90.0);

    assert_eq!(alerts.len(), 2);
    assert_eq!(alerts[0].0.alert_type, AlertType::Cpu);
    assert_eq!(alerts[0].0.consecutive_readings, 3);
    assert_eq!(alerts[1].0.alert_type, AlertType::Ram);
}

#[test]
fn debounce_prevents_repeated_alerts() {
    let mut evaluator = AlertEvaluator::new();
    let config = make_config(90, 85, 3);

    for _ in 0..3 {
        evaluate(&mut evaluator, &config, 95.0, 90.0);
    }

    let alerts = evaluate(&mut evaluator, &config, 95.0, 90.0);
    assert!(alerts.is_empty());

    let alerts = evaluate(&mut evaluator, &config, 95.0, 90.0);
    assert!(alerts.is_empty());
}

#[test]
fn alert_fires_again_after_reset_and_new_consecutive_readings() {
    let mut evaluator = AlertEvaluator::new();
    let config = make_config(90, 85, 3);

    for _ in 0..3 {
        evaluate(&mut evaluator, &config, 95.0, 90.0);
    }

    evaluate(&mut evaluator, &config, 50.0, 40.0);

    evaluate(&mut evaluator, &config, 95.0, 90.0);
    evaluate(&mut evaluator, &config, 95.0, 90.0);
    let alerts = evaluate(&mut evaluator, &config, 95.0, 90.0);

    assert_eq!(alerts.len(), 2);
    assert_eq!(alerts[0].0.alert_type, AlertType::Cpu);
    assert_eq!(alerts[1].0.alert_type, AlertType::Ram);
}

#[test]
fn partial_sequence_resets_on_low_reading() {
    let mut evaluator = AlertEvaluator::new();
    let config = make_config(90, 85, 3);

    evaluate(&mut evaluator, &config, 95.0, 90.0);
    evaluate(&mut evaluator, &config, 95.0, 90.0);
    evaluate(&mut evaluator, &config, 50.0, 40.0);

    evaluate(&mut evaluator, &config, 95.0, 90.0);
    evaluate(&mut evaluator, &config, 95.0, 90.0);
    let alerts = evaluate(&mut evaluator, &config, 95.0, 90.0);

    assert_eq!(alerts.len(), 2);
}

#[test]
fn cpu_alert_independent_of_ram() {
    let mut evaluator = AlertEvaluator::new();
    let config = make_config(90, 85, 3);

    for _ in 0..2 {
        evaluate(&mut evaluator, &config, 95.0, 40.0);
    }
    let alerts = evaluate(&mut evaluator, &config, 95.0, 40.0);

    assert_eq!(alerts.len(), 1);
    assert_eq!(alerts[0].0.alert_type, AlertType::Cpu);
}

#[test]
fn fires_immediately_when_consecutive_is_one() {
    let mut evaluator = AlertEvaluator::new();
    let config = make_config(90, 85, 1);

    let alerts = evaluate(&mut evaluator, &config, 95.0, 90.0);

    assert_eq!(alerts.len(), 2);
}

#[test]
fn fires_when_value_exactly_equals_threshold() {
    let mut evaluator = AlertEvaluator::new();
    let config = make_config(90, 85, 3);

    for _ in 0..2 {
        evaluate(&mut evaluator, &config, 90.0, 85.0);
    }
    let alerts = evaluate(&mut evaluator, &config, 90.0, 85.0);

    assert_eq!(alerts.len(), 2);
    assert_eq!(alerts[0].0.alert_type, AlertType::Cpu);
    assert_eq!(alerts[1].0.alert_type, AlertType::Ram);
    assert_eq!(alerts[0].0.consecutive_readings, 3);
    assert_eq!(alerts[0].1, 90.0);
    assert_eq!(alerts[1].1, 85.0);
    assert_eq!(alerts[0].0.threshold, 90);
    assert_eq!(alerts[1].0.threshold, 85);
}

#[test]
fn collection_failure_emits_a_single_health_alert_until_success() {
    let mut evaluator = AlertEvaluator::new();

    let first = evaluator
        .record_collection_failure("2026-04-28T12:00:00Z")
        .expect("first failure should alert");
    let second = evaluator.record_collection_failure("2026-04-28T12:00:01Z");

    assert_eq!(first.alert_type, AlertType::Collector);
    assert_eq!(first.consecutive_readings, 1);
    assert_eq!(
        first.message.as_deref(),
        Some("system metric collection failed")
    );
    assert!(second.is_none());
}

#[test]
fn collection_success_resets_health_alert_debounce() {
    let mut evaluator = AlertEvaluator::new();
    let config = make_config(90, 85, 3);

    evaluator.record_collection_failure("2026-04-28T12:00:00Z");
    assert!(evaluator
        .record_collection_failure("2026-04-28T12:00:01Z")
        .is_none());

    let _ = evaluate(&mut evaluator, &config, 10.0, 10.0);

    let after_reset = evaluator
        .record_collection_failure("2026-04-28T12:00:02Z")
        .expect("failure after success should alert again");

    assert_eq!(after_reset.alert_type, AlertType::Collector);
    assert_eq!(after_reset.consecutive_readings, 1);
}

#[test]
fn alerts_carry_the_snapshot_timestamp_and_thresholds() {
    let mut evaluator = AlertEvaluator::new();
    let config = make_config(70, 60, 1);

    let alerts = evaluator.evaluate("2026-01-02T03:04:05Z", true, true, &config);

    assert_eq!(alerts.len(), 2);
    assert_eq!(alerts[0].timestamp, "2026-01-02T03:04:05Z");
    assert_eq!(alerts[0].threshold, 70);
    assert_eq!(alerts[0].consecutive_readings, 1);
    assert_eq!(alerts[0].message, None);
    assert_eq!(alerts[1].threshold, 60);
    assert_eq!(alerts[1].timestamp, "2026-01-02T03:04:05Z");
}

#[test]
fn consecutive_counts_follow_the_readings() {
    let mut evaluator = AlertEvaluator::default();
    let config = make_config(90, 85, 5);

    evaluator.evaluate("t", true, false, &config);
    evaluator.evaluate("t", true, true, &config);
    assert_eq!(evaluator.cpu_consecutive(), 2);
    assert_eq!(evaluator.ram_consecutive(), 1);

    evaluator.evaluate("t", false, true, &config);
    assert_eq!(evaluator.cpu_consecutive(), 0);
    assert_eq!(evaluator.ram_consecutive(), 2);

    evaluator.record_collection_failure("t");
    evaluator.record_collection_failure("t");
    assert_eq!(evaluator.collector_consecutive(), 2);
    assert_eq!(evaluator.cpu_consecutive(), 0);
}

#[test]
fn zero_required_readings_fires_on_the_first_high_reading() {
    let mut state = ResourceState::new();

    assert!(state.update(true, 0));
    assert!(!state.update(true, 0));
    assert!(!state.update(false, 0));
    assert!(state.update(true, 0));
}

#[test]
fn resource_state_fires_once_per_run() {
    let mut state = ResourceState::new();
    let readings = [true, true, true, true, false, true, true, false, true, true, true];
    let fired: Vec<bool> = readings.iter().map(|&r| state.update(r, 3)).collect();

    assert_eq!(
        fired,
        vec![false, false, true, false, false, false, false, false, false, false, true]
    );
    assert_eq!(state.consecutive_count(), 3);
}

#[test]
fn log_dispatcher_texts() {
    let dispatcher = LogAlertDispatcher::new();
    let _default = LogAlertDispatcher::default();

    assert_eq!(dispatcher.label(AlertType::Cpu), "CPU");
    assert_eq!(dispatcher.label(AlertType::Ram), "RAM");
    assert_eq!(dispatcher.label(AlertType::Collector), "COLLECTOR");
    assert_eq!(
        dispatcher.headline(AlertType::Cpu),
        "ALERT: CPU usage exceeded threshold"
    );
    assert_eq!(
        dispatcher.headline(AlertType::Ram),
        "ALERT: RAM usage exceeded threshold"
    );
    assert_eq!(
        dispatcher.headline(AlertType::Collector),
        "ALERT: collector health degraded"
    );

    let with_message = Alert {
        alert_type: AlertType::Collector,
        threshold: 1,
        consecutive_readings: 1,
        timestamp: "t".to_string(),
        message: Some("disk query failed".to_string()),
    };
    assert_eq!(dispatcher.failure_detail(&with_message), "disk query failed");
    let without_message = Alert {
        message: None,
        ..with_message
    };
    assert_eq!(dispatcher.failure_detail(&without_message), "collector failure");
}
