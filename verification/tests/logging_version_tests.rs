use tondi_seeder::logging::{format_structured_message, log_setup, LogDirProbe, rotation_period, HealthStatus, LogLevel, LoggingConfig, LoggingStats, RotationPeriod, RotationStrategy};
use tondi_seeder::version::{version, version_info, VersionInfo};

#[test]
fn test_logging_config_default() {
    let config = LoggingConfig::default();
    assert_eq!(config.level, "info");
    assert!(!config.no_log_files);
    assert_eq!(config.log_dir, "logs");
    assert_eq!(config.max_file_size_mb, 100);
    assert_eq!(config.max_files, 5);
    assert!(config.console_output);
    assert!(!config.json_format);
    assert_eq!(config.rotation_strategy, "daily");
    assert_eq!(config.rotation_interval_hours, 24);
    assert!(config.compress_rotated_logs);
    assert_eq!(config.compression_level, 6);
    assert!(config.include_hostname);
    assert!(config.include_pid);
    assert!(config.enable_buffering);
    assert_eq!(config.buffer_size_bytes, 64 * 1024);
}

#[test]
fn test_health_status() {
    let mut health = HealthStatus::new();
    assert!(health.is_healthy);
    assert!(health.issues.is_empty());

    health.add_issue("Test issue".to_string());
    assert!(!health.is_healthy);
    assert_eq!(health.issues.len(), 1);
    assert_eq!(health.issues[0], "Test issue");

    health.clear_issues();
    assert!(health.is_healthy);
    assert!(health.issues.is_empty());
}

#[test]
fn test_logging_stats() {
    let mut stats = LoggingStats::default();
    assert_eq!(stats.total_logs, 0);

    stats.increment_log(LogLevel::Info);
    assert_eq!(stats.total_logs, 1);
    assert_eq!(stats.info_logs, 1);

    stats.increment_log(LogLevel::Error);
    assert_eq!(stats.total_logs, 2);
    assert_eq!(stats.error_logs, 1);
}

#[test]
fn test_format_structured_message() {
    let message = "Test message";
    let fields = [("key1", "value1"), ("key2", "value2")];

    let formatted = format_structured_message(message, &fields);
    assert_eq!(formatted, "Test message | key1=value1 key2=value2");

    let formatted_no_fields = format_structured_message(message, &[]);
    assert_eq!(formatted_no_fields, "Test message");
}

#[test]
fn rotation_strategy_names() {
    assert_eq!(RotationStrategy::from("daily"), RotationStrategy::Daily);
    assert_eq!(RotationStrategy::from("HOURLY"), RotationStrategy::Hourly);
    assert_eq!(RotationStrategy::from("Size"), RotationStrategy::Size);
    assert_eq!(RotationStrategy::from("hyBrid"), RotationStrategy::Hybrid);
    assert_eq!(RotationStrategy::from("weekly"), RotationStrategy::Daily);
    assert_eq!(RotationStrategy::from(""), RotationStrategy::Daily);
    assert_eq!(rotation_period(RotationStrategy::Size), RotationPeriod::Never);
    assert_eq!(rotation_period(RotationStrategy::Hybrid), RotationPeriod::Daily);
    assert_eq!(rotation_period(RotationStrategy::Hourly), RotationPeriod::Hourly);
}

#[test]
fn rotation_info_line() {
    let config = LoggingConfig::default();
    assert_eq!(
        config.get_rotation_info(),
        "Strategy: daily, Interval: 24h, Max Size: 100MB, Compress: true"
    );
}

#[test]
fn uptime_and_rotation_counters() {
    let mut health = HealthStatus::new();
    health.update_uptime_at(1_000_000_000, 4_500_000_000);
    assert_eq!(health.uptime_seconds, 3);
    health.update_uptime_at(5_000_000_000, 4_000_000_000);
    assert_eq!(health.uptime_seconds, 3);
    let mut stats = LoggingStats::new();
    stats.record_rotation(true);
    stats.record_rotation(false);
    assert_eq!(stats.total_rotations, 2);
    assert_eq!(stats.total_compressed_files, 1);
    assert!(stats.last_rotation_time.is_some());
}

#[test]
fn test_version_info_creation() {
    let version_info = VersionInfo::new();
    assert!(!version_info.version.is_empty());
    assert!(!version_info.git_commit.is_empty());
    assert!(!version_info.build_date.is_empty());
    assert!(!version_info.rust_version.is_empty());
}

#[test]
fn test_version_function() {
    let version_str = version();
    assert!(!version_str.is_empty());
    assert_eq!(version_str, "0.1.0");
}

#[test]
fn test_version_info_to_string() {
    let version_info = VersionInfo::new();
    let version_string = version_info.to_string();
    assert!(version_string.contains("tondi_seeder"));
    assert!(version_string.contains(&version_info.version));
}

#[test]
fn version_info_default_and_line() {
    let v = VersionInfo::default();
    assert_eq!(v.to_string(), "tondi_seeder v0.1.0 (commit: unknown, built: unknown, rust: unknown)");
    assert_eq!(version_info().version(), "0.1.0");
    assert_eq!(v.git_commit(), "unknown");
}

#[test]
fn log_setup_follows_the_configuration() {
    let mut config = LoggingConfig::default();
    config.rotation_strategy = "HOURLY".to_string();
    config.level = "debug".to_string();
    let setup = log_setup(&config);
    assert_eq!(setup.level, "debug");
    assert!(setup.console);
    assert_eq!(setup.create_dir.as_deref(), Some("logs"));
    let app = setup.app_log.expect("app log");
    assert_eq!(app.dir, "logs");
    assert_eq!(app.file, "tondi_seeder.log");
    assert_eq!(app.period, RotationPeriod::Hourly);
    let error = setup.error_log.expect("error log");
    assert_eq!(error.file, "tondi_seeder_error.log");
    assert_eq!(error.period, RotationPeriod::Hourly);
    config.no_log_files = true;
    let setup = log_setup(&config);
    assert!(setup.create_dir.is_none());
    assert!(setup.app_log.is_none());
    assert!(setup.error_log.is_none());
}

#[test]
fn log_health_lists_what_the_probe_found() {
    let config = LoggingConfig::default();
    let mut health = HealthStatus::new();
    health.add_issue("old".to_string());
    let probe = LogDirProbe {
        dir_exists: false,
        write_error: Some("permission denied".to_string()),
        app_appender: true,
        error_appender: false,
    };
    health.check_logs_at(&config, &probe, 77);
    assert!(!health.is_healthy);
    assert_eq!(
        health.issues,
        vec![
            "Log directory does not exist: logs".to_string(),
            "Cannot write to log directory: permission denied".to_string(),
            "Error log appender not initialized".to_string(),
        ]
    );
    assert_eq!(health.last_check, 77);
    let fine = LogDirProbe { dir_exists: true, write_error: None, app_appender: true, error_appender: true };
    health.check_logs_at(&config, &fine, 78);
    assert!(health.is_healthy);
    assert!(health.issues.is_empty());
    let mut off = config.clone();
    off.no_log_files = true;
    health.check_logs_at(&off, &probe, 79);
    assert!(health.is_healthy);
}
