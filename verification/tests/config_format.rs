use karate_monitor::config::{Config, DisplayConfig};
use karate_monitor::export::ExportFormat;
use karate_monitor::formatter::LogFormatter;
use karate_monitor::log_parser::LogType;

#[test]
fn test_export_format_from_str() {
    assert_eq!(ExportFormat::from_str("json"), ExportFormat::Json);
    assert_eq!(ExportFormat::from_str("JSON"), ExportFormat::Json);
    assert_eq!(ExportFormat::from_str("text"), ExportFormat::Text);
    assert_eq!(ExportFormat::from_str("txt"), ExportFormat::Text);
    assert_eq!(ExportFormat::from_str("Both"), ExportFormat::Both);
    assert_eq!(ExportFormat::from_str("anything"), ExportFormat::Json);
}

#[test]
fn test_config_defaults() {
    let config = Config::default();
    assert_eq!(config.api.command, "/go/bin/api");
    assert_eq!(config.api.health_url, "http://localhost:1323/");
    assert_eq!(config.api.health_timeout_secs, 30);
    assert_eq!(config.api.health_interval_secs, 1);
    assert_eq!(config.karate.jar_path, "/app/karate.jar");
    assert_eq!(config.karate.threads, 1);
    assert_eq!(config.karate.default_test_path, "/tests");
    assert_eq!(config.logging.level, "ALL");
    assert!(config.logging.colors);
    assert_eq!(config.logging.export_format, "json");
    assert_eq!(config.display.api_prefix, "\u{1f537}");
    assert_eq!(config.display.error_prefix, "\u{274c}");
    assert!(config.analysis.track_sql);
    assert!(!config.analysis.failed_only);
}

#[test]
fn test_formatter_prefixes() {
    let formatter = LogFormatter::new(DisplayConfig::default());
    let failing = "scenarios:  2 | passed:  1 | failed:  1 | time: 0.4675";
    let passing = "scenarios:  2 | passed:  2 | failed:  0 | time: 0.4675";

    let out = formatter.format_karate_log(failing, &LogType::KarateSummary);
    assert!(out.starts_with("\u{274c}\u{1f536} "));

    let out = formatter.format_karate_log(passing, &LogType::KarateSummary);
    assert!(out.starts_with("\u{2705}\u{1f536} "));

    let out = formatter.format_karate_log("status code was: 500, expected: 200", &LogType::KarateFailure);
    assert!(out.starts_with("\u{274c}\u{1f536} "));
}

#[test]
fn test_formatter_api_prefix_by_category() {
    let formatter = LogFormatter::new(DisplayConfig::default());
    let mut entry = karate_monitor::log_parser::ApiLogEntry::default();
    entry.sql = Some("SELECT 1".to_string());
    let out = formatter.format_api_log(&entry, "{\"sql\":\"SELECT 1\"}");
    assert!(out.starts_with("\u{1f5c3}\u{fe0f}\u{1f537} "));

    let mut entry = karate_monitor::log_parser::ApiLogEntry::default();
    entry.level = "ERROR".to_string();
    let out = formatter.format_api_log(&entry, "{\"level\":\"ERROR\"}");
    assert!(out.starts_with("\u{274c}\u{1f537} "));
}
