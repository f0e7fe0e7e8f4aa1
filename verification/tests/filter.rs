use karate_monitor::filter::LogFilter;
use karate_monitor::log_parser::ApiLogEntry;

#[test]
fn test_level_filter() {
    let filter = LogFilter::new("WARN", &[], &[]);

    let info_log = ApiLogEntry {
        level: "INFO".to_string(),
        msg: "test".to_string(),
        ..Default::default()
    };

    let error_log = ApiLogEntry {
        level: "ERROR".to_string(),
        msg: "test".to_string(),
        ..Default::default()
    };

    assert!(!filter.should_include_api(&info_log));
    assert!(filter.should_include_api(&error_log));
}

#[test]
fn test_exclude_pattern() {
    let filter = LogFilter::new("ALL", &[], &["health.*check".to_string()]);

    let health_log = ApiLogEntry {
        level: "INFO".to_string(),
        msg: "health check".to_string(),
        ..Default::default()
    };

    let normal_log = ApiLogEntry {
        level: "INFO".to_string(),
        msg: "normal request".to_string(),
        ..Default::default()
    };

    assert!(!filter.should_include_api(&health_log));
    assert!(filter.should_include_api(&normal_log));
}

#[test]
fn test_include_pattern_must_match() {
    let filter = LogFilter::new("ALL", &["karte".to_string()], &[]);

    let matching = ApiLogEntry {
        uri: Some("/api/v1/karte/outcome".to_string()),
        ..Default::default()
    };
    let other = ApiLogEntry {
        uri: Some("/api/v1/patients".to_string()),
        ..Default::default()
    };

    assert!(filter.should_include_api(&matching));
    assert!(!filter.should_include_api(&other));
}

#[test]
fn test_invalid_patterns_are_dropped() {
    let filter = LogFilter::new("ALL", &["([".to_string()], &["(".to_string()]);
    assert_eq!(filter.include_patterns.len(), 0);
    assert_eq!(filter.exclude_patterns.len(), 0);
    // With every pattern dropped, everything passes.
    assert!(filter.should_include_line("anything"));
}

#[test]
fn test_should_include_line() {
    let filter = LogFilter::new("ALL", &[], &["secret".to_string()]);
    assert!(filter.should_include_line("ordinary output"));
    assert!(!filter.should_include_line("a secret token"));
}
