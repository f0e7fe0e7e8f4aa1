use karate_monitor::log_parser::{
    extract_failure_url, extract_feature_name, extract_path_query, is_batch_line,
    is_per_feature_summary, json_part_of, parse_karate_line, parse_karate_summary,
    short_feature_name, ApiLogEntry, LogLevel, LogType,
};

#[test]
fn test_parse_karate_summary() {
    let line = "scenarios:  2 | passed:  1 | failed:  1 | time: 0.4675";
    let result = parse_karate_summary(line).unwrap();
    assert_eq!(result.total_scenarios, 2);
    assert_eq!(result.passed, 1);
    assert_eq!(result.failed, 1);
}

#[test]
fn test_extract_failure_url() {
    let line = "status code was: 200, expected: 400, response time in milliseconds: 6, url: http://localhost:1323/api/v1/karte/outcome?patientID=1, response:";
    let url = extract_failure_url(line).unwrap();
    assert_eq!(url, "http://localhost:1323/api/v1/karte/outcome?patientID=1");
}

#[test]
fn test_extract_path_query() {
    let url = "http://localhost:1323/api/v1/karte/outcome?patientID=1";
    let path = extract_path_query(url).unwrap();
    assert_eq!(path, "/api/v1/karte/outcome?patientID=1");
}

#[test]
fn test_extract_path_query_without_query() {
    assert_eq!(
        extract_path_query("http://localhost:1323/healthz").as_deref(),
        Some("/healthz")
    );
    assert_eq!(extract_path_query("not a url"), None);
}

#[test]
fn test_karate_line_classification() {
    assert_eq!(
        parse_karate_line("scenarios:  2 | passed:  1 | failed:  1 | time: 0.4675"),
        LogType::KarateSummary
    );
    assert_eq!(
        parse_karate_line("status code was: 200, expected: 400"),
        LogType::KarateFailure
    );
    assert_eq!(parse_karate_line("Scenario: create patient"), LogType::KarateScenarioStart);
    assert_eq!(parse_karate_line("  checkout.feature:40 failed"), LogType::KarateFailure);
    assert_eq!(parse_karate_line("features: 3"), LogType::KarateSummary);
    assert_eq!(parse_karate_line("elapsed: 12"), LogType::KarateSummary);
    assert_eq!(parse_karate_line("some chatter"), LogType::KarateInfo);
    assert_eq!(parse_karate_line(""), LogType::KarateInfo);
}

#[test]
fn test_karate_line_classification_repeatable() {
    let line = "checkout.feature:40 something";
    let first = parse_karate_line(line);
    let second = parse_karate_line(line);
    assert_eq!(first, second);
}

fn entry() -> ApiLogEntry {
    ApiLogEntry::default()
}

#[test]
fn test_api_classification_precedence() {
    // SQL text present and error level: an SQL error.
    let mut e = entry();
    e.sql = Some("SELECT 1".to_string());
    e.level = "ERROR".to_string();
    assert_eq!(e.log_type(), LogType::ApiError);

    // SQL mention in the message without error: a query.
    let mut e = entry();
    e.msg = "SQL trace".to_string();
    assert_eq!(e.log_type(), LogType::ApiSql);

    // err field makes an SQL line an error even at INFO level.
    let mut e = entry();
    e.sql = Some("UPDATE t".to_string());
    e.err = Some("duplicate key".to_string());
    assert_eq!(e.log_type(), LogType::ApiError);

    let mut e = entry();
    e.msg = "request / response body dump".to_string();
    assert_eq!(e.log_type(), LogType::ApiBodyDump);

    let mut e = entry();
    e.msg = "REQUEST".to_string();
    assert_eq!(e.log_type(), LogType::ApiRequest);

    let mut e = entry();
    e.level = "ERROR".to_string();
    assert_eq!(e.log_type(), LogType::ApiError);

    assert_eq!(entry().log_type(), LogType::ApiGeneral);
}

#[test]
fn test_api_classification_repeatable() {
    let mut e = entry();
    e.sql = Some("SELECT 1".to_string());
    let first = e.log_type();
    let second = e.log_type();
    assert_eq!(first, second);
    assert_eq!(first, LogType::ApiSql);
}

#[test]
fn test_is_request_summary() {
    let mut e = entry();
    e.msg = "REQUEST".to_string();
    assert!(!e.is_request_summary());
    e.status = Some(200);
    assert!(e.is_request_summary());
}

#[test]
fn test_log_level_from_str() {
    assert_eq!(LogLevel::from_str("debug"), LogLevel::Debug);
    assert_eq!(LogLevel::from_str("INFO"), LogLevel::Info);
    assert_eq!(LogLevel::from_str("Warn"), LogLevel::Warn);
    assert_eq!(LogLevel::from_str("WARNING"), LogLevel::Warn);
    assert_eq!(LogLevel::from_str("error"), LogLevel::Error);
    assert_eq!(LogLevel::from_str("whatever"), LogLevel::Info);
}

#[test]
fn test_parse_time() {
    let mut e = entry();
    assert_eq!(e.parse_time(), None);
    e.time = Some("1970-01-01T00:00:01Z".to_string());
    assert_eq!(e.parse_time(), Some(1_000_000));
    e.time = Some("not a time".to_string());
    assert_eq!(e.parse_time(), None);
}

#[test]
fn test_feature_name_helpers() {
    let line = "feature: ../tests/fetch_perio_chart.feature";
    assert_eq!(
        extract_feature_name(line).as_deref(),
        Some("../tests/fetch_perio_chart.feature")
    );
    assert_eq!(extract_feature_name("no marker here"), None);
    assert_eq!(short_feature_name("../tests/fetch_perio_chart.feature"), "fetch_perio_chart.feature");
    assert_eq!(short_feature_name("plain.feature"), "plain.feature");
}

#[test]
fn test_batch_and_json_helpers() {
    assert!(is_batch_line("\u{1f4e6} {\"msg\":\"job\"}"));
    assert!(!is_batch_line("ordinary line"));
    assert_eq!(
        json_part_of("\u{1f4e6} {\"msg\":\"job\"}").as_deref(),
        Some("{\"msg\":\"job\"}")
    );
    assert_eq!(json_part_of("no json here"), None);
}

#[test]
fn test_per_feature_summary_helpers() {
    let line = "scenarios:  4 | passed:  4 | failed:  0 | time: 1.0661";
    assert!(is_per_feature_summary(line));
    assert!(!is_per_feature_summary("scenarios: 1 | passed: 1 | failed: 0 | threads: 2"));
    assert!(karate_monitor::log_parser::feature_summary_all_passed(line));
    assert!(!karate_monitor::log_parser::feature_summary_all_passed(
        "scenarios:  4 | passed:  3 | failed:  1 | time: 1.0661"
    ));
}

#[test]
fn test_summary_parse_rejects_broken_lines() {
    assert!(parse_karate_summary("scenarios: | passed: 1 | failed: 0").is_none());
    assert!(parse_karate_summary("nothing to see").is_none());
    // Counters may appear anywhere in the line; the first full match wins.
    let r = parse_karate_summary("x scenarios: 9 passed scenarios: 10 | passed: 8 | failed: 2 end").unwrap();
    assert_eq!(r.total_scenarios, 10);
    assert_eq!(r.passed, 8);
    assert_eq!(r.failed, 2);
}

#[test]
fn test_failure_url_needs_scheme() {
    assert_eq!(extract_failure_url("url: ftp://host/x"), None);
    assert_eq!(
        extract_failure_url("before url:   https://h/x?a=1, after").as_deref(),
        Some("https://h/x?a=1")
    );
}
