use karate_monitor::analysis::{
    extract_number_after, parse_elapsed_micros, sql_verb, SqlStats, TestSummary,
};
use karate_monitor::log_parser::ApiLogEntry;

#[test]
fn test_parse_elapsed() {
    assert_eq!(parse_elapsed_micros(&Some("1.235ms".to_string())) as f64 / 1000.0, 1.235);
    assert_eq!(parse_elapsed_micros(&Some("0.5ms".to_string())) as f64 / 1000.0, 0.5);
    assert_eq!(parse_elapsed_micros(&None) as f64 / 1000.0, 0.0);
}

#[test]
fn test_extract_number_after() {
    let line = "features:     1 | skipped:    0 | efficiency: 0.33";
    assert_eq!(extract_number_after("features:", line), Some(1));
    assert_eq!(extract_number_after("skipped:", line), Some(0));
}

#[test]
fn test_parse_elapsed_seconds_suffix() {
    assert_eq!(parse_elapsed_micros(&Some("2s".to_string())), 2000);
    assert_eq!(parse_elapsed_micros(&Some("not a number".to_string())), 0);
    assert_eq!(parse_elapsed_micros(&Some(String::new())), 0);
    assert_eq!(parse_elapsed_micros(&Some("12ms".to_string())), 12000);
}

#[test]
fn test_extract_number_after_missing() {
    assert_eq!(extract_number_after("features:", "no label"), None);
    assert_eq!(extract_number_after("features:", "features: x"), None);
}

#[test]
fn test_sql_verb() {
    assert_eq!(sql_verb("select * from patients"), "SELECT");
    assert_eq!(sql_verb("  UPDATE t SET x = 1"), "UPDATE");
    assert_eq!(sql_verb("   "), "UNKNOWN");
    assert_eq!(sql_verb(""), "UNKNOWN");
}

fn sql_entry(sql: &str, elapsed: Option<&str>, rows: Option<i64>) -> ApiLogEntry {
    let mut e = ApiLogEntry::default();
    e.sql = Some(sql.to_string());
    e.elapsed = elapsed.map(|s| s.to_string());
    e.rows_affected = rows;
    e
}

#[test]
fn test_track_query_counters() {
    let mut stats = SqlStats::new();
    stats.track_query(&sql_entry("SELECT 1", Some("1.5ms"), Some(2)));
    stats.track_query(&sql_entry("select 2", Some("0.5ms"), Some(3)));
    stats.track_query(&sql_entry("INSERT INTO t", Some("2ms"), None));
    // A record without SQL is ignored entirely.
    stats.track_query(&ApiLogEntry::default());

    assert_eq!(stats.total_queries, 3);
    assert_eq!(stats.total_rows_affected, 5);
    assert_eq!(stats.total_elapsed_micros, 4000);
    assert_eq!(stats.error_count, 0);
    assert_eq!(stats.queries_by_type.len(), 2);
    assert_eq!(stats.queries_by_type[0].0, "SELECT");
    assert_eq!(stats.queries_by_type[0].1, 2);
    assert_eq!(stats.queries_by_type[1].0, "INSERT");
    assert_eq!(stats.queries_by_type[1].1, 1);
}

#[test]
fn test_track_query_errors() {
    let mut stats = SqlStats::new();
    let mut e = sql_entry("DELETE FROM t", None, None);
    e.level = "ERROR".to_string();
    stats.track_query(&e);
    let mut e2 = sql_entry("SELECT 1", None, None);
    e2.err = Some("boom".to_string());
    stats.track_query(&e2);
    assert_eq!(stats.error_count, 2);
    assert_eq!(stats.total_elapsed_micros, 0);
}

#[test]
fn test_slowest_queries_top_five() {
    let mut stats = SqlStats::new();
    for (i, ms) in ["1ms", "7ms", "3ms", "9ms", "5ms", "4ms", "8ms"].iter().enumerate() {
        stats.track_query(&sql_entry(&format!("SELECT {}", i), Some(ms), None));
    }
    assert_eq!(stats.slowest_queries.len(), 5);
    let elapsed: Vec<u64> = stats.slowest_queries.iter().map(|q| q.elapsed_micros).collect();
    assert_eq!(elapsed, vec![9000, 8000, 7000, 5000, 4000]);
    for w in elapsed.windows(2) {
        assert!(w[0] >= w[1]);
    }
    // Every retained snapshot was actually tracked.
    for q in &stats.slowest_queries {
        assert!(q.sql.starts_with("SELECT "));
    }
}

#[test]
fn test_slowest_queries_stable_ties() {
    let mut stats = SqlStats::new();
    stats.track_query(&sql_entry("SELECT a", Some("2ms"), None));
    stats.track_query(&sql_entry("SELECT b", Some("2ms"), None));
    stats.track_query(&sql_entry("SELECT c", Some("5ms"), None));
    assert_eq!(stats.slowest_queries[0].sql, "SELECT c");
    // Equal elapsed times keep arrival order: the earlier-inserted first.
    assert_eq!(stats.slowest_queries[1].sql, "SELECT a");
    assert_eq!(stats.slowest_queries[2].sql, "SELECT b");
}

#[test]
fn test_update_from_line() {
    let mut summary = TestSummary::new();
    summary.update_from_line("scenarios:  2 | passed:  1 | failed:  1 | time: 0.4675");
    assert_eq!(summary.total_scenarios, 2);
    assert_eq!(summary.passed, 1);
    assert_eq!(summary.failed, 1);

    summary.update_from_line("features:     1 | skipped:    0 | efficiency: 0.33");
    assert_eq!(summary.total_features, 1);
    assert_eq!(summary.skipped, 0);

    // A later summary line supersedes the earlier one.
    summary.update_from_line("scenarios:  5 | passed:  5 | failed:  0 | time: 1.1");
    assert_eq!(summary.total_scenarios, 5);
    assert_eq!(summary.passed, 5);
    assert_eq!(summary.failed, 0);

    // Unrelated lines change nothing.
    summary.update_from_line("just chatter");
    assert_eq!(summary.total_scenarios, 5);
    assert_eq!(summary.total_features, 1);
}

#[test]
fn test_track_failure_splits_feature_token() {
    let mut summary = TestSummary::new();
    summary.track_failure("checkout.feature:40", "boom", None);
    let f = &summary.failed_features[0];
    assert_eq!(f.feature_file, "checkout.feature");
    assert_eq!(f.line_number, Some(40));
    assert_eq!(f.error_message, "boom");
    assert_eq!(f.url, None);

    summary.track_failure("checkout.feature", "bang", Some("http://h/x".to_string()));
    let f = &summary.failed_features[1];
    assert_eq!(f.feature_file, "checkout.feature");
    assert_eq!(f.line_number, None);
    assert_eq!(f.url.as_deref(), Some("http://h/x"));

    // A suffix that is not a number means no line number, not an error.
    summary.track_failure("weird.feature:4x", "msg", None);
    let f = &summary.failed_features[2];
    assert_eq!(f.feature_file, "weird.feature");
    assert_eq!(f.line_number, None);

    assert_eq!(summary.failed_features.len(), 3);
}
