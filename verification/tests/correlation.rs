use karate_monitor::correlation::RequestCorrelator;
use karate_monitor::log_parser::ApiLogEntry;

fn make_log(request_id: &str, msg: &str, uri: Option<&str>, status: Option<u16>) -> ApiLogEntry {
    ApiLogEntry {
        request_id: Some(request_id.to_string()),
        msg: msg.to_string(),
        uri: uri.map(|s| s.to_string()),
        status,
        ..Default::default()
    }
}

#[test]
fn test_buffer_and_retrieve() {
    let mut correlator = RequestCorrelator::new();

    // Simulate a request flow
    let entry1 = make_log("abc123", "token claims", Some("/api/v1/test?id=1"), None);
    let entry2 = make_log("abc123", "processing", Some("/api/v1/test?id=1"), None);
    let entry3 = make_log("abc123", "REQUEST", Some("/api/v1/test?id=1"), Some(200));

    correlator.buffer_api_log("{\"test\":1}".to_string(), entry1);
    correlator.buffer_api_log("{\"test\":2}".to_string(), entry2);
    correlator.buffer_api_log("{\"test\":3}".to_string(), entry3);

    // Retrieve by full URL
    let result = correlator.get_failed_request_logs("http://localhost:1323/api/v1/test?id=1");
    assert!(result.is_some());

    let (request_id, logs) = result.unwrap();
    assert_eq!(request_id, "abc123");
    assert_eq!(logs.len(), 3);
}

#[test]
fn test_partial_url_match() {
    let mut correlator = RequestCorrelator::new();

    let entry = make_log("xyz789", "REQUEST", Some("/api/v1/karte/outcome?patientID=1"), Some(200));
    correlator.buffer_api_log("{}".to_string(), entry);

    // Should find by partial match
    let result = correlator.find_matching_logs_by_url(
        "http://localhost:1323/api/v1/karte/outcome?patientID=1",
    );
    assert!(result.is_some());
}

#[test]
fn test_url_lookup_only_after_terminal_event() {
    let mut correlator = RequestCorrelator::new();

    // A non-terminal record with the URI does not register it.
    let early = make_log("id1", "processing", Some("/api/v1/x?id=9"), None);
    correlator.buffer_api_log("{}".to_string(), early);
    assert!(correlator.get_failed_request_logs("http://h/api/v1/x?id=9").is_none());

    // The terminal request summary registers it; the lookup then resolves.
    let terminal = make_log("id1", "REQUEST", Some("/api/v1/x?id=9"), Some(200));
    correlator.buffer_api_log("{}".to_string(), terminal);
    let (rid, logs) = correlator.get_failed_request_logs("http://h/api/v1/x?id=9").unwrap();
    assert_eq!(rid, "id1");
    assert_eq!(logs.len(), 2);
}

#[test]
fn test_lookup_last_returns_recent_tail() {
    let mut correlator = RequestCorrelator::new();
    for (i, msg) in ["one", "two", "three"].iter().enumerate() {
        let entry = make_log("same", msg, None, None);
        correlator.buffer_api_log(format!("{{\"n\":{}}}", i), entry);
    }
    // min(k, N) entries, arrival order, most recent last.
    let (rid, logs) = correlator.get_last_request_logs(2).unwrap();
    assert_eq!(rid, "same");
    assert_eq!(logs.len(), 2);
    assert_eq!(logs[0].1.msg, "two");
    assert_eq!(logs[1].1.msg, "three");

    let (_, all) = correlator.get_last_request_logs(100).unwrap();
    assert_eq!(all.len(), 3);
    assert_eq!(all[0].1.msg, "one");
}

#[test]
fn test_lookup_last_without_identifier() {
    let correlator = RequestCorrelator::new();
    assert!(correlator.get_last_request_logs(10).is_none());

    // Records without identifiers are not buffered at all.
    let mut correlator = RequestCorrelator::new();
    let mut entry = ApiLogEntry::default();
    entry.msg = "anonymous".to_string();
    correlator.buffer_api_log("{}".to_string(), entry);
    assert!(correlator.get_last_request_logs(10).is_none());
    assert_eq!(correlator.buffered_count(), 0);
}

#[test]
fn test_counts_and_clear() {
    let mut correlator = RequestCorrelator::new();
    correlator.buffer_api_log("{}".to_string(), make_log("a", "x", None, None));
    correlator.buffer_api_log("{}".to_string(), make_log("a", "y", None, None));
    correlator.buffer_api_log("{}".to_string(), make_log("b", "z", None, None));
    assert_eq!(correlator.buffered_count(), 2);
    assert_eq!(correlator.total_logs(), 3);

    correlator.clear();
    assert_eq!(correlator.buffered_count(), 0);
    assert_eq!(correlator.total_logs(), 0);
    assert!(correlator.get_last_request_logs(5).is_none());
}

#[test]
fn test_lookup_miss_is_not_an_error() {
    let correlator = RequestCorrelator::new();
    assert!(correlator.get_failed_request_logs("http://h/never/seen").is_none());
    assert!(correlator.find_matching_logs_by_url("http://h/never/seen").is_none());
    assert!(correlator.get_failed_request_logs("not a url").is_none());
}
