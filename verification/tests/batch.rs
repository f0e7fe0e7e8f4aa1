use karate_monitor::batch::BatchAggregator;
use karate_monitor::log_parser::ApiLogEntry;

fn job_entry(request_id: Option<&str>) -> ApiLogEntry {
    ApiLogEntry {
        request_id: request_id.map(|s| s.to_string()),
        msg: "job".to_string(),
        ..Default::default()
    }
}

#[test]
fn test_batch_run_emits_one_group_in_order() {
    let mut agg = BatchAggregator::new();
    assert!(!agg.is_collecting());

    // A run of consecutive batch-marked lines...
    agg.observe_batch("{\"n\":1}".to_string(), None);
    agg.observe_batch("{\"n\":2}".to_string(), Some(job_entry(Some("job42"))));
    agg.observe_batch("plain batch chatter".to_string(), None);
    assert!(agg.is_collecting());

    // ...followed by one non-batch line: the caller flushes first, then
    // processes the non-batch line normally — the aggregator never sees it.
    let group = agg.flush().unwrap();
    assert_eq!(group.lines.len(), 3);
    assert_eq!(group.lines[0].0, "{\"n\":1}");
    assert_eq!(group.lines[1].0, "{\"n\":2}");
    assert_eq!(group.lines[2].0, "plain batch chatter");
    assert_eq!(group.label, "job42");

    // Exactly one group: the aggregator is idle again.
    assert!(!agg.is_collecting());
    assert!(agg.flush().is_none());
}

#[test]
fn test_batch_label_placeholder() {
    let mut agg = BatchAggregator::new();
    agg.observe_batch("no json".to_string(), None);
    agg.observe_batch("{}".to_string(), Some(job_entry(None)));
    let group = agg.flush().unwrap();
    assert_eq!(group.label, "Batch Job");
}

#[test]
fn test_flush_when_idle_is_none() {
    let mut agg = BatchAggregator::new();
    assert!(agg.flush().is_none());
}
