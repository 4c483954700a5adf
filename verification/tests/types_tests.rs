use otlp_client::types::{LogQuery, MetricQuery, TraceQuery};

#[test]
fn test_trace_query_default() {
    let q = TraceQuery::default();
    assert!(q.service_name.is_none());
    assert!(q.operation_name.is_none());
    assert!(q.min_duration_ms.is_none());
    assert!(q.limit.is_none());
    assert!(q.tags.is_empty());
}

#[test]
fn test_metric_query_default() {
    let q = MetricQuery::default();
    assert!(q.metric_name.is_none());
    assert!(q.group_by.is_empty());
    assert!(q.filters.is_empty());
}

#[test]
fn test_log_query_default() {
    let q = LogQuery::default();
    assert!(q.service_name.is_none());
    assert!(q.severity.is_none());
    assert!(q.attributes.is_empty());
}
