use otlp_client::query::{build_log_query, build_metric_query, build_trace_query, FilterValue};
use otlp_client::types::{LogQuery, MetricQuery, TimeRange, TraceQuery};

const NOW_MS: u64 = 1_700_000_000_000;

#[test]
fn test_build_trace_query_minimal() {
    let query = TraceQuery::default();
    let payload = build_trace_query(&query, NOW_MS);

    assert_eq!(payload.query_type, "builder");
    assert_eq!(payload.panel_type, "list");

    let bq = &payload.query;
    assert_eq!(bq.data_source, "traces");
    assert_eq!(bq.limit, Some(100));
}

#[test]
fn test_build_trace_query_with_filters() {
    let query = TraceQuery {
        service_name: Some("my-service".to_string()),
        operation_name: Some("GET /api".to_string()),
        min_duration_ms: Some(100),
        time_range: Some(TimeRange { start_ms: 1000, end_ms: 2000 }),
        limit: Some(50),
        ..Default::default()
    };

    let payload = build_trace_query(&query, NOW_MS);
    assert_eq!(payload.start, 1000 * 1_000_000u64);
    assert_eq!(payload.end, 2000 * 1_000_000u64);

    let filters = &payload.query.filters;
    assert_eq!(filters.len(), 3); // service, operation, min_duration
}

#[test]
fn test_build_trace_query_with_tags() {
    let tags = vec![("http.method".to_string(), "POST".to_string())];

    let query = TraceQuery {
        tags,
        time_range: Some(TimeRange { start_ms: 1000, end_ms: 2000 }),
        ..Default::default()
    };

    let payload = build_trace_query(&query, NOW_MS);
    let filters = &payload.query.filters;
    assert_eq!(filters.len(), 1);
    assert_eq!(filters[0].value, FilterValue::Str("POST".to_string()));
}

#[test]
fn test_build_log_query_minimal() {
    let query = LogQuery::default();
    let payload = build_log_query(&query, NOW_MS);

    let bq = &payload.query;
    assert_eq!(bq.data_source, "logs");
    assert_eq!(bq.limit, Some(100));
}

#[test]
fn test_build_log_query_with_filters() {
    let query = LogQuery {
        service_name: Some("web-app".to_string()),
        severity: Some("ERROR".to_string()),
        body_contains: Some("timeout".to_string()),
        time_range: Some(TimeRange { start_ms: 1000, end_ms: 2000 }),
        ..Default::default()
    };

    let payload = build_log_query(&query, NOW_MS);
    let filters = &payload.query.filters;
    assert_eq!(filters.len(), 3);
}

#[test]
fn test_build_metric_query_minimal() {
    let query = MetricQuery::default();
    let payload = build_metric_query(&query, NOW_MS);

    let bq = &payload.query;
    assert_eq!(bq.data_source, "metrics");
    assert_eq!(bq.aggregate_operator, "avg");
    assert_eq!(payload.step, Some(60));
}

#[test]
fn test_build_metric_query_with_options() {
    let query = MetricQuery {
        metric_name: Some("http_requests_total".to_string()),
        service_name: Some("gateway".to_string()),
        step_seconds: Some(300),
        aggregation: Some("sum".to_string()),
        group_by: vec!["status_code".to_string()],
        time_range: Some(TimeRange { start_ms: 1000, end_ms: 2000 }),
        ..Default::default()
    };

    let payload = build_metric_query(&query, NOW_MS);
    assert_eq!(payload.step, Some(300));

    let bq = &payload.query;
    assert_eq!(bq.aggregate_operator, "sum");
    let agg = bq.aggregate_attribute.as_ref().unwrap();
    assert_eq!(agg.key, "http_requests_total");

    let gb = &bq.group_by;
    assert_eq!(gb.len(), 1);
    assert_eq!(gb[0].key, "status_code");
}

#[test]
fn test_trace_filter_count_scalars_plus_tags() {
    // Three populated scalar filters and two tag entries: exactly five
    // filters, with the tag entries carried as non-column filters.
    let query = TraceQuery {
        service_name: Some("svc".to_string()),
        operation_name: Some("op".to_string()),
        max_duration_ms: Some(9),
        tags: vec![
            ("http.method".to_string(), "GET".to_string()),
            ("http.route".to_string(), "/x".to_string()),
        ],
        time_range: Some(TimeRange { start_ms: 1, end_ms: 2 }),
        ..Default::default()
    };
    let payload = build_trace_query(&query, NOW_MS);
    let filters = &payload.query.filters;
    assert_eq!(filters.len(), 5);
    assert!(!filters[3].key.is_column);
    assert!(!filters[4].key.is_column);
    assert_eq!(filters[3].key.key, "http.method");
    assert_eq!(filters[4].key.key, "http.route");
}

#[test]
fn test_trace_duration_bounds_in_nanoseconds() {
    let query = TraceQuery {
        min_duration_ms: Some(50),
        max_duration_ms: Some(75),
        time_range: Some(TimeRange { start_ms: 1, end_ms: 2 }),
        ..Default::default()
    };
    let payload = build_trace_query(&query, NOW_MS);
    let filters = &payload.query.filters;
    assert_eq!(filters.len(), 2);
    assert_eq!(filters[0].op, ">=");
    assert_eq!(filters[0].value, FilterValue::UInt(50_000_000));
    assert_eq!(filters[1].op, "<=");
    assert_eq!(filters[1].value, FilterValue::UInt(75_000_000));
}

#[test]
fn test_default_time_range_is_last_hour() {
    let query = TraceQuery::default();
    let payload = build_trace_query(&query, NOW_MS);
    assert_eq!(payload.end, NOW_MS * 1_000_000);
    assert_eq!(payload.start, (NOW_MS - 3_600_000) * 1_000_000);
}
