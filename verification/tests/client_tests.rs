use otlp_client::client::{
    check_envelope, classify_http_status, parse_metric_response, parse_trace_response,
    services_from_response, SigNozBackend,
};
use otlp_client::config::{AuthMethod, SigNozConfig};
use otlp_client::error::OtlpError;
use otlp_client::json::{JsonNum, JsonVal};
use otlp_client::response::{
    extract_string_map, SigNozListRow, SigNozNewResult, SigNozNewResultData, SigNozResponse,
    SigNozResponseData, SigNozResultEntry, SigNozServiceEntry, SigNozServicesResponse,
    SigNozTimeSeries, SigNozTimeSeriesValue,
};

fn num_to_f64(n: &JsonNum) -> f64 {
    match n {
        JsonNum::UInt(u) => *u as f64,
        JsonNum::Neg(i) => *i as f64,
        JsonNum::Float { bits, .. } => f64::from_bits(*bits),
    }
}

fn float_val(v: f64) -> JsonVal {
    JsonVal::Num(JsonNum::Float { trunc: v as i64, bits: v.to_bits() })
}

#[test]
fn test_new_signoz_backend_empty_url() {
    let config = SigNozConfig {
        base_url: "".to_string(),
        auth: AuthMethod::NoAuth,
        timeout_secs: 30,
    };
    let result = SigNozBackend::new(config);
    match result {
        Err(OtlpError::ConnectionFailed(m)) => assert_eq!(m, "base_url must not be empty"),
        _ => panic!("Expected ConnectionFailed"),
    }
}

#[test]
fn test_new_signoz_backend_valid_config() {
    let config = SigNozConfig {
        base_url: "http://localhost:3301".to_string(),
        auth: AuthMethod::NoAuth,
        timeout_secs: 30,
    };
    let backend = SigNozBackend::new(config).unwrap();
    assert_eq!(backend.display_name(), "SigNoz @ http://localhost:3301");
}

#[test]
fn test_new_signoz_backend_with_api_key() {
    let config = SigNozConfig {
        base_url: "http://signoz.example.com".to_string(),
        auth: AuthMethod::ApiKey {
            header_name: "SIGNOZ-API-KEY".to_string(),
            key: "test-key-123".to_string(),
        },
        timeout_secs: 60,
    };
    let backend = SigNozBackend::new(config);
    assert!(backend.is_ok());
}

#[test]
fn test_new_signoz_backend_with_bearer_token() {
    let config = SigNozConfig {
        base_url: "http://signoz.example.com".to_string(),
        auth: AuthMethod::BearerToken { token: "my-token".to_string() },
        timeout_secs: 30,
    };
    let backend = SigNozBackend::new(config);
    assert!(backend.is_ok());
}

#[test]
fn test_new_signoz_backend_rejects_bad_header_name() {
    let config = SigNozConfig {
        base_url: "http://signoz.example.com".to_string(),
        auth: AuthMethod::ApiKey {
            header_name: "not a header".to_string(),
            key: "k".to_string(),
        },
        timeout_secs: 30,
    };
    match SigNozBackend::new(config) {
        Err(OtlpError::ConnectionFailed(m)) => assert!(m.contains("header name")),
        _ => panic!("Expected ConnectionFailed"),
    }
}

#[test]
fn test_new_signoz_backend_rejects_bad_header_value() {
    let config = SigNozConfig {
        base_url: "http://signoz.example.com".to_string(),
        auth: AuthMethod::BearerToken { token: "line\nbreak".to_string() },
        timeout_secs: 30,
    };
    match SigNozBackend::new(config) {
        Err(OtlpError::ConnectionFailed(m)) => assert!(m.contains("bearer token")),
        _ => panic!("Expected ConnectionFailed"),
    }
}

#[test]
fn test_new_signoz_backend_long_header_name() {
    // Names longer than 64 bytes take a separate validation path in the
    // header machinery; a valid long name must still be accepted.
    let long_name: String = "x-".to_string() + &"a".repeat(70);
    let config = SigNozConfig {
        base_url: "http://signoz.example.com".to_string(),
        auth: AuthMethod::ApiKey { header_name: long_name, key: "k".to_string() },
        timeout_secs: 30,
    };
    assert!(SigNozBackend::new(config).is_ok());
    let config2 = SigNozConfig {
        base_url: "http://signoz.example.com".to_string(),
        auth: AuthMethod::ApiKey {
            header_name: "x-".to_string() + &"a".repeat(70) + " ",
            key: "k".to_string(),
        },
        timeout_secs: 30,
    };
    assert!(SigNozBackend::new(config2).is_err());
}

#[test]
fn test_url_building() {
    let config = SigNozConfig {
        base_url: "http://localhost:3301/".to_string(),
        auth: AuthMethod::NoAuth,
        timeout_secs: 30,
    };
    let backend = SigNozBackend::new(config).unwrap();
    assert_eq!(backend.url("/api/v1/health"), "http://localhost:3301/api/v1/health");
}

fn sample_trace_response() -> SigNozResponse {
    SigNozResponse {
        status: "success".to_string(),
        data: Some(SigNozResponseData {
            result: vec![SigNozResultEntry {
                query_name: Some("A".to_string()),
                series: None,
                list: Some(vec![SigNozListRow {
                    timestamp: Some("1700000000000".to_string()),
                    data: vec![
                        ("traceID".to_string(), JsonVal::Str("trace-1".to_string())),
                        ("spanID".to_string(), JsonVal::Str("span-1".to_string())),
                        ("serviceName".to_string(), JsonVal::Str("web".to_string())),
                        ("name".to_string(), JsonVal::Str("GET /api".to_string())),
                        ("durationNano".to_string(), float_val(150_000_000.0)),
                        ("statusCode".to_string(), JsonVal::Num(JsonNum::UInt(0))),
                        ("hasError".to_string(), JsonVal::Bool(false)),
                    ],
                }]),
            }],
            new_result: None,
        }),
        error: None,
    }
}

#[test]
fn test_parse_trace_results() {
    let resp = sample_trace_response();
    let spans = SigNozBackend::parse_trace_results(&resp);
    assert_eq!(spans.len(), 1);
    assert_eq!(spans[0].trace_id, "trace-1");
    assert_eq!(spans[0].operation_name, "GET /api");
    assert_eq!(spans[0].duration_ms, 150);
    assert!(!spans[0].has_error);
}

#[test]
fn test_parse_log_results() {
    let resp = SigNozResponse {
        status: "success".to_string(),
        data: Some(SigNozResponseData {
            result: vec![SigNozResultEntry {
                query_name: Some("A".to_string()),
                series: None,
                list: Some(vec![SigNozListRow {
                    timestamp: Some("1700000000000".to_string()),
                    data: vec![
                        ("severity_text".to_string(), JsonVal::Str("ERROR".to_string())),
                        ("body".to_string(), JsonVal::Str("connection timeout".to_string())),
                        ("service_name".to_string(), JsonVal::Str("backend".to_string())),
                    ],
                }]),
            }],
            new_result: None,
        }),
        error: None,
    };

    let logs = SigNozBackend::parse_log_results(&resp);
    assert_eq!(logs.len(), 1);
    assert_eq!(logs[0].severity, "ERROR");
    assert_eq!(logs[0].body, "connection timeout");
    assert_eq!(logs[0].service_name, "backend");
}

#[test]
fn test_parse_metric_results() {
    let resp = SigNozResponse {
        status: "success".to_string(),
        data: Some(SigNozResponseData {
            result: vec![SigNozResultEntry {
                query_name: Some("A".to_string()),
                series: Some(vec![SigNozTimeSeries {
                    labels: vec![
                        ("__name__".to_string(), "http_requests_total".to_string()),
                        ("service_name".to_string(), "web".to_string()),
                    ],
                    values: vec![
                        SigNozTimeSeriesValue { timestamp: 1700000000000, value: float_val(42.5) },
                        SigNozTimeSeriesValue { timestamp: 1700000060000, value: float_val(43.1) },
                    ],
                }]),
                list: None,
            }],
            new_result: None,
        }),
        error: None,
    };

    let metrics = SigNozBackend::parse_metric_results(&resp);
    assert_eq!(metrics.len(), 1);
    assert_eq!(metrics[0].metric_name, "http_requests_total");
    assert_eq!(metrics[0].service_name, "web");
    assert_eq!(metrics[0].points.len(), 2);
    assert!((num_to_f64(&metrics[0].points[0].value) - 42.5).abs() < f64::EPSILON);
}

#[test]
fn test_extract_string_map() {
    let data = vec![
        ("key1".to_string(), JsonVal::Str("val1".to_string())),
        ("key2".to_string(), JsonVal::Num(JsonNum::UInt(42))),
        ("key3".to_string(), JsonVal::Str("val3".to_string())),
    ];
    let result = extract_string_map(&data);
    assert_eq!(result.len(), 2);
    assert_eq!(result[0], ("key1".to_string(), "val1".to_string()));
    assert_eq!(result[1], ("key3".to_string(), "val3".to_string()));
}

#[test]
fn test_backend_error_envelope() {
    // A backend-reported error inside a 2xx envelope surfaces as Backend.
    let resp = SigNozResponse {
        status: "error".to_string(),
        data: None,
        error: Some("x".to_string()),
    };
    match parse_trace_response(&resp) {
        Err(OtlpError::Backend(m)) => assert_eq!(m, "x"),
        _ => panic!("Expected Backend error"),
    }
    let resp2 = SigNozResponse { status: "error".to_string(), data: None, error: None };
    match check_envelope(&resp2) {
        Err(OtlpError::Backend(m)) => assert_eq!(m, "unknown error"),
        _ => panic!("Expected Backend error"),
    }
}

#[test]
fn test_empty_result_list_total_zero() {
    let resp = SigNozResponse {
        status: "success".to_string(),
        data: Some(SigNozResponseData { result: vec![], new_result: None }),
        error: None,
    };
    let qr = parse_trace_response(&resp).unwrap();
    assert_eq!(qr.items.len(), 0);
    assert_eq!(qr.total, Some(0));
    let qm = parse_metric_response(&resp).unwrap();
    assert_eq!(qm.items.len(), 0);
    assert_eq!(qm.total, Some(0));
}

#[test]
fn test_new_result_shape_takes_precedence() {
    // Some backend versions populate both shapes redundantly; the nested
    // one must win.
    let flat_row = SigNozListRow {
        timestamp: None,
        data: vec![("traceID".to_string(), JsonVal::Str("flat".to_string()))],
    };
    let nested_row = SigNozListRow {
        timestamp: None,
        data: vec![("traceID".to_string(), JsonVal::Str("nested".to_string()))],
    };
    let resp = SigNozResponse {
        status: "success".to_string(),
        data: Some(SigNozResponseData {
            result: vec![SigNozResultEntry {
                query_name: None,
                series: None,
                list: Some(vec![flat_row]),
            }],
            new_result: Some(SigNozNewResult {
                data: SigNozNewResultData {
                    result: vec![SigNozResultEntry {
                        query_name: None,
                        series: None,
                        list: Some(vec![nested_row]),
                    }],
                },
            }),
        }),
        error: None,
    };
    let spans = SigNozBackend::parse_trace_results(&resp);
    assert_eq!(spans.len(), 1);
    assert_eq!(spans[0].trace_id, "nested");
}

#[test]
fn test_row_timestamp_fallback_to_iso() {
    // No numeric timestamp in the data map: the row-level ISO string wins.
    let resp = SigNozResponse {
        status: "success".to_string(),
        data: Some(SigNozResponseData {
            result: vec![SigNozResultEntry {
                query_name: None,
                series: None,
                list: Some(vec![SigNozListRow {
                    timestamp: Some("1970-01-01T00:00:01Z".to_string()),
                    data: vec![],
                }]),
            }],
            new_result: None,
        }),
        error: None,
    };
    let spans = SigNozBackend::parse_trace_results(&resp);
    assert_eq!(spans[0].start_time_ms, 1000);
}

#[test]
fn test_parent_span_empty_means_none() {
    let resp = SigNozResponse {
        status: "success".to_string(),
        data: Some(SigNozResponseData {
            result: vec![SigNozResultEntry {
                query_name: None,
                series: None,
                list: Some(vec![
                    SigNozListRow {
                        timestamp: None,
                        data: vec![("parentSpanID".to_string(), JsonVal::Str("".to_string()))],
                    },
                    SigNozListRow {
                        timestamp: None,
                        data: vec![("parentSpanID".to_string(), JsonVal::Str("p1".to_string()))],
                    },
                ]),
            }],
            new_result: None,
        }),
        error: None,
    };
    let spans = SigNozBackend::parse_trace_results(&resp);
    assert_eq!(spans[0].parent_span_id, None);
    assert_eq!(spans[1].parent_span_id, Some("p1".to_string()));
}

#[test]
fn test_classify_http_status_cases() {
    assert!(classify_http_status(200, String::new()).is_ok());
    assert!(classify_http_status(204, String::new()).is_ok());
    match classify_http_status(401, "ignored".to_string()) {
        Err(OtlpError::AuthenticationFailed(m)) => assert_eq!(m, "HTTP 401"),
        _ => panic!("Expected AuthenticationFailed"),
    }
    match classify_http_status(403, String::new()) {
        Err(OtlpError::AuthenticationFailed(m)) => assert_eq!(m, "HTTP 403"),
        _ => panic!("Expected AuthenticationFailed"),
    }
    match classify_http_status(500, "boom".to_string()) {
        Err(OtlpError::ApiError { status, message }) => {
            assert_eq!(status, 500);
            assert_eq!(message, "boom");
        }
        _ => panic!("Expected ApiError"),
    }
}

#[test]
fn test_services_from_response_maps_entries() {
    let resp = SigNozServicesResponse {
        status: "success".to_string(),
        data: vec![
            SigNozServiceEntry { service_name: "frontend".to_string(), num_operations: 12 },
            SigNozServiceEntry { service_name: "backend".to_string(), num_operations: 35 },
        ],
    };
    let services = services_from_response(&resp);
    assert_eq!(services.len(), 2);
    assert_eq!(services[0].name, "frontend");
    assert_eq!(services[0].num_operations, 12);
    assert_eq!(services[1].name, "backend");
}
