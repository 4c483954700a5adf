use vstd::prelude::*;

use crate::json::JsonNum;

verus! {

// Backend-agnostic request and result shapes. Key/value maps are carried as
// vectors of pairs: they are unordered in meaning, and filters built from
// distinct keys commute.

/// A time range specified in milliseconds since epoch, both ends inclusive.
/// `start_ms <= end_ms` is a caller invariant, not enforced by the type.
#[derive(Debug, Clone, Copy, PartialEq)]
pub struct TimeRange {
    pub start_ms: u64,
    pub end_ms: u64,
}

/// A single trace span.
#[derive(Debug, Clone, PartialEq)]
pub struct Span {
    pub trace_id: String,
    pub span_id: String,
    pub parent_span_id: Option<String>,
    pub service_name: String,
    pub operation_name: String,
    pub start_time_ms: u64,
    pub duration_ms: u64,
    pub status_code: i32,
    pub has_error: bool,
    pub attributes: Vec<(String, String)>,
}

/// A single log entry.
#[derive(Debug, Clone, PartialEq)]
pub struct LogEntry {
    pub timestamp_ms: u64,
    pub severity: String,
    pub body: String,
    pub service_name: String,
    pub attributes: Vec<(String, String)>,
}

/// A single point in a metric time series. The value is kept as the number
/// the wire carried; consumers coerce it to floating point for display.
#[derive(Debug, Clone, PartialEq)]
pub struct MetricPoint {
    pub timestamp_ms: u64,
    pub value: JsonNum,
}

/// A metric time series with its labels and data points.
#[derive(Debug, Clone, PartialEq)]
pub struct MetricSeries {
    pub metric_name: String,
    pub service_name: String,
    pub labels: Vec<(String, String)>,
    pub points: Vec<MetricPoint>,
}

/// Information about a service discovered in the backend.
#[derive(Debug, Clone, PartialEq)]
pub struct ServiceInfo {
    pub name: String,
    pub num_operations: u64,
}

/// Query parameters for trace queries.
#[derive(Debug, Clone, Default, PartialEq)]
pub struct TraceQuery {
    pub service_name: Option<String>,
    pub operation_name: Option<String>,
    pub min_duration_ms: Option<u64>,
    pub max_duration_ms: Option<u64>,
    pub time_range: Option<TimeRange>,
    pub limit: Option<u32>,
    pub offset: Option<u32>,
    pub tags: Vec<(String, String)>,
}

/// Query parameters for metric queries.
#[derive(Debug, Clone, Default, PartialEq)]
pub struct MetricQuery {
    pub metric_name: Option<String>,
    pub service_name: Option<String>,
    pub time_range: Option<TimeRange>,
    pub step_seconds: Option<u64>,
    pub aggregation: Option<String>,
    pub group_by: Vec<String>,
    pub filters: Vec<(String, String)>,
}

/// Query parameters for log queries.
#[derive(Debug, Clone, Default, PartialEq)]
pub struct LogQuery {
    pub service_name: Option<String>,
    pub severity: Option<String>,
    pub body_contains: Option<String>,
    pub time_range: Option<TimeRange>,
    pub limit: Option<u32>,
    pub offset: Option<u32>,
    pub attributes: Vec<(String, String)>,
}

/// A paginated query result. `total` is best-effort: the translator may only
/// know the returned page size.
#[derive(Debug, Clone, PartialEq)]
pub struct QueryResult<T> {
    pub items: Vec<T>,
    pub total: Option<u64>,
}

} // verus!
