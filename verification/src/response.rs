use vstd::prelude::*;

use crate::json::{json_str, json_str_of, lookup, num_or_zero, spec_lookup, JsonNum, JsonVal};
use crate::time::{parse_iso8601_to_ms, parse_timestamp, spec_parse_iso8601, spec_parse_timestamp};
use crate::types::{LogEntry, MetricPoint, MetricSeries, Span};

verus! {

// The response envelope: a `status` field, an optional `data` body holding
// result entries in one of two historical shapes, and an optional `error`
// message. Result rows carry a data map of JSON scalars.

/// Top-level response from the composite query endpoint.
#[derive(Debug, Clone, PartialEq)]
pub struct SigNozResponse {
    pub status: String,
    pub data: Option<SigNozResponseData>,
    pub error: Option<String>,
}

/// The `data` field inside a response.
#[derive(Debug, Clone, PartialEq)]
pub struct SigNozResponseData {
    pub result: Vec<SigNozResultEntry>,
    pub new_result: Option<SigNozNewResult>,
}

/// Newer envelope shape used by some backend versions; when present it takes
/// precedence over the flat `result` list, which may be populated redundantly.
#[derive(Debug, Clone, PartialEq)]
pub struct SigNozNewResult {
    pub data: SigNozNewResultData,
}

/// Inner data of the new result shape.
#[derive(Debug, Clone, PartialEq)]
pub struct SigNozNewResultData {
    pub result: Vec<SigNozResultEntry>,
}

/// A single result entry with list rows or time series.
#[derive(Debug, Clone, PartialEq)]
pub struct SigNozResultEntry {
    pub query_name: Option<String>,
    pub series: Option<Vec<SigNozTimeSeries>>,
    pub list: Option<Vec<SigNozListRow>>,
}

/// A time series returned for metric queries.
#[derive(Debug, Clone, PartialEq)]
pub struct SigNozTimeSeries {
    pub labels: Vec<(String, String)>,
    pub values: Vec<SigNozTimeSeriesValue>,
}

/// A single (timestamp, value) point in a time series.
#[derive(Debug, Clone, PartialEq)]
pub struct SigNozTimeSeriesValue {
    pub timestamp: u64,
    pub value: JsonVal,
}

/// A row returned for list-type queries (traces, logs).
#[derive(Debug, Clone, PartialEq)]
pub struct SigNozListRow {
    pub timestamp: Option<String>,
    pub data: Vec<(String, JsonVal)>,
}

/// Response from the services endpoint.
#[derive(Debug, Clone, PartialEq)]
pub struct SigNozServicesResponse {
    pub status: String,
    pub data: Vec<SigNozServiceEntry>,
}

/// A single service entry from the services endpoint.
#[derive(Debug, Clone, PartialEq)]
pub struct SigNozServiceEntry {
    pub service_name: String,
    pub num_operations: u64,
}

// ---------------------------------------------------------------------------
// Shape selection
// ---------------------------------------------------------------------------

/// The entries a response carries: the nested new-result shape first, then
/// the flat list; this order is significant.
pub open spec fn entries_of(resp: SigNozResponse) -> Seq<SigNozResultEntry> {
    match resp.data {
        Some(d) => match d.new_result {
            Some(nr) => nr.data.result@,
            None => d.result@,
        },
        None => Seq::<SigNozResultEntry>::empty(),
    }
}

/// Extract the result entries, handling both envelope shapes; `None` when
/// the response has no data body.
pub fn extract_result_entries<'a>(resp: &'a SigNozResponse) -> (r: Option<
    &'a Vec<SigNozResultEntry>,
>)
    ensures
        match r {
            Some(v) => entries_of(*resp) == v@,
            None => entries_of(*resp).len() == 0,
        },
{
    match &resp.data {
        Some(d) => match &d.new_result {
            Some(nr) => Some(&nr.data.result),
            None => Some(&d.result),
        },
        None => None,
    }
}

/// The list rows of one entry.
pub open spec fn entry_rows(e: SigNozResultEntry) -> Seq<SigNozListRow> {
    match e.list {
        Some(l) => l@,
        None => Seq::<SigNozListRow>::empty(),
    }
}

/// All list rows of a sequence of entries, in order.
pub open spec fn rows_of(entries: Seq<SigNozResultEntry>) -> Seq<SigNozListRow>
    decreases entries.len(),
{
    if entries.len() == 0 {
        Seq::<SigNozListRow>::empty()
    } else {
        rows_of(entries.drop_last()) + entry_rows(entries.last())
    }
}

/// The time series of one entry.
pub open spec fn entry_series(e: SigNozResultEntry) -> Seq<SigNozTimeSeries> {
    match e.series {
        Some(s) => s@,
        None => Seq::<SigNozTimeSeries>::empty(),
    }
}

/// All time series of a sequence of entries, in order.
pub open spec fn series_of(entries: Seq<SigNozResultEntry>) -> Seq<SigNozTimeSeries>
    decreases entries.len(),
{
    if entries.len() == 0 {
        Seq::<SigNozTimeSeries>::empty()
    } else {
        series_of(entries.drop_last()) + entry_series(entries.last())
    }
}

// ---------------------------------------------------------------------------
// Field extraction
// ---------------------------------------------------------------------------

/// The pairs of a string map view, by their character sequences.
pub open spec fn view_pairs(v: Seq<(String, String)>) -> Seq<(Seq<char>, Seq<char>)> {
    v.map_values(|p: (String, String)| (p.0@, p.1@))
}

/// The string-valued entries of a data map, in order; other values are
/// silently dropped.
pub open spec fn string_pairs(data: Seq<(String, JsonVal)>) -> Seq<(Seq<char>, Seq<char>)>
    decreases data.len(),
{
    if data.len() == 0 {
        Seq::<(Seq<char>, Seq<char>)>::empty()
    } else {
        string_pairs(data.drop_last()) + (match data.last().1 {
            JsonVal::Str(s) => seq![(data.last().0@, s@)],
            _ => Seq::<(Seq<char>, Seq<char>)>::empty(),
        })
    }
}

/// Keep the string-valued entries of a data map as the attribute map.
#[verifier::loop_isolation(false)]
pub fn extract_string_map(data: &Vec<(String, JsonVal)>) -> (r: Vec<(String, String)>)
    ensures
        view_pairs(r@) == string_pairs(data@),
{
    let mut r: Vec<(String, String)> = Vec::new();
    let n = data.len();
    let mut i: usize = 0;
    while i < n
        invariant
            i <= n,
            view_pairs(r@) =~= string_pairs(data@.take(i as int)),
        decreases n - i,
    {
        let ghost prev = r@;
        match &data[i].1 {
            JsonVal::Str(s) => {
                r.push((data[i].0.clone(), s.clone()));
                proof {
                    assert(view_pairs(r@) =~= view_pairs(prev) + seq![
                        (data@[i as int].0@, data@[i as int].1->Str_0@),
                    ]);
                }
            },
            _ => {},
        }
        proof {
            assert(data@.take(i + 1).drop_last() =~= data@.take(i as int));
            assert(data@.take(i + 1).last() == data@[i as int]);
            assert(view_pairs(r@) =~= string_pairs(data@.take(i + 1)));
        }
        i += 1;
    }
    proof {
        assert(data@.take(n as int) =~= data@);
    }
    r
}

/// First label bound to `key`, if any.
pub open spec fn str_lookup(pairs: Seq<(String, String)>, key: Seq<char>) -> Option<Seq<char>>
    decreases pairs.len(),
{
    if pairs.len() == 0 {
        None
    } else if pairs[0].0@ == key {
        Some(pairs[0].1@)
    } else {
        str_lookup(pairs.skip(1), key)
    }
}

/// The label bound to `key`, or the empty string.
pub open spec fn label_or_empty(pairs: Seq<(String, String)>, key: Seq<char>) -> Seq<char> {
    match str_lookup(pairs, key) {
        Some(v) => v,
        None => Seq::<char>::empty(),
    }
}

proof fn lemma_str_lookup_extend(pairs: Seq<(String, String)>, key: Seq<char>, i: int)
    requires
        0 <= i <= pairs.len(),
        forall|t: int| 0 <= t < i ==> (#[trigger] pairs[t]).0@ != key,
    ensures
        str_lookup(pairs, key) == str_lookup(pairs.skip(i), key),
    decreases i,
{
    if i > 0 {
        lemma_str_lookup_extend(pairs, key, i - 1);
        assert(pairs.skip(i - 1).skip(1) =~= pairs.skip(i));
        assert(pairs.skip(i - 1)[0] == pairs[i - 1]);
        assert(pairs.skip(i - 1)[0].0@ != key);
        assert(str_lookup(pairs.skip(i - 1), key) == str_lookup(pairs.skip(i - 1).skip(1), key));
    } else {
        assert(pairs.skip(0) =~= pairs);
    }
}

/// The well-known label bound to `key`, or the empty string when absent.
#[verifier::loop_isolation(false)]
pub fn label_get(pairs: &Vec<(String, String)>, key: &str) -> (r: String)
    ensures
        r@ == label_or_empty(pairs@, key@),
{
    let n = pairs.len();
    let mut i: usize = 0;
    while i < n
        invariant
            i <= n,
            forall|t: int| 0 <= t < i ==> (#[trigger] pairs@[t]).0@ != key@,
        decreases n - i,
    {
        if crate::text::str_eq(pairs[i].0.as_str(), key) {
            proof {
                lemma_str_lookup_extend(pairs@, key@, i as int);
                assert(pairs@.skip(i as int)[0] == pairs@[i as int]);
            }
            return pairs[i].1.clone();
        }
        i += 1;
    }
    proof {
        lemma_str_lookup_extend(pairs@, key@, n as int);
        assert(pairs@.skip(n as int) =~= Seq::<(String, String)>::empty());
    }
    String::new()
}

/// Copy a string map.
#[verifier::loop_isolation(false)]
pub fn clone_pairs(v: &Vec<(String, String)>) -> (r: Vec<(String, String)>)
    ensures
        r@ == v@,
{
    let mut r: Vec<(String, String)> = Vec::new();
    let n = v.len();
    let mut i: usize = 0;
    while i < n
        invariant
            i <= n,
            r@ =~= v@.take(i as int),
        decreases n - i,
    {
        r.push((v[i].0.clone(), v[i].1.clone()));
        i += 1;
    }
    proof {
        assert(v@.take(n as int) =~= v@);
    }
    r
}

// ---------------------------------------------------------------------------
// Row and series conversion
// ---------------------------------------------------------------------------

/// The timestamp fallback of a row: its ISO-8601 string, or zero.
pub open spec fn spec_row_fallback_ms(row: SigNozListRow) -> u64 {
    match row.timestamp {
        Some(s) => match spec_parse_iso8601(s@) {
            Some(t) => t,
            None => 0,
        },
        None => 0,
    }
}

/// A row's start time: a numeric `timestamp` field inside the data map
/// first, then the row-level ISO-8601 timestamp string, then zero.
pub open spec fn spec_row_time_ms(row: SigNozListRow) -> u64 {
    match spec_lookup(row.data@, "timestamp"@) {
        Some(v) => match spec_parse_timestamp(v) {
            Some(t) => t,
            None => spec_row_fallback_ms(row),
        },
        None => spec_row_fallback_ms(row),
    }
}

/// Nanoseconds to whole milliseconds on the value's truncated integer form;
/// negative and non-numeric values yield zero.
pub open spec fn spec_duration_ms(v: Option<JsonVal>) -> u64 {
    match v {
        Some(JsonVal::Num(n)) => match n {
            JsonNum::UInt(u) => (u / 1_000_000) as u64,
            JsonNum::Neg(_) => 0,
            JsonNum::Float { trunc, bits } => if trunc >= 0 {
                ((trunc as u64) / 1_000_000) as u64
            } else {
                0
            },
        },
        _ => 0,
    }
}

/// A signed status code; values that do not fit in 32 bits default to zero,
/// like any other malformed field.
pub open spec fn spec_status_code(v: Option<JsonVal>) -> i32 {
    match v {
        Some(JsonVal::Num(n)) => match n {
            JsonNum::UInt(u) => if u <= 0x7fff_ffff {
                u as i32
            } else {
                0
            },
            JsonNum::Neg(i) => if i >= -0x8000_0000 {
                i as i32
            } else {
                0
            },
            JsonNum::Float { trunc, bits } => 0,
        },
        _ => 0,
    }
}

pub open spec fn spec_bool_or_false(v: Option<JsonVal>) -> bool {
    match v {
        Some(JsonVal::Bool(b)) => b,
        _ => false,
    }
}

/// An absent or empty `parentSpanID` means "no parent".
pub open spec fn parent_ok(p: Option<String>, data: Seq<(String, JsonVal)>) -> bool {
    match spec_lookup(data, "parentSpanID"@) {
        Some(JsonVal::Str(s)) => if s@.len() > 0 {
            p matches Some(ps) && ps@ == s@
        } else {
            p is None
        },
        _ => p is None,
    }
}

/// How a span is read from a list row: required string fields default to
/// empty rather than failing, and the remaining string-valued entries form
/// the attribute map.
pub open spec fn span_from_row(s: Span, row: SigNozListRow) -> bool {
    &&& s.trace_id@ == json_str_of(row.data@, "traceID"@)
    &&& s.span_id@ == json_str_of(row.data@, "spanID"@)
    &&& parent_ok(s.parent_span_id, row.data@)
    &&& s.service_name@ == json_str_of(row.data@, "serviceName"@)
    &&& s.operation_name@ == json_str_of(row.data@, "name"@)
    &&& s.start_time_ms == spec_row_time_ms(row)
    &&& s.duration_ms == spec_duration_ms(spec_lookup(row.data@, "durationNano"@))
    &&& s.status_code == spec_status_code(spec_lookup(row.data@, "statusCode"@))
    &&& s.has_error == spec_bool_or_false(spec_lookup(row.data@, "hasError"@))
    &&& view_pairs(s.attributes@) == string_pairs(row.data@)
}

/// How a log entry is read from a list row.
pub open spec fn log_from_row(l: LogEntry, row: SigNozListRow) -> bool {
    &&& l.timestamp_ms == spec_row_time_ms(row)
    &&& l.severity@ == json_str_of(row.data@, "severity_text"@)
    &&& l.body@ == json_str_of(row.data@, "body"@)
    &&& l.service_name@ == json_str_of(row.data@, "service_name"@)
    &&& view_pairs(l.attributes@) == string_pairs(row.data@)
}

/// How a metric series is read from a wire time series: well-known label
/// keys name the metric and the service, points keep wire order, and a
/// non-numeric point value is zero.
pub open spec fn metric_from_series(m: MetricSeries, ts: SigNozTimeSeries) -> bool {
    &&& m.metric_name@ == label_or_empty(ts.labels@, "__name__"@)
    &&& m.service_name@ == label_or_empty(ts.labels@, "service_name"@)
    &&& m.labels@ == ts.labels@
    &&& m.points@.len() == ts.values@.len()
    &&& forall|k: int|
        0 <= k < ts.values@.len() ==> (#[trigger] m.points@[k]).timestamp_ms
            == ts.values@[k].timestamp && m.points@[k].value == num_or_zero(ts.values@[k].value)
}

fn row_fallback_ms(row: &SigNozListRow) -> (r: u64)
    ensures
        r == spec_row_fallback_ms(*row),
{
    match &row.timestamp {
        Some(s) => match parse_iso8601_to_ms(s.as_str()) {
            Some(t) => t,
            None => 0,
        },
        None => 0,
    }
}

fn row_time_ms(row: &SigNozListRow) -> (r: u64)
    ensures
        r == spec_row_time_ms(*row),
{
    match lookup(&row.data, "timestamp") {
        Some(v) => match parse_timestamp(v) {
            Some(t) => t,
            None => row_fallback_ms(row),
        },
        None => row_fallback_ms(row),
    }
}

/// Read one span out of a list row.
pub fn span_of_row(row: &SigNozListRow) -> (s: Span)
    ensures
        span_from_row(s, *row),
{
    let parent_span_id = match lookup(&row.data, "parentSpanID") {
        Some(JsonVal::Str(s)) => if !s.as_str().is_empty() {
            Some(s.clone())
        } else {
            None
        },
        _ => None,
    };
    let duration_ms = match lookup(&row.data, "durationNano") {
        Some(JsonVal::Num(n)) => match n {
            JsonNum::UInt(u) => *u / 1_000_000,
            JsonNum::Neg(_) => 0,
            JsonNum::Float { trunc, bits } => if *trunc >= 0 {
                (*trunc as u64) / 1_000_000
            } else {
                0
            },
        },
        _ => 0,
    };
    let status_code = match lookup(&row.data, "statusCode") {
        Some(JsonVal::Num(n)) => match n {
            JsonNum::UInt(u) => if *u <= 0x7fff_ffff {
                *u as i32
            } else {
                0
            },
            JsonNum::Neg(i) => if *i >= -0x8000_0000 {
                *i as i32
            } else {
                0
            },
            JsonNum::Float { trunc, bits } => 0,
        },
        _ => 0,
    };
    let has_error = match lookup(&row.data, "hasError") {
        Some(JsonVal::Bool(b)) => *b,
        _ => false,
    };
    Span {
        trace_id: json_str(&row.data, "traceID"),
        span_id: json_str(&row.data, "spanID"),
        parent_span_id,
        service_name: json_str(&row.data, "serviceName"),
        operation_name: json_str(&row.data, "name"),
        start_time_ms: row_time_ms(row),
        duration_ms,
        status_code,
        has_error,
        attributes: extract_string_map(&row.data),
    }
}

/// Read one log entry out of a list row.
pub fn log_of_row(row: &SigNozListRow) -> (l: LogEntry)
    ensures
        log_from_row(l, *row),
{
    LogEntry {
        timestamp_ms: row_time_ms(row),
        severity: json_str(&row.data, "severity_text"),
        body: json_str(&row.data, "body"),
        service_name: json_str(&row.data, "service_name"),
        attributes: extract_string_map(&row.data),
    }
}

/// Read one metric series out of a wire time series.
#[verifier::loop_isolation(false)]
pub fn metric_of_series(ts: &SigNozTimeSeries) -> (m: MetricSeries)
    ensures
        metric_from_series(m, *ts),
{
    let mut points: Vec<MetricPoint> = Vec::new();
    let n = ts.values.len();
    let mut i: usize = 0;
    while i < n
        invariant
            i <= n,
            points@.len() == i,
            forall|k: int|
                0 <= k < i ==> (#[trigger] points@[k]).timestamp_ms == ts.values@[k].timestamp
                    && points@[k].value == num_or_zero(ts.values@[k].value),
        decreases n - i,
    {
        let value = match &ts.values[i].value {
            JsonVal::Num(x) => *x,
            _ => JsonNum::UInt(0),
        };
        points.push(MetricPoint { timestamp_ms: ts.values[i].timestamp, value });
        i += 1;
    }
    MetricSeries {
        metric_name: label_get(&ts.labels, "__name__"),
        service_name: label_get(&ts.labels, "service_name"),
        labels: clone_pairs(&ts.labels),
        points,
    }
}

} // verus!
