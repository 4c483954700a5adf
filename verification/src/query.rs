use vstd::prelude::*;

use crate::types::{LogQuery, MetricQuery, TimeRange, TraceQuery};

verus! {

// The wire-shaped model of a composite query payload. Builders assemble an
// AND-combined filter list from the populated optional fields of a domain
// query, converting milliseconds to nanoseconds for the wire format.

/// A key reference inside a payload (filter key, select column, group-by).
#[derive(Debug, Clone, PartialEq)]
pub struct AttrKey {
    pub key: String,
    pub data_type: String,
    pub attr_type: String,
    pub is_column: bool,
}

/// A filter's comparison value.
#[derive(Debug, Clone, PartialEq)]
pub enum FilterValue {
    Str(String),
    UInt(u64),
}

/// One entry of the AND-combined filter list.
#[derive(Debug, Clone, PartialEq)]
pub struct FilterItem {
    pub key: AttrKey,
    pub op: String,
    pub value: FilterValue,
}

/// An ordering directive.
#[derive(Debug, Clone, PartialEq)]
pub struct OrderBy {
    pub column_name: String,
    pub order: String,
}

/// The aggregation target of a time-series query.
#[derive(Debug, Clone, PartialEq)]
pub struct AggregateAttr {
    pub key: String,
    pub data_type: String,
    pub attr_type: String,
    pub is_column: bool,
    pub is_monotonic: bool,
}

/// The single builder query inside a composite payload.
#[derive(Debug, Clone, PartialEq)]
pub struct BuilderQuery {
    pub data_source: String,
    pub query_name: String,
    pub expression: String,
    pub aggregate_operator: String,
    pub aggregate_attribute: Option<AggregateAttr>,
    pub filters: Vec<FilterItem>,
    pub limit: Option<u32>,
    pub offset: Option<u32>,
    pub order_by: Vec<OrderBy>,
    pub select_columns: Vec<AttrKey>,
    pub group_by: Vec<AttrKey>,
}

/// A complete query payload: time bounds in nanoseconds, an optional step,
/// and the builder query.
#[derive(Debug, Clone, PartialEq)]
pub struct QueryPayload {
    pub start: u64,
    pub end: u64,
    pub step: Option<u64>,
    pub query_type: String,
    pub panel_type: String,
    pub query: BuilderQuery,
}

/// Largest millisecond count whose nanosecond form fits in a `u64`.
pub const MAX_WIRE_MS: u64 = 18_446_744_073_709;

// ---------------------------------------------------------------------------
// Specification predicates
// ---------------------------------------------------------------------------

pub open spec fn key_is(k: AttrKey, key: Seq<char>, dt: Seq<char>, at: Seq<char>, col: bool) -> bool {
    k.key@ == key && k.data_type@ == dt && k.attr_type@ == at && k.is_column == col
}

pub open spec fn is_str_filter(
    f: FilterItem,
    key: Seq<char>,
    dt: Seq<char>,
    at: Seq<char>,
    col: bool,
    op: Seq<char>,
    v: Seq<char>,
) -> bool {
    key_is(f.key, key, dt, at, col) && f.op@ == op && (f.value matches FilterValue::Str(s) && s@
        == v)
}

pub open spec fn is_num_filter(
    f: FilterItem,
    key: Seq<char>,
    dt: Seq<char>,
    at: Seq<char>,
    col: bool,
    op: Seq<char>,
    v: u64,
) -> bool {
    key_is(f.key, key, dt, at, col) && f.op@ == op && f.value == FilterValue::UInt(v)
}

/// A filter built from a caller-supplied tag or attribute entry: a plain
/// string equality that is not a column.
pub open spec fn is_tag_filter(f: FilterItem, k: Seq<char>, v: Seq<char>) -> bool {
    is_str_filter(f, k, "string"@, "tag"@, false, "="@, v)
}

pub open spec fn opt_count<T>(o: Option<T>) -> int {
    if o is Some {
        1
    } else {
        0
    }
}

/// How many scalar (non-tag) filters a trace query populates.
pub open spec fn trace_scalar_count(q: TraceQuery) -> int {
    opt_count(q.service_name) + opt_count(q.operation_name) + opt_count(q.min_duration_ms)
        + opt_count(q.max_duration_ms)
}

/// The exact filter list of a trace query: the populated scalar filters in
/// field order, then one tag filter per tag entry.
pub open spec fn trace_filters_ok(fs: Seq<FilterItem>, q: TraceQuery) -> bool {
    let i1 = opt_count(q.service_name);
    let i2 = i1 + opt_count(q.operation_name);
    let i3 = i2 + opt_count(q.min_duration_ms);
    let i4 = i3 + opt_count(q.max_duration_ms);
    &&& fs.len() == i4 + q.tags@.len()
    &&& (q.service_name matches Some(s) ==> is_str_filter(
        fs[0],
        "serviceName"@,
        "string"@,
        "tag"@,
        true,
        "="@,
        s@,
    ))
    &&& (q.operation_name matches Some(o) ==> is_str_filter(
        fs[i1],
        "name"@,
        "string"@,
        "tag"@,
        true,
        "="@,
        o@,
    ))
    &&& (q.min_duration_ms matches Some(m) ==> is_num_filter(
        fs[i2],
        "durationNano"@,
        "float64"@,
        "tag"@,
        true,
        ">="@,
        (m * 1_000_000) as u64,
    ))
    &&& (q.max_duration_ms matches Some(m) ==> is_num_filter(
        fs[i3],
        "durationNano"@,
        "float64"@,
        "tag"@,
        true,
        "<="@,
        (m * 1_000_000) as u64,
    ))
    &&& forall|j: int|
        0 <= j < q.tags@.len() ==> is_tag_filter(
            #[trigger] fs[i4 + j],
            q.tags@[j].0@,
            q.tags@[j].1@,
        )
}

/// How many scalar (non-attribute) filters a log query populates.
pub open spec fn log_scalar_count(q: LogQuery) -> int {
    opt_count(q.service_name) + opt_count(q.severity) + opt_count(q.body_contains)
}

/// The exact filter list of a log query.
pub open spec fn log_filters_ok(fs: Seq<FilterItem>, q: LogQuery) -> bool {
    let i1 = opt_count(q.service_name);
    let i2 = i1 + opt_count(q.severity);
    let i3 = i2 + opt_count(q.body_contains);
    &&& fs.len() == i3 + q.attributes@.len()
    &&& (q.service_name matches Some(s) ==> is_str_filter(
        fs[0],
        "service_name"@,
        "string"@,
        "resource"@,
        true,
        "="@,
        s@,
    ))
    &&& (q.severity matches Some(s) ==> is_str_filter(
        fs[i1],
        "severity_text"@,
        "string"@,
        "tag"@,
        true,
        "="@,
        s@,
    ))
    &&& (q.body_contains matches Some(b) ==> is_str_filter(
        fs[i2],
        "body"@,
        "string"@,
        "tag"@,
        true,
        "contains"@,
        b@,
    ))
    &&& forall|j: int|
        0 <= j < q.attributes@.len() ==> is_tag_filter(
            #[trigger] fs[i3 + j],
            q.attributes@[j].0@,
            q.attributes@[j].1@,
        )
}

/// How many scalar filters a metric query populates.
pub open spec fn metric_scalar_count(q: MetricQuery) -> int {
    opt_count(q.service_name)
}

/// The exact filter list of a metric query.
pub open spec fn metric_filters_ok(fs: Seq<FilterItem>, q: MetricQuery) -> bool {
    let i1 = opt_count(q.service_name);
    &&& fs.len() == i1 + q.filters@.len()
    &&& (q.service_name matches Some(s) ==> is_str_filter(
        fs[0],
        "service_name"@,
        "string"@,
        "resource"@,
        false,
        "="@,
        s@,
    ))
    &&& forall|j: int|
        0 <= j < q.filters@.len() ==> is_tag_filter(
            #[trigger] fs[i1 + j],
            q.filters@[j].0@,
            q.filters@[j].1@,
        )
}

/// The default time range: the hour ending now (saturating at the epoch).
pub open spec fn spec_default_time_range(now_ms: u64) -> TimeRange {
    TimeRange {
        start_ms: if now_ms >= 3_600_000 {
            (now_ms - 3_600_000) as u64
        } else {
            0
        },
        end_ms: now_ms,
    }
}

/// The effective time range of a query: the caller's, or the default.
pub open spec fn effective_range(tr: Option<TimeRange>, now_ms: u64) -> TimeRange {
    match tr {
        Some(t) => t,
        None => spec_default_time_range(now_ms),
    }
}

/// Payload `start`/`end` are the effective range in nanoseconds, converted
/// by multiplying by exactly 1,000,000.
pub open spec fn times_ok(start: u64, end: u64, tr: Option<TimeRange>, now_ms: u64) -> bool {
    let t = effective_range(tr, now_ms);
    start == t.start_ms * 1_000_000 && end == t.end_ms * 1_000_000
}

// ---------------------------------------------------------------------------
// Construction helpers
// ---------------------------------------------------------------------------

fn attr_key(key: &str, dt: &str, at: &str, col: bool) -> (k: AttrKey)
    ensures
        key_is(k, key@, dt@, at@, col),
{
    AttrKey { key: key.to_owned(), data_type: dt.to_owned(), attr_type: at.to_owned(), is_column: col }
}

fn str_filter(key: &str, dt: &str, at: &str, col: bool, op: &str, v: &String) -> (f: FilterItem)
    ensures
        is_str_filter(f, key@, dt@, at@, col, op@, v@),
{
    FilterItem { key: attr_key(key, dt, at, col), op: op.to_owned(), value: FilterValue::Str(v.clone()) }
}

fn num_filter(key: &str, dt: &str, at: &str, col: bool, op: &str, v: u64) -> (f: FilterItem)
    ensures
        is_num_filter(f, key@, dt@, at@, col, op@, v),
{
    FilterItem { key: attr_key(key, dt, at, col), op: op.to_owned(), value: FilterValue::UInt(v) }
}

/// Push one tag filter per caller-supplied entry, in order.
#[verifier::loop_isolation(false)]
fn push_tag_filters(filters: &mut Vec<FilterItem>, tags: &Vec<(String, String)>)
    ensures
        final(filters)@.len() == old(filters)@.len() + tags@.len(),
        forall|j: int| 0 <= j < old(filters)@.len() ==> final(filters)@[j] == old(filters)@[j],
        forall|j: int|
            0 <= j < tags@.len() ==> is_tag_filter(
                #[trigger] final(filters)@[old(filters)@.len() + j],
                tags@[j].0@,
                tags@[j].1@,
            ),
{
    let base = filters.len();
    let n = tags.len();
    let mut i: usize = 0;
    while i < n
        invariant
            i <= n,
            filters@.len() == base + i,
            forall|j: int| 0 <= j < base ==> filters@[j] == old(filters)@[j],
            forall|j: int|
                0 <= j < i ==> is_tag_filter(
                    #[trigger] filters@[base + j],
                    tags@[j].0@,
                    tags@[j].1@,
                ),
        decreases n - i,
    {
        let f = str_filter("string", "string", "tag", false, "=", &tags[i].1);
        let f = FilterItem { key: AttrKey { key: tags[i].0.clone(), ..f.key }, ..f };
        filters.push(f);
        i += 1;
    }
}

/// The time range a query runs over when the caller gave none: the last
/// hour, ending at the supplied current time.
pub fn default_time_range(now_ms: u64) -> (r: TimeRange)
    ensures
        r == spec_default_time_range(now_ms),
{
    TimeRange {
        start_ms: if now_ms >= 3_600_000 {
            now_ms - 3_600_000
        } else {
            0
        },
        end_ms: now_ms,
    }
}

// ---------------------------------------------------------------------------
// Builders
// ---------------------------------------------------------------------------

/// Build the payload for a trace query. `now_ms` is the caller's clock,
/// used only when the query has no explicit time range.
pub fn build_trace_query(query: &TraceQuery, now_ms: u64) -> (r: QueryPayload)
    requires
        query.time_range matches Some(t) ==> t.start_ms <= MAX_WIRE_MS && t.end_ms <= MAX_WIRE_MS,
        query.time_range is None ==> now_ms <= MAX_WIRE_MS,
        query.min_duration_ms matches Some(m) ==> m <= MAX_WIRE_MS,
        query.max_duration_ms matches Some(m) ==> m <= MAX_WIRE_MS,
    ensures
        times_ok(r.start, r.end, query.time_range, now_ms),
        trace_filters_ok(r.query.filters@, *query),
        r.query.filters@.len() == trace_scalar_count(*query) + query.tags@.len(),
        r.step is None,
        r.query_type@ == "builder"@,
        r.panel_type@ == "list"@,
        r.query.data_source@ == "traces"@,
        r.query.query_name@ == "A"@,
        r.query.expression@ == "A"@,
        r.query.aggregate_operator@ == "noop"@,
        r.query.aggregate_attribute is None,
        r.query.limit == Some(default_limit(query.limit)),
        r.query.offset == Some(default_offset(query.offset)),
        r.query.order_by@.len() == 1 && r.query.order_by@[0].column_name@ == "timestamp"@
            && r.query.order_by@[0].order@ == "desc"@,
        trace_select_ok(r.query.select_columns@),
        r.query.group_by@.len() == 0,
{
    let tr = match &query.time_range {
        Some(t) => t.clone(),
        None => default_time_range(now_ms),
    };
    let limit = match query.limit {
        Some(l) => l,
        None => 100,
    };
    let offset = match query.offset {
        Some(o) => o,
        None => 0,
    };

    let mut filters: Vec<FilterItem> = Vec::new();
    if let Some(svc) = &query.service_name {
        filters.push(str_filter("serviceName", "string", "tag", true, "=", svc));
    }
    if let Some(op) = &query.operation_name {
        filters.push(str_filter("name", "string", "tag", true, "=", op));
    }
    if let Some(min_dur) = query.min_duration_ms {
        filters.push(num_filter("durationNano", "float64", "tag", true, ">=", min_dur * 1_000_000));
    }
    if let Some(max_dur) = query.max_duration_ms {
        filters.push(num_filter("durationNano", "float64", "tag", true, "<=", max_dur * 1_000_000));
    }
    push_tag_filters(&mut filters, &query.tags);

    let mut select_columns: Vec<AttrKey> = Vec::new();
    select_columns.push(attr_key("serviceName", "string", "tag", true));
    select_columns.push(attr_key("name", "string", "tag", true));
    select_columns.push(attr_key("durationNano", "float64", "tag", true));
    select_columns.push(attr_key("traceID", "string", "tag", true));
    select_columns.push(attr_key("spanID", "string", "tag", true));
    select_columns.push(attr_key("parentSpanID", "string", "tag", true));
    select_columns.push(attr_key("statusCode", "int64", "tag", true));
    select_columns.push(attr_key("hasError", "bool", "tag", true));

    let mut order_by: Vec<OrderBy> = Vec::new();
    order_by.push(OrderBy { column_name: "timestamp".to_owned(), order: "desc".to_owned() });

    QueryPayload {
        start: tr.start_ms * 1_000_000,
        end: tr.end_ms * 1_000_000,
        step: None,
        query_type: "builder".to_owned(),
        panel_type: "list".to_owned(),
        query: BuilderQuery {
            data_source: "traces".to_owned(),
            query_name: "A".to_owned(),
            expression: "A".to_owned(),
            aggregate_operator: "noop".to_owned(),
            aggregate_attribute: None,
            filters,
            limit: Some(limit),
            offset: Some(offset),
            order_by,
            select_columns,
            group_by: Vec::new(),
        },
    }
}

pub open spec fn default_limit(l: Option<u32>) -> u32 {
    match l {
        Some(x) => x,
        None => 100,
    }
}

pub open spec fn default_offset(o: Option<u32>) -> u32 {
    match o {
        Some(x) => x,
        None => 0,
    }
}

/// The trace list's selected columns, in order.
pub open spec fn trace_select_ok(cols: Seq<AttrKey>) -> bool {
    &&& cols.len() == 8
    &&& key_is(cols[0], "serviceName"@, "string"@, "tag"@, true)
    &&& key_is(cols[1], "name"@, "string"@, "tag"@, true)
    &&& key_is(cols[2], "durationNano"@, "float64"@, "tag"@, true)
    &&& key_is(cols[3], "traceID"@, "string"@, "tag"@, true)
    &&& key_is(cols[4], "spanID"@, "string"@, "tag"@, true)
    &&& key_is(cols[5], "parentSpanID"@, "string"@, "tag"@, true)
    &&& key_is(cols[6], "statusCode"@, "int64"@, "tag"@, true)
    &&& key_is(cols[7], "hasError"@, "bool"@, "tag"@, true)
}

/// The log list's selected columns, in order.
pub open spec fn log_select_ok(cols: Seq<AttrKey>) -> bool {
    &&& cols.len() == 3
    &&& key_is(cols[0], "service_name"@, "string"@, "resource"@, true)
    &&& key_is(cols[1], "severity_text"@, "string"@, "tag"@, true)
    &&& key_is(cols[2], "body"@, "string"@, "tag"@, true)
}

/// Build the payload for a log query. `now_ms` is the caller's clock,
/// used only when the query has no explicit time range.
pub fn build_log_query(query: &LogQuery, now_ms: u64) -> (r: QueryPayload)
    requires
        query.time_range matches Some(t) ==> t.start_ms <= MAX_WIRE_MS && t.end_ms <= MAX_WIRE_MS,
        query.time_range is None ==> now_ms <= MAX_WIRE_MS,
    ensures
        times_ok(r.start, r.end, query.time_range, now_ms),
        log_filters_ok(r.query.filters@, *query),
        r.query.filters@.len() == log_scalar_count(*query) + query.attributes@.len(),
        r.step is None,
        r.query_type@ == "builder"@,
        r.panel_type@ == "list"@,
        r.query.data_source@ == "logs"@,
        r.query.query_name@ == "A"@,
        r.query.expression@ == "A"@,
        r.query.aggregate_operator@ == "noop"@,
        r.query.aggregate_attribute is None,
        r.query.limit == Some(default_limit(query.limit)),
        r.query.offset == Some(default_offset(query.offset)),
        r.query.order_by@.len() == 1 && r.query.order_by@[0].column_name@ == "timestamp"@
            && r.query.order_by@[0].order@ == "desc"@,
        log_select_ok(r.query.select_columns@),
        r.query.group_by@.len() == 0,
{
    let tr = match &query.time_range {
        Some(t) => t.clone(),
        None => default_time_range(now_ms),
    };
    let limit = match query.limit {
        Some(l) => l,
        None => 100,
    };
    let offset = match query.offset {
        Some(o) => o,
        None => 0,
    };

    let mut filters: Vec<FilterItem> = Vec::new();
    if let Some(svc) = &query.service_name {
        filters.push(str_filter("service_name", "string", "resource", true, "=", svc));
    }
    if let Some(severity) = &query.severity {
        filters.push(str_filter("severity_text", "string", "tag", true, "=", severity));
    }
    if let Some(body_contains) = &query.body_contains {
        filters.push(str_filter("body", "string", "tag", true, "contains", body_contains));
    }
    push_tag_filters(&mut filters, &query.attributes);

    let mut select_columns: Vec<AttrKey> = Vec::new();
    select_columns.push(attr_key("service_name", "string", "resource", true));
    select_columns.push(attr_key("severity_text", "string", "tag", true));
    select_columns.push(attr_key("body", "string", "tag", true));

    let mut order_by: Vec<OrderBy> = Vec::new();
    order_by.push(OrderBy { column_name: "timestamp".to_owned(), order: "desc".to_owned() });

    QueryPayload {
        start: tr.start_ms * 1_000_000,
        end: tr.end_ms * 1_000_000,
        step: None,
        query_type: "builder".to_owned(),
        panel_type: "list".to_owned(),
        query: BuilderQuery {
            data_source: "logs".to_owned(),
            query_name: "A".to_owned(),
            expression: "A".to_owned(),
            aggregate_operator: "noop".to_owned(),
            aggregate_attribute: None,
            filters,
            limit: Some(limit),
            offset: Some(offset),
            order_by,
            select_columns,
            group_by: Vec::new(),
        },
    }
}

/// Build the payload for a metric query. `now_ms` is the caller's clock,
/// used only when the query has no explicit time range.
#[verifier::loop_isolation(false)]
pub fn build_metric_query(query: &MetricQuery, now_ms: u64) -> (r: QueryPayload)
    requires
        query.time_range matches Some(t) ==> t.start_ms <= MAX_WIRE_MS && t.end_ms <= MAX_WIRE_MS,
        query.time_range is None ==> now_ms <= MAX_WIRE_MS,
    ensures
        times_ok(r.start, r.end, query.time_range, now_ms),
        metric_filters_ok(r.query.filters@, *query),
        r.query.filters@.len() == metric_scalar_count(*query) + query.filters@.len(),
        r.step == Some(default_step(query.step_seconds)),
        r.query_type@ == "builder"@,
        r.panel_type@ == "time_series"@,
        r.query.data_source@ == "metrics"@,
        r.query.query_name@ == "A"@,
        r.query.expression@ == "A"@,
        r.query.aggregate_operator@ == (match query.aggregation {
            Some(a) => a@,
            None => "avg"@,
        }),
        r.query.aggregate_attribute matches Some(a) && a.key@ == (match query.metric_name {
            Some(m) => m@,
            None => "signoz_calls_total"@,
        }) && a.data_type@ == "float64"@ && a.attr_type@ == "Sum"@ && a.is_column && a.is_monotonic,
        r.query.limit is None,
        r.query.offset is None,
        r.query.order_by@.len() == 0,
        r.query.select_columns@.len() == 0,
        r.query.group_by@.len() == query.group_by@.len(),
        forall|j: int|
            0 <= j < query.group_by@.len() ==> key_is(
                #[trigger] r.query.group_by@[j],
                query.group_by@[j]@,
                "string"@,
                "tag"@,
                false,
            ),
{
    let tr = match &query.time_range {
        Some(t) => t.clone(),
        None => default_time_range(now_ms),
    };
    let step = match query.step_seconds {
        Some(s) => s,
        None => 60,
    };
    let aggregation = match &query.aggregation {
        Some(a) => a.clone(),
        None => "avg".to_owned(),
    };
    let metric_name = match &query.metric_name {
        Some(m) => m.clone(),
        None => "signoz_calls_total".to_owned(),
    };

    let mut filters: Vec<FilterItem> = Vec::new();
    if let Some(svc) = &query.service_name {
        filters.push(str_filter("service_name", "string", "resource", false, "=", svc));
    }
    push_tag_filters(&mut filters, &query.filters);

    let mut group_by: Vec<AttrKey> = Vec::new();
    let n = query.group_by.len();
    let mut i: usize = 0;
    while i < n
        invariant
            i <= n,
            group_by@.len() == i,
            forall|j: int|
                0 <= j < i ==> key_is(
                    #[trigger] group_by@[j],
                    query.group_by@[j]@,
                    "string"@,
                    "tag"@,
                    false,
                ),
        decreases n - i,
    {
        let k = attr_key("string", "string", "tag", false);
        let k = AttrKey { key: query.group_by[i].clone(), ..k };
        group_by.push(k);
        i += 1;
    }

    QueryPayload {
        start: tr.start_ms * 1_000_000,
        end: tr.end_ms * 1_000_000,
        step: Some(step),
        query_type: "builder".to_owned(),
        panel_type: "time_series".to_owned(),
        query: BuilderQuery {
            data_source: "metrics".to_owned(),
            query_name: "A".to_owned(),
            expression: "A".to_owned(),
            aggregate_operator: aggregation,
            aggregate_attribute: Some(
                AggregateAttr {
                    key: metric_name,
                    data_type: "float64".to_owned(),
                    attr_type: "Sum".to_owned(),
                    is_column: true,
                    is_monotonic: true,
                },
            ),
            filters,
            limit: None,
            offset: None,
            order_by: Vec::new(),
            select_columns: Vec::new(),
            group_by,
        },
    }
}

pub open spec fn default_step(s: Option<u64>) -> u64 {
    match s {
        Some(x) => x,
        None => 60,
    }
}

} // verus!
