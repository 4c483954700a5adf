use vstd::prelude::*;

use crate::config::{AuthMethod, SigNozConfig};
use crate::error::OtlpError;
use crate::response::{
    entries_of, entry_rows, entry_series, extract_result_entries, log_from_row, log_of_row,
    metric_from_series, metric_of_series, rows_of, series_of, span_from_row, span_of_row,
    SigNozResponse, SigNozServicesResponse,
};
use crate::text::{dec_str, str_eq, u64_to_string};
use crate::types::{LogEntry, MetricSeries, QueryResult, ServiceInfo, Span};

verus! {

// The concrete backend: validated connection parameters, URL building, and
// the translation of wire responses into domain results. The HTTP transport
// itself lives outside this crate; header validity is checked through the
// same functions the transport uses.

// ---------------------------------------------------------------------------
// Header validity
// ---------------------------------------------------------------------------

/// The characters an HTTP header name may contain; uppercase letters are
/// accepted and normalized to lowercase.
pub open spec fn is_header_name_char(c: char) -> bool {
    let v = c as u32;
    ||| v == 33  // '!'
    ||| 35 <= v && v <= 39  // '#' '$' '%' '&' '\''
    ||| v == 42 || v == 43 || v == 45 || v == 46  // '*' '+' '-' '.'
    ||| 48 <= v && v <= 57  // '0'..'9'
    ||| 65 <= v && v <= 90  // 'A'..'Z'
    ||| 94 <= v && v <= 96  // '^' '_' '`'
    ||| 97 <= v && v <= 122  // 'a'..'z'
    ||| v == 124 || v == 126  // '|' '~'
}

/// A header name is valid when it is nonempty, at most 65535 characters,
/// and made of header-name characters.
pub open spec fn valid_header_name(s: Seq<char>) -> bool {
    1 <= s.len() <= 65535 && forall|i: int| 0 <= i < s.len() ==> is_header_name_char(#[trigger] s[i])
}

/// A header value may contain a horizontal tab and any character other than
/// a control character or delete.
pub open spec fn is_header_value_char(c: char) -> bool {
    let v = c as u32;
    v == 9 || (v >= 32 && v != 127)
}

pub open spec fn valid_header_value(s: Seq<char>) -> bool {
    forall|i: int| 0 <= i < s.len() ==> is_header_value_char(#[trigger] s[i])
}

/// Relies on `http::HeaderName::try_from(&str)` (`HeaderName::from_bytes`):
/// a name is accepted exactly when it is nonempty, at most 65535 bytes, and
/// every byte maps to a header-name character in the crate's table; bytes of
/// 128 and above never do, so character and byte counts agree whenever the
/// name is accepted.
#[verifier::external_body]
fn header_name_ok(s: &str) -> (r: bool)
    ensures
        r == valid_header_name(s@),
{
    http::header::HeaderName::try_from(s).is_ok()
}

/// Relies on `http::HeaderValue::from_str`: a value is accepted exactly when
/// every byte is 32..=126, 128 and above, or a horizontal tab; the bytes of
/// a multi-byte character are all 128 and above, so the character-level
/// statement matches the byte-level check.
#[verifier::external_body]
fn header_value_ok(s: &str) -> (r: bool)
    ensures
        r == valid_header_value(s@),
{
    http::header::HeaderValue::from_str(s).is_ok()
}

/// Whether an authentication method can be encoded as HTTP headers.
pub open spec fn auth_encodable(a: AuthMethod) -> bool {
    match a {
        AuthMethod::ApiKey { header_name, key } => valid_header_name(header_name@)
            && valid_header_value(key@),
        AuthMethod::BearerToken { token } => valid_header_value("Bearer "@ + token@),
        AuthMethod::NoAuth => true,
    }
}

// ---------------------------------------------------------------------------
// The backend
// ---------------------------------------------------------------------------

/// A SigNoz backend: validated configuration for a client of the composite
/// query API.
pub struct SigNozBackend {
    config: SigNozConfig,
}

impl SigNozBackend {
    /// The configuration this backend was constructed with.
    pub closed spec fn spec_config(&self) -> SigNozConfig {
        self.config
    }

    /// Validate a configuration: the base URL must be nonempty and the
    /// authentication method must be encodable as HTTP headers.
    pub fn new(config: SigNozConfig) -> (r: Result<SigNozBackend, OtlpError>)
        ensures
            config.base_url@.len() == 0 ==> (r matches Err(OtlpError::ConnectionFailed(m)) && m@
                == "base_url must not be empty"@),
            config.base_url@.len() > 0 && auth_encodable(config.auth) ==> (r matches Ok(b)
                && b.spec_config() == config),
            config.base_url@.len() > 0 && !auth_encodable(config.auth) ==> (r matches Err(
                OtlpError::ConnectionFailed(m),
            ) && m@ == (match config.auth {
                AuthMethod::ApiKey { header_name, key } => if !valid_header_name(header_name@) {
                    "invalid auth header name: invalid HTTP header name"@
                } else {
                    "invalid auth header value: failed to parse header value"@
                },
                AuthMethod::BearerToken { token } => "invalid bearer token: failed to parse header value"@,
                AuthMethod::NoAuth => Seq::<char>::empty(),
            })),
    {
        if config.base_url.as_str().is_empty() {
            return Err(OtlpError::ConnectionFailed("base_url must not be empty".to_owned()));
        }
        match &config.auth {
            AuthMethod::ApiKey { header_name, key } => {
                if !header_name_ok(header_name.as_str()) {
                    return Err(
                        OtlpError::ConnectionFailed(
                            "invalid auth header name: invalid HTTP header name".to_owned(),
                        ),
                    );
                }
                if !header_value_ok(key.as_str()) {
                    return Err(
                        OtlpError::ConnectionFailed(
                            "invalid auth header value: failed to parse header value".to_owned(),
                        ),
                    );
                }
            },
            AuthMethod::BearerToken { token } => {
                let bearer = "Bearer ".to_owned().concat(token.as_str());
                if !header_value_ok(bearer.as_str()) {
                    return Err(
                        OtlpError::ConnectionFailed(
                            "invalid bearer token: failed to parse header value".to_owned(),
                        ),
                    );
                }
            },
            AuthMethod::NoAuth => {},
        }
        Ok(SigNozBackend { config })
    }

    /// Build the full URL for a given path: the base URL without trailing
    /// slashes, then the path.
    pub fn url(&self, path: &str) -> (r: String)
        ensures
            r@ == trim_trailing_slashes(self.spec_config().base_url@) + path@,
    {
        let b = self.config.base_url.as_str();
        let n = b.unicode_len();
        let mut cut: usize = n;
        while cut > 0 && b.get_char(cut - 1) == '/'
            invariant
                cut <= n == b@.len(),
                forall|t: int| cut <= t < n ==> b@[t] == '/',
            decreases cut,
        {
            cut -= 1;
        }
        proof {
            lemma_trim_slash(b@, cut as int);
        }
        b.substring_char(0, cut).to_owned().concat(path)
    }

    /// Human-readable name of this backend, for status text.
    pub fn display_name(&self) -> (r: String)
        ensures
            r@ == "SigNoz @ "@ + self.spec_config().base_url@,
    {
        "SigNoz @ ".to_owned().concat(self.config.base_url.as_str())
    }

    /// Parse list-type results into spans, row by row, in order.
    #[verifier::loop_isolation(false)]
    pub fn parse_trace_results(resp: &SigNozResponse) -> (r: Vec<Span>)
        ensures
            r@.len() == rows_of(entries_of(*resp)).len(),
            forall|i: int|
                0 <= i < r@.len() ==> span_from_row(#[trigger] r@[i], rows_of(entries_of(*resp))[i]),
    {
        let mut spans: Vec<Span> = Vec::new();
        let entries = match extract_result_entries(resp) {
            Some(v) => v,
            None => {
                return spans;
            },
        };
        let ghost all = entries@;
        let n = entries.len();
        let mut e: usize = 0;
        while e < n
            invariant
                e <= n,
                spans@.len() == rows_of(all.take(e as int)).len(),
                forall|i: int|
                    0 <= i < spans@.len() ==> span_from_row(
                        #[trigger] spans@[i],
                        rows_of(all.take(e as int))[i],
                    ),
            decreases n - e,
        {
            let ghost done = rows_of(all.take(e as int));
            match &entries[e].list {
                Some(list) => {
                    let m = list.len();
                    let mut k: usize = 0;
                    while k < m
                        invariant
                            k <= m,
                            spans@.len() == done.len() + k,
                            forall|i: int|
                                0 <= i < done.len() ==> span_from_row(#[trigger] spans@[i], done[i]),
                            forall|j: int|
                                0 <= j < k ==> span_from_row(
                                    #[trigger] spans@[done.len() + j],
                                    list@[j],
                                ),
                        decreases m - k,
                    {
                        spans.push(span_of_row(&list[k]));
                        k += 1;
                    }
                },
                None => {},
            }
            proof {
                assert(all.take(e as int + 1).drop_last() =~= all.take(e as int));
                assert(all.take(e as int + 1).last() == all[e as int]);
                assert(rows_of(all.take(e as int + 1)) == done + entry_rows(all[e as int]));
                assert forall|i: int| 0 <= i < spans@.len() implies span_from_row(
                    #[trigger] spans@[i],
                    rows_of(all.take(e as int + 1))[i],
                ) by {
                    if i >= done.len() {
                        let j = i - done.len();
                        assert(span_from_row(spans@[done.len() + j], entry_rows(all[e as int])[j]));
                    }
                }
            }
            e += 1;
        }
        proof {
            assert(all.take(n as int) =~= all);
        }
        spans
    }

    /// Parse list-type results into log entries, row by row, in order.
    #[verifier::loop_isolation(false)]
    pub fn parse_log_results(resp: &SigNozResponse) -> (r: Vec<LogEntry>)
        ensures
            r@.len() == rows_of(entries_of(*resp)).len(),
            forall|i: int|
                0 <= i < r@.len() ==> log_from_row(#[trigger] r@[i], rows_of(entries_of(*resp))[i]),
    {
        let mut logs: Vec<LogEntry> = Vec::new();
        let entries = match extract_result_entries(resp) {
            Some(v) => v,
            None => {
                return logs;
            },
        };
        let ghost all = entries@;
        let n = entries.len();
        let mut e: usize = 0;
        while e < n
            invariant
                e <= n,
                logs@.len() == rows_of(all.take(e as int)).len(),
                forall|i: int|
                    0 <= i < logs@.len() ==> log_from_row(
                        #[trigger] logs@[i],
                        rows_of(all.take(e as int))[i],
                    ),
            decreases n - e,
        {
            let ghost done = rows_of(all.take(e as int));
            match &entries[e].list {
                Some(list) => {
                    let m = list.len();
                    let mut k: usize = 0;
                    while k < m
                        invariant
                            k <= m,
                            logs@.len() == done.len() + k,
                            forall|i: int|
                                0 <= i < done.len() ==> log_from_row(#[trigger] logs@[i], done[i]),
                            forall|j: int|
                                0 <= j < k ==> log_from_row(
                                    #[trigger] logs@[done.len() + j],
                                    list@[j],
                                ),
                        decreases m - k,
                    {
                        logs.push(log_of_row(&list[k]));
                        k += 1;
                    }
                },
                None => {},
            }
            proof {
                assert(all.take(e as int + 1).drop_last() =~= all.take(e as int));
                assert(all.take(e as int + 1).last() == all[e as int]);
                assert(rows_of(all.take(e as int + 1)) == done + entry_rows(all[e as int]));
                assert forall|i: int| 0 <= i < logs@.len() implies log_from_row(
                    #[trigger] logs@[i],
                    rows_of(all.take(e as int + 1))[i],
                ) by {
                    if i >= done.len() {
                        let j = i - done.len();
                        assert(log_from_row(logs@[done.len() + j], entry_rows(all[e as int])[j]));
                    }
                }
            }
            e += 1;
        }
        proof {
            assert(all.take(n as int) =~= all);
        }
        logs
    }

    /// Parse time-series results into metric series, in order.
    #[verifier::loop_isolation(false)]
    pub fn parse_metric_results(resp: &SigNozResponse) -> (r: Vec<MetricSeries>)
        ensures
            r@.len() == series_of(entries_of(*resp)).len(),
            forall|i: int|
                0 <= i < r@.len() ==> metric_from_series(
                    #[trigger] r@[i],
                    series_of(entries_of(*resp))[i],
                ),
    {
        let mut metrics: Vec<MetricSeries> = Vec::new();
        let entries = match extract_result_entries(resp) {
            Some(v) => v,
            None => {
                return metrics;
            },
        };
        let ghost all = entries@;
        let n = entries.len();
        let mut e: usize = 0;
        while e < n
            invariant
                e <= n,
                metrics@.len() == series_of(all.take(e as int)).len(),
                forall|i: int|
                    0 <= i < metrics@.len() ==> metric_from_series(
                        #[trigger] metrics@[i],
                        series_of(all.take(e as int))[i],
                    ),
            decreases n - e,
        {
            let ghost done = series_of(all.take(e as int));
            match &entries[e].series {
                Some(series_list) => {
                    let m = series_list.len();
                    let mut k: usize = 0;
                    while k < m
                        invariant
                            k <= m,
                            metrics@.len() == done.len() + k,
                            forall|i: int|
                                0 <= i < done.len() ==> metric_from_series(
                                    #[trigger] metrics@[i],
                                    done[i],
                                ),
                            forall|j: int|
                                0 <= j < k ==> metric_from_series(
                                    #[trigger] metrics@[done.len() + j],
                                    series_list@[j],
                                ),
                        decreases m - k,
                    {
                        metrics.push(metric_of_series(&series_list[k]));
                        k += 1;
                    }
                },
                None => {},
            }
            proof {
                assert(all.take(e as int + 1).drop_last() =~= all.take(e as int));
                assert(all.take(e as int + 1).last() == all[e as int]);
                assert(series_of(all.take(e as int + 1)) == done + entry_series(all[e as int]));
                assert forall|i: int| 0 <= i < metrics@.len() implies metric_from_series(
                    #[trigger] metrics@[i],
                    series_of(all.take(e as int + 1))[i],
                ) by {
                    if i >= done.len() {
                        let j = i - done.len();
                        assert(metric_from_series(
                            metrics@[done.len() + j],
                            entry_series(all[e as int])[j],
                        ));
                    }
                }
            }
            e += 1;
        }
        proof {
            assert(all.take(n as int) =~= all);
        }
        metrics
    }
}

/// Base URL with trailing slashes removed.
pub open spec fn trim_trailing_slashes(s: Seq<char>) -> Seq<char>
    decreases s.len(),
{
    if s.len() > 0 && s.last() == '/' {
        trim_trailing_slashes(s.drop_last())
    } else {
        s
    }
}

proof fn lemma_trim_slash(s: Seq<char>, k: int)
    requires
        0 <= k <= s.len(),
        forall|t: int| k <= t < s.len() ==> s[t] == '/',
        k == 0 || s[k - 1] != '/',
    ensures
        trim_trailing_slashes(s) == s.take(k),
    decreases s.len(),
{
    if s.len() > k {
        assert(s.last() == '/');
        assert(forall|t: int| k <= t < s.len() - 1 ==> #[trigger] s.drop_last()[t] == s[t]);
        lemma_trim_slash(s.drop_last(), k);
        assert(s.drop_last().take(k) =~= s.take(k));
    } else {
        assert(s.take(k) =~= s);
    }
}

// ---------------------------------------------------------------------------
// HTTP response classification
// ---------------------------------------------------------------------------

/// Classify an HTTP status: 401 and 403 are authentication failures
/// regardless of body content, any other non-2xx status carries the body as
/// an API error, and a 2xx status is success.
pub fn classify_http_status(status: u16, body: String) -> (r: Result<(), OtlpError>)
    ensures
        status == 401 || status == 403 ==> (r matches Err(OtlpError::AuthenticationFailed(m)) && m@
            == "HTTP "@ + dec_str(status as nat)),
        !(status == 401 || status == 403) && !(200 <= status < 300) ==> (r matches Err(
            OtlpError::ApiError { status: st, message },
        ) && st == status && message@ == body@),
        200 <= status < 300 ==> r is Ok,
{
    if status == 401 || status == 403 {
        return Err(
            OtlpError::AuthenticationFailed(
                "HTTP ".to_owned().concat(u64_to_string(status as u64).as_str()),
            ),
        );
    }
    if !(200 <= status && status < 300) {
        return Err(OtlpError::ApiError { status, message: body });
    }
    Ok(())
}

/// The message of a backend-reported error: the envelope's `error` field,
/// or a fixed fallback.
pub open spec fn spec_backend_error(resp: SigNozResponse) -> Seq<char> {
    match resp.error {
        Some(e) => e@,
        None => "unknown error"@,
    }
}

/// Check the response envelope: a backend-reported error becomes a typed
/// error, anything else passes through.
pub fn check_envelope(resp: &SigNozResponse) -> (r: Result<(), OtlpError>)
    ensures
        resp.status@ == "error"@ ==> (r matches Err(OtlpError::Backend(m)) && m@
            == spec_backend_error(*resp)),
        resp.status@ != "error"@ ==> r is Ok,
{
    if str_eq(resp.status.as_str(), "error") {
        let m = match &resp.error {
            Some(e) => e.clone(),
            None => "unknown error".to_owned(),
        };
        return Err(OtlpError::Backend(m));
    }
    Ok(())
}

// ---------------------------------------------------------------------------
// Whole-response translation
// ---------------------------------------------------------------------------

/// Translate a composite query response into a page of spans: a reported
/// error becomes `Backend`, and on success every list row becomes one span,
/// with the page size as the best-effort total.
pub fn parse_trace_response(resp: &SigNozResponse) -> (r: Result<QueryResult<Span>, OtlpError>)
    ensures
        resp.status@ == "error"@ ==> (r matches Err(OtlpError::Backend(m)) && m@
            == spec_backend_error(*resp)),
        resp.status@ != "error"@ ==> (r matches Ok(qr) && qr.items@.len() == rows_of(
            entries_of(*resp),
        ).len() && (forall|i: int|
            0 <= i < qr.items@.len() ==> span_from_row(
                #[trigger] qr.items@[i],
                rows_of(entries_of(*resp))[i],
            )) && qr.total == Some(qr.items@.len() as u64)),
{
    match check_envelope(resp) {
        Err(e) => Err(e),
        Ok(()) => {
            let items = SigNozBackend::parse_trace_results(resp);
            let total = Some(items.len() as u64);
            Ok(QueryResult { items, total })
        },
    }
}

/// Translate a composite query response into a page of log entries.
pub fn parse_log_response(resp: &SigNozResponse) -> (r: Result<QueryResult<LogEntry>, OtlpError>)
    ensures
        resp.status@ == "error"@ ==> (r matches Err(OtlpError::Backend(m)) && m@
            == spec_backend_error(*resp)),
        resp.status@ != "error"@ ==> (r matches Ok(qr) && qr.items@.len() == rows_of(
            entries_of(*resp),
        ).len() && (forall|i: int|
            0 <= i < qr.items@.len() ==> log_from_row(
                #[trigger] qr.items@[i],
                rows_of(entries_of(*resp))[i],
            )) && qr.total == Some(qr.items@.len() as u64)),
{
    match check_envelope(resp) {
        Err(e) => Err(e),
        Ok(()) => {
            let items = SigNozBackend::parse_log_results(resp);
            let total = Some(items.len() as u64);
            Ok(QueryResult { items, total })
        },
    }
}

/// Translate a composite query response into a page of metric series.
pub fn parse_metric_response(resp: &SigNozResponse) -> (r: Result<
    QueryResult<MetricSeries>,
    OtlpError,
>)
    ensures
        resp.status@ == "error"@ ==> (r matches Err(OtlpError::Backend(m)) && m@
            == spec_backend_error(*resp)),
        resp.status@ != "error"@ ==> (r matches Ok(qr) && qr.items@.len() == series_of(
            entries_of(*resp),
        ).len() && (forall|i: int|
            0 <= i < qr.items@.len() ==> metric_from_series(
                #[trigger] qr.items@[i],
                series_of(entries_of(*resp))[i],
            )) && qr.total == Some(qr.items@.len() as u64)),
{
    match check_envelope(resp) {
        Err(e) => Err(e),
        Ok(()) => {
            let items = SigNozBackend::parse_metric_results(resp);
            let total = Some(items.len() as u64);
            Ok(QueryResult { items, total })
        },
    }
}

/// Map a services listing to service descriptions, in response order.
#[verifier::loop_isolation(false)]
pub fn services_from_response(resp: &SigNozServicesResponse) -> (r: Vec<ServiceInfo>)
    ensures
        r@.len() == resp.data@.len(),
        forall|i: int|
            0 <= i < r@.len() ==> (#[trigger] r@[i]).name@ == resp.data@[i].service_name@
                && r@[i].num_operations == resp.data@[i].num_operations,
{
    let mut r: Vec<ServiceInfo> = Vec::new();
    let n = resp.data.len();
    let mut i: usize = 0;
    while i < n
        invariant
            i <= n,
            r@.len() == i,
            forall|t: int|
                0 <= t < i ==> (#[trigger] r@[t]).name@ == resp.data@[t].service_name@
                    && r@[t].num_operations == resp.data@[t].num_operations,
        decreases n - i,
    {
        r.push(
            ServiceInfo {
                name: resp.data[i].service_name.clone(),
                num_operations: resp.data[i].num_operations,
            },
        );
        i += 1;
    }
    r
}

} // verus!
