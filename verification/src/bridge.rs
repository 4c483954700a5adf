use vstd::prelude::*;

use crate::config::{AuthMethod, BackendConfig, SigNozConfig};
use crate::error::{spec_error_message, OtlpError};
use crate::json::{spec_lookup, JsonVal};
use crate::text::dec_str;
use crate::types::{QueryResult, Span, TraceQuery};

verus! {

// The bridge decouples blocking backend calls from a frame-driven consumer:
// one request queue feeds a background worker, and a response buffer is
// drained by the foreground at its own cadence. This module holds the whole
// shared state and every decision; the execution contexts that carry it
// live outside the crate.

/// A request the foreground hands to the background worker.
#[derive(Debug, Clone, PartialEq)]
pub enum SignozRequest {
    HealthCheck,
    QueryTraces(TraceQuery),
}

/// A response the background worker pushes for the foreground.
#[derive(Debug, Clone, PartialEq)]
pub enum SignozResponse {
    HealthOk,
    HealthError(String),
    Traces(Vec<Span>),
    TracesError(String),
}

/// Connection status, updated alongside each health-check result.
#[derive(Debug, Clone, Copy, PartialEq, Eq, Structural)]
pub enum ConnectionStatus {
    Unknown,
    Connected,
    Disconnected,
    Error,
}

impl Default for ConnectionStatus {
    /// The status before any health check has completed.
    fn default() -> (r: Self)
        ensures
            r == ConnectionStatus::Unknown,
    {
        ConnectionStatus::Unknown
    }
}

/// The shared state of one bridge: an initialization marker, a configured
/// flag, the connection status, the pending request queue (FIFO), and the
/// pending response buffer.
#[derive(Debug)]
pub struct SignozBridge {
    pub initialized: bool,
    pub configured: bool,
    pub status: ConnectionStatus,
    pub requests: Vec<SignozRequest>,
    pub responses: Vec<SignozResponse>,
}

impl SignozBridge {
    /// A fresh bridge: not initialized, not configured, status unknown,
    /// both queues empty.
    pub fn new() -> (r: SignozBridge)
        ensures
            !r.initialized,
            !r.configured,
            r.status == ConnectionStatus::Unknown,
            r.requests@.len() == 0,
            r.responses@.len() == 0,
    {
        SignozBridge {
            initialized: false,
            configured: false,
            status: ConnectionStatus::Unknown,
            requests: Vec::new(),
            responses: Vec::new(),
        }
    }
}

/// Honor at most one initialization: the first call marks the bridge
/// initialized and configured and asks the caller to start the background
/// worker; later calls change nothing and ask for nothing.
pub fn mark_initialized(bridge: &mut SignozBridge) -> (proceed: bool)
    ensures
        proceed == !old(bridge).initialized,
        final(bridge).initialized,
        final(bridge).configured == (old(bridge).initialized ==> old(bridge).configured),
        final(bridge).status == old(bridge).status,
        final(bridge).requests == old(bridge).requests,
        final(bridge).responses == old(bridge).responses,
{
    if bridge.initialized {
        false
    } else {
        bridge.initialized = true;
        bridge.configured = true;
        true
    }
}

/// Whether a valid configuration was found.
pub fn is_signoz_configured(bridge: &SignozBridge) -> (r: bool)
    ensures
        r == bridge.configured,
{
    bridge.configured
}

/// Current connection status.
pub fn get_connection_status(bridge: &SignozBridge) -> (r: ConnectionStatus)
    ensures
        r == bridge.status,
{
    bridge.status
}

/// Enqueue a request; before initialization there is no worker, and the
/// request is dropped.
pub fn send_request(bridge: &mut SignozBridge, req: SignozRequest)
    ensures
        old(bridge).initialized ==> final(bridge).requests@ == old(bridge).requests@.push(req),
        !old(bridge).initialized ==> final(bridge).requests == old(bridge).requests,
        final(bridge).initialized == old(bridge).initialized,
        final(bridge).configured == old(bridge).configured,
        final(bridge).status == old(bridge).status,
        final(bridge).responses == old(bridge).responses,
{
    if bridge.initialized {
        bridge.requests.push(req);
    }
}

/// Enqueue a health-check request.
pub fn request_health_check(bridge: &mut SignozBridge)
    ensures
        old(bridge).initialized ==> final(bridge).requests@ == old(bridge).requests@.push(
            SignozRequest::HealthCheck,
        ),
        !old(bridge).initialized ==> final(bridge).requests == old(bridge).requests,
        final(bridge).initialized == old(bridge).initialized,
        final(bridge).configured == old(bridge).configured,
        final(bridge).status == old(bridge).status,
        final(bridge).responses == old(bridge).responses,
{
    send_request(bridge, SignozRequest::HealthCheck);
}

/// Enqueue a trace query request.
pub fn request_traces(bridge: &mut SignozBridge, query: TraceQuery)
    ensures
        old(bridge).initialized ==> final(bridge).requests@ == old(bridge).requests@.push(
            SignozRequest::QueryTraces(query),
        ),
        !old(bridge).initialized ==> final(bridge).requests == old(bridge).requests,
        final(bridge).initialized == old(bridge).initialized,
        final(bridge).configured == old(bridge).configured,
        final(bridge).status == old(bridge).status,
        final(bridge).responses == old(bridge).responses,
{
    send_request(bridge, SignozRequest::QueryTraces(query));
}

/// Take the oldest pending request, if any (the worker's side of the
/// queue).
pub fn next_request(bridge: &mut SignozBridge) -> (r: Option<SignozRequest>)
    ensures
        old(bridge).requests@.len() == 0 ==> r is None && final(bridge).requests
            == old(bridge).requests,
        old(bridge).requests@.len() > 0 ==> (r matches Some(q) && q == old(bridge).requests@[0]
            && final(bridge).requests@ == old(bridge).requests@.skip(1)),
        final(bridge).initialized == old(bridge).initialized,
        final(bridge).configured == old(bridge).configured,
        final(bridge).status == old(bridge).status,
        final(bridge).responses == old(bridge).responses,
{
    if bridge.requests.len() == 0 {
        None
    } else {
        let q = bridge.requests.remove(0);
        Some(q)
    }
}

/// Append one response to the buffer.
pub fn push_response(bridge: &mut SignozBridge, resp: SignozResponse)
    ensures
        final(bridge).responses@ == old(bridge).responses@.push(resp),
        final(bridge).initialized == old(bridge).initialized,
        final(bridge).configured == old(bridge).configured,
        final(bridge).status == old(bridge).status,
        final(bridge).requests == old(bridge).requests,
{
    bridge.responses.push(resp);
}

/// Drain all pending responses atomically: the caller receives everything
/// that was buffered, in order, and the buffer is left empty. No response
/// is lost or duplicated across a drain.
pub fn take_signoz_responses(bridge: &mut SignozBridge) -> (r: Vec<SignozResponse>)
    ensures
        r == old(bridge).responses,
        final(bridge).responses@.len() == 0,
        final(bridge).initialized == old(bridge).initialized,
        final(bridge).configured == old(bridge).configured,
        final(bridge).status == old(bridge).status,
        final(bridge).requests == old(bridge).requests,
{
    let mut taken: Vec<SignozResponse> = Vec::new();
    core::mem::swap(&mut taken, &mut bridge.responses);
    taken
}

// ---------------------------------------------------------------------------
// Startup decisions
// ---------------------------------------------------------------------------

/// The connection parameters derived from the environment's values: an
/// explicit nonempty base URL or a fixed localhost default, and an API-key
/// auth method when a nonempty key is present. Email/password login is
/// handled later by the worker, so its absence leaves the method open.
pub fn signoz_config_from_values(base_url: Option<String>, api_key: Option<String>) -> (c:
    BackendConfig)
    ensures
        c matches BackendConfig::SigNoz(cfg) && cfg.timeout_secs == 30 && cfg.base_url@ == (
        match base_url {
            Some(u) => if u@.len() > 0 {
                u@
            } else {
                "http://localhost:8080"@
            },
            None => "http://localhost:8080"@,
        }) && (match api_key {
            Some(k) => if k@.len() > 0 {
                cfg.auth matches AuthMethod::ApiKey { header_name, key } && header_name@
                    == "SIGNOZ-API-KEY"@ && key@ == k@
            } else {
                cfg.auth is NoAuth
            },
            None => cfg.auth is NoAuth,
        }),
{
    let url = match base_url {
        Some(u) => if !u.as_str().is_empty() {
            u
        } else {
            "http://localhost:8080".to_owned()
        },
        None => "http://localhost:8080".to_owned(),
    };
    let auth = match api_key {
        Some(k) => if !k.as_str().is_empty() {
            AuthMethod::ApiKey { header_name: "SIGNOZ-API-KEY".to_owned(), key: k }
        } else {
            AuthMethod::NoAuth
        },
        None => AuthMethod::NoAuth,
    };
    BackendConfig::SigNoz(SigNozConfig { base_url: url, auth, timeout_secs: 30 })
}

/// Email/password credentials are usable only when both are present and
/// nonempty.
pub fn login_credentials(email: Option<String>, password: Option<String>) -> (r: Option<
    (String, String),
>)
    ensures
        match (email, password) {
            (Some(e), Some(p)) => if e@.len() > 0 && p@.len() > 0 {
                r matches Some(c) && c.0@ == e@ && c.1@ == p@
            } else {
                r is None
            },
            _ => r is None,
        },
{
    match (email, password) {
        (Some(e), Some(p)) => {
            if e.as_str().is_empty() || p.as_str().is_empty() {
                None
            } else {
                Some((e, p))
            }
        },
        _ => None,
    }
}

/// A login round-trip happens only when credentials were supplied and no
/// API key claimed priority (the method is still open).
pub fn should_login(config: &SigNozConfig, creds: &Option<(String, String)>) -> (r: bool)
    ensures
        r == (creds is Some && config.auth is NoAuth),
{
    match (&config.auth, creds) {
        (AuthMethod::NoAuth, Some(_)) => true,
        _ => false,
    }
}

/// Upgrade the method to the bearer token a login produced; everything else
/// is kept. This is the one mutation path of a configuration, taken at most
/// once, before the backend is constructed.
pub fn with_bearer_token(config: &SigNozConfig, token: String) -> (r: SigNozConfig)
    ensures
        r.base_url == config.base_url,
        r.timeout_secs == config.timeout_secs,
        r.auth == (AuthMethod::BearerToken { token }),
{
    SigNozConfig {
        base_url: config.base_url.clone(),
        auth: AuthMethod::BearerToken { token },
        timeout_secs: config.timeout_secs,
    }
}

/// The outcome of a login round-trip, given the HTTP status, the raw body,
/// and the body decoded as a JSON object's members (or the decoder's error
/// message): the access token, or a rendered failure.
pub fn login_outcome(status: u16, body: &String, parsed: Result<Vec<(String, JsonVal)>, String>) -> (r:
    Result<String, String>)
    ensures
        !(200 <= status < 300) ==> (r matches Err(m) && m@ == "login failed (HTTP "@ + dec_str(
            status as nat,
        ) + "): "@ + body@),
        (200 <= status < 300) ==> match parsed {
            Err(e) => r matches Err(m) && m@ == "login response parse error: "@ + e@,
            Ok(fields) => match spec_lookup(fields@, "accessJwt"@) {
                Some(JsonVal::Str(tok)) => r matches Ok(t) && t@ == tok@,
                _ => r matches Err(m) && m@ == "login response missing accessJwt field"@,
            },
        },
{
    if !(200 <= status && status < 300) {
        let m = "login failed (HTTP ".to_owned().concat(
            crate::text::u64_to_string(status as u64).as_str(),
        ).concat("): ").concat(body.as_str());
        return Err(m);
    }
    match parsed {
        Err(e) => Err("login response parse error: ".to_owned().concat(e.as_str())),
        Ok(fields) => match crate::json::lookup(&fields, "accessJwt") {
            Some(JsonVal::Str(tok)) => Ok(tok.clone()),
            _ => Err("login response missing accessJwt field".to_owned()),
        },
    }
}

// ---------------------------------------------------------------------------
// Worker decisions
// ---------------------------------------------------------------------------

/// A failed login is non-fatal: queue a distinguishable health-check error
/// and mark the connection failed, so the foreground sees a diagnosable
/// state instead of a silent hang.
pub fn handle_login_failure(bridge: &mut SignozBridge, message: &String)
    ensures
        final(bridge).responses@.len() == old(bridge).responses@.len() + 1,
        forall|i: int|
            0 <= i < old(bridge).responses@.len() ==> final(bridge).responses@[i] == old(bridge).responses@[i],
        final(bridge).responses@.last() matches SignozResponse::HealthError(m) && m@
            == "Login failed: "@ + message@,
        final(bridge).status == ConnectionStatus::Error,
        final(bridge).initialized == old(bridge).initialized,
        final(bridge).configured == old(bridge).configured,
        final(bridge).requests == old(bridge).requests,
{
    let text = "Login failed: ".to_owned().concat(message.as_str());
    bridge.status = ConnectionStatus::Error;
    push_response(bridge, SignozResponse::HealthError(text));
}

/// A backend that cannot be constructed is terminal for the worker: queue
/// the error and mark the connection failed.
pub fn handle_backend_failure(bridge: &mut SignozBridge, e: &OtlpError)
    ensures
        final(bridge).responses@.len() == old(bridge).responses@.len() + 1,
        forall|i: int|
            0 <= i < old(bridge).responses@.len() ==> final(bridge).responses@[i] == old(bridge).responses@[i],
        final(bridge).responses@.last() matches SignozResponse::HealthError(m) && m@
            == spec_error_message(*e),
        final(bridge).status == ConnectionStatus::Error,
        final(bridge).initialized == old(bridge).initialized,
        final(bridge).configured == old(bridge).configured,
        final(bridge).requests == old(bridge).requests,
{
    bridge.status = ConnectionStatus::Error;
    push_response(bridge, SignozResponse::HealthError(e.message()));
}

/// Record a health-check result: exactly one response is queued, and the
/// connection status tracks the outcome.
pub fn handle_health_result(bridge: &mut SignozBridge, result: Result<(), OtlpError>)
    ensures
        final(bridge).responses@.len() == old(bridge).responses@.len() + 1,
        forall|i: int|
            0 <= i < old(bridge).responses@.len() ==> final(bridge).responses@[i] == old(bridge).responses@[i],
        match result {
            Ok(()) => final(bridge).responses@.last() == SignozResponse::HealthOk && final(bridge).status == ConnectionStatus::Connected,
            Err(e) => (final(bridge).responses@.last() matches SignozResponse::HealthError(m) && m@
                == spec_error_message(e)) && final(bridge).status == ConnectionStatus::Error,
        },
        final(bridge).initialized == old(bridge).initialized,
        final(bridge).configured == old(bridge).configured,
        final(bridge).requests == old(bridge).requests,
{
    match result {
        Ok(()) => {
            bridge.status = ConnectionStatus::Connected;
            push_response(bridge, SignozResponse::HealthOk);
        },
        Err(e) => {
            bridge.status = ConnectionStatus::Error;
            push_response(bridge, SignozResponse::HealthError(e.message()));
        },
    }
}

/// Record a trace-query result: exactly one response is queued, success or
/// typed error.
pub fn handle_traces_result(bridge: &mut SignozBridge, result: Result<QueryResult<Span>, OtlpError>)
    ensures
        final(bridge).responses@.len() == old(bridge).responses@.len() + 1,
        forall|i: int|
            0 <= i < old(bridge).responses@.len() ==> final(bridge).responses@[i] == old(bridge).responses@[i],
        match result {
            Ok(qr) => final(bridge).responses@.last() == SignozResponse::Traces(qr.items),
            Err(e) => final(bridge).responses@.last() matches SignozResponse::TracesError(m) && m@
                == spec_error_message(e),
        },
        final(bridge).status == old(bridge).status,
        final(bridge).initialized == old(bridge).initialized,
        final(bridge).configured == old(bridge).configured,
        final(bridge).requests == old(bridge).requests,
{
    match result {
        Ok(qr) => {
            push_response(bridge, SignozResponse::Traces(qr.items));
        },
        Err(e) => {
            push_response(bridge, SignozResponse::TracesError(e.message()));
        },
    }
}

} // verus!
