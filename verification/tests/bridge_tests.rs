use otlp_client::bridge::{
    get_connection_status, handle_health_result, handle_login_failure, handle_traces_result,
    is_signoz_configured, login_credentials, login_outcome, mark_initialized, next_request,
    push_response, request_health_check, request_traces, should_login, signoz_config_from_values,
    take_signoz_responses, with_bearer_token, ConnectionStatus, SignozBridge, SignozRequest,
    SignozResponse,
};
use otlp_client::config::{AuthMethod, BackendConfig, SigNozConfig};
use otlp_client::error::OtlpError;
use otlp_client::json::JsonVal;
use otlp_client::types::{QueryResult, TraceQuery};

#[test]
fn test_connection_status_default() {
    let status = ConnectionStatus::default();
    assert_eq!(status, ConnectionStatus::Unknown);
}

#[test]
fn test_take_signoz_responses_empty() {
    let mut bridge = SignozBridge::new();
    let responses = take_signoz_responses(&mut bridge);
    assert!(responses.is_empty());
}

#[test]
fn test_push_and_take_responses() {
    let mut bridge = SignozBridge::new();
    push_response(&mut bridge, SignozResponse::HealthOk);
    push_response(&mut bridge, SignozResponse::TracesError("oops".to_string()));

    let responses = take_signoz_responses(&mut bridge);
    assert_eq!(responses.len(), 2);
    assert!(matches!(responses[0], SignozResponse::HealthOk));
    assert!(matches!(responses[1], SignozResponse::TracesError(_)));

    let responses2 = take_signoz_responses(&mut bridge);
    assert!(responses2.is_empty());
}

#[test]
fn test_mark_initialized_once() {
    let mut bridge = SignozBridge::new();
    assert!(mark_initialized(&mut bridge));
    assert!(is_signoz_configured(&bridge));
    // A second initialization is a no-op that reports prior status.
    assert!(!mark_initialized(&mut bridge));
    assert!(is_signoz_configured(&bridge));
}

#[test]
fn test_requests_are_fifo_and_dropped_before_init() {
    let mut bridge = SignozBridge::new();
    request_health_check(&mut bridge);
    assert!(next_request(&mut bridge).is_none());

    mark_initialized(&mut bridge);
    request_health_check(&mut bridge);
    request_traces(&mut bridge, TraceQuery::default());
    assert!(matches!(next_request(&mut bridge), Some(SignozRequest::HealthCheck)));
    assert!(matches!(next_request(&mut bridge), Some(SignozRequest::QueryTraces(_))));
    assert!(next_request(&mut bridge).is_none());
}

#[test]
fn test_handle_health_result_updates_status() {
    let mut bridge = SignozBridge::new();
    handle_health_result(&mut bridge, Ok(()));
    assert_eq!(get_connection_status(&bridge), ConnectionStatus::Connected);
    handle_health_result(&mut bridge, Err(OtlpError::Backend("down".to_string())));
    assert_eq!(get_connection_status(&bridge), ConnectionStatus::Error);

    let responses = take_signoz_responses(&mut bridge);
    assert_eq!(responses.len(), 2);
    assert!(matches!(responses[0], SignozResponse::HealthOk));
    match &responses[1] {
        SignozResponse::HealthError(m) => assert_eq!(m, "backend error: down"),
        _ => panic!("Expected HealthError"),
    }
}

#[test]
fn test_handle_traces_result_pushes_one_response() {
    let mut bridge = SignozBridge::new();
    handle_traces_result(&mut bridge, Ok(QueryResult { items: vec![], total: Some(0) }));
    handle_traces_result(&mut bridge, Err(OtlpError::Http("refused".to_string())));
    let responses = take_signoz_responses(&mut bridge);
    assert_eq!(responses.len(), 2);
    assert!(matches!(responses[0], SignozResponse::Traces(_)));
    match &responses[1] {
        SignozResponse::TracesError(m) => assert_eq!(m, "HTTP error: refused"),
        _ => panic!("Expected TracesError"),
    }
}

#[test]
fn test_signoz_config_from_values_default_url() {
    match signoz_config_from_values(None, None) {
        BackendConfig::SigNoz(cfg) => {
            assert_eq!(cfg.base_url, "http://localhost:8080");
            assert!(matches!(cfg.auth, AuthMethod::NoAuth));
            assert_eq!(cfg.timeout_secs, 30);
        }
    }
}

#[test]
fn test_signoz_config_from_values_with_api_key() {
    match signoz_config_from_values(
        Some("http://example.com".to_string()),
        Some("my-secret".to_string()),
    ) {
        BackendConfig::SigNoz(cfg) => {
            assert_eq!(cfg.base_url, "http://example.com");
            match cfg.auth {
                AuthMethod::ApiKey { header_name, key } => {
                    assert_eq!(header_name, "SIGNOZ-API-KEY");
                    assert_eq!(key, "my-secret");
                }
                _ => panic!("Expected ApiKey auth"),
            }
        }
    }
}

#[test]
fn test_login_credentials_rules() {
    assert!(login_credentials(None, None).is_none());
    assert!(login_credentials(Some("".to_string()), Some("pass".to_string())).is_none());
    assert!(login_credentials(Some("user@example.com".to_string()), Some("".to_string())).is_none());
    let creds = login_credentials(
        Some("user@example.com".to_string()),
        Some("pass123".to_string()),
    )
    .unwrap();
    assert_eq!(creds.0, "user@example.com");
    assert_eq!(creds.1, "pass123");
}

#[test]
fn test_should_login_only_without_api_key() {
    let creds = Some(("u".to_string(), "p".to_string()));
    let open = SigNozConfig {
        base_url: "http://x".to_string(),
        auth: AuthMethod::NoAuth,
        timeout_secs: 30,
    };
    let keyed = SigNozConfig {
        base_url: "http://x".to_string(),
        auth: AuthMethod::ApiKey { header_name: "H".to_string(), key: "K".to_string() },
        timeout_secs: 30,
    };
    assert!(should_login(&open, &creds));
    assert!(!should_login(&keyed, &creds));
    assert!(!should_login(&open, &None));
}

#[test]
fn test_with_bearer_token_upgrades_auth() {
    let cfg = SigNozConfig {
        base_url: "http://x".to_string(),
        auth: AuthMethod::NoAuth,
        timeout_secs: 7,
    };
    let upgraded = with_bearer_token(&cfg, "jwt-1".to_string());
    assert_eq!(upgraded.base_url, "http://x");
    assert_eq!(upgraded.timeout_secs, 7);
    assert!(matches!(upgraded.auth, AuthMethod::BearerToken { .. }));
}

#[test]
fn test_login_outcome_cases() {
    let body = "denied".to_string();
    match login_outcome(401, &body, Ok(vec![])) {
        Err(m) => assert_eq!(m, "login failed (HTTP 401): denied"),
        _ => panic!("Expected failure"),
    }
    match login_outcome(200, &body, Err("bad json".to_string())) {
        Err(m) => assert_eq!(m, "login response parse error: bad json"),
        _ => panic!("Expected failure"),
    }
    match login_outcome(200, &body, Ok(vec![])) {
        Err(m) => assert_eq!(m, "login response missing accessJwt field"),
        _ => panic!("Expected failure"),
    }
    let fields = vec![("accessJwt".to_string(), JsonVal::Str("jwt-2".to_string()))];
    assert_eq!(login_outcome(200, &body, Ok(fields)).unwrap(), "jwt-2");
}

#[test]
fn test_handle_login_failure_is_non_fatal_signal() {
    let mut bridge = SignozBridge::new();
    handle_login_failure(&mut bridge, &"no route".to_string());
    assert_eq!(get_connection_status(&bridge), ConnectionStatus::Error);
    let responses = take_signoz_responses(&mut bridge);
    assert_eq!(responses.len(), 1);
    match &responses[0] {
        SignozResponse::HealthError(m) => assert_eq!(m, "Login failed: no route"),
        _ => panic!("Expected HealthError"),
    }
}
