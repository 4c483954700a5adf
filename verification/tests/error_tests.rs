use otlp_client::error::OtlpError;

#[test]
fn test_display_api_error() {
    let err = OtlpError::ApiError { status: 404, message: "not found".to_string() };
    assert_eq!(err.message(), "API error (status 404): not found");
}

#[test]
fn test_display_connection_failed() {
    let err = OtlpError::ConnectionFailed("timeout".to_string());
    assert_eq!(err.message(), "connection failed: timeout");
}

#[test]
fn test_display_authentication_failed() {
    let err = OtlpError::AuthenticationFailed("bad token".to_string());
    assert_eq!(err.message(), "authentication failed: bad token");
}

#[test]
fn test_display_invalid_query() {
    let err = OtlpError::InvalidQuery("missing time range".to_string());
    assert_eq!(err.message(), "invalid query: missing time range");
}

#[test]
fn test_display_backend() {
    let err = OtlpError::Backend("internal failure".to_string());
    assert_eq!(err.message(), "backend error: internal failure");
}

#[test]
fn test_display_http() {
    let err = OtlpError::Http("connection refused".to_string());
    assert_eq!(err.message(), "HTTP error: connection refused");
}

#[test]
fn test_display_deserialization() {
    let err = OtlpError::Deserialization("expected value at line 1".to_string());
    assert_eq!(err.message(), "deserialization error: expected value at line 1");
}
