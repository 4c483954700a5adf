use otlp_client::config::{default_timeout, AuthMethod, BackendConfig, SigNozConfig};

#[test]
fn test_signoz_config_serde_roundtrip() {
    let config = SigNozConfig {
        base_url: "http://localhost:3301".to_string(),
        auth: AuthMethod::NoAuth,
        timeout_secs: 30,
    };
    let json = config.to_json();
    let deserialized: SigNozConfig = SigNozConfig::from_json(&json).unwrap();
    assert_eq!(deserialized.base_url, "http://localhost:3301");
    assert_eq!(deserialized.timeout_secs, 30);
}

#[test]
fn test_auth_method_api_key_serde() {
    let auth = AuthMethod::ApiKey {
        header_name: "SIGNOZ-API-KEY".to_string(),
        key: "secret123".to_string(),
    };
    let json = auth.to_json();
    assert!(json.contains("api_key"));
    assert!(json.contains("SIGNOZ-API-KEY"));
    let deserialized: AuthMethod = AuthMethod::from_json(&json).unwrap();
    match deserialized {
        AuthMethod::ApiKey { header_name, key } => {
            assert_eq!(header_name, "SIGNOZ-API-KEY");
            assert_eq!(key, "secret123");
        }
        _ => panic!("Expected ApiKey variant"),
    }
}

#[test]
fn test_auth_method_bearer_token_serde() {
    let auth = AuthMethod::BearerToken { token: "my-token".to_string() };
    let json = auth.to_json();
    assert!(json.contains("bearer_token"));
    let deserialized: AuthMethod = AuthMethod::from_json(&json).unwrap();
    match deserialized {
        AuthMethod::BearerToken { token } => assert_eq!(token, "my-token"),
        _ => panic!("Expected BearerToken variant"),
    }
}

#[test]
fn test_backend_config_signoz_serde() {
    let config = BackendConfig::SigNoz(SigNozConfig {
        base_url: "http://signoz.example.com".to_string(),
        auth: AuthMethod::ApiKey {
            header_name: "X-API-KEY".to_string(),
            key: "test-key".to_string(),
        },
        timeout_secs: 60,
    });
    let json = config.to_json();
    assert!(json.contains("signoz"));
    let deserialized: BackendConfig = BackendConfig::from_json(&json).unwrap();
    match deserialized {
        BackendConfig::SigNoz(cfg) => {
            assert_eq!(cfg.base_url, "http://signoz.example.com");
            assert_eq!(cfg.timeout_secs, 60);
        }
    }
}

#[test]
fn test_signoz_config_default_timeout() {
    let json = r#"{"base_url":"http://localhost:3301","auth":{"type":"none"}}"#;
    let config: SigNozConfig = SigNozConfig::from_json(json).unwrap();
    assert_eq!(config.timeout_secs, 30);
}

#[test]
fn test_auth_round_trip_short_fields() {
    let auth = AuthMethod::ApiKey { header_name: "X".to_string(), key: "Y".to_string() };
    let decoded = AuthMethod::from_json(&auth.to_json()).unwrap();
    assert_eq!(decoded, auth);
}

#[test]
fn test_auth_round_trip_escaped_characters() {
    let auth = AuthMethod::BearerToken { token: "line\nbreak \"quoted\" back\\slash\t\u{1}".to_string() };
    let json = auth.to_json();
    assert!(json.contains("\\n"));
    assert!(json.contains("\\\""));
    assert!(json.contains("\\\\"));
    assert!(json.contains("\\u0001"));
    let decoded = AuthMethod::from_json(&json).unwrap();
    assert_eq!(decoded, auth);
}

#[test]
fn test_config_round_trip_with_auth() {
    let config = SigNozConfig {
        base_url: "http://localhost:3301/".to_string(),
        auth: AuthMethod::BearerToken { token: "tok-1".to_string() },
        timeout_secs: 12,
    };
    let decoded = SigNozConfig::from_json(&config.to_json()).unwrap();
    assert_eq!(decoded, config);
}

#[test]
fn test_decode_rejects_malformed() {
    assert!(AuthMethod::from_json("{}").is_none());
    assert!(AuthMethod::from_json("{\"type\":\"unknown\"}").is_none());
    assert!(AuthMethod::from_json("not json").is_none());
    assert!(SigNozConfig::from_json("{\"auth\":{\"type\":\"none\"}}").is_none());
    assert!(BackendConfig::from_json("{\"backend\":\"other\"}").is_none());
}

#[test]
fn test_decode_accepts_whitespace() {
    let json = " { \"type\" : \"api_key\" , \"header_name\" : \"H\" , \"key\" : \"K\" } ";
    match AuthMethod::from_json(json).unwrap() {
        AuthMethod::ApiKey { header_name, key } => {
            assert_eq!(header_name, "H");
            assert_eq!(key, "K");
        }
        _ => panic!("Expected ApiKey variant"),
    }
}

#[test]
fn test_encoded_config_is_plain_json() {
    // The wire format must be readable by an ordinary JSON parser.
    let config = SigNozConfig {
        base_url: "http://localhost:3301".to_string(),
        auth: AuthMethod::ApiKey {
            header_name: "X".to_string(),
            key: "with \"quote\" and\nline".to_string(),
        },
        timeout_secs: 45,
    };
    let v: serde_json::Value = serde_json::from_str(&config.to_json()).unwrap();
    assert_eq!(v["base_url"], "http://localhost:3301");
    assert_eq!(v["timeout_secs"], 45);
    assert_eq!(v["auth"]["type"], "api_key");
    assert_eq!(v["auth"]["key"], "with \"quote\" and\nline");
}

#[test]
fn test_default_timeout_value() {
    assert_eq!(default_timeout(), 30);
}
