use tektii_gateway_core::api::middleware::{
    MAX_CORRELATION_ID_LEN, authenticate, extract_api_key, is_public_path, resolve_correlation_id,
    truncate_to_char_boundary,
};
use tektii_gateway_core::error::GatewayError;

#[test]
fn extract_api_key_from_bearer_header() {
    assert_eq!(extract_api_key(Some("Bearer test-key-1234"), None), Some("test-key-1234"));
}

#[test]
fn extract_api_key_from_x_api_key_header() {
    assert_eq!(extract_api_key(None, Some("test-key-5678")), Some("test-key-5678"));
}

#[test]
fn extract_api_key_bearer_takes_precedence() {
    assert_eq!(extract_api_key(Some("Bearer bearer-key"), Some("header-key")), Some("bearer-key"));
}

#[test]
fn extract_api_key_empty_bearer_falls_through() {
    assert_eq!(extract_api_key(Some("Bearer "), Some("fallback-key")), Some("fallback-key"));
}

#[test]
fn extract_api_key_no_headers() {
    assert_eq!(extract_api_key(None, None), None);
}

#[test]
fn extract_api_key_wrong_auth_scheme() {
    assert_eq!(extract_api_key(Some("Basic dXNlcjpwYXNz"), None), None);
}

#[test]
fn extract_api_key_trims_blanks() {
    assert_eq!(extract_api_key(Some("Bearer   key  "), None), Some("key"));
    assert_eq!(extract_api_key(None, Some("  key ")), Some("key"));
    assert_eq!(extract_api_key(Some("Bearer  \t "), Some("   ")), None);
}

#[test]
fn public_paths_bypass() {
    assert!(is_public_path("/livez"));
    assert!(is_public_path("/readyz"));
    assert!(is_public_path("/health"));
    assert!(is_public_path("/metrics"));
}

#[test]
fn swagger_paths_require_auth() {
    assert!(!is_public_path("/swagger-ui"));
    assert!(!is_public_path("/swagger-ui/index.html"));
    assert!(!is_public_path("/api-docs/openapi.json"));
}

#[test]
fn api_paths_require_auth() {
    assert!(!is_public_path("/v1/orders"));
    assert!(!is_public_path("/v1/ws"));
    assert!(!is_public_path("/v1/account"));
    assert!(!is_public_path("/v1/positions"));
}

#[test]
fn correlation_id_truncated_when_too_long() {
    let long_id = "x".repeat(300);
    let result = resolve_correlation_id(Some(&long_id));
    assert_eq!(result.len(), MAX_CORRELATION_ID_LEN);
    assert_eq!(result, "x".repeat(MAX_CORRELATION_ID_LEN));
}

#[test]
fn correlation_id_preserved_when_within_limit() {
    let id = "my-trace-id-12345";
    let result = resolve_correlation_id(Some(id));
    assert_eq!(result, id);
}

#[test]
fn correlation_id_generated_when_missing() {
    let result = resolve_correlation_id(None);
    // Should be a valid UUID v4 (36 chars with hyphens)
    assert_eq!(result.len(), 36);
    assert!(uuid::Uuid::parse_str(&result).is_ok());
}

#[test]
fn truncate_respects_char_boundaries() {
    // Multi-byte UTF-8: each emoji is 4 bytes
    let s = "🔥🔥🔥"; // 12 bytes
    assert_eq!(truncate_to_char_boundary(s, 5), "🔥"); // 4 bytes, not 5
    assert_eq!(truncate_to_char_boundary(s, 8), "🔥🔥");
    assert_eq!(truncate_to_char_boundary(s, 100), s);
}

#[test]
fn truncate_to_nothing() {
    assert_eq!(truncate_to_char_boundary("🔥", 3), "");
    assert_eq!(truncate_to_char_boundary("abc", 0), "");
    assert_eq!(truncate_to_char_boundary("", 5), "");
}

#[test]
fn no_key_configured_lets_everything_pass() {
    assert!(authenticate(None, "/v1/orders", None, None).is_ok());
}

#[test]
fn public_path_needs_no_key() {
    assert!(authenticate(Some("secret"), "/livez", None, None).is_ok());
}

#[test]
fn right_key_opens() {
    assert!(authenticate(Some("secret"), "/v1/orders", Some("Bearer secret"), None).is_ok());
    assert!(authenticate(Some("secret"), "/v1/orders", None, Some("secret")).is_ok());
}

#[test]
fn missing_key_is_refused() {
    match authenticate(Some("secret"), "/v1/orders", None, None) {
        Err(GatewayError::Unauthorized { reason, code }) => {
            assert_eq!(reason, "API key required");
            assert_eq!(code, "MISSING_API_KEY");
        }
        _ => panic!("expected Unauthorized"),
    }
}

#[test]
fn wrong_key_is_refused() {
    match authenticate(Some("secret"), "/v1/orders", None, Some("secreT")) {
        Err(GatewayError::Unauthorized { reason, code }) => {
            assert_eq!(reason, "Invalid API key");
            assert_eq!(code, "INVALID_API_KEY");
        }
        _ => panic!("expected Unauthorized"),
    }
    assert!(authenticate(Some("secret"), "/v1/orders", None, Some("secret-longer")).is_err());
}
