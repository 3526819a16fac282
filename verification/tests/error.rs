use tektii_gateway_core::error::{
    ApiError, ErrorCode, GatewayError, ValidationFailure, is_credential_key, scrub_credentials,
    scrub_json_values,
};
use tektii_gateway_core::json::{Json, JsonNumber};
use tektii_gateway_core::time::Timestamp;

const NOTHING: &Json = &Json::Null;

/// The value under a key; `null` where there is none.
fn at<'a>(value: &'a Json, key: &str) -> &'a Json {
    match value.get(key) {
        Some(v) => v,
        None => NOTHING,
    }
}

fn item(value: &Json, i: usize) -> &Json {
    match value {
        Json::Array(items) => &items[i],
        _ => panic!("expected an array"),
    }
}

fn text(value: &Json) -> &str {
    value.as_text().unwrap()
}

fn is_null(value: &Json) -> bool {
    matches!(value, Json::Null)
}

/// The library's form of a JSON value.
fn json_of(value: &serde_json::Value) -> Json {
    match value {
        serde_json::Value::Null => Json::Null,
        serde_json::Value::Bool(b) => Json::Bool(*b),
        serde_json::Value::Number(n) => Json::Number(if let Some(u) = n.as_u64() {
            JsonNumber::Unsigned(u)
        } else if let Some(i) = n.as_i64() {
            JsonNumber::Negative(i)
        } else {
            JsonNumber::Other(n.to_string())
        }),
        serde_json::Value::String(s) => Json::text(s),
        serde_json::Value::Array(items) => Json::Array(items.iter().map(json_of).collect()),
        serde_json::Value::Object(members) => {
            Json::Object(members.iter().map(|(k, v)| (k.clone(), json_of(v))).collect())
        }
    }
}

fn parsed(text: &str) -> Json {
    json_of(&serde_json::from_str(text).unwrap())
}

#[test]
fn scrub_credentials_redacts_api_key() {
    let input = "Failed: apiKey=sk_live_123abc something";
    let result = scrub_credentials(input);
    assert!(!result.contains("sk_live_123abc"), "API key should be redacted");
    assert!(result.contains("***REDACTED***"));
}

#[test]
fn scrub_credentials_redacts_api_underscore_key() {
    let input = "Error with api_key=my_secret_key_123";
    let result = scrub_credentials(input);
    assert!(!result.contains("my_secret_key_123"));
    assert!(result.contains("***REDACTED***"));
}

#[test]
fn scrub_credentials_redacts_authorization_header() {
    // Single-token value: fully redacted
    let input = "Authorization=eyJhbGciOiJIUzI1NiJ9";
    let result = scrub_credentials(input);
    assert!(!result.contains("eyJhbGciOiJIUzI1NiJ9"));
    assert!(result.contains("***REDACTED***"));
}

#[test]
fn scrub_credentials_redacts_token_equals() {
    let input = "token=abc123def456 remaining";
    let result = scrub_credentials(input);
    assert!(!result.contains("abc123def456"));
}

#[test]
fn scrub_credentials_preserves_normal_text() {
    let input = "Order not found: 12345";
    let result = scrub_credentials(input);
    assert_eq!(result, input);
}

#[test]
fn scrub_json_values_redacts_nested_strings() {
    let mut value = parsed(
        r#"{"error": "apiKey=secret123 in URL", "nested": {"msg": "password: hunter2"}}"#,
    );
    scrub_json_values(&mut value);
    let error = text(at(&value, "error"));
    assert!(!error.contains("secret123"));
    let msg = text(at(at(&value, "nested"), "msg"));
    assert!(!msg.contains("hunter2"));
}

#[test]
fn scrub_json_values_redacts_credential_keys() {
    let mut value = parsed(r#"{"api_key": "sk_live_abc123", "message": "normal text"}"#);
    scrub_json_values(&mut value);
    assert_eq!(text(at(&value, "api_key")), "***REDACTED***");
    assert_eq!(text(at(&value, "message")), "normal text");
}

#[test]
fn scrub_json_values_redacts_in_arrays() {
    let mut value = parsed(r#"["token=xyz123", "normal"]"#);
    scrub_json_values(&mut value);
    let first = text(item(&value, 0));
    assert!(!first.contains("xyz123"));
    assert_eq!(text(item(&value, 1)), "normal");
}

#[test]
fn to_api_error_scrubs_provider_error_message() {
    let error = GatewayError::ProviderError {
        message: "Request failed: apiKey=sk_live_secret123 in query".to_string(),
        provider: Some("binance".to_string()),
        source: None,
    };
    let api_error = error.to_api_error();
    assert!(!api_error.message.contains("sk_live_secret123"));
    assert!(api_error.message.contains("***REDACTED***"));
}

#[test]
fn to_api_error_scrubs_order_rejected_details() {
    let error = GatewayError::OrderRejected {
        reason: "Rejected".to_string(),
        reject_code: None,
        details: Some(parsed(
            r#"{"url": "https://api.example.com?apiKey=secret_value", "authorization": "Bearer token123"}"#,
        )),
    };
    let api_error = error.to_api_error();
    let details = api_error.details.unwrap();
    let url = text(at(&details, "url"));
    assert!(!url.contains("secret_value"));
    assert_eq!(text(at(&details, "authorization")), "***REDACTED***");
}

#[test]
fn error_code_serializes_to_screaming_snake_case() {
    assert_eq!(ErrorCode::InvalidRequest.as_str(), "INVALID_REQUEST");
    assert_eq!(ErrorCode::InternalError.as_str(), "INTERNAL_ERROR");
}

#[test]
fn error_code_deserializes_from_screaming_snake_case() {
    let code: ErrorCode = ErrorCode::of_text("ORDER_NOT_FOUND").unwrap();
    assert_eq!(code, ErrorCode::OrderNotFound);
}

#[test]
fn error_code_of_unknown_text_is_none() {
    assert_eq!(ErrorCode::of_text("order_not_found"), None);
    assert_eq!(ErrorCode::of_text(""), None);
}

#[test]
fn error_code_display_matches_serialization() {
    assert_eq!(ErrorCode::RateLimited.to_text(), "RATE_LIMITED");
    assert_eq!(ErrorCode::ShuttingDown.to_text(), "SHUTTING_DOWN");
}

#[test]
fn api_error_code_field_serializes_correctly() {
    let api_error = ApiError {
        code: ErrorCode::OrderNotFound,
        message: "Not found".to_string(),
        details: None,
    };
    let json = api_error.to_json();
    assert_eq!(text(at(&json, "code")), "ORDER_NOT_FOUND");
}

// --- Error envelope format tests ---

fn check_envelope(err: &GatewayError) -> (u16, Json) {
    let status = err.status_code();
    let api_error = err.to_api_error();
    let json = api_error.to_json();
    (status, json)
}

#[test]
fn envelope_invalid_request_with_field() {
    let err = GatewayError::InvalidRequest {
        message: "bad symbol format".into(),
        field: Some("symbol".into()),
    };
    let (status, json) = check_envelope(&err);
    assert_eq!(status, 400);
    assert_eq!(text(at(&json, "code")), "INVALID_REQUEST");
    assert!(!text(at(&json, "message")).is_empty());
    assert_eq!(text(at(at(&json, "details"), "field")), "symbol");
}

#[test]
fn envelope_invalid_request_without_field() {
    let err = GatewayError::InvalidRequest { message: "bad request".into(), field: None };
    let (status, json) = check_envelope(&err);
    assert_eq!(status, 400);
    assert_eq!(text(at(&json, "code")), "INVALID_REQUEST");
    assert!(json.get("details").is_none() || is_null(at(&json, "details")));
}

#[test]
fn envelope_invalid_value_with_provided() {
    let err = GatewayError::InvalidValue {
        field: "quantity".into(),
        message: "must be positive".into(),
        provided: Some("abc".into()),
    };
    let (status, json) = check_envelope(&err);
    assert_eq!(status, 400);
    assert_eq!(text(at(&json, "code")), "INVALID_VALUE");
    assert_eq!(text(at(at(&json, "details"), "field")), "quantity");
    assert_eq!(text(at(at(&json, "details"), "provided")), "abc");
}

#[test]
fn envelope_invalid_value_without_provided() {
    let err = GatewayError::InvalidValue {
        field: "quantity".into(),
        message: "must be positive".into(),
        provided: None,
    };
    let (status, json) = check_envelope(&err);
    assert_eq!(status, 400);
    assert_eq!(text(at(&json, "code")), "INVALID_VALUE");
    assert_eq!(text(at(at(&json, "details"), "field")), "quantity");
    assert!(is_null(at(at(&json, "details"), "provided")));
}

#[test]
fn envelope_validation_error() {
    let mut errors = validator::ValidationErrors::new();
    errors.add("email", validator::ValidationError::new("invalid_email"));
    let err = GatewayError::ValidationError(ValidationFailure {
        text: errors.to_string(),
        details: json_of(&serde_json::to_value(&errors).unwrap()),
    });
    let (status, json) = check_envelope(&err);
    assert_eq!(status, 400);
    assert_eq!(text(at(&json, "code")), "VALIDATION_ERROR");
    assert!(matches!(at(at(&json, "details"), "email"), Json::Array(_)));
}

#[test]
fn envelope_unauthorized() {
    let err =
        GatewayError::Unauthorized { reason: "token expired".into(), code: "AUTH_FAILED".into() };
    let (status, json) = check_envelope(&err);
    assert_eq!(status, 401);
    assert_eq!(text(at(&json, "code")), "UNAUTHORIZED");
    assert_eq!(text(at(at(&json, "details"), "code")), "AUTH_FAILED");
}

#[test]
fn envelope_order_not_found() {
    let err = GatewayError::OrderNotFound { id: "ord_123".into() };
    let (status, json) = check_envelope(&err);
    assert_eq!(status, 404);
    assert_eq!(text(at(&json, "code")), "ORDER_NOT_FOUND");
    assert_eq!(text(at(at(&json, "details"), "resource")), "order");
    assert_eq!(text(at(at(&json, "details"), "id")), "ord_123");
}

#[test]
fn envelope_position_not_found() {
    let err = GatewayError::PositionNotFound { id: "pos_456".into() };
    let (status, json) = check_envelope(&err);
    assert_eq!(status, 404);
    assert_eq!(text(at(&json, "code")), "POSITION_NOT_FOUND");
    assert_eq!(text(at(at(&json, "details"), "resource")), "position");
    assert_eq!(text(at(at(&json, "details"), "id")), "pos_456");
}

#[test]
fn envelope_symbol_not_found() {
    let err = GatewayError::SymbolNotFound { symbol: "AAPL".into() };
    let (status, json) = check_envelope(&err);
    assert_eq!(status, 404);
    assert_eq!(text(at(&json, "code")), "SYMBOL_NOT_FOUND");
    assert_eq!(text(at(at(&json, "details"), "symbol")), "AAPL");
}

#[test]
fn envelope_oco_group_not_found() {
    let err = GatewayError::OcoGroupNotFound { id: "oco_789".into() };
    let (status, json) = check_envelope(&err);
    assert_eq!(status, 404);
    assert_eq!(text(at(&json, "code")), "OCO_GROUP_NOT_FOUND");
    assert_eq!(text(at(at(&json, "details"), "resource")), "oco_group");
    assert_eq!(text(at(at(&json, "details"), "id")), "oco_789");
}

#[test]
fn envelope_order_not_modifiable() {
    let err = GatewayError::OrderNotModifiable {
        order_id: "ord_123".into(),
        reason: "already filled".into(),
    };
    let (status, json) = check_envelope(&err);
    assert_eq!(status, 409);
    assert_eq!(text(at(&json, "code")), "ORDER_NOT_MODIFIABLE");
    assert_eq!(text(at(at(&json, "details"), "order_id")), "ord_123");
}

#[test]
fn envelope_reset_cooldown() {
    let err = GatewayError::ResetCooldown { message: "too soon".into() };
    let (status, json) = check_envelope(&err);
    assert_eq!(status, 409);
    assert_eq!(text(at(&json, "code")), "RESET_COOLDOWN");
    assert_eq!(text(at(&json, "message")), "too soon");
}

#[test]
fn envelope_order_rejected_with_code_and_details() {
    let err = GatewayError::OrderRejected {
        reason: "insufficient funds".into(),
        reject_code: Some("INSUFFICIENT_FUNDS".into()),
        details: Some(parsed(r#"{"extra": "data"}"#)),
    };
    let (status, json) = check_envelope(&err);
    assert_eq!(status, 422);
    assert_eq!(text(at(&json, "code")), "ORDER_REJECTED");
    assert_eq!(text(at(at(&json, "details"), "reject_code")), "INSUFFICIENT_FUNDS");
    assert_eq!(text(at(at(&json, "details"), "extra")), "data");
}

#[test]
fn envelope_order_rejected_without_code_or_details() {
    let err =
        GatewayError::OrderRejected { reason: "rejected".into(), reject_code: None, details: None };
    let (status, json) = check_envelope(&err);
    assert_eq!(status, 422);
    assert_eq!(text(at(&json, "code")), "ORDER_REJECTED");
    // details is {}
    match at(&json, "details") {
        Json::Object(members) => assert!(members.is_empty()),
        _ => panic!("expected an object"),
    }
}

#[test]
fn envelope_rate_limited_with_fields() {
    let reset = chrono::DateTime::parse_from_rfc3339("2026-03-24T12:00:00Z")
        .unwrap()
        .with_timezone(&chrono::Utc);
    let err = GatewayError::RateLimited {
        retry_after_seconds: Some(60),
        reset_at: Some(Timestamp {
            secs: reset.timestamp(),
            nanos: reset.timestamp_subsec_nanos(),
        }),
    };
    let (status, json) = check_envelope(&err);
    assert_eq!(status, 429);
    assert_eq!(text(at(&json, "code")), "RATE_LIMITED");
    assert_eq!(at(at(&json, "details"), "retry_after_seconds").as_u64(), Some(60));
    assert!(text(at(at(&json, "details"), "reset_at")).contains("2026-03-24"));
    assert_eq!(text(at(at(&json, "details"), "reset_at")), "2026-03-24T12:00:00Z");
}

#[test]
fn envelope_rate_limited_without_fields() {
    let err = GatewayError::RateLimited { retry_after_seconds: None, reset_at: None };
    let (status, json) = check_envelope(&err);
    assert_eq!(status, 429);
    assert_eq!(text(at(&json, "code")), "RATE_LIMITED");
    assert!(is_null(at(at(&json, "details"), "retry_after_seconds")));
    assert!(is_null(at(at(&json, "details"), "reset_at")));
}

#[test]
fn envelope_internal() {
    let err = GatewayError::Internal { message: "something broke".into(), source: None };
    let (status, json) = check_envelope(&err);
    assert_eq!(status, 500);
    assert_eq!(text(at(&json, "code")), "INTERNAL_ERROR");
    assert!(json.get("details").is_none() || is_null(at(&json, "details")));
}

#[test]
fn envelope_unsupported_operation() {
    let err = GatewayError::UnsupportedOperation {
        operation: "shorting".into(),
        provider: "alpaca".into(),
    };
    let (status, json) = check_envelope(&err);
    assert_eq!(status, 501);
    assert_eq!(text(at(&json, "code")), "UNSUPPORTED_OPERATION");
    assert_eq!(text(at(at(&json, "details"), "operation")), "shorting");
    assert_eq!(text(at(at(&json, "details"), "provider")), "alpaca");
}

#[test]
fn envelope_provider_error_with_provider() {
    let err = GatewayError::ProviderError {
        message: "connection refused".into(),
        provider: Some("binance".into()),
        source: None,
    };
    let (status, json) = check_envelope(&err);
    assert_eq!(status, 502);
    assert_eq!(text(at(&json, "code")), "PROVIDER_ERROR");
    assert_eq!(text(at(at(&json, "details"), "provider")), "binance");
}

#[test]
fn envelope_provider_error_without_provider() {
    let err = GatewayError::ProviderError {
        message: "connection refused".into(),
        provider: None,
        source: None,
    };
    let (status, json) = check_envelope(&err);
    assert_eq!(status, 502);
    assert_eq!(text(at(&json, "code")), "PROVIDER_ERROR");
    assert!(json.get("details").is_none() || is_null(at(&json, "details")));
}

#[test]
fn envelope_shutting_down() {
    let err = GatewayError::ShuttingDown;
    let (status, json) = check_envelope(&err);
    assert_eq!(status, 503);
    assert_eq!(text(at(&json, "code")), "SHUTTING_DOWN");
    assert!(json.get("details").is_none() || is_null(at(&json, "details")));
}

#[test]
fn envelope_provider_unavailable() {
    let err = GatewayError::ProviderUnavailable { message: "broker down".into() };
    let (status, json) = check_envelope(&err);
    assert_eq!(status, 503);
    assert_eq!(text(at(&json, "code")), "PROVIDER_UNAVAILABLE");
    assert!(json.get("details").is_none() || is_null(at(&json, "details")));
}

// --- Provider error passthrough tests ---

#[test]
fn provider_error_preserves_adapter_context_in_json() {
    let err = GatewayError::ProviderError {
        message: "HTTP 500: Internal error; check broker status".into(),
        provider: Some("alpaca".into()),
        source: None,
    };
    let api_error = err.to_api_error();
    assert_eq!(api_error.code, ErrorCode::ProviderError);
    assert!(api_error.message.contains("HTTP 500"));
    assert!(api_error.message.contains("check broker status"));
    let details = api_error.details.unwrap();
    assert_eq!(text(at(&details, "provider")), "alpaca");
}

#[test]
fn order_rejected_preserves_binance_details_in_json() {
    // Simulate a Binance -2010 rejection with body preserved in details
    let err = GatewayError::OrderRejected {
        reason: "Account has insufficient balance".into(),
        reject_code: Some("INSUFFICIENT_FUNDS".into()),
        details: Some(parsed(
            r#"{"code": -2010, "msg": "Account has insufficient balance for requested action."}"#,
        )),
    };
    let api_error = err.to_api_error();
    assert_eq!(api_error.code, ErrorCode::OrderRejected);
    let details = api_error.details.unwrap();
    assert_eq!(text(at(&details, "reject_code")), "INSUFFICIENT_FUNDS");
    // Original Binance fields preserved alongside reject_code
    assert!(matches!(at(&details, "code"), Json::Number(JsonNumber::Negative(-2010))));
    assert_eq!(
        text(at(&details, "msg")),
        "Account has insufficient balance for requested action."
    );
}

#[test]
fn provider_error_source_not_in_json() {
    let source_err = std::io::Error::new(std::io::ErrorKind::ConnectionRefused, "refused");
    let err = GatewayError::ProviderError {
        message: "Connection refused".into(),
        provider: Some("saxo".into()),
        source: Some(source_err.to_string()),
    };
    let api_error = err.to_api_error();
    let json = api_error.to_json();
    // source must not leak into the JSON envelope
    assert!(json.get("source").is_none());
    let details = json.get("details").unwrap();
    assert!(details.get("source").is_none());
    // But provider is still there
    assert_eq!(text(at(details, "provider")), "saxo");
}

// --- Classification and messages ---

#[test]
fn only_transient_errors_are_retryable() {
    assert!(GatewayError::ProviderUnavailable { message: "x".into() }.is_retryable());
    assert!(
        GatewayError::RateLimited { retry_after_seconds: None, reset_at: None }.is_retryable()
    );
    assert!(
        GatewayError::ProviderError { message: "x".into(), provider: None, source: None }
            .is_retryable()
    );
    assert!(!GatewayError::ShuttingDown.is_retryable());
    assert!(!GatewayError::OrderNotFound { id: "x".into() }.is_retryable());
}

#[test]
fn constructors_fill_the_fields() {
    match GatewayError::internal_with_source("m", "s") {
        GatewayError::Internal { message, source } => {
            assert_eq!(message, "m");
            assert_eq!(source, Some("s".to_string()));
        }
        _ => panic!("expected Internal"),
    }
    match GatewayError::provider_error("m", "p", "s") {
        GatewayError::ProviderError { message, provider, source } => {
            assert_eq!(message, "m");
            assert_eq!(provider, Some("p".to_string()));
            assert_eq!(source, Some("s".to_string()));
        }
        _ => panic!("expected ProviderError"),
    }
    assert_eq!(GatewayError::internal("m").status_code(), 500);
    assert_eq!(GatewayError::unsupported("op", "p").status_code(), 501);
}

#[test]
fn wash_trade_rejections_are_retryable() {
    let wash = GatewayError::OrderRejected {
        reason: "Potential WASH trade detected".into(),
        reject_code: None,
        details: None,
    };
    assert!(wash.is_wash_trade_error());
    assert!(wash.is_retryable());
    let own = GatewayError::OrderRejected {
        reason: "Self-Trade prevention".into(),
        reject_code: None,
        details: None,
    };
    assert!(own.is_wash_trade_error());
    let other = GatewayError::OrderRejected {
        reason: "insufficient funds".into(),
        reject_code: None,
        details: None,
    };
    assert!(!other.is_wash_trade_error());
    assert!(!other.is_retryable());
}

#[test]
fn a_credential_is_replaced_by_its_name_and_the_marker() {
    assert_eq!(scrub_credentials("api_key=abc123"), "api_key=***REDACTED***");
    assert_eq!(scrub_credentials("Token:xyz!"), "Token=***REDACTED***");
    assert_eq!(scrub_credentials("PASSWORD=a=b:c"), "PASSWORD=***REDACTED***");
    assert_eq!(scrub_credentials("secret = s3 and more"), "secret=***REDACTED*** and more");
    assert_eq!(scrub_credentials("no credentials here"), "no credentials here");
    assert_eq!(
        scrub_credentials("Failed: apiKey=sk_live_123abc something"),
        "Failed: apiKey=***REDACTED*** something",
    );
    assert_eq!(
        scrub_credentials("token:\n a secret b password\t:c"),
        "token=***REDACTED*** secret b password=***REDACTED***",
    );
    assert_eq!(scrub_credentials("secrettoken=a =b"), "secrettoken=***REDACTED*** =b");
    assert_eq!(scrub_credentials("the token was: refused"), "the token was: refused");
    assert_eq!(scrub_credentials("token: "), "token: ");
    // Unicode white space ends a value, and the long s and the Kelvin sign stand for letters.
    assert_eq!(
        scrub_credentials("\u{e9} to\u{212a}en=caf\u{e9}\u{a0}\u{17f}ecret\u{2003}:\u{3000}x\u{200b}y z"),
        "\u{e9} to\u{212a}en=***REDACTED***\u{a0}\u{17f}ecret=***REDACTED*** z",
    );
    assert_eq!(scrub_credentials("caf\u{e9}: 12345"), "caf\u{e9}: 12345");
    assert!(is_credential_key("pa\u{17f}sword"));
    assert!(!is_credential_key("p\u{e0}ssword"));
    let once = scrub_credentials("a secret=b token:c Password = d\u{e9} \u{17f}ecret=e");
    assert_eq!(scrub_credentials(&once), once);
}

#[test]
fn names_of_credentials_are_known_in_any_case() {
    for key in ["apikey", "API_KEY", "Secret", "token", "PassWord", "AUTHORIZATION"] {
        assert!(is_credential_key(key), "{key}");
    }
    for key in ["", "api-key", "tokens", "my_secret", "message"] {
        assert!(!is_credential_key(key), "{key}");
    }
}
