use tektii_gateway_core::error::GatewayError;
use tektii_gateway_core::http::client::{
    parse_failed, request_failed, response_step, retry_after_seconds, unknown_error_body,
};
use tektii_gateway_core::http::{RetryPolicy, RetryStep, default_error_mapper, extract_message};
use tektii_gateway_core::json::{Json, JsonNumber};
use tektii_gateway_core::time::Duration;

fn number(n: u64) -> Json {
    Json::Number(JsonNumber::Unsigned(n))
}

fn one(key: &str, value: Json) -> Json {
    Json::object().with(key, value)
}

#[test]
fn extract_message_finds_message_field() {
    let body = one("message", Json::text("Test error"));
    assert_eq!(extract_message(&body), "Test error");
}

#[test]
fn extract_message_finds_error_field() {
    let body = one("error", Json::text("Another error"));
    assert_eq!(extract_message(&body), "Another error");
}

#[test]
fn extract_message_finds_msg_field() {
    let body = one("msg", Json::text("Binance error"));
    assert_eq!(extract_message(&body), "Binance error");
}

#[test]
fn extract_message_defaults_to_unknown() {
    let body = one("code", number(123));
    assert_eq!(extract_message(&body), "Unknown error");
}

// =====================================================================
// default_error_mapper
// =====================================================================

#[test]
fn default_mapper_429_header_takes_priority() {
    let body = one("retry_after", number(10));
    let err = default_error_mapper(429, body, Some(5), "test");
    match err {
        GatewayError::RateLimited { retry_after_seconds, .. } => {
            assert_eq!(retry_after_seconds, Some(5))
        }
        other => panic!("Expected RateLimited, got: {other:?}"),
    }
}

#[test]
fn default_mapper_429_body_retry_after() {
    let body = one("retry_after", number(10));
    let err = default_error_mapper(429, body, None, "test");
    match err {
        GatewayError::RateLimited { retry_after_seconds, .. } => {
            assert_eq!(retry_after_seconds, Some(10))
        }
        other => panic!("Expected RateLimited, got: {other:?}"),
    }
}

#[test]
fn default_mapper_429_body_retry_after_seconds() {
    let body = one("retry_after_seconds", number(15));
    let err = default_error_mapper(429, body, None, "test");
    match err {
        GatewayError::RateLimited { retry_after_seconds, .. } => {
            assert_eq!(retry_after_seconds, Some(15))
        }
        other => panic!("Expected RateLimited, got: {other:?}"),
    }
}

#[test]
fn default_mapper_429_no_retry_info() {
    let body = Json::object();
    let err = default_error_mapper(429, body, None, "test");
    match err {
        GatewayError::RateLimited { retry_after_seconds, .. } => {
            assert_eq!(retry_after_seconds, None)
        }
        other => panic!("Expected RateLimited, got: {other:?}"),
    }
}

#[test]
fn default_mapper_503_provider_unavailable() {
    let body = one("message", Json::text("Maintenance"));
    let err = default_error_mapper(503, body, None, "test");
    match err {
        GatewayError::ProviderUnavailable { message } => {
            assert_eq!(message, "Maintenance");
        }
        other => panic!("Expected ProviderUnavailable, got: {other:?}"),
    }
}

#[test]
fn default_mapper_500_provider_error() {
    let body = one("message", Json::text("Crash"));
    let err = default_error_mapper(500, body, None, "broker");
    match err {
        GatewayError::ProviderError { message, provider, .. } => {
            assert_eq!(message, "Crash");
            assert_eq!(provider.as_deref(), Some("broker"));
        }
        other => panic!("Expected ProviderError, got: {other:?}"),
    }
}

#[test]
fn default_mapper_502_provider_error() {
    let body = one("message", Json::text("Bad gateway"));
    let err = default_error_mapper(502, body, None, "test");
    assert!(matches!(err, GatewayError::ProviderError { .. }));
}

#[test]
fn default_mapper_504_provider_error() {
    let body = one("message", Json::text("Timeout"));
    let err = default_error_mapper(504, body, None, "test");
    assert!(matches!(err, GatewayError::ProviderError { .. }));
}

#[test]
fn default_mapper_400_invalid_request() {
    let body = one("message", Json::text("Bad params"));
    let err = default_error_mapper(400, body, None, "test");
    match err {
        GatewayError::InvalidRequest { message, field } => {
            assert_eq!(message, "Bad params");
            assert_eq!(field, None);
        }
        other => panic!("Expected InvalidRequest, got: {other:?}"),
    }
}

#[test]
fn default_mapper_401_unauthorized() {
    let body = one("message", Json::text("Bad token"));
    let err = default_error_mapper(401, body, None, "test");
    match err {
        GatewayError::Unauthorized { reason, code } => {
            assert_eq!(reason, "Bad token");
            assert_eq!(code, "AUTH_FAILED");
        }
        other => panic!("Expected Unauthorized, got: {other:?}"),
    }
}

#[test]
fn default_mapper_403_order_rejected() {
    // 403 = action forbidden — for brokers this is order-level (insufficient
    // funds, cost basis below minimum, etc), not bad credentials. Should
    // surface as OrderRejected so SDK callers don't misread it as auth.
    let body = one("message", Json::text("cost basis must be >= minimal amount of order 10"))
        .with("code", number(40310000));
    let err = default_error_mapper(403, body, None, "test");
    match err {
        GatewayError::OrderRejected { reason, reject_code, .. } => {
            assert!(reason.contains("cost basis"), "got: {reason}");
            assert_eq!(reject_code.as_deref(), Some("40310000"));
        }
        other => panic!("Expected OrderRejected, got: {other:?}"),
    }
}

#[test]
fn default_mapper_404_provider_error() {
    let body = one("message", Json::text("Not found"));
    let err = default_error_mapper(404, body, None, "test");
    match err {
        GatewayError::ProviderError { message, provider, .. } => {
            assert!(message.contains("404"), "message should mention 404");
            assert_eq!(provider.as_deref(), Some("test"));
        }
        other => panic!("Expected ProviderError, got: {other:?}"),
    }
}

#[test]
fn default_mapper_422_order_rejected() {
    let body = one("message", Json::text("Rejected")).with("code", Json::text("LIMIT_EXCEEDED"));
    let err = default_error_mapper(422, body, None, "test");
    match err {
        GatewayError::OrderRejected { reason, reject_code, details } => {
            assert_eq!(reason, "Rejected");
            assert_eq!(reject_code.as_deref(), Some("LIMIT_EXCEEDED"));
            assert!(details.is_some());
        }
        other => panic!("Expected OrderRejected, got: {other:?}"),
    }
}

#[test]
fn default_mapper_unknown_status() {
    let body = one("message", Json::text("Teapot"));
    let err = default_error_mapper(418, body, None, "test");
    match err {
        GatewayError::ProviderError { message, provider, .. } => {
            assert!(message.contains("HTTP 418"), "got: {message}");
            assert_eq!(provider.as_deref(), Some("test"));
        }
        other => panic!("Expected ProviderError, got: {other:?}"),
    }
}

// =====================================================================
// Retries
// =====================================================================

fn policy() -> RetryPolicy {
    RetryPolicy { max_retries: 3, max_delay: Duration::from_secs(10) }
}

fn outage() -> GatewayError {
    GatewayError::ProviderUnavailable { message: "down".to_string() }
}

#[test]
fn transient_errors_wait_for_the_backoff() {
    let backoff = Duration::from_millis(100);
    assert_eq!(policy().step(&outage(), 0, backoff), RetryStep::Wait(backoff));
    assert_eq!(policy().step(&outage(), 2, backoff), RetryStep::Wait(backoff));
    assert_eq!(policy().step(&outage(), 3, backoff), RetryStep::GiveUp);
}

#[test]
fn other_errors_are_returned_at_once() {
    let error = GatewayError::OrderNotFound { id: "x".to_string() };
    assert_eq!(policy().step(&error, 0, Duration::from_millis(1)), RetryStep::GiveUp);
}

#[test]
fn a_rate_limit_says_how_long_to_wait_up_to_the_maximum() {
    let limited =
        |seconds| GatewayError::RateLimited { retry_after_seconds: seconds, reset_at: None };
    let backoff = Duration::from_millis(100);
    assert_eq!(
        policy().step(&limited(Some(5)), 0, backoff),
        RetryStep::Wait(Duration::from_secs(5))
    );
    assert_eq!(
        policy().step(&limited(Some(3600)), 0, backoff),
        RetryStep::Wait(Duration::from_secs(10))
    );
    assert_eq!(policy().step(&limited(None), 0, backoff), RetryStep::Wait(backoff));
}

#[test]
fn client_faults_are_never_retried() {
    let error = default_error_mapper(404, Json::object(), None, "test");
    assert!(error.is_retryable());
    assert_eq!(
        response_step(&policy(), 404, &error, 0, Duration::from_millis(1)),
        RetryStep::GiveUp
    );
    let limited = default_error_mapper(429, Json::object(), None, "test");
    assert_eq!(
        response_step(&policy(), 429, &limited, 0, Duration::from_millis(1)),
        RetryStep::Wait(Duration::from_millis(1))
    );
    let fault = default_error_mapper(500, Json::object(), None, "test");
    assert_eq!(
        response_step(&policy(), 500, &fault, 0, Duration::from_millis(1)),
        RetryStep::Wait(Duration::from_millis(1))
    );
}

#[test]
fn retry_after_header_is_a_whole_number() {
    assert_eq!(retry_after_seconds(Some("30")), Some(30));
    assert_eq!(retry_after_seconds(Some("soon")), None);
    assert_eq!(retry_after_seconds(Some("-1")), None);
    assert_eq!(retry_after_seconds(None), None);
}

#[test]
fn errors_of_requests_without_a_usable_response() {
    assert_eq!(extract_message(&unknown_error_body()), "Unknown error");
    assert_eq!(
        request_failed("timed out", "test").to_text(),
        "Provider error: Request failed: timed out"
    );
    assert_eq!(
        parse_failed("bad json", "test").to_text(),
        "Internal error: Failed to parse test response: bad json"
    );
}

/// Runs an operation until it succeeds or is given up: the answer, the number of attempts and
/// the delays between them.
fn run(
    policy: RetryPolicy,
    backoff: Duration,
    mut operation: impl FnMut(u32) -> Result<i32, GatewayError>,
) -> (Result<i32, GatewayError>, u32, Vec<Duration>) {
    let mut attempt = 0;
    let mut delays = Vec::new();
    loop {
        match operation(attempt) {
            Ok(value) => return (Ok(value), attempt + 1, delays),
            Err(error) => match policy.step(&error, attempt, backoff) {
                RetryStep::GiveUp => return (Err(error), attempt + 1, delays),
                RetryStep::Wait(delay) => {
                    delays.push(delay);
                    attempt += 1;
                }
            },
        }
    }
}

fn for_tests() -> RetryPolicy {
    RetryPolicy { max_retries: 3, max_delay: Duration::from_millis(100) }
}

fn rate_limited(seconds: Option<u64>) -> GatewayError {
    GatewayError::RateLimited { retry_after_seconds: seconds, reset_at: None }
}

#[test]
fn succeeds_on_first_attempt() {
    let (result, attempts, _) = run(for_tests(), Duration::from_millis(10), |_| Ok(42));
    assert_eq!(result.unwrap(), 42);
    assert_eq!(attempts, 1);
}

#[test]
fn succeeds_after_transient_error() {
    let (result, attempts, _) = run(for_tests(), Duration::from_millis(10), |attempt| {
        if attempt == 0 {
            Err(GatewayError::ProviderUnavailable { message: "Temporary".to_string() })
        } else {
            Ok(42)
        }
    });
    assert_eq!(result.unwrap(), 42);
    assert_eq!(attempts, 2);
}

#[test]
fn exhausts_attempts_on_persistent_error() {
    let (result, attempts, _) = run(for_tests(), Duration::from_millis(10), |_| {
        Err(GatewayError::ProviderUnavailable { message: "Down".to_string() })
    });
    assert!(result.is_err());
    assert_eq!(attempts, for_tests().max_retries + 1);
}

#[test]
fn does_not_retry_non_retryable_error() {
    let (result, attempts, _) = run(for_tests(), Duration::from_millis(10), |_| {
        Err(GatewayError::OrderNotFound { id: "xyz".to_string() })
    });
    assert!(result.is_err());
    assert_eq!(attempts, 1);
}

#[test]
fn rate_limited_is_retried_and_succeeds() {
    let (result, attempts, _) = run(for_tests(), Duration::from_millis(10), |attempt| {
        if attempt == 0 { Err(rate_limited(Some(0))) } else { Ok(42) }
    });
    assert_eq!(result.unwrap(), 42);
    assert_eq!(attempts, 2);
}

#[test]
fn rate_limited_without_retry_after_uses_backoff() {
    let backoff = Duration::from_millis(10);
    let (result, attempts, delays) = run(for_tests(), backoff, |attempt| {
        if attempt == 0 { Err(rate_limited(None)) } else { Ok(42) }
    });
    assert_eq!(result.unwrap(), 42);
    assert_eq!(attempts, 2);
    assert_eq!(delays, vec![backoff]);
}

#[test]
fn rate_limited_exhausts_all_retries() {
    let (result, attempts, _) =
        run(for_tests(), Duration::from_millis(10), |_| Err(rate_limited(Some(0))));
    assert!(matches!(result, Err(GatewayError::RateLimited { .. })));
    assert_eq!(attempts, for_tests().max_retries + 1);
}

#[test]
fn rate_limited_retry_after_capped_by_max_delay() {
    let policy = RetryPolicy { max_retries: 1, max_delay: Duration::from_millis(50) };
    let (result, attempts, delays) = run(policy, Duration::from_millis(10), |attempt| {
        if attempt == 0 { Err(rate_limited(Some(999))) } else { Ok(42) }
    });
    assert_eq!(result.unwrap(), 42);
    assert_eq!(attempts, 2);
    assert_eq!(delays, vec![Duration::from_millis(50)]);
}
