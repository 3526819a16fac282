//! Mapping of HTTP responses to errors.

use vstd::prelude::*;
use crate::error::{GatewayError, GatewayErrorView};
use crate::json::{Json, JsonNumberView, JsonView};
use crate::text::{digits, join2, join4, number_text, parse_u64, parsed_u64};
use crate::time::Duration;
use super::retry::{RetryPolicy, RetryStep};

verus! {

/// The message of a response body: its `message`, `error` or `msg`, whichever comes first,
/// where that is a string.
pub open spec fn body_message(body: JsonView) -> Seq<char> {
    let found = match body.get("message"@) {
        Some(v) => Some(v),
        None => match body.get("error"@) {
            Some(v) => Some(v),
            None => body.get("msg"@),
        },
    };
    match found {
        Some(v) => match v.as_text() {
            Some(s) => s,
            None => "Unknown error"@,
        },
        None => "Unknown error"@,
    }
}

/// The whole number under a key of a response body.
pub open spec fn body_number(body: JsonView, key: Seq<char>) -> Option<u64> {
    match body.get(key) {
        Some(v) => v.as_u64(),
        None => None,
    }
}

/// How long a rate limit asks to wait: what the header says, or else the body.
pub open spec fn wait_seconds(header: Option<u64>, body: JsonView) -> Option<u64> {
    match header {
        Some(s) => Some(s),
        None => match body_number(body, "retry_after"@) {
            Some(s) => Some(s),
            None => body_number(body, "retry_after_seconds"@),
        },
    }
}

/// The code in a response body, where it is a string.
pub open spec fn body_code(body: JsonView) -> Option<Seq<char>> {
    match body.get("code"@) {
        Some(v) => v.as_text(),
        None => None,
    }
}

/// The code in a response body, where it is a string or a whole number.
pub open spec fn body_code_or_number(body: JsonView) -> Option<Seq<char>> {
    match body_code(body) {
        Some(s) => Some(s),
        None => match body_number(body, "code"@) {
            Some(n) => Some(digits(n as nat)),
            None => None,
        },
    }
}

/// The error that a response without success is mapped to.
pub open spec fn mapped_error(
    status: u16,
    body: JsonView,
    retry_after: Option<u64>,
    provider: Seq<char>,
) -> GatewayErrorView {
    let message = body_message(body);
    if status == 429 {
        GatewayErrorView::RateLimited {
            retry_after_seconds: wait_seconds(retry_after, body),
            reset_at: None,
        }
    } else if status == 503 {
        GatewayErrorView::ProviderUnavailable { message }
    } else if status == 500 || status == 502 || status == 504 {
        GatewayErrorView::ProviderError { message, provider: Some(provider), source: None }
    } else if status == 400 {
        GatewayErrorView::InvalidRequest { message, field: None }
    } else if status == 401 {
        GatewayErrorView::Unauthorized { reason: message, code: "AUTH_FAILED"@ }
    } else if status == 403 {
        GatewayErrorView::OrderRejected {
            reason: message,
            reject_code: body_code_or_number(body),
            details: Some(body),
        }
    } else if status == 404 {
        GatewayErrorView::ProviderError {
            message: "Upstream returned 404: "@ + message,
            provider: Some(provider),
            source: None,
        }
    } else if status == 422 {
        GatewayErrorView::OrderRejected {
            reason: message,
            reject_code: body_code(body),
            details: Some(body),
        }
    } else {
        GatewayErrorView::ProviderError {
            message: "HTTP "@ + digits(status as nat) + ": "@ + message,
            provider: Some(provider),
            source: None,
        }
    }
}

fn number_under(body: &Json, key: &str) -> (n: Option<u64>)
    ensures
        n == body_number(body@, key@),
{
    match body.get(key) {
        Some(v) => v.as_u64(),
        None => None,
    }
}

fn code_in(body: &Json) -> (code: Option<String>)
    ensures
        match code {
            Some(s) => body_code(body@) == Some(s@),
            None => body_code(body@) is None,
        },
{
    match body.get("code") {
        Some(v) => match v.as_text() {
            Some(s) => Some(s.to_owned()),
            None => None,
        },
        None => None,
    }
}

fn code_or_number_in(body: &Json) -> (code: Option<String>)
    ensures
        match code {
            Some(s) => body_code_or_number(body@) == Some(s@),
            None => body_code_or_number(body@) is None,
        },
{
    match code_in(body) {
        Some(s) => Some(s),
        None => match number_under(body, "code") {
            Some(n) => Some(number_text(n)),
            None => None,
        },
    }
}

/// Extract error message from response body.
///
/// Checks common error message field names: `message`, `error`, `msg`.
pub fn extract_message(body: &Json) -> (message: String)
    ensures
        message@ == body_message(body@),
{
    let found = match body.get("message") {
        Some(v) => Some(v),
        None => match body.get("error") {
            Some(v) => Some(v),
            None => body.get("msg"),
        },
    };
    match found {
        Some(v) => match v.as_text() {
            Some(s) => s.to_owned(),
            None => "Unknown error".to_owned(),
        },
        None => "Unknown error".to_owned(),
    }
}

/// Default error mapper for HTTP responses.
///
/// Provides generic error mapping without provider-specific logic.
///
/// 401 = bad credentials. 403 = authenticated but the requested action
/// isn't permitted — for trading APIs that's almost always an order
/// rejection (insufficient buying power, asset class disabled, cost
/// basis below minimum, etc), not an auth issue.
pub fn default_error_mapper(status: u16, body: Json, retry_after: Option<u64>, provider: &str) -> (e:
    GatewayError)
    ensures
        e@ == mapped_error(status, body@, retry_after, provider@),
{
    let message = extract_message(&body);
    if status == 429 {
        let seconds = match retry_after {
            Some(s) => Some(s),
            None => match number_under(&body, "retry_after") {
                Some(s) => Some(s),
                None => number_under(&body, "retry_after_seconds"),
            },
        };
        GatewayError::RateLimited { retry_after_seconds: seconds, reset_at: None }
    } else if status == 503 {
        GatewayError::ProviderUnavailable { message }
    } else if status == 500 || status == 502 || status == 504 {
        GatewayError::ProviderError { message, provider: Some(provider.to_owned()), source: None }
    } else if status == 400 {
        GatewayError::InvalidRequest { message, field: None }
    } else if status == 401 {
        GatewayError::Unauthorized { reason: message, code: "AUTH_FAILED".to_owned() }
    } else if status == 403 {
        GatewayError::OrderRejected {
            reason: message,
            reject_code: code_or_number_in(&body),
            details: Some(body),
        }
    } else if status == 404 {
        GatewayError::ProviderError {
            message: join2("Upstream returned 404: ", message.as_str()),
            provider: Some(provider.to_owned()),
            source: None,
        }
    } else if status == 422 {
        GatewayError::OrderRejected {
            reason: message,
            reject_code: code_in(&body),
            details: Some(body),
        }
    } else {
        GatewayError::ProviderError {
            message: join4("HTTP ", number_text(status as u64).as_str(), ": ", message.as_str()),
            provider: Some(provider.to_owned()),
            source: None,
        }
    }
}

/// Whether a status tells that the request itself is at fault: the 4xx statuses, but for the
/// rate limit.
pub open spec fn is_client_fault(status: u16) -> bool {
    400 <= status < 500 && status != 429
}

/// Decides whether a request is retried, once its response was mapped to an error.
///
/// 5xx errors and 429 are retried; 4xx errors fail immediately.
pub fn response_step(
    policy: &RetryPolicy,
    status: u16,
    error: &GatewayError,
    attempt: u32,
    backoff: Duration,
) -> (step: RetryStep)
    ensures
        step == (if is_client_fault(status) {
            RetryStep::GiveUp
        } else {
            policy.spec_step(error@, attempt, backoff)
        }),
{
    if 400 <= status && status < 500 && status != 429 {
        return RetryStep::GiveUp;
    }
    policy.step(error, attempt, backoff)
}

/// The seconds that a `retry-after` header asks to wait, where it is a whole number.
pub fn retry_after_seconds(header: Option<&str>) -> (seconds: Option<u64>)
    ensures
        seconds == (match header {
            Some(text) => match parsed_u64(text@) {
                Ok(n) => Some(n),
                Err(_) => None,
            },
            None => None::<u64>,
        }),
{
    match header {
        Some(text) => match parse_u64(text) {
            Ok(n) => Some(n),
            Err(_) => None,
        },
        None => None,
    }
}

/// The body that stands in for one that is not JSON.
pub fn unknown_error_body() -> (body: Json)
    ensures
        body@ == JsonView::Object(seq![("error"@, JsonView::Text("Unknown error"@))]),
{
    let body = Json::object().with("error", Json::text("Unknown error"));
    assert(body@->Object_0 =~= seq![("error"@, JsonView::Text("Unknown error"@))]);
    body
}

/// The error of a request that got no response.
pub fn request_failed(cause: &str, provider: &str) -> (e: GatewayError)
    ensures
        e@ == (GatewayErrorView::ProviderError {
            message: "Request failed: "@ + cause@,
            provider: Some(provider@),
            source: None,
        }),
{
    GatewayError::ProviderError {
        message: join2("Request failed: ", cause),
        provider: Some(provider.to_owned()),
        source: None,
    }
}

/// The error of a response whose body cannot be read.
pub fn parse_failed(cause: &str, provider: &str) -> (e: GatewayError)
    ensures
        e@ == (GatewayErrorView::Internal {
            message: "Failed to parse "@ + provider@ + " response: "@ + cause@,
            source: None,
        }),
{
    GatewayError::internal(
        join4("Failed to parse ", provider, " response: ", cause).as_str(),
    )
}

/// A server fault and a rate limit are mapped to errors that are retried while attempts are
/// left.
pub proof fn law_server_faults_are_retried(
    status: u16,
    body: JsonView,
    retry_after: Option<u64>,
    provider: Seq<char>,
    policy: RetryPolicy,
    attempt: u32,
    backoff: Duration,
)
    requires
        status == 429 || 500 <= status < 600,
        attempt < policy.max_retries,
    ensures
        !is_client_fault(status),
        policy.spec_step(
            mapped_error(status, body, retry_after, provider),
            attempt,
            backoff,
        ) is Wait,
{
}

/// A response without success is mapped by its status: a rate limit, an outage, a bad request, bad
/// credentials, a rejected order, or a fault of the provider, which is named. The message is that
/// of the body.
pub proof fn law_statuses_and_their_errors(
    status: u16,
    body: JsonView,
    retry_after: Option<u64>,
    provider: Seq<char>,
)
    ensures
        ({
            let e = mapped_error(status, body, retry_after, provider);
            let message = body_message(body);
            &&& status == 429 <==> e is RateLimited
            &&& status == 503 <==> e is ProviderUnavailable
            &&& status == 400 <==> e is InvalidRequest
            &&& status == 401 <==> e is Unauthorized
            &&& status == 403 || status == 422 <==> e is OrderRejected
            &&& e is RateLimited || e is ProviderUnavailable || e is InvalidRequest
                || e is Unauthorized || e is OrderRejected || e is ProviderError
            &&& match e {
                GatewayErrorView::ProviderUnavailable { message: m } => m == message,
                GatewayErrorView::InvalidRequest { message: m, .. } => m == message,
                GatewayErrorView::Unauthorized { reason, .. } => reason == message,
                GatewayErrorView::OrderRejected { reason, details, .. } => reason == message
                    && details == Some(body),
                GatewayErrorView::ProviderError { message: m, provider: p, .. } => p == Some(provider)
                    && m.len() >= message.len() && m.skip(m.len() - message.len()) == message && (
                status == 500 || status == 502 || status == 504 ==> m == message) && (status == 404
                    ==> m == "Upstream returned 404: "@ + message) && (status != 500 && status != 502
                    && status != 504 && status != 404 ==> m == "HTTP "@ + digits(status as nat)
                    + ": "@ + message),
                _ => true,
            }
        }),
{
    let message = body_message(body);
    let told = "Upstream returned 404: "@;
    assert((told + message).skip(told.len() as int) =~= message);
    let told = "HTTP "@ + digits(status as nat) + ": "@;
    assert((told + message).skip(told.len() as int) =~= message);
    assert(message.skip(0) =~= message);
}

/// The code of a rejection is that of the body: as a string for any rejection, and as a number too
/// where the action was not permitted.
pub proof fn law_rejections_tell_their_code(
    status: u16,
    body: JsonView,
    retry_after: Option<u64>,
    provider: Seq<char>,
    code: Seq<char>,
    n: u64,
)
    requires
        status == 403 || status == 422,
    ensures
        ({
            let told = mapped_error(status, body, retry_after, provider)->reject_code;
            &&& body.get("code"@) == Some(JsonView::Text(code)) ==> told == Some(code)
            &&& body.get("code"@) == Some(JsonView::Number(JsonNumberView::Unsigned(n))) ==> told == (
            if status == 403 {
                Some(digits(n as nat))
            } else {
                None
            })
            &&& body.get("code"@) is None ==> told is None
        }),
{
}

/// The message of a body is that under `message`, else under `error`, else under `msg`, and only a
/// string is one.
pub proof fn law_where_a_message_is_looked_for(body: JsonView, text: Seq<char>)
    ensures
        body.get("message"@) == Some(JsonView::Text(text)) ==> body_message(body) == text,
        body.get("message"@) is None && body.get("error"@) == Some(JsonView::Text(text))
            ==> body_message(body) == text,
        body.get("message"@) is None && body.get("error"@) is None && body.get("msg"@) == Some(
            JsonView::Text(text),
        ) ==> body_message(body) == text,
        body.get("message"@) is None && body.get("error"@) is None && body.get("msg"@) is None
            ==> body_message(body) == "Unknown error"@,
        (body.get("message"@) matches Some(v) && !(v is Text)) ==> body_message(body)
            == "Unknown error"@,
{
}

/// A rate limit asks to wait as long as its header says, else as its body says under
/// `retry_after`, else under `retry_after_seconds`, and else says nothing.
pub proof fn law_how_long_a_rate_limit_waits(
    header: Option<u64>,
    body: JsonView,
    provider: Seq<char>,
    n: u64,
)
    ensures
        ({
            let told = mapped_error(429, body, header, provider)->retry_after_seconds;
            let number = JsonView::Number(JsonNumberView::Unsigned(n));
            &&& header is Some ==> told == header
            &&& header is None && body.get("retry_after"@) == Some(number) ==> told == Some(n)
            &&& header is None && body.get("retry_after"@) is None && body.get(
                "retry_after_seconds"@,
            ) == Some(number) ==> told == Some(n)
            &&& header is None && body.get("retry_after"@) is None && body.get(
                "retry_after_seconds"@,
            ) is None ==> told is None
        }),
{
}

/// The request itself is at fault exactly with the statuses from 400 to 499 but the rate limit.
pub proof fn law_which_statuses_are_the_clients_fault(status: u16)
    ensures
        status == 429 ==> !is_client_fault(status),
        400 <= status <= 499 && status != 429 ==> is_client_fault(status),
        status < 400 || status > 499 ==> !is_client_fault(status),
{
}

} // verus!
