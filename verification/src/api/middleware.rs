//! Correlation IDs and authentication of requests.

use vstd::prelude::*;
use vstd::string::*;
use vstd::utf8::{encode_utf8, is_char_boundary};
use std::time::Instant;
use subtle::ConstantTimeEq;
use crate::error::{GatewayError, GatewayErrorView};
use crate::random::{is_hyphenated_uuid, new_uuid};
use crate::text::{has_prefix, opt_str, same, strip_prefix, trim, trimmed};

verus! {

/// Maximum length for correlation IDs. Covers UUID (36), W3C traceparent (55),
/// and AWS X-Ray (~96) with headroom. Values beyond this are silently truncated.
pub const MAX_CORRELATION_ID_LEN: usize = 128;

/// Extension type to carry `correlation_id` through the request lifecycle.
#[derive(Clone, Debug)]
pub struct CorrelationId(pub String);

/// Extension type to carry timing information through the request lifecycle.
#[derive(Clone, Copy, Debug)]
pub struct RequestTiming {
    /// Request start time for calculating duration.
    pub start_time: Instant,
}

// ---------------------------------------------------------------------------------------
// Correlation IDs
// ---------------------------------------------------------------------------------------

/// The last place up to `at` at which bytes can be cut without cutting a character.
pub open spec fn last_boundary(bytes: Seq<u8>, at: int) -> int
    decreases at,
{
    if at <= 0 {
        0
    } else if is_char_boundary(bytes, at) {
        at
    } else {
        last_boundary(bytes, at - 1)
    }
}

/// The bytes of a text that is cut to at most `max_len` bytes.
pub open spec fn truncated(bytes: Seq<u8>, max_len: int) -> Seq<u8> {
    if bytes.len() <= max_len {
        bytes
    } else {
        bytes.subrange(0, last_boundary(bytes, max_len))
    }
}

/// Truncate a string to at most `max_len` bytes on a valid UTF-8 boundary.
pub fn truncate_to_char_boundary(s: &str, max_len: usize) -> (cut: &str)
    ensures
        cut.spec_bytes() == truncated(s.spec_bytes(), max_len as int),
        cut.spec_bytes().len() <= max_len,
        s.spec_bytes().len() <= max_len ==> cut@ == s@,
{
    broadcast use vstd::utf8::encode_utf8_valid_utf8;

    if s.as_bytes().len() <= max_len {
        return s;
    }
    let ghost bytes = s.spec_bytes();
    let mut end: usize = max_len;
    while end > 0 && !s.is_char_boundary(end)
        invariant
            end <= max_len < bytes.len(),
            bytes == s.spec_bytes(),
            last_boundary(bytes, end as int) == last_boundary(bytes, max_len as int),
        decreases end,
    {
        end = end - 1;
    }
    proof {
        vstd::utf8::is_char_boundary_start_end_of_seq(bytes);
        assert(last_boundary(bytes, max_len as int) == end);
    }
    let (head, _) = s.split_at(end);
    head
}

/// Extract or generate a correlation ID from the request, truncating to
/// [`MAX_CORRELATION_ID_LEN`].
pub fn resolve_correlation_id(header: Option<&str>) -> (id: String)
    ensures
        match header {
            Some(v) => encode_utf8(id@) == truncated(
                v.spec_bytes(),
                MAX_CORRELATION_ID_LEN as int,
            ),
            None => is_hyphenated_uuid(id@),
        },
{
    match header {
        Some(v) => truncate_to_char_boundary(v, MAX_CORRELATION_ID_LEN).to_owned(),
        None => new_uuid(),
    }
}

// ---------------------------------------------------------------------------------------
// Authentication
// ---------------------------------------------------------------------------------------

/// The key that a header holds, where it is not blank.
pub open spec fn key_in(value: Seq<char>) -> Option<Seq<char>> {
    if trimmed(value).len() > 0 {
        Some(trimmed(value))
    } else {
        None
    }
}

/// The key after `Bearer ` in an authorization header, where it is not blank.
pub open spec fn bearer_key(authorization: Option<Seq<char>>) -> Option<Seq<char>> {
    match authorization {
        Some(value) => if has_prefix(value, "Bearer "@) {
            key_in(value.skip("Bearer "@.len() as int))
        } else {
            None
        },
        None => None,
    }
}

/// The key that a request provides: in the authorization header, or else in its own header.
pub open spec fn provided_key(
    authorization: Option<Seq<char>>,
    api_key_header: Option<Seq<char>>,
) -> Option<Seq<char>> {
    match bearer_key(authorization) {
        Some(key) => Some(key),
        None => match api_key_header {
            Some(value) => key_in(value),
            None => None,
        },
    }
}

/// Whether a path is open to everybody.
pub open spec fn spec_public_path(path: Seq<char>) -> bool {
    path == "/livez"@ || path == "/readyz"@ || path == "/health"@ || path == "/metrics"@
}

/// Why a request is refused.
pub open spec fn auth_error(
    expected_key: Option<Seq<char>>,
    path: Seq<char>,
    authorization: Option<Seq<char>>,
    api_key_header: Option<Seq<char>>,
) -> Option<GatewayErrorView> {
    match expected_key {
        None => None,
        Some(expected) => if spec_public_path(path) {
            None
        } else {
            match provided_key(authorization, api_key_header) {
                Some(key) => if key == expected {
                    None
                } else {
                    Some(
                        GatewayErrorView::Unauthorized {
                            reason: "Invalid API key"@,
                            code: "INVALID_API_KEY"@,
                        },
                    )
                },
                None => Some(
                    GatewayErrorView::Unauthorized {
                        reason: "API key required"@,
                        code: "MISSING_API_KEY"@,
                    },
                ),
            }
        },
    }
}

/// Calls `subtle::ConstantTimeEq::ct_eq` on the bytes of two texts: whether they are the same.
/// The time it takes depends on the lengths alone.
#[verifier::external_body]
fn same_secret(a: &str, b: &str) -> (same: bool)
    ensures
        same == (a@ == b@),
{
    bool::from(a.as_bytes().ct_eq(b.as_bytes()))
}

/// Extract API key from request headers.
///
/// Checks `Authorization: Bearer <key>` first, then falls back to `X-API-Key`.
pub fn extract_api_key<'a>(authorization: Option<&'a str>, api_key_header: Option<&'a str>) -> (key:
    Option<&'a str>)
    ensures
        opt_str(key) == provided_key(opt_str(authorization), opt_str(api_key_header)),
{
    match authorization {
        Some(value) => match strip_prefix(value, "Bearer ") {
            Some(rest) => {
                assert(rest@ =~= value@.skip("Bearer "@.len() as int));
                let key = trim(rest);
                if !key.is_empty() {
                    return Some(key);
                }
            },
            None => {},
        },
        None => {},
    }
    match api_key_header {
        Some(value) => {
            let key = trim(value);
            if !key.is_empty() {
                return Some(key);
            }
        },
        None => {},
    }
    None
}

/// Returns `true` for paths that should bypass authentication.
pub fn is_public_path(path: &str) -> (public: bool)
    ensures
        public == spec_public_path(path@),
{
    same(path, "/livez") || same(path, "/readyz") || same(path, "/health") || same(path, "/metrics")
}

/// Enforces API key authentication when a key is configured.
///
/// When the gateway has no API key configured, all requests pass through.
/// When configured, requests must provide the key via either:
///   - `Authorization: Bearer <key>`
///   - `X-API-Key: <key>`
///
/// Health and operational endpoints bypass authentication.
/// Uses constant-time comparison to prevent timing side-channels.
pub fn authenticate(
    expected_key: Option<&str>,
    path: &str,
    authorization: Option<&str>,
    api_key_header: Option<&str>,
) -> (result: Result<(), GatewayError>)
    ensures
        match result {
            Ok(()) => auth_error(
                opt_str(expected_key),
                path@,
                opt_str(authorization),
                opt_str(api_key_header),
            ) is None,
            Err(e) => auth_error(
                opt_str(expected_key),
                path@,
                opt_str(authorization),
                opt_str(api_key_header),
            ) == Some(e@),
        },
{
    let expected = match expected_key {
        Some(key) => key,
        None => {
            return Ok(());
        },
    };
    if is_public_path(path) {
        return Ok(());
    }
    match extract_api_key(authorization, api_key_header) {
        Some(key) => if same_secret(expected, key) {
            Ok(())
        } else {
            Err(GatewayError::unauthorized("Invalid API key", "INVALID_API_KEY"))
        },
        None => Err(GatewayError::unauthorized("API key required", "MISSING_API_KEY")),
    }
}

/// A request passes a gateway with a key exactly if its path is public or it provides the key.
pub proof fn law_key_opens_everything(
    expected: Seq<char>,
    path: Seq<char>,
    authorization: Option<Seq<char>>,
    api_key_header: Option<Seq<char>>,
)
    ensures
        auth_error(Some(expected), path, authorization, api_key_header) is None
            <==> spec_public_path(path) || provided_key(authorization, api_key_header) == Some(
            expected,
        ),
{
}

/// Four paths are open to everybody, and no other.
pub proof fn law_which_paths_are_public(path: Seq<char>)
    ensures
        spec_public_path(path) <==> path == "/livez"@ || path == "/readyz"@ || path == "/health"@
            || path == "/metrics"@,
{
}

/// A key is taken from a bearer token first, and else from its own header; white space around it
/// does not count, and a blank one is none. An authorization of another kind is no key.
pub proof fn law_where_a_key_is_looked_for(
    key: Seq<char>,
    authorization: Option<Seq<char>>,
    api_key_header: Option<Seq<char>>,
)
    ensures
        trimmed(key).len() > 0 ==> provided_key(Some("Bearer "@ + key), api_key_header) == Some(
            trimmed(key),
        ),
        trimmed(key).len() == 0 ==> provided_key(Some("Bearer "@ + key), api_key_header)
            == provided_key(None, api_key_header),
        trimmed(key).len() > 0 ==> provided_key(None, Some(key)) == Some(trimmed(key)),
        trimmed(key).len() == 0 ==> provided_key(None, Some(key)) is None,
        (authorization matches Some(value) && !has_prefix(value, "Bearer "@)) ==> provided_key(
            authorization,
            api_key_header,
        ) == provided_key(None, api_key_header),
        provided_key(None, None) is None,
{
    let token = "Bearer "@ + key;
    assert(token.skip("Bearer "@.len() as int) =~= key);
    assert(token.subrange(0, "Bearer "@.len() as int) =~= "Bearer "@);
}

/// A request is refused only by a gateway with a key and only off the public paths: where it
/// provides no key, as one that lacks it, and where it provides another, as one with a wrong key.
pub proof fn law_how_requests_are_refused(
    expected_key: Option<Seq<char>>,
    path: Seq<char>,
    authorization: Option<Seq<char>>,
    api_key_header: Option<Seq<char>>,
)
    ensures
        ({
            let refused = auth_error(expected_key, path, authorization, api_key_header);
            let provided = provided_key(authorization, api_key_header);
            &&& expected_key is None ==> refused is None
            &&& refused matches Some(e) ==> e is Unauthorized
            &&& expected_key is Some && !spec_public_path(path) && provided is None ==> (
            refused matches Some(GatewayErrorView::Unauthorized { code, .. }) && code
                == "MISSING_API_KEY"@)
            &&& expected_key is Some && !spec_public_path(path) && provided is Some && provided
                != expected_key ==> (refused matches Some(
                GatewayErrorView::Unauthorized { code, .. },
            ) && code == "INVALID_API_KEY"@)
        }),
{
}

/// A text that is cut is a first part of it, whole where it is short enough; it is cut where a
/// character begins, and as late as that can be.
pub proof fn law_cut_keeps_what_fits(bytes: Seq<u8>, max_len: int, at: int)
    requires
        0 <= max_len,
    ensures
        ({
            let cut = truncated(bytes, max_len);
            &&& bytes.len() <= max_len ==> cut == bytes
            &&& cut.len() <= max_len
            &&& cut == bytes.take(cut.len() as int)
            &&& bytes.len() > max_len && cut.len() > 0 ==> is_char_boundary(bytes, cut.len() as int)
            &&& bytes.len() > max_len && cut.len() < at <= max_len ==> !is_char_boundary(bytes, at)
        }),
{
    lemma_last_boundary(bytes, max_len, at);
    if bytes.len() <= max_len {
        assert(bytes.take(bytes.len() as int) =~= bytes);
    }
}

proof fn lemma_last_boundary(bytes: Seq<u8>, upto: int, at: int)
    requires
        0 <= upto,
    ensures
        0 <= last_boundary(bytes, upto) <= upto,
        last_boundary(bytes, upto) > 0 ==> is_char_boundary(bytes, last_boundary(bytes, upto)),
        last_boundary(bytes, upto) < at <= upto ==> !is_char_boundary(bytes, at),
    decreases upto,
{
    if upto > 0 && !is_char_boundary(bytes, upto) {
        lemma_last_boundary(bytes, upto - 1, at);
    }
}

/// No correlation ID that a request brings is longer than 128 bytes, and a shorter one is kept.
pub proof fn law_correlation_ids_are_short(bytes: Seq<u8>)
    ensures
        truncated(bytes, MAX_CORRELATION_ID_LEN as int).len() <= 128,
        bytes.len() <= 128 ==> truncated(bytes, MAX_CORRELATION_ID_LEN as int) == bytes,
{
    lemma_last_boundary(bytes, MAX_CORRELATION_ID_LEN as int, 0);
}

} // verus!
