//! What is made of request bodies.

use vstd::prelude::*;
use crate::error::{GatewayError, GatewayErrorView};
use crate::text::{contains, has_part, join2, opt_str, parse_u64, parsed_u64};

verus! {

/// The error of a body that is not the JSON that is asked for.
pub fn invalid_json(cause: &str) -> (e: GatewayError)
    ensures
        e@ == (GatewayErrorView::InvalidRequest {
            message: "Invalid JSON: "@ + cause@,
            field: None,
        }),
{
    GatewayError::InvalidRequest { message: join2("Invalid JSON: ", cause), field: None }
}

/// Whether a request that may come without a body has none: it names no content type, or it
/// gives the length as zero.
pub fn has_no_body(has_content_type: bool, content_length: Option<&str>) -> (none: bool)
    ensures
        none == (!has_content_type || (opt_str(content_length) matches Some(text) && parsed_u64(text)
            == Ok::<u64, Seq<char>>(0))),
{
    if !has_content_type {
        return true;
    }
    match content_length {
        Some(text) => match parse_u64(text) {
            Ok(n) => n == 0,
            Err(_) => false,
        },
        None => false,
    }
}

/// Whether an error tells that a body which may be absent was empty.
pub fn tells_empty_body(error: &GatewayError) -> (empty: bool)
    ensures
        empty == (error@ matches GatewayErrorView::InvalidRequest { message, .. } && (has_part(
            message,
            "EOF"@,
        ) || has_part(message, "empty"@))),
{
    match error {
        GatewayError::InvalidRequest { message, .. } => contains(message.as_str(), "EOF")
            || contains(message.as_str(), "empty"),
        _ => false,
    }
}

} // verus!
