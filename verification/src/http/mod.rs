//! HTTP rules — which failures are retried, and what error a response is mapped to.

pub mod client;
pub mod retry;

pub use client::{default_error_mapper, extract_message};
pub use retry::{RetryPolicy, RetryStep};
