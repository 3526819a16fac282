//! The rules behind the REST API.
//!
//! - **Middleware**: correlation IDs and authentication
//! - **Extractors**: what is made of request bodies
//! - **Routes**: what the handlers decide
//! - **State**: what the handlers share

pub mod extractors;
pub mod middleware;
pub mod models;
pub mod routes;
pub mod state;
