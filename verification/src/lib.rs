//! The core of a trading gateway.
//!
//! Strategies speak one API, whichever trading platform stands behind it. The library holds
//! what the gateway decides and remembers: the models of the API and their checks, the errors
//! and how they are answered, the caches of orders and positions, the exit orders that protect
//! positions and when they are placed, cancelled and moved, the routing of provider events,
//! the circuit breakers, and the rules of the HTTP layer on both sides.
//!
//! Nothing here talks to a network or a disk: the caller performs what a step asks for, and
//! hands the answer back.

use vstd::prelude::*;

pub mod adapter;
pub mod api;
pub mod circuit_breaker;
pub mod config;
pub mod correlation;
pub mod decimal;
pub mod error;
pub mod events;
pub mod exit_management;
pub mod failure_window;
pub mod http;
pub mod id_set;
pub mod json;
pub mod lists;
pub mod models;
pub mod random;
pub mod reject_codes;
pub mod shutdown;
pub mod state;
pub mod table;
pub mod text;
pub mod time;

verus! {

} // verus!
