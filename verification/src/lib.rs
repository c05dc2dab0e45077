//! Lifecycle bookkeeping for recording sessions.
//!
//! A recording session is started, may be paused and resumed any number of
//! times, and is stopped once. This crate holds the rules of that lifecycle
//! and the registry that applies them:
//!
//! - [`state`] is the lifecycle table: which request is legal in which state;
//! - [`session_id`] is the text form of session ids, written and read back;
//! - [`registry`] is the registry itself, with its four operations;
//! - [`error`] names the ways in which an operation fails;
//! - [`laws`] proves what holds of every run of operations.
//!
//! Every function is verified against its contract: what an operation
//! answers and what it leaves behind is stated over the registry's view, a
//! map from ids to states.

pub mod error;
pub mod laws;
pub mod registry;
pub mod session_id;
pub mod state;
