//! Client-side engine for driving a long-lived worker process over a
//! line-delimited JSON request/response protocol.
//!
//! The crate verifies the protocol's logic: the wire codec ([`json`] and the
//! request builders in [`protocol`]), the pending-request registry and the
//! router that correlates incoming lines ([`registry`]), the wait, cancel,
//! timeout and retry state machines ([`protocol`]), the side-channel state
//! writes ([`state_writes`]), the structured result readers ([`results`]),
//! and the error taxonomy ([`error`]).  The laws the engine keeps are proved
//! in [`laws`].  Process spawning, pipes, threads and sleeps live outside
//! the library and only carry out the decisions these modules return.

pub mod error;
pub mod json;
pub mod laws;
pub mod protocol;
pub mod registry;
pub mod results;
pub mod state_writes;
pub mod text;
