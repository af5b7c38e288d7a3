//! Coordination of tool calls inside one agent turn: which calls must run,
//! which can be answered from a cache, and which join a call that is
//! already running.
//!
//! The library decides and keeps the books; it neither runs tools nor
//! waits. A call is a state machine (`coordinator`) that is stepped by
//! whoever performs its actions. The calls of a turn share the turn's
//! results (`turn_cache`) and a registry of the calls in flight
//! (`single_flight`); the turns of a session share a bounded cache whose
//! entries expire (`session_cache`, `session`). A call is found again by
//! its key (`cache_key`), which does not depend on the order in which its
//! JSON arguments list their members (`json`, `json_laws`, `json_text`).
//!
//! What holds of a single call is proved in `laws`; what holds of several
//! calls at once is proved on a model of the turn (`turn_model`,
//! `turn_invariants`, `turn_single_flight`, `turn_scenarios`).

pub mod text;
pub mod json;
pub mod json_laws;
pub mod json_text;
pub mod call;
pub mod response;
pub mod cache_key;
pub mod policy;
pub mod settings;
pub mod abort;
pub mod error;
pub mod turn_cache;
pub mod single_flight;
pub mod session_cache;
pub mod rate_limits;
pub mod session;
pub mod coordinator;
pub mod laws;
pub mod turn_model;
pub mod turn_invariants;
pub mod turn_single_flight;
pub mod turn_scenarios;
