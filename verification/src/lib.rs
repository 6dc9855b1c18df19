//! A small engine for deterministic Mealy-style finite state machines over
//! character streams.
//!
//! A caller describes an automaton as a transition table: for each state, an
//! ordered list of [`types::Transition`] edges, each guarded by an optional
//! character predicate and carrying an optional effect tag. An FSM built from
//! such a table consumes an input string character by character, always taking
//! the first edge of the current state whose predicate accepts the character,
//! and dispatches the effects of the edges taken to a caller-supplied
//! [`types::Effector`]. Rejection reports the exact position and character at
//! which no edge matched.

pub mod fsm;
pub mod laws;
pub mod types;

pub use fsm::{Dispatch, FSM, FSMError, MergeError, RunModel, RunVerdict};
pub use types::{Effector, StatesConnection, StreamData, Transition};
