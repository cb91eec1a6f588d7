//! A small finite state machine library.
//!
//! An application describes the states and triggers of a discrete system,
//! attaches entry and exit actions and guarded transitions per state, and
//! drives the system by firing triggers.  The machine is parametric over the
//! application's state and trigger value types.
//!
//! Actions and guards are the application's own code, so the machine handles
//! them as plain identifiers: every `fire` reports exactly which actions the
//! caller must invoke, in which order, each with the trigger of that call;
//! and since guards are pure predicates over the trigger, the caller hands
//! `fire` the verdicts its guard predicates give for that trigger, and the
//! machine resolves transitions against them in declaration order.

pub mod finite_state_machine;
pub mod phone_call;
pub mod internal_transition;
pub mod shared_types;
pub mod state;
pub mod state_node;
pub mod transition;
