use vstd::prelude::*;
use crate::shared_types::{ActionId, Guard};

verus! {

/// A transition that stays within its owning state: the trigger that
/// activates it, the action owed an invocation when it is taken, and the
/// guard that gates it.  The machine itself resolves transitions through the
/// nodes' transition lists; this record is offered to callers that describe
/// such edges on their own.
pub struct InternalTransition<TTriggers> {
    /// The trigger that activates this edge.
    pub trigger: TTriggers,
    /// The action owed an invocation when the edge is taken.
    pub action: ActionId,
    /// The guard that must pass for the edge to be taken.
    pub guard: Guard,
}

} // verus!
