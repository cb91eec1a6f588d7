use vstd::prelude::*;
use crate::shared_types::ActionId;

verus! {

/// An early, stand-alone description of one state: its value, how many
/// triggers were counted against it, and its entry and exit action lists.
/// The machine itself works with `StateNode`; this record is kept for callers
/// that only want to tally a state's configuration.
#[derive(Debug)]
pub struct State<TStates> {
    state: TStates,
    num_triggers: u32,
    on_entry_action: Vec<ActionId>,
    on_exit_action: Vec<ActionId>,
}

impl<TStates> State<TStates> {
    /// Makes the record for `state`, with no triggers counted and empty
    /// action lists.
    pub fn configure(state: TStates) -> (r: Self)
        ensures
            r.num_triggers() == 0,
            r.entry_actions() == Seq::<ActionId>::empty(),
            r.exit_actions() == Seq::<ActionId>::empty(),
    {
        State { state, num_triggers: 0, on_entry_action: Vec::new(), on_exit_action: Vec::new() }
    }

    /// How many triggers were counted against this state.
    pub closed spec fn num_triggers(self) -> u32 {
        self.num_triggers
    }

    /// The entry action identifiers, in declaration order.
    pub closed spec fn entry_actions(self) -> Seq<ActionId> {
        self.on_entry_action@
    }

    /// The exit action identifiers, in declaration order.
    pub closed spec fn exit_actions(self) -> Seq<ActionId> {
        self.on_exit_action@
    }

    /// Counts one more trigger against this state.
    pub fn inc_trigger(&mut self) -> (r: &mut Self)
        requires
            old(self).num_triggers() < u32::MAX,
        ensures
            (*r).num_triggers() == old(self).num_triggers() + 1,
            (*r).entry_actions() == old(self).entry_actions(),
            (*r).exit_actions() == old(self).exit_actions(),
            *final(self) == *final(r),
    {
        self.num_triggers += 1;
        self
    }
}

} // verus!
