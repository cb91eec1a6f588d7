use vstd::prelude::*;
use crate::shared_types::{ActionId, FsmError, Guard, GuardVerdicts, honest_eq};
use crate::transition::{Transition, admits, first_admitted, first_admitted_from,
    lemma_first_admitted_characterization};
use vstd::laws_eq::obeys_concrete_eq;

verus! {

/// The mathematical image of a [`StateNode`]: the state value it describes,
/// its entry and exit action lists, and its transition list, each in
/// declaration order.
#[verifier::ext_equal]
pub ghost struct StateNodeView<TStates, TTriggers> {
    /// The state value this node describes.
    pub state: TStates,
    /// Entry action identifiers, in declaration order.
    pub entry: Seq<ActionId>,
    /// Exit action identifiers, in declaration order.
    pub exit: Seq<ActionId>,
    /// Outbound transitions, in declaration order.
    pub transitions: Seq<Transition<TStates, TTriggers>>,
}

impl<TStates, TTriggers> StateNodeView<TStates, TTriggers> {
    /// A freshly configured node: the given state and empty lists.
    pub open spec fn fresh(state: TStates) -> Self {
        StateNodeView {
            state,
            entry: Seq::<ActionId>::empty(),
            exit: Seq::<ActionId>::empty(),
            transitions: Seq::<Transition<TStates, TTriggers>>::empty(),
        }
    }

    /// The destination this node resolves `trigger` to under the guard
    /// verdicts `v`: the destination of the first declared transition whose
    /// trigger matches and whose guard passes, if any.
    pub open spec fn resolve(self, trigger: TTriggers, v: Seq<bool>) -> Option<TStates> {
        match first_admitted(self.transitions, trigger, v) {
            Some(i) => Some(self.transitions[i].state),
            None => None,
        }
    }

    /// A resolved destination is never invented: it is the destination of
    /// some declared transition whose trigger matches and whose guard passed.
    pub proof fn lemma_resolution_is_declared(self, trigger: TTriggers, v: Seq<bool>, dest: TStates)
        requires
            self.resolve(trigger, v) == Some(dest),
        ensures
            exists|i: int|
                0 <= i < self.transitions.len() && admits(self.transitions[i], trigger, v)
                    && self.transitions[i].state == dest,
    {
        lemma_first_admitted_characterization(self.transitions, trigger, v);
    }

    /// A trigger that no declared transition admits — none matches it, or
    /// every matching one's guard denied — resolves to nothing.
    pub proof fn lemma_unadmitted_trigger_resolves_to_nothing(self, trigger: TTriggers, v: Seq<bool>)
        requires
            forall|i: int|
                0 <= i < self.transitions.len() ==> !admits(self.transitions[i], trigger, v),
        ensures
            self.resolve(trigger, v) is None,
    {
        lemma_first_admitted_characterization(self.transitions, trigger, v);
    }
}

/// The node that holds the behaviour of one state: its entry and exit action
/// lists and its outbound transitions.  Every configured state of the machine
/// has one.  The builder methods return `&mut Self` so that a configuration
/// can be written as one fluent chain.
#[derive(Clone)]
pub struct StateNode<TStates, TTriggers> {
    state: TStates,
    on_entry_action: Vec<ActionId>,
    on_exit_action: Vec<ActionId>,
    transitions: Vec<Transition<TStates, TTriggers>>,
}

impl<TStates, TTriggers> View for StateNode<TStates, TTriggers> {
    type V = StateNodeView<TStates, TTriggers>;

    closed spec fn view(&self) -> StateNodeView<TStates, TTriggers> {
        StateNodeView {
            state: self.state,
            entry: self.on_entry_action@,
            exit: self.on_exit_action@,
            transitions: self.transitions@,
        }
    }
}

impl<TStates, TTriggers: PartialEq> StateNode<TStates, TTriggers> {
    /// Makes the node for `state`, with empty action and transition lists.
    pub fn configure(state: TStates) -> (r: Self)
        ensures
            r@ == StateNodeView::<TStates, TTriggers>::fresh(state),
    {
        StateNode {
            state,
            on_entry_action: Vec::new(),
            on_exit_action: Vec::new(),
            transitions: Vec::new(),
        }
    }

    /// The state value this node describes.
    pub fn get_state(&self) -> (r: &TStates)
        ensures
            *r == self@.state,
    {
        &self.state
    }

    /// Appends `cb` to the entry action list; no deduplication.
    pub fn on_entry(&mut self, cb: ActionId) -> (r: &mut Self)
        ensures
            (*r)@.state == old(self)@.state,
            (*r)@.entry == old(self)@.entry.push(cb),
            (*r)@.exit == old(self)@.exit,
            (*r)@.transitions == old(self)@.transitions,
            *final(self) == *final(r),
    {
        self.on_entry_action.push(cb);
        self
    }

    /// Appends `cb` to the exit action list; no deduplication.
    pub fn on_exit(&mut self, cb: ActionId) -> (r: &mut Self)
        ensures
            (*r)@.state == old(self)@.state,
            (*r)@.entry == old(self)@.entry,
            (*r)@.exit == old(self)@.exit.push(cb),
            (*r)@.transitions == old(self)@.transitions,
            *final(self) == *final(r),
    {
        self.on_exit_action.push(cb);
        self
    }

    /// Appends a transition for `trigger` towards `state`, gated by the
    /// default always-true guard.
    pub fn permit(&mut self, trigger: TTriggers, state: TStates) -> (r: &mut Self)
        ensures
            (*r)@.state == old(self)@.state,
            (*r)@.entry == old(self)@.entry,
            (*r)@.exit == old(self)@.exit,
            (*r)@.transitions == old(self)@.transitions.push(
                (Transition { trigger, state, guard: Guard::Always }),
            ),
            *final(self) == *final(r),
    {
        let guard = Self::empty_guard();
        self.permit_if(trigger, state, guard)
    }

    /// Appends a transition for `trigger` towards `state`, gated by the
    /// supplied guard.
    pub fn permit_if(&mut self, trigger: TTriggers, state: TStates, guard: Guard) -> (r: &mut Self)
        ensures
            (*r)@.state == old(self)@.state,
            (*r)@.entry == old(self)@.entry,
            (*r)@.exit == old(self)@.exit,
            (*r)@.transitions == old(self)@.transitions.push(
                (Transition { trigger, state, guard }),
            ),
            *final(self) == *final(r),
    {
        let new_transition = Transition { trigger, state, guard };
        self.transitions.push(new_transition);
        self
    }

    /// The default guard of `permit`: it admits every trigger.
    pub fn empty_guard() -> (r: Guard)
        ensures
            r == Guard::Always,
    {
        Guard::Always
    }

    /// Resolves a trigger: walks the transition list in declaration order and
    /// hands back the destination of the first transition whose trigger
    /// equals `trigger` and whose guard passes under `verdicts`.  When no
    /// transition matches, or every matching guard denies, the trigger is not
    /// permitted.
    pub fn next_state(&self, trigger: &TTriggers, verdicts: &GuardVerdicts) -> (r: Result<
        &TStates,
        FsmError,
    >)
        requires
            honest_eq::<TTriggers>(),
        ensures
            match r {
                Ok(s) => self@.resolve(*trigger, verdicts@) == Some(*s),
                Err(e) => e == FsmError::NotPermitted && self@.resolve(*trigger, verdicts@)
                    is None,
            },
    {
        let n = self.transitions.len();
        let mut i: usize = 0;
        while i < n
            invariant
                honest_eq::<TTriggers>(),
                n == self@.transitions.len(),
                i <= n,
                first_admitted(self@.transitions, *trigger, verdicts@) == first_admitted_from(
                    self@.transitions,
                    *trigger,
                    verdicts@,
                    i as int,
                ),
            decreases n - i,
        {
            let transition = &self.transitions[i];
            if Self::enums_equal(trigger, &transition.trigger) {
                let guard_passed = verdicts.allows(&transition.guard);
                if guard_passed {
                    proof {
                        assert(admits(self@.transitions[i as int], *trigger, verdicts@));
                    }
                    return Ok(&transition.state);
                }
            }
            proof {
                assert(!admits(self@.transitions[i as int], *trigger, verdicts@));
            }
            i += 1;
        }
        Err(FsmError::NotPermitted)
    }

    /// Compares two values whose `==` is honest.
    fn enums_equal<T: PartialEq>(a: &T, b: &T) -> (r: bool)
        requires
            honest_eq::<T>(),
        ensures
            r == (*a == *b),
    {
        proof {
            reveal(vstd::laws_eq::obeys_concrete_eq);
        }
        a.eq(b)
    }

    /// The actions owed an invocation when this state is entered through a
    /// non-self transition, in declaration order.
    pub fn entering_state(&self) -> (r: &Vec<ActionId>)
        ensures
            r@ == self@.entry,
    {
        &self.on_entry_action
    }

    /// The actions owed an invocation when this state is left through a
    /// non-self transition, in declaration order.
    pub fn exiting_state(&self) -> (r: &Vec<ActionId>)
        ensures
            r@ == self@.exit,
    {
        &self.on_exit_action
    }
}

} // verus!
