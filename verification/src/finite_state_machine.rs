use vstd::prelude::*;
use crate::shared_types::{ActionId, FsmError, GuardVerdicts, append_actions, copy_actions,
    honest_clone, honest_eq};
use crate::state_node::{StateNode, StateNodeView};
use vstd::pervasive::cloned;
use vstd::pervasive::VecAdditionalExecFns;

verus! {

/// The mathematical image of a [`FiniteStateMachine`]: the mapping from each
/// configured state value to the image of its node, and the current state.
#[verifier::reject_recursive_types(TStates)]
#[verifier::ext_equal]
pub ghost struct FsmView<TStates, TTriggers> {
    /// One entry per configured state; keys are unique by construction.
    pub nodes: Map<TStates, StateNodeView<TStates, TTriggers>>,
    /// The current state value.  It need not be a key of `nodes` until a
    /// `fire` is attempted from it.
    pub current: TStates,
}

impl<TStates, TTriggers> FsmView<TStates, TTriggers> {
    /// Everything one `fire` call promises, given the machine's image before
    /// the call (`self`), the trigger, the guard verdicts for that trigger,
    /// the image after the call, and the call's outcome.  The configuration
    /// is never touched; the outcome says exactly which transition was taken,
    /// where the current state ended up, and which actions the caller owes an
    /// invocation with the fired trigger, in order: the left state's exit
    /// actions first, then the entered state's entry actions, and none at all
    /// for a self-transition.
    pub open spec fn fire_post(
        self,
        trigger: TTriggers,
        v: Seq<bool>,
        post: FsmView<TStates, TTriggers>,
        r: Result<Vec<ActionId>, FsmError>,
    ) -> bool {
        &&& post.nodes == self.nodes
        &&& match r {
            Ok(actions) => {
                &&& self.nodes.contains_key(self.current)
                &&& match self.nodes[self.current].resolve(trigger, v) {
                    Some(dest) => if dest == self.current {
                        &&& post.current == self.current
                        &&& actions@ == Seq::<ActionId>::empty()
                    } else {
                        &&& self.nodes.contains_key(dest)
                        &&& post.current == dest
                        &&& actions@ == self.nodes[self.current].exit + self.nodes[dest].entry
                    },
                    None => false,
                }
            },
            Err(e) => match e {
                FsmError::UnconfiguredState => {
                    &&& !self.nodes.contains_key(self.current)
                    &&& post.current == self.current
                },
                FsmError::NotPermitted => {
                    &&& self.nodes.contains_key(self.current)
                    &&& self.nodes[self.current].resolve(trigger, v) is None
                    &&& post.current == self.current
                },
                FsmError::UnconfiguredDestination { exited } => {
                    &&& self.nodes.contains_key(self.current)
                    &&& match self.nodes[self.current].resolve(trigger, v) {
                        Some(dest) => {
                            &&& dest != self.current
                            &&& !self.nodes.contains_key(dest)
                            &&& post.current == dest
                            &&& exited@ == self.nodes[self.current].exit
                        },
                        None => false,
                    }
                },
            },
        }
    }
}

/// A successful `fire` either leaves the current state alone — a
/// self-transition — or moves it to a destination that some transition
/// declared on the pre-fire current node names, with a matching trigger and a
/// passing guard.
pub proof fn lemma_fire_lands_on_declared_destination<TStates, TTriggers>(
    pre: FsmView<TStates, TTriggers>,
    trigger: TTriggers,
    v: Seq<bool>,
    post: FsmView<TStates, TTriggers>,
    r: Result<Vec<ActionId>, FsmError>,
)
    requires
        pre.fire_post(trigger, v, post, r),
        r is Ok,
    ensures
        post.current == pre.current || exists|i: int|
            0 <= i < pre.nodes[pre.current].transitions.len() && #[trigger] crate::transition::admits(
                pre.nodes[pre.current].transitions[i],
                trigger,
                v,
            ) && pre.nodes[pre.current].transitions[i].state == post.current,
{
    let node = pre.nodes[pre.current];
    if post.current != pre.current {
        node.lemma_resolution_is_declared(trigger, v, post.current);
    }
}

/// Firing a trigger whose every admitted transition out of the current node
/// is a self-transition leaves the current state unchanged and owes no
/// action an invocation.
pub proof fn lemma_self_transition_is_silent<TStates, TTriggers>(
    pre: FsmView<TStates, TTriggers>,
    trigger: TTriggers,
    v: Seq<bool>,
    post: FsmView<TStates, TTriggers>,
    actions: Vec<ActionId>,
)
    requires
        pre.fire_post(trigger, v, post, Ok(actions)),
        forall|i: int|
            0 <= i < pre.nodes[pre.current].transitions.len() && #[trigger] crate::transition::admits(
                pre.nodes[pre.current].transitions[i],
                trigger,
                v,
            ) ==> pre.nodes[pre.current].transitions[i].state == pre.current,
    ensures
        post.current == pre.current,
        actions@ == Seq::<ActionId>::empty(),
{
    let node = pre.nodes[pre.current];
    match node.resolve(trigger, v) {
        Some(dest) => {
            node.lemma_resolution_is_declared(trigger, v, dest);
        },
        None => {
        },
    }
}

/// Configuring a state twice is the same as configuring it once with the
/// later declarations: the earlier node is overwritten entirely.
pub proof fn lemma_reconfigure_overwrites<TStates, TTriggers>(
    nodes: Map<TStates, StateNodeView<TStates, TTriggers>>,
    s: TStates,
    first_node: StateNodeView<TStates, TTriggers>,
    second_node: StateNodeView<TStates, TTriggers>,
)
    ensures
        nodes.insert(s, first_node).insert(s, second_node) == nodes.insert(s, second_node),
{
    assert(nodes.insert(s, first_node).insert(s, second_node) =~= nodes.insert(s, second_node));
}

/// The machine: all configured states with their nodes, and the current
/// state.  Built by `configure` and the fluent node methods, driven by
/// `fire`.
pub struct FiniteStateMachine<TStates, TTriggers> {
    state_nodes: Vec<StateNode<TStates, TTriggers>>,
    current_state: TStates,
}

/// No two nodes of the table describe the same state value.
pub open spec fn distinct_states<TStates, TTriggers>(
    nodes: Seq<StateNode<TStates, TTriggers>>,
) -> bool {
    forall|i: int, j: int|
        0 <= i < j < nodes.len() ==> nodes[i]@.state != nodes[j]@.state
}

/// The index of the node for state `s`, when one exists.
pub open spec fn index_of_state<TStates, TTriggers>(
    nodes: Seq<StateNode<TStates, TTriggers>>,
    s: TStates,
) -> int {
    choose|i: int| 0 <= i < nodes.len() && nodes[i]@.state == s
}

/// The table of nodes as a mapping from state value to node image.
pub open spec fn nodes_as_map<TStates, TTriggers>(
    nodes: Seq<StateNode<TStates, TTriggers>>,
) -> Map<TStates, StateNodeView<TStates, TTriggers>> {
    Map::new(
        |s: TStates| exists|i: int| 0 <= i < nodes.len() && nodes[i]@.state == s,
        |s: TStates| nodes[index_of_state(nodes, s)]@,
    )
}

impl<TStates, TTriggers> View for FiniteStateMachine<TStates, TTriggers> {
    type V = FsmView<TStates, TTriggers>;

    closed spec fn view(&self) -> FsmView<TStates, TTriggers> {
        FsmView { nodes: nodes_as_map(self.state_nodes@), current: self.current_state }
    }
}

/// With distinct states, the node found at index `i` is exactly the map entry
/// for its state.
proof fn lemma_map_at_index<TStates, TTriggers>(nodes: Seq<StateNode<TStates, TTriggers>>, i: int)
    requires
        distinct_states(nodes),
        0 <= i < nodes.len(),
    ensures
        nodes_as_map(nodes).contains_key(nodes[i]@.state),
        nodes_as_map(nodes)[nodes[i]@.state] == nodes[i]@,
{
    let s = nodes[i]@.state;
    assert(exists|k: int| 0 <= k < nodes.len() && nodes[k]@.state == s);
    let k = index_of_state(nodes, s);
    assert(0 <= k < nodes.len() && nodes[k]@.state == s);
    if k != i {
        assert(nodes[i]@.state != nodes[k]@.state);
    }
}

/// A state that no node describes is not a key of the map.
proof fn lemma_map_absent<TStates, TTriggers>(
    nodes: Seq<StateNode<TStates, TTriggers>>,
    s: TStates,
)
    requires
        forall|j: int| 0 <= j < nodes.len() ==> nodes[j]@.state != s,
    ensures
        !nodes_as_map(nodes).contains_key(s),
{
}

/// Replacing the node at `i` by one that describes the same state keeps the
/// states distinct and amounts to overwriting that state's map entry.
proof fn lemma_replace_node<TStates, TTriggers>(
    pre: Seq<StateNode<TStates, TTriggers>>,
    i: int,
    nd: StateNode<TStates, TTriggers>,
)
    requires
        distinct_states(pre),
        0 <= i < pre.len(),
        nd@.state == pre[i]@.state,
    ensures
        distinct_states(pre.update(i, nd)),
        nodes_as_map(pre.update(i, nd)) == nodes_as_map(pre).insert(pre[i]@.state, nd@),
{
    let upd = pre.update(i, nd);
    let s0 = pre[i]@.state;
    let m1 = nodes_as_map(upd);
    let m2 = nodes_as_map(pre).insert(s0, nd@);
    assert forall|s: TStates| m1.contains_key(s) implies m2.contains_key(s) && m1[s] == m2[s] by {
        let k = index_of_state(upd, s);
        assert(0 <= k < upd.len() && upd[k]@.state == s);
        if k == i {
            assert(s == s0);
            assert(m1[s] == nd@);
        } else {
            assert(pre[k]@.state == s);
            if s == s0 {
                assert(pre[k]@.state == pre[i]@.state);
                assert(false);
            }
            lemma_map_at_index(pre, k);
            let k2 = index_of_state(pre, s);
            assert(0 <= k2 < pre.len() && pre[k2]@.state == s);
            assert(k2 == k);
        }
    }
    assert forall|s: TStates| m2.contains_key(s) implies m1.contains_key(s) by {
        if s == s0 {
            assert(upd[i]@.state == s0);
        } else {
            let k = index_of_state(pre, s);
            assert(0 <= k < pre.len() && pre[k]@.state == s);
            assert(k != i);
            assert(upd[k]@.state == s);
        }
    }
    assert(m1 =~= m2);
}

/// Appending a node for a state that no node describes keeps the states
/// distinct and adds one map entry.
proof fn lemma_push_node<TStates, TTriggers>(
    pre: Seq<StateNode<TStates, TTriggers>>,
    nd: StateNode<TStates, TTriggers>,
)
    requires
        distinct_states(pre),
        forall|j: int| 0 <= j < pre.len() ==> pre[j]@.state != nd@.state,
    ensures
        distinct_states(pre.push(nd)),
        nodes_as_map(pre.push(nd)) == nodes_as_map(pre).insert(nd@.state, nd@),
{
    let upd = pre.push(nd);
    let s0 = nd@.state;
    let n = pre.len() as int;
    let m1 = nodes_as_map(upd);
    let m2 = nodes_as_map(pre).insert(s0, nd@);
    assert forall|s: TStates| m1.contains_key(s) implies m2.contains_key(s) && m1[s] == m2[s] by {
        let k = index_of_state(upd, s);
        assert(0 <= k < upd.len() && upd[k]@.state == s);
        if k == n {
            assert(s == s0);
            assert(m1[s] == nd@);
        } else {
            assert(pre[k]@.state == s);
            assert(s != s0);
            lemma_map_at_index(pre, k);
            let k2 = index_of_state(pre, s);
            assert(0 <= k2 < pre.len() && pre[k2]@.state == s);
            assert(k2 == k);
        }
    }
    assert forall|s: TStates| m2.contains_key(s) implies m1.contains_key(s) by {
        if s == s0 {
            assert(upd[n]@.state == s0);
        } else {
            let k = index_of_state(pre, s);
            assert(0 <= k < pre.len() && pre[k]@.state == s);
            assert(upd[k]@.state == s);
        }
    }
    assert(m1 =~= m2);
}

/// Clones a value whose `clone` is honest.
fn clone_state<T: Clone>(s: &T) -> (r: T)
    requires
        honest_clone::<T>(),
    ensures
        r == *s,
{
    let r = s.clone();
    proof {
        assert(cloned::<T>(*s, r));
    }
    r
}

impl<TStates: PartialEq + Clone, TTriggers: PartialEq> FiniteStateMachine<TStates, TTriggers> {
    /// Whether every node of the table describes a different state, so that
    /// the table is a genuine mapping.  `new` establishes this and every
    /// method preserves it.
    pub closed spec fn wf(self) -> bool {
        distinct_states(self.state_nodes@)
    }

    /// Makes the machine with an empty state table and `initial_state` as the
    /// current state.  The initial state need not be configured; it becomes
    /// meaningful at the first `fire`.
    pub fn new(initial_state: &TStates) -> (r: Self)
        requires
            honest_clone::<TStates>(),
        ensures
            r.wf(),
            r@.current == *initial_state,
            r@.nodes == Map::<TStates, StateNodeView<TStates, TTriggers>>::empty(),
    {
        let current_state = clone_state(initial_state);
        let r = FiniteStateMachine { current_state, state_nodes: Vec::new() };
        proof {
            assert(r@.nodes =~= Map::<TStates, StateNodeView<TStates, TTriggers>>::empty());
        }
        r
    }

    /// Configures a state: unconditionally replaces any node the table holds
    /// for `new_state` by a freshly constructed empty one, and hands back a
    /// mutable handle to it for fluent chaining.  Always succeeds.
    ///
    /// The handle reaches into the table: as long as the chained calls leave
    /// the node's state value alone — every `StateNode` method does — the
    /// table afterwards maps `new_state` to whatever the chain built, and
    /// nothing else changes.
    pub fn configure(&mut self, new_state: TStates) -> (r: Option<
        &mut StateNode<TStates, TTriggers>,
    >)
        requires
            honest_eq::<TStates>(),
            honest_clone::<TStates>(),
            old(self).wf(),
        ensures
            ({
                &&& r matches Some(node)
                &&& (*node)@ == StateNodeView::<TStates, TTriggers>::fresh(new_state)
                &&& ((*final(node))@.state == new_state ==> {
                    &&& final(self).wf()
                    &&& final(self)@.current == old(self)@.current
                    &&& final(self)@.nodes == old(self)@.nodes.insert(
                        new_state,
                        (*final(node))@,
                    )
                })
            }),
    {
        let cloned_state = clone_state(&new_state);
        let tstate = StateNode::configure(cloned_state);
        let found = Self::find_node_index(&self.state_nodes, &new_state);
        match found {
            Some(i) => {
                self.state_nodes.set(i, tstate);
                proof {
                    let pre = old(self).state_nodes@;
                    let here = self.state_nodes@;
                    assert forall|nd: StateNode<TStates, TTriggers>|
                        nd@.state == new_state implies distinct_states(
                        here.update(i as int, nd),
                    ) && nodes_as_map(here.update(i as int, nd)) == nodes_as_map(pre).insert(
                        new_state,
                        nd@,
                    ) by {
                        assert(here.update(i as int, nd) =~= pre.update(i as int, nd));
                        lemma_replace_node(pre, i as int, nd);
                    }
                }
                Some(&mut self.state_nodes[i])
            },
            None => {
                self.state_nodes.push(tstate);
                let i = self.state_nodes.len() - 1;
                proof {
                    let pre = old(self).state_nodes@;
                    let here = self.state_nodes@;
                    assert forall|nd: StateNode<TStates, TTriggers>|
                        nd@.state == new_state implies distinct_states(
                        here.update(i as int, nd),
                    ) && nodes_as_map(here.update(i as int, nd)) == nodes_as_map(pre).insert(
                        new_state,
                        nd@,
                    ) by {
                        assert(here.update(i as int, nd) =~= pre.push(nd));
                        lemma_push_node(pre, nd);
                    }
                }
                Some(&mut self.state_nodes[i])
            },
        }
    }

    /// Fires a trigger: resolves it against the current state's node, runs
    /// the transition, and reports which actions the caller owes an
    /// invocation with this very trigger, in order.  See
    /// [`FsmView::fire_post`] for everything this promises, the three error
    /// conditions among it.
    pub fn fire(&mut self, trigger: &TTriggers, verdicts: &GuardVerdicts) -> (r: Result<
        Vec<ActionId>,
        FsmError,
    >)
        requires
            honest_eq::<TStates>(),
            honest_eq::<TTriggers>(),
            honest_clone::<TStates>(),
            old(self).wf(),
        ensures
            final(self).wf(),
            old(self)@.fire_post(*trigger, verdicts@, final(self)@, r),
    {
        self.transition_states(trigger, verdicts)
    }

    /// The body of [`Self::fire`]: resolve the trigger, run the exit actions
    /// of the left state, move the current state, run the entry actions of
    /// the entered state — where "run" means: put the action on the list the
    /// caller will invoke.
    fn transition_states(&mut self, trigger: &TTriggers, verdicts: &GuardVerdicts) -> (r: Result<
        Vec<ActionId>,
        FsmError,
    >)
        requires
            honest_eq::<TStates>(),
            honest_eq::<TTriggers>(),
            honest_clone::<TStates>(),
            old(self).wf(),
        ensures
            final(self).wf(),
            old(self)@.fire_post(*trigger, verdicts@, final(self)@, r),
    {
        let found = Self::find_node_index(&self.state_nodes, &self.current_state);
        let i = match found {
            None => {
                proof {
                    lemma_map_absent(self.state_nodes@, self.current_state);
                }
                return Err(FsmError::UnconfiguredState);
            },
            Some(i) => i,
        };
        proof {
            lemma_map_at_index(self.state_nodes@, i as int);
        }
        let state_node = &self.state_nodes[i];
        let next_state_result = state_node.next_state(trigger, verdicts);
        let ns = match next_state_result {
            Err(e) => {
                return Err(e);
            },
            Ok(ns) => ns,
        };

        // A self-transition completes at once: no entry or exit actions are
        // owed.
        if Self::enums_equal(ns, &self.current_state) {
            return Ok(Vec::new());
        }

        let dest = clone_state(ns);
        let mut actions = copy_actions(self.state_nodes[i].exiting_state());
        self.current_state = dest;
        let found2 = Self::find_node_index(&self.state_nodes, &self.current_state);
        match found2 {
            None => {
                proof {
                    lemma_map_absent(self.state_nodes@, self.current_state);
                }
                Err(FsmError::UnconfiguredDestination { exited: actions })
            },
            Some(j) => {
                proof {
                    lemma_map_at_index(self.state_nodes@, j as int);
                }
                append_actions(&mut actions, self.state_nodes[j].entering_state());
                Ok(actions)
            },
        }
    }

    /// A mutable handle to the node for `state`, if that state is
    /// configured.  As with `configure`, chained calls that leave the node's
    /// state value alone leave the table mapping `state` to whatever the
    /// chain built, and nothing else changes.
    pub fn get_state(&mut self, state: &TStates) -> (r: Option<
        &mut StateNode<TStates, TTriggers>,
    >)
        requires
            honest_eq::<TStates>(),
            old(self).wf(),
        ensures
            match r {
                Some(node) => {
                    &&& old(self)@.nodes.contains_key(*state)
                    &&& (*node)@ == old(self)@.nodes[*state]
                    &&& ((*final(node))@.state == *state ==> {
                        &&& final(self).wf()
                        &&& final(self)@.current == old(self)@.current
                        &&& final(self)@.nodes == old(self)@.nodes.insert(
                            *state,
                            (*final(node))@,
                        )
                    })
                },
                None => {
                    &&& !old(self)@.nodes.contains_key(*state)
                    &&& *final(self) == *old(self)
                },
            },
    {
        let found = Self::find_node_index(&self.state_nodes, state);
        match found {
            Some(i) => {
                proof {
                    lemma_map_at_index(self.state_nodes@, i as int);
                    let pre = self.state_nodes@;
                    assert forall|nd: StateNode<TStates, TTriggers>|
                        nd@.state == *state implies distinct_states(
                        pre.update(i as int, nd),
                    ) && nodes_as_map(pre.update(i as int, nd)) == nodes_as_map(pre).insert(
                        *state,
                        nd@,
                    ) by {
                        lemma_replace_node(pre, i as int, nd);
                    }
                }
                Some(&mut self.state_nodes[i])
            },
            None => {
                proof {
                    lemma_map_absent(self.state_nodes@, *state);
                }
                None
            },
        }
    }

    /// The state value stored in the current state's node, if that state is
    /// configured.
    pub fn get_current_state(&self) -> (r: Option<&TStates>)
        requires
            honest_eq::<TStates>(),
            self.wf(),
        ensures
            match r {
                Some(s) => self@.nodes.contains_key(self@.current) && *s == self@.current,
                None => !self@.nodes.contains_key(self@.current),
            },
    {
        let found = Self::find_node_index(&self.state_nodes, &self.current_state);
        match found {
            Some(i) => {
                proof {
                    lemma_map_at_index(self.state_nodes@, i as int);
                }
                Some(self.state_nodes[i].get_state())
            },
            None => {
                proof {
                    lemma_map_absent(self.state_nodes@, self.current_state);
                }
                None
            },
        }
    }

    /// A mutable handle to the node for the current state, if that state is
    /// configured.
    pub fn get_current_state_node(&mut self) -> (r: Option<
        &mut StateNode<TStates, TTriggers>,
    >)
        requires
            honest_eq::<TStates>(),
            honest_clone::<TStates>(),
            old(self).wf(),
        ensures
            match r {
                Some(node) => {
                    &&& old(self)@.nodes.contains_key(old(self)@.current)
                    &&& (*node)@ == old(self)@.nodes[old(self)@.current]
                    &&& ((*final(node))@.state == old(self)@.current ==> {
                        &&& final(self).wf()
                        &&& final(self)@.current == old(self)@.current
                        &&& final(self)@.nodes == old(self)@.nodes.insert(
                            old(self)@.current,
                            (*final(node))@,
                        )
                    })
                },
                None => {
                    &&& !old(self)@.nodes.contains_key(old(self)@.current)
                    &&& *final(self) == *old(self)
                },
            },
    {
        let s = clone_state(&self.current_state);
        self.get_state(&s)
    }

    /// Compares two values whose `==` is honest.
    fn enums_equal<T: PartialEq>(a: &T, b: &T) -> (r: bool)
        requires
            honest_eq::<T>(),
        ensures
            r == (*a == *b),
    {
        proof {
            reveal(vstd::laws_eq::obeys_concrete_eq);
        }
        a.eq(b)
    }

    /// Index of the node for `s` in the table, if one exists.
    fn find_node_index(nodes: &Vec<StateNode<TStates, TTriggers>>, s: &TStates) -> (r: Option<
        usize,
    >)
        requires
            honest_eq::<TStates>(),
        ensures
            match r {
                Some(i) => i < nodes@.len() && nodes@[i as int]@.state == *s,
                None => forall|j: int| 0 <= j < nodes@.len() ==> nodes@[j]@.state != *s,
            },
    {
        let n = nodes.len();
        let mut i: usize = 0;
        while i < n
            invariant
                honest_eq::<TStates>(),
                n == nodes@.len(),
                i <= n,
                forall|j: int| 0 <= j < i ==> nodes@[j]@.state != *s,
            decreases n - i,
        {
            if Self::enums_equal(nodes[i].get_state(), s) {
                return Some(i);
            }
            i += 1;
        }
        None
    }
}

} // verus!
