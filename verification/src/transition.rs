use vstd::prelude::*;
use crate::shared_types::{Guard, guard_passes};

verus! {

/// One permitted edge out of the state that owns it: the trigger that
/// activates it, the destination state, and the guard that gates it.
/// Immutable once inserted; several transitions with the same trigger may
/// coexist on one state and are told apart by their guards in declaration
/// order.
#[derive(Clone)]
pub struct Transition<TStates, TTriggers> {
    /// The trigger that activates this edge.
    pub trigger: TTriggers,
    /// The state this edge leads to.
    pub state: TStates,
    /// The guard that must pass for this edge to be taken.
    pub guard: Guard,
}

/// Whether transition `tr` is taken for `trigger` under the guard verdicts
/// `v`: its trigger matches and its guard passes.
pub open spec fn admits<TStates, TTriggers>(
    tr: Transition<TStates, TTriggers>,
    trigger: TTriggers,
    v: Seq<bool>,
) -> bool {
    tr.trigger == trigger && guard_passes(tr.guard, v)
}

/// Index of the first transition at or after `start` that `admits` the
/// trigger, if any.
pub open spec fn first_admitted_from<TStates, TTriggers>(
    ts: Seq<Transition<TStates, TTriggers>>,
    trigger: TTriggers,
    v: Seq<bool>,
    start: int,
) -> Option<int>
    decreases ts.len() - start,
{
    if start < 0 || start >= ts.len() {
        None
    } else if admits(ts[start], trigger, v) {
        Some(start)
    } else {
        first_admitted_from(ts, trigger, v, start + 1)
    }
}

/// Index of the first transition in declaration order that `admits` the
/// trigger: earlier-declared transitions win.
pub open spec fn first_admitted<TStates, TTriggers>(
    ts: Seq<Transition<TStates, TTriggers>>,
    trigger: TTriggers,
    v: Seq<bool>,
) -> Option<int> {
    first_admitted_from(ts, trigger, v, 0)
}

proof fn lemma_first_admitted_from_characterization<TStates, TTriggers>(
    ts: Seq<Transition<TStates, TTriggers>>,
    trigger: TTriggers,
    v: Seq<bool>,
    start: int,
)
    requires
        0 <= start <= ts.len(),
    ensures
        match first_admitted_from(ts, trigger, v, start) {
            Some(i) => start <= i < ts.len() && admits(ts[i], trigger, v) && (forall|j: int|
                start <= j < i ==> !admits(ts[j], trigger, v)),
            None => forall|j: int| start <= j < ts.len() ==> !admits(ts[j], trigger, v),
        },
    decreases ts.len() - start,
{
    if start < ts.len() && !admits(ts[start], trigger, v) {
        lemma_first_admitted_from_characterization(ts, trigger, v, start + 1);
    }
}

/// What `first_admitted` means, spelled out: the index it returns admits the
/// trigger, every earlier index does not, and when it returns nothing, no
/// declared transition admits the trigger at all.  This is the tie-break rule:
/// guards are consulted in declaration order and the earliest passing one
/// wins.
pub proof fn lemma_first_admitted_characterization<TStates, TTriggers>(
    ts: Seq<Transition<TStates, TTriggers>>,
    trigger: TTriggers,
    v: Seq<bool>,
)
    ensures
        match first_admitted(ts, trigger, v) {
            Some(i) => 0 <= i < ts.len() && admits(ts[i], trigger, v) && (forall|j: int|
                0 <= j < i ==> !admits(ts[j], trigger, v)),
            None => forall|j: int| 0 <= j < ts.len() ==> !admits(ts[j], trigger, v),
        },
{
    lemma_first_admitted_from_characterization(ts, trigger, v, 0);
}

} // verus!
