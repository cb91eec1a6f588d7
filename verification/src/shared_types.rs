use vstd::prelude::*;
use vstd::laws_eq::obeys_concrete_eq;
use vstd::pervasive::cloned;

verus! {

/// Identifies one application-supplied action callback.
///
/// The machine never runs side effects itself: entry and exit actions are
/// registered as plain identifiers, and `fire` reports which identifiers must
/// be invoked, in which order, with the trigger of that `fire` call.  The
/// caller owns the mapping from identifier to actual callback.
pub type ActionId = u64;

/// Index of one application-supplied guard predicate in a [`GuardVerdicts`]
/// table.
pub type GuardId = usize;

/// The guard attached to a transition: either the default guard, which admits
/// every trigger, or an application-supplied predicate identified by index.
#[derive(Clone, Copy, PartialEq, Eq, Structural, Debug)]
pub enum Guard {
    /// The default guard of `permit`: always passes.
    Always,
    /// A guard registered through `permit_if`; it passes when the verdict
    /// recorded for this index is `true`.
    When(GuardId),
}

/// Whether guard `g` admits the trigger, given the verdicts `v` that the
/// application's guard predicates returned for that trigger.  A guard whose
/// index has no recorded verdict denies.
pub open spec fn guard_passes(g: Guard, v: Seq<bool>) -> bool {
    match g {
        Guard::Always => true,
        Guard::When(i) => 0 <= i < v.len() && v[i as int],
    }
}

/// The verdicts of the application's guard predicates for one trigger value.
///
/// Guards are pure predicates over the trigger, so for one `fire` call their
/// outcomes are fixed; the caller evaluates its predicates on the trigger and
/// hands the machine this table, indexed by [`GuardId`].
pub struct GuardVerdicts {
    /// `verdicts[i]` is what guard predicate `i` returned for the trigger.
    pub verdicts: Vec<bool>,
}

impl View for GuardVerdicts {
    type V = Seq<bool>;

    open spec fn view(&self) -> Seq<bool> {
        self.verdicts@
    }
}

impl GuardVerdicts {
    /// An empty table, for configurations that only use unconditional
    /// transitions.
    pub fn none() -> (r: Self)
        ensures
            r@ == Seq::<bool>::empty(),
    {
        GuardVerdicts { verdicts: Vec::new() }
    }

    /// Whether guard `g` admits the trigger these verdicts were taken on.
    pub fn allows(&self, g: &Guard) -> (r: bool)
        ensures
            r == guard_passes(*g, self@),
    {
        match g {
            Guard::Always => true,
            Guard::When(i) => {
                if *i < self.verdicts.len() {
                    self.verdicts[*i]
                } else {
                    false
                }
            },
        }
    }
}

/// Why a `fire` call did not complete a transition.
#[derive(Debug, Clone, PartialEq, Eq)]
pub enum FsmError {
    /// No transition out of the current state matches the trigger, or every
    /// matching transition's guard denied it.  The machine is unchanged.
    NotPermitted,
    /// The current state has no configured node.  The machine is unchanged.
    UnconfiguredState,
    /// The resolved destination has no configured node.  The current state has
    /// already advanced to the destination, and the exit actions listed in
    /// `exited` are owed an invocation: the caller must still run them.
    UnconfiguredDestination { exited: Vec<ActionId> },
}

/// A state or trigger type is usable only if its `==` agrees with value
/// equality: this is what the machine's contracts rest on when they compare
/// two states or two triggers.
pub open spec fn honest_eq<T: PartialEq>() -> bool {
    obeys_concrete_eq::<T>()
}

/// A state type must also be duplicable by value: `clone` hands back the very
/// value it was given.
pub open spec fn honest_clone<T: Clone>() -> bool {
    forall|a: T, b: T| #[trigger] cloned::<T>(a, b) ==> b == a
}

/// Copies a list of action identifiers.
pub fn copy_actions(src: &Vec<ActionId>) -> (r: Vec<ActionId>)
    ensures
        r@ == src@,
{
    let mut r: Vec<ActionId> = Vec::new();
    let mut i: usize = 0;
    while i < src.len()
        invariant
            i <= src@.len(),
            r@ == src@.subrange(0, i as int),
        decreases src@.len() - i,
    {
        r.push(src[i]);
        i += 1;
        proof {
            assert(r@ =~= src@.subrange(0, i as int));
        }
    }
    proof {
        assert(src@.subrange(0, src@.len() as int) =~= src@);
    }
    r
}

/// Appends a list of action identifiers to another.
pub fn append_actions(dst: &mut Vec<ActionId>, src: &Vec<ActionId>)
    ensures
        final(dst)@ == old(dst)@ + src@,
{
    let mut i: usize = 0;
    while i < src.len()
        invariant
            i <= src@.len(),
            dst@ == old(dst)@ + src@.subrange(0, i as int),
        decreases src@.len() - i,
    {
        dst.push(src[i]);
        i += 1;
        proof {
            assert(dst@ =~= old(dst)@ + src@.subrange(0, i as int));
        }
    }
    proof {
        assert(src@.subrange(0, src@.len() as int) =~= src@);
    }
}

} // verus!
