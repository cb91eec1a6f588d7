use vstd::prelude::*;
use crate::finite_state_machine::{FiniteStateMachine, FsmView};
use crate::shared_types::{ActionId, FsmError, Guard, GuardVerdicts, honest_clone, honest_eq};
use crate::state_node::StateNodeView;
use crate::transition::Transition;
use vstd::pervasive::cloned;

verus! {

/// The triggers of the phone model.
#[derive(Debug, Eq, Hash)]
pub enum PhoneTriggers {
    NoTrigger,
    CallDialed,
    TakeOffHook,
    CallConnected,
    LeftMessage,
    PlacedOnHold,
    TakenOffHold,
    Hangup,
    PhoneHurledAgainstWall,
    MuteMicrophone,
    UnmuteMicrophone,
    SetVolume,
}

impl Clone for PhoneTriggers {
    fn clone(&self) -> (r: Self)
        ensures
            r == *self,
    {
        match self {
            PhoneTriggers::NoTrigger => PhoneTriggers::NoTrigger,
            PhoneTriggers::CallDialed => PhoneTriggers::CallDialed,
            PhoneTriggers::TakeOffHook => PhoneTriggers::TakeOffHook,
            PhoneTriggers::CallConnected => PhoneTriggers::CallConnected,
            PhoneTriggers::LeftMessage => PhoneTriggers::LeftMessage,
            PhoneTriggers::PlacedOnHold => PhoneTriggers::PlacedOnHold,
            PhoneTriggers::TakenOffHold => PhoneTriggers::TakenOffHold,
            PhoneTriggers::Hangup => PhoneTriggers::Hangup,
            PhoneTriggers::PhoneHurledAgainstWall => PhoneTriggers::PhoneHurledAgainstWall,
            PhoneTriggers::MuteMicrophone => PhoneTriggers::MuteMicrophone,
            PhoneTriggers::UnmuteMicrophone => PhoneTriggers::UnmuteMicrophone,
            PhoneTriggers::SetVolume => PhoneTriggers::SetVolume,
        }
    }
}

impl PartialEq for PhoneTriggers {
    fn eq(&self, other: &PhoneTriggers) -> (r: bool) {
        match (self, other) {
            (PhoneTriggers::NoTrigger, PhoneTriggers::NoTrigger) => true,
            (PhoneTriggers::CallDialed, PhoneTriggers::CallDialed) => true,
            (PhoneTriggers::TakeOffHook, PhoneTriggers::TakeOffHook) => true,
            (PhoneTriggers::CallConnected, PhoneTriggers::CallConnected) => true,
            (PhoneTriggers::LeftMessage, PhoneTriggers::LeftMessage) => true,
            (PhoneTriggers::PlacedOnHold, PhoneTriggers::PlacedOnHold) => true,
            (PhoneTriggers::TakenOffHold, PhoneTriggers::TakenOffHold) => true,
            (PhoneTriggers::Hangup, PhoneTriggers::Hangup) => true,
            (PhoneTriggers::PhoneHurledAgainstWall, PhoneTriggers::PhoneHurledAgainstWall) => true,
            (PhoneTriggers::MuteMicrophone, PhoneTriggers::MuteMicrophone) => true,
            (PhoneTriggers::UnmuteMicrophone, PhoneTriggers::UnmuteMicrophone) => true,
            (PhoneTriggers::SetVolume, PhoneTriggers::SetVolume) => true,
            _ => false,
        }
    }
}

impl vstd::std_specs::cmp::PartialEqSpecImpl for PhoneTriggers {
    open spec fn obeys_eq_spec() -> bool {
        true
    }

    open spec fn eq_spec(&self, other: &PhoneTriggers) -> bool {
        *self == *other
    }
}

/// The states of the phone model.
#[derive(Debug, Eq, Hash)]
pub enum PhoneStates {
    OnHook,
    OffHook,
    Ringing,
    Connected,
    OnHold,
    PhoneDestroyed,
}

impl Clone for PhoneStates {
    fn clone(&self) -> (r: Self)
        ensures
            r == *self,
    {
        match self {
            PhoneStates::OnHook => PhoneStates::OnHook,
            PhoneStates::OffHook => PhoneStates::OffHook,
            PhoneStates::Ringing => PhoneStates::Ringing,
            PhoneStates::Connected => PhoneStates::Connected,
            PhoneStates::OnHold => PhoneStates::OnHold,
            PhoneStates::PhoneDestroyed => PhoneStates::PhoneDestroyed,
        }
    }
}

impl PartialEq for PhoneStates {
    fn eq(&self, other: &PhoneStates) -> (r: bool) {
        match (self, other) {
            (PhoneStates::OnHook, PhoneStates::OnHook) => true,
            (PhoneStates::OffHook, PhoneStates::OffHook) => true,
            (PhoneStates::Ringing, PhoneStates::Ringing) => true,
            (PhoneStates::Connected, PhoneStates::Connected) => true,
            (PhoneStates::OnHold, PhoneStates::OnHold) => true,
            (PhoneStates::PhoneDestroyed, PhoneStates::PhoneDestroyed) => true,
            _ => false,
        }
    }
}

impl vstd::std_specs::cmp::PartialEqSpecImpl for PhoneStates {
    open spec fn obeys_eq_spec() -> bool {
        true
    }

    open spec fn eq_spec(&self, other: &PhoneStates) -> bool {
        *self == *other
    }
}

/// The phone's state and trigger types meet what the machine asks of them:
/// their `==` is value equality and their `clone` hands the value back.
pub proof fn lemma_phone_types_reliable()
    ensures
        honest_eq::<PhoneStates>(),
        honest_eq::<PhoneTriggers>(),
        honest_clone::<PhoneStates>(),
        honest_clone::<PhoneTriggers>(),
{
    reveal(vstd::laws_eq::obeys_concrete_eq);
    assert forall|a: PhoneStates, b: PhoneStates| #[trigger] cloned::<PhoneStates>(a, b) implies b
        == a by {
        if call_ensures(PhoneStates::clone, (&a,), b) {
        }
    }
    assert forall|a: PhoneTriggers, b: PhoneTriggers| #[trigger] cloned::<PhoneTriggers>(
        a,
        b,
    ) implies b == a by {
        if call_ensures(PhoneTriggers::clone, (&a,), b) {
        }
    }
}

/// Action identifier of the callback that reports the phone back on hook.
pub const ACTION_ON_HOOK: ActionId = 0;

/// Action identifier of the callback that reports the phone ringing.
pub const ACTION_PHONE_RINGING: ActionId = 1;

/// Action identifier of the callback that reports the call connected.
pub const ACTION_PHONE_CONNECTED: ActionId = 2;

/// Action identifier of the callback that reports the call disconnected.
pub const ACTION_PHONE_DISCONNECTED: ActionId = 3;

/// The node the phone model declares for `OnHook`.
pub open spec fn on_hook_node() -> StateNodeView<PhoneStates, PhoneTriggers> {
    StateNodeView {
        state: PhoneStates::OnHook,
        entry: seq![ACTION_ON_HOOK],
        exit: Seq::<ActionId>::empty(),
        transitions: seq![
            (Transition {
                trigger: PhoneTriggers::TakeOffHook,
                state: PhoneStates::OffHook,
                guard: Guard::Always,
            }),
        ],
    }
}

/// The node the phone model declares for `OffHook`.
pub open spec fn off_hook_node() -> StateNodeView<PhoneStates, PhoneTriggers> {
    StateNodeView {
        state: PhoneStates::OffHook,
        entry: Seq::<ActionId>::empty(),
        exit: Seq::<ActionId>::empty(),
        transitions: seq![
            (Transition {
                trigger: PhoneTriggers::CallDialed,
                state: PhoneStates::Ringing,
                guard: Guard::Always,
            }),
            (Transition {
                trigger: PhoneTriggers::Hangup,
                state: PhoneStates::OnHook,
                guard: Guard::Always,
            }),
        ],
    }
}

/// The node the phone model declares for `Ringing`.
pub open spec fn ringing_node() -> StateNodeView<PhoneStates, PhoneTriggers> {
    StateNodeView {
        state: PhoneStates::Ringing,
        entry: seq![ACTION_PHONE_RINGING],
        exit: Seq::<ActionId>::empty(),
        transitions: seq![
            (Transition {
                trigger: PhoneTriggers::CallConnected,
                state: PhoneStates::Connected,
                guard: Guard::Always,
            }),
            (Transition {
                trigger: PhoneTriggers::Hangup,
                state: PhoneStates::OnHook,
                guard: Guard::Always,
            }),
        ],
    }
}

/// The node the phone model declares for `Connected`.
pub open spec fn connected_node() -> StateNodeView<PhoneStates, PhoneTriggers> {
    StateNodeView {
        state: PhoneStates::Connected,
        entry: seq![ACTION_PHONE_CONNECTED],
        exit: seq![ACTION_PHONE_DISCONNECTED],
        transitions: seq![
            (Transition {
                trigger: PhoneTriggers::Hangup,
                state: PhoneStates::OnHook,
                guard: Guard::Always,
            }),
            (Transition {
                trigger: PhoneTriggers::MuteMicrophone,
                state: PhoneStates::Connected,
                guard: Guard::Always,
            }),
            (Transition {
                trigger: PhoneTriggers::UnmuteMicrophone,
                state: PhoneStates::Connected,
                guard: Guard::Always,
            }),
            (Transition {
                trigger: PhoneTriggers::SetVolume,
                state: PhoneStates::Connected,
                guard: Guard::Always,
            }),
        ],
    }
}

/// Everything `build` configures: the four phone states and their nodes.
pub open spec fn phone_configuration() -> Map<
    PhoneStates,
    StateNodeView<PhoneStates, PhoneTriggers>,
> {
    Map::<PhoneStates, StateNodeView<PhoneStates, PhoneTriggers>>::empty().insert(
        PhoneStates::OnHook,
        on_hook_node(),
    ).insert(PhoneStates::OffHook, off_hook_node()).insert(
        PhoneStates::Ringing,
        ringing_node(),
    ).insert(PhoneStates::Connected, connected_node())
}

/// One observed step of driving the phone: the trigger fired, what `fire`
/// reported, and the current state observed right afterwards.
#[derive(Debug, PartialEq, Eq)]
pub struct PhoneStep {
    /// The trigger that was fired.
    pub trigger: PhoneTriggers,
    /// What `fire` reported: the actions owed an invocation, or the error.
    pub outcome: Result<Vec<ActionId>, FsmError>,
    /// The current state observed after the step, when it is configured.
    pub state_after: Option<PhoneStates>,
}

/// Whether `observed` is what observing the current state of a machine with
/// image `v` reports.
pub open spec fn state_observation(
    v: FsmView<PhoneStates, PhoneTriggers>,
    observed: Option<PhoneStates>,
) -> bool {
    match observed {
        Some(s) => v.nodes.contains_key(v.current) && s == v.current,
        None => !v.nodes.contains_key(v.current),
    }
}

/// The phone model: a machine over the phone states and triggers, built from
/// the fixed configuration of [`phone_configuration`].
pub struct PhoneFsm {
    fsm: FiniteStateMachine<PhoneStates, PhoneTriggers>,
}

impl View for PhoneFsm {
    type V = FsmView<PhoneStates, PhoneTriggers>;

    closed spec fn view(&self) -> FsmView<PhoneStates, PhoneTriggers> {
        self.fsm@
    }
}

impl PhoneFsm {
    /// The machine's state table is a genuine mapping; established by `new`
    /// and preserved throughout.
    pub closed spec fn wf(self) -> bool {
        self.fsm.wf()
    }

    /// A phone with nothing configured, starting on hook.
    pub fn new() -> (r: Self)
        ensures
            r.wf(),
            r@.current == PhoneStates::OnHook,
            r@.nodes == Map::<PhoneStates, StateNodeView<PhoneStates, PhoneTriggers>>::empty(),
    {
        proof {
            lemma_phone_types_reliable();
        }
        PhoneFsm { fsm: FiniteStateMachine::<PhoneStates, PhoneTriggers>::new(&PhoneStates::OnHook) }
    }

    /// Declares the whole phone configuration: the states, their callbacks
    /// and their permitted transitions.
    pub fn build(&mut self)
        requires
            old(self).wf(),
        ensures
            final(self).wf(),
            final(self)@.current == old(self)@.current,
            final(self)@.nodes == old(self)@.nodes.insert(PhoneStates::OnHook, on_hook_node())
                .insert(PhoneStates::OffHook, off_hook_node()).insert(
                PhoneStates::Ringing,
                ringing_node(),
            ).insert(PhoneStates::Connected, connected_node()),
    {
        proof {
            lemma_phone_types_reliable();
        }

        let node = self.fsm.configure(PhoneStates::OnHook).unwrap();
        node.on_entry(ACTION_ON_HOOK).permit(PhoneTriggers::TakeOffHook, PhoneStates::OffHook);
        proof {
            assert(self.fsm@.nodes[PhoneStates::OnHook] =~= on_hook_node());
            assert(self.fsm@.nodes =~= old(self)@.nodes.insert(PhoneStates::OnHook, on_hook_node()));
        }

        let node = self.fsm.configure(PhoneStates::OffHook).unwrap();
        node.permit(PhoneTriggers::CallDialed, PhoneStates::Ringing).permit(
            PhoneTriggers::Hangup,
            PhoneStates::OnHook,
        );
        proof {
            assert(self.fsm@.nodes[PhoneStates::OffHook] =~= off_hook_node());
            assert(self.fsm@.nodes =~= old(self)@.nodes.insert(
                PhoneStates::OnHook,
                on_hook_node(),
            ).insert(PhoneStates::OffHook, off_hook_node()));
        }

        let node = self.fsm.configure(PhoneStates::Ringing).unwrap();
        node.on_entry(ACTION_PHONE_RINGING).permit(
            PhoneTriggers::CallConnected,
            PhoneStates::Connected,
        ).permit(PhoneTriggers::Hangup, PhoneStates::OnHook);
        proof {
            assert(self.fsm@.nodes[PhoneStates::Ringing] =~= ringing_node());
            assert(self.fsm@.nodes =~= old(self)@.nodes.insert(
                PhoneStates::OnHook,
                on_hook_node(),
            ).insert(PhoneStates::OffHook, off_hook_node()).insert(
                PhoneStates::Ringing,
                ringing_node(),
            ));
        }

        let node = self.fsm.configure(PhoneStates::Connected).unwrap();
        node.on_entry(ACTION_PHONE_CONNECTED).on_exit(ACTION_PHONE_DISCONNECTED).permit(
            PhoneTriggers::Hangup,
            PhoneStates::OnHook,
        ).permit(PhoneTriggers::MuteMicrophone, PhoneStates::Connected).permit(
            PhoneTriggers::UnmuteMicrophone,
            PhoneStates::Connected,
        ).permit(PhoneTriggers::SetVolume, PhoneStates::Connected);
        proof {
            assert(self.fsm@.nodes[PhoneStates::Connected] =~= connected_node());
            assert(self.fsm@.nodes =~= old(self)@.nodes.insert(
                PhoneStates::OnHook,
                on_hook_node(),
            ).insert(PhoneStates::OffHook, off_hook_node()).insert(
                PhoneStates::Ringing,
                ringing_node(),
            ).insert(PhoneStates::Connected, connected_node()));
        }
    }

    /// Fires one trigger.  The phone model declares no guards, so the guard
    /// verdict table is empty.
    pub fn fire(&mut self, trigger: &PhoneTriggers) -> (r: Result<Vec<ActionId>, FsmError>)
        requires
            old(self).wf(),
        ensures
            final(self).wf(),
            old(self)@.fire_post(*trigger, Seq::<bool>::empty(), final(self)@, r),
    {
        proof {
            lemma_phone_types_reliable();
        }
        let verdicts = GuardVerdicts::none();
        self.fsm.fire(trigger, &verdicts)
    }

    /// The current state, when it is configured.
    pub fn get_current_state(&self) -> (r: Option<&PhoneStates>)
        requires
            self.wf(),
        ensures
            match r {
                Some(s) => self@.nodes.contains_key(self@.current) && *s == self@.current,
                None => !self@.nodes.contains_key(self@.current),
            },
    {
        proof {
            lemma_phone_types_reliable();
        }
        self.fsm.get_current_state()
    }

    /// Fires `trigger` and records the outcome together with the state
    /// observed afterwards.
    fn drive(&mut self, trigger: PhoneTriggers) -> (r: PhoneStep)
        requires
            old(self).wf(),
        ensures
            final(self).wf(),
            r.trigger == trigger,
            old(self)@.fire_post(trigger, Seq::<bool>::empty(), final(self)@, r.outcome),
            state_observation(final(self)@, r.state_after),
    {
        let outcome = self.fire(&trigger);
        let state_after = match self.get_current_state() {
            Some(s) => Some(s.clone()),
            None => None,
        };
        PhoneStep { trigger, outcome, state_after }
    }

    /// Dials: fires `CallDialed` and reports what happened.
    pub fn make_call(&mut self) -> (r: PhoneStep)
        requires
            old(self).wf(),
        ensures
            final(self).wf(),
            r.trigger == PhoneTriggers::CallDialed,
            old(self)@.fire_post(PhoneTriggers::CallDialed, Seq::<bool>::empty(), final(self)@, r.outcome),
            state_observation(final(self)@, r.state_after),
    {
        self.drive(PhoneTriggers::CallDialed)
    }

    /// Mutes the microphone: fires `MuteMicrophone` and reports what
    /// happened.
    pub fn mute_call(&mut self) -> (r: PhoneStep)
        requires
            old(self).wf(),
        ensures
            final(self).wf(),
            r.trigger == PhoneTriggers::MuteMicrophone,
            old(self)@.fire_post(PhoneTriggers::MuteMicrophone, Seq::<bool>::empty(), final(self)@, r.outcome),
            state_observation(final(self)@, r.state_after),
    {
        self.drive(PhoneTriggers::MuteMicrophone)
    }

    /// Answers: fires `CallConnected` and reports what happened.
    pub fn connect_call(&mut self) -> (r: PhoneStep)
        requires
            old(self).wf(),
        ensures
            final(self).wf(),
            r.trigger == PhoneTriggers::CallConnected,
            old(self)@.fire_post(PhoneTriggers::CallConnected, Seq::<bool>::empty(), final(self)@, r.outcome),
            state_observation(final(self)@, r.state_after),
    {
        self.drive(PhoneTriggers::CallConnected)
    }

    /// Takes the phone off the hook: fires `TakeOffHook` and reports what
    /// happened.
    pub fn take_off_hook(&mut self) -> (r: PhoneStep)
        requires
            old(self).wf(),
        ensures
            final(self).wf(),
            r.trigger == PhoneTriggers::TakeOffHook,
            old(self)@.fire_post(PhoneTriggers::TakeOffHook, Seq::<bool>::empty(), final(self)@, r.outcome),
            state_observation(final(self)@, r.state_after),
    {
        self.drive(PhoneTriggers::TakeOffHook)
    }

    /// Hangs up: fires `Hangup` and reports what happened.
    pub fn hang_up(&mut self) -> (r: PhoneStep)
        requires
            old(self).wf(),
        ensures
            final(self).wf(),
            r.trigger == PhoneTriggers::Hangup,
            old(self)@.fire_post(PhoneTriggers::Hangup, Seq::<bool>::empty(), final(self)@, r.outcome),
            state_observation(final(self)@, r.state_after),
    {
        self.drive(PhoneTriggers::Hangup)
    }
}

/// What the configured phone resolves each of the scripted triggers to.
proof fn lemma_phone_resolutions()
    ensures
        on_hook_node().resolve(PhoneTriggers::CallConnected, Seq::<bool>::empty()) is None,
        on_hook_node().resolve(PhoneTriggers::TakeOffHook, Seq::<bool>::empty()) == Some(
            PhoneStates::OffHook,
        ),
        off_hook_node().resolve(PhoneTriggers::CallDialed, Seq::<bool>::empty()) == Some(
            PhoneStates::Ringing,
        ),
        ringing_node().resolve(PhoneTriggers::CallConnected, Seq::<bool>::empty()) == Some(
            PhoneStates::Connected,
        ),
        connected_node().resolve(PhoneTriggers::MuteMicrophone, Seq::<bool>::empty()) == Some(
            PhoneStates::Connected,
        ),
        connected_node().resolve(PhoneTriggers::Hangup, Seq::<bool>::empty()) == Some(
            PhoneStates::OnHook,
        ),
{
    reveal_with_fuel(crate::transition::first_admitted_from, 8);
}

/// The outcome `do_phone_call_1` promises, step by step.
pub open spec fn phone_call_1_transcript(r: Seq<PhoneStep>) -> bool {
    &&& r.len() == 6
    &&& r[0].trigger == PhoneTriggers::CallConnected
    &&& r[0].outcome == Result::<Vec<ActionId>, FsmError>::Err(FsmError::NotPermitted)
    &&& r[0].state_after == Some(PhoneStates::OnHook)
    &&& r[1].trigger == PhoneTriggers::TakeOffHook
    &&& (r[1].outcome matches Ok(a) && a@ == Seq::<ActionId>::empty())
    &&& r[1].state_after == Some(PhoneStates::OffHook)
    &&& r[2].trigger == PhoneTriggers::CallDialed
    &&& (r[2].outcome matches Ok(a) && a@ == seq![ACTION_PHONE_RINGING])
    &&& r[2].state_after == Some(PhoneStates::Ringing)
    &&& r[3].trigger == PhoneTriggers::CallConnected
    &&& (r[3].outcome matches Ok(a) && a@ == seq![ACTION_PHONE_CONNECTED])
    &&& r[3].state_after == Some(PhoneStates::Connected)
    &&& r[4].trigger == PhoneTriggers::MuteMicrophone
    &&& (r[4].outcome matches Ok(a) && a@ == Seq::<ActionId>::empty())
    &&& r[4].state_after == Some(PhoneStates::Connected)
    &&& r[5].trigger == PhoneTriggers::Hangup
    &&& (r[5].outcome matches Ok(a) && a@ == seq![ACTION_PHONE_DISCONNECTED, ACTION_ON_HOOK])
    &&& r[5].state_after == Some(PhoneStates::OnHook)
}

/// Builds the phone and walks one scripted call: a failed early answer, then
/// taking the phone off the hook, dialing, answering, muting, and hanging
/// up.  The returned transcript is exactly [`phone_call_1_transcript`]; the
/// caller invokes the listed actions of each step with that step's trigger.
pub fn do_phone_call_1() -> (r: Vec<PhoneStep>)
    ensures
        phone_call_1_transcript(r@),
{
    let mut phone = PhoneFsm::new();
    phone.build();
    proof {
        lemma_phone_resolutions();
        assert(phone@.nodes =~= phone_configuration());
    }
    let mut steps: Vec<PhoneStep> = Vec::new();
    let step = phone.connect_call();
    proof {
        assert(phone@.nodes[PhoneStates::OnHook] == on_hook_node());
        assert(step.outcome == Result::<Vec<ActionId>, FsmError>::Err(FsmError::NotPermitted));
        assert(phone@.current == PhoneStates::OnHook);
        assert(step.state_after == Some(PhoneStates::OnHook));
    }
    steps.push(step);
    let step = phone.take_off_hook();
    proof {
        assert(step.outcome matches Ok(a) && a@ == Seq::<ActionId>::empty());
        assert(phone@.current == PhoneStates::OffHook);
        assert(step.state_after == Some(PhoneStates::OffHook));
    }
    steps.push(step);
    let step = phone.make_call();
    proof {
        assert(step.outcome matches Ok(a) && a@ == seq![ACTION_PHONE_RINGING]);
        assert(phone@.current == PhoneStates::Ringing);
        assert(step.state_after == Some(PhoneStates::Ringing));
    }
    steps.push(step);
    let step = phone.connect_call();
    proof {
        assert(step.outcome matches Ok(a) && a@ == seq![ACTION_PHONE_CONNECTED]);
        assert(phone@.current == PhoneStates::Connected);
        assert(step.state_after == Some(PhoneStates::Connected));
    }
    steps.push(step);
    let step = phone.mute_call();
    proof {
        assert(step.outcome matches Ok(a) && a@ == Seq::<ActionId>::empty());
        assert(phone@.current == PhoneStates::Connected);
        assert(step.state_after == Some(PhoneStates::Connected));
    }
    steps.push(step);
    let step = phone.hang_up();
    proof {
        assert(seq![ACTION_PHONE_DISCONNECTED] + seq![ACTION_ON_HOOK] =~= seq![
            ACTION_PHONE_DISCONNECTED,
            ACTION_ON_HOOK,
        ]);
        assert(step.outcome matches Ok(a) && a@ == seq![
            ACTION_PHONE_DISCONNECTED,
            ACTION_ON_HOOK,
        ]);
        assert(phone@.current == PhoneStates::OnHook);
        assert(step.state_after == Some(PhoneStates::OnHook));
    }
    steps.push(step);
    steps
}

} // verus!
