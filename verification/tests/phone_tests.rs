use simple_fsm::finite_state_machine::FiniteStateMachine;
use simple_fsm::phone_call::build_phone::{
    do_phone_call_1, PhoneFsm, PhoneStates, PhoneTriggers, ACTION_ON_HOOK,
    ACTION_PHONE_CONNECTED, ACTION_PHONE_DISCONNECTED, ACTION_PHONE_RINGING,
};
use simple_fsm::shared_types::{ActionId, FsmError, GuardVerdicts};

const A1: ActionId = 101;
const A2: ActionId = 102;
const E: ActionId = 103;
const X: ActionId = 104;

/// Runs the actions a `fire` reported, the way an application would: each
/// action identifier is invoked with the very trigger that was fired.
fn dispatch(log: &mut Vec<(ActionId, PhoneTriggers)>, actions: &[ActionId], trigger: &PhoneTriggers) {
    for a in actions {
        log.push((*a, trigger.clone()));
    }
}

#[test]
fn taking_the_phone_off_the_hook_runs_the_entry_action_of_off_hook() {
    let mut fsm: FiniteStateMachine<PhoneStates, PhoneTriggers> =
        FiniteStateMachine::new(&PhoneStates::OnHook);
    fsm.configure(PhoneStates::OnHook)
        .unwrap()
        .on_entry(A1)
        .permit(PhoneTriggers::TakeOffHook, PhoneStates::OffHook);
    fsm.configure(PhoneStates::OffHook)
        .unwrap()
        .on_entry(A2)
        .permit(PhoneTriggers::CallDialed, PhoneStates::Ringing)
        .permit(PhoneTriggers::Hangup, PhoneStates::OnHook);
    let verdicts = GuardVerdicts::none();
    let mut log: Vec<(ActionId, PhoneTriggers)> = Vec::new();

    let actions = fsm.fire(&PhoneTriggers::TakeOffHook, &verdicts).unwrap();
    dispatch(&mut log, &actions, &PhoneTriggers::TakeOffHook);

    assert_eq!(fsm.get_current_state(), Some(&PhoneStates::OffHook));
    assert_eq!(log, vec![(A2, PhoneTriggers::TakeOffHook)]);
}

#[test]
fn hanging_up_runs_the_entry_action_of_on_hook() {
    let mut fsm: FiniteStateMachine<PhoneStates, PhoneTriggers> =
        FiniteStateMachine::new(&PhoneStates::OnHook);
    fsm.configure(PhoneStates::OnHook)
        .unwrap()
        .on_entry(A1)
        .permit(PhoneTriggers::TakeOffHook, PhoneStates::OffHook);
    fsm.configure(PhoneStates::OffHook)
        .unwrap()
        .on_entry(A2)
        .permit(PhoneTriggers::CallDialed, PhoneStates::Ringing)
        .permit(PhoneTriggers::Hangup, PhoneStates::OnHook);
    let verdicts = GuardVerdicts::none();
    let mut log: Vec<(ActionId, PhoneTriggers)> = Vec::new();

    let actions = fsm.fire(&PhoneTriggers::TakeOffHook, &verdicts).unwrap();
    dispatch(&mut log, &actions, &PhoneTriggers::TakeOffHook);
    log.clear();

    let actions = fsm.fire(&PhoneTriggers::Hangup, &verdicts).unwrap();
    dispatch(&mut log, &actions, &PhoneTriggers::Hangup);

    assert_eq!(fsm.get_current_state(), Some(&PhoneStates::OnHook));
    assert_eq!(log, vec![(A1, PhoneTriggers::Hangup)]);
}

#[test]
fn muting_while_connected_invokes_neither_entry_nor_exit() {
    let mut fsm: FiniteStateMachine<PhoneStates, PhoneTriggers> =
        FiniteStateMachine::new(&PhoneStates::OnHook);
    fsm.configure(PhoneStates::OnHook)
        .unwrap()
        .permit(PhoneTriggers::CallConnected, PhoneStates::Connected);
    fsm.configure(PhoneStates::Connected)
        .unwrap()
        .on_entry(E)
        .on_exit(X)
        .permit(PhoneTriggers::MuteMicrophone, PhoneStates::Connected);
    let verdicts = GuardVerdicts::none();
    let mut log: Vec<(ActionId, PhoneTriggers)> = Vec::new();

    let actions = fsm.fire(&PhoneTriggers::CallConnected, &verdicts).unwrap();
    dispatch(&mut log, &actions, &PhoneTriggers::CallConnected);
    assert_eq!(log, vec![(E, PhoneTriggers::CallConnected)]);
    log.clear();

    let actions = fsm.fire(&PhoneTriggers::MuteMicrophone, &verdicts).unwrap();
    dispatch(&mut log, &actions, &PhoneTriggers::MuteMicrophone);

    assert_eq!(fsm.get_current_state(), Some(&PhoneStates::Connected));
    assert!(log.is_empty());
}

#[test]
fn firing_from_an_unconfigured_initial_state_fails() {
    let mut fsm: FiniteStateMachine<PhoneStates, PhoneTriggers> =
        FiniteStateMachine::new(&PhoneStates::OnHook);
    let verdicts = GuardVerdicts::none();
    assert_eq!(
        fsm.fire(&PhoneTriggers::TakeOffHook, &verdicts),
        Err(FsmError::UnconfiguredState)
    );
}

#[test]
fn firing_towards_an_unconfigured_destination_fails_after_exit_actions() {
    let mut fsm: FiniteStateMachine<PhoneStates, PhoneTriggers> =
        FiniteStateMachine::new(&PhoneStates::OnHook);
    fsm.configure(PhoneStates::OnHook)
        .unwrap()
        .permit(PhoneTriggers::TakeOffHook, PhoneStates::OffHook);
    let verdicts = GuardVerdicts::none();
    match fsm.fire(&PhoneTriggers::TakeOffHook, &verdicts) {
        Err(FsmError::UnconfiguredDestination { exited }) => {
            assert!(exited.is_empty());
        }
        other => panic!("expected UnconfiguredDestination, got {:?}", other),
    }
    // The current state is OffHook now; it is just not configured yet.
    assert_eq!(fsm.get_current_state(), None);
    fsm.configure(PhoneStates::OffHook).unwrap();
    assert_eq!(fsm.get_current_state(), Some(&PhoneStates::OffHook));
}

#[test]
fn the_scripted_phone_call_produces_its_transcript() {
    let steps = do_phone_call_1();
    assert_eq!(steps.len(), 6);

    assert_eq!(steps[0].trigger, PhoneTriggers::CallConnected);
    assert_eq!(steps[0].outcome, Err(FsmError::NotPermitted));
    assert_eq!(steps[0].state_after, Some(PhoneStates::OnHook));

    assert_eq!(steps[1].trigger, PhoneTriggers::TakeOffHook);
    assert_eq!(steps[1].outcome, Ok(vec![]));
    assert_eq!(steps[1].state_after, Some(PhoneStates::OffHook));

    assert_eq!(steps[2].trigger, PhoneTriggers::CallDialed);
    assert_eq!(steps[2].outcome, Ok(vec![ACTION_PHONE_RINGING]));
    assert_eq!(steps[2].state_after, Some(PhoneStates::Ringing));

    assert_eq!(steps[3].trigger, PhoneTriggers::CallConnected);
    assert_eq!(steps[3].outcome, Ok(vec![ACTION_PHONE_CONNECTED]));
    assert_eq!(steps[3].state_after, Some(PhoneStates::Connected));

    assert_eq!(steps[4].trigger, PhoneTriggers::MuteMicrophone);
    assert_eq!(steps[4].outcome, Ok(vec![]));
    assert_eq!(steps[4].state_after, Some(PhoneStates::Connected));

    assert_eq!(steps[5].trigger, PhoneTriggers::Hangup);
    assert_eq!(
        steps[5].outcome,
        Ok(vec![ACTION_PHONE_DISCONNECTED, ACTION_ON_HOOK])
    );
    assert_eq!(steps[5].state_after, Some(PhoneStates::OnHook));
}

#[test]
fn the_phone_fsm_drives_a_call_step_by_step() {
    let mut phone = PhoneFsm::new();
    phone.build();

    let step = phone.connect_call();
    assert_eq!(step.outcome, Err(FsmError::NotPermitted));
    assert_eq!(step.state_after, Some(PhoneStates::OnHook));

    let step = phone.take_off_hook();
    assert_eq!(step.outcome, Ok(vec![]));
    assert_eq!(step.state_after, Some(PhoneStates::OffHook));

    let step = phone.make_call();
    assert_eq!(step.outcome, Ok(vec![ACTION_PHONE_RINGING]));
    assert_eq!(step.state_after, Some(PhoneStates::Ringing));

    let step = phone.connect_call();
    assert_eq!(step.outcome, Ok(vec![ACTION_PHONE_CONNECTED]));
    assert_eq!(step.state_after, Some(PhoneStates::Connected));

    let step = phone.mute_call();
    assert_eq!(step.outcome, Ok(vec![]));
    assert_eq!(step.state_after, Some(PhoneStates::Connected));

    let step = phone.hang_up();
    assert_eq!(step.outcome, Ok(vec![ACTION_PHONE_DISCONNECTED, ACTION_ON_HOOK]));
    assert_eq!(step.state_after, Some(PhoneStates::OnHook));

    assert_eq!(phone.get_current_state(), Some(&PhoneStates::OnHook));
}
