use simple_fsm::finite_state_machine::FiniteStateMachine;
use simple_fsm::internal_transition::InternalTransition;
use simple_fsm::shared_types::{FsmError, Guard, GuardVerdicts};
use simple_fsm::state::State;
use simple_fsm::state_node::StateNode;

#[test]
fn fire_from_unconfigured_current_state_is_unconfigured_state() {
    let mut fsm: FiniteStateMachine<u32, u32> = FiniteStateMachine::new(&1);
    let verdicts = GuardVerdicts::none();
    assert_eq!(fsm.fire(&7, &verdicts), Err(FsmError::UnconfiguredState));
}

#[test]
fn fire_with_unmatched_trigger_is_not_permitted() {
    let mut fsm: FiniteStateMachine<u32, u32> = FiniteStateMachine::new(&1);
    fsm.configure(1).unwrap().permit(7, 2);
    let verdicts = GuardVerdicts::none();
    assert_eq!(fsm.fire(&8, &verdicts), Err(FsmError::NotPermitted));
    assert_eq!(fsm.get_current_state(), Some(&1));
}

#[test]
fn fire_with_all_matching_guards_false_is_not_permitted() {
    let mut fsm: FiniteStateMachine<u32, u32> = FiniteStateMachine::new(&1);
    fsm.configure(1)
        .unwrap()
        .permit_if(7, 2, Guard::When(0))
        .permit_if(7, 3, Guard::When(1));
    let verdicts = GuardVerdicts { verdicts: vec![false, false] };
    assert_eq!(fsm.fire(&7, &verdicts), Err(FsmError::NotPermitted));
    assert_eq!(fsm.get_current_state(), Some(&1));
}

#[test]
fn earlier_declared_transition_wins_when_its_guard_passes() {
    let mut fsm: FiniteStateMachine<u32, u32> = FiniteStateMachine::new(&1);
    fsm.configure(1)
        .unwrap()
        .permit_if(7, 2, Guard::When(0))
        .permit_if(7, 3, Guard::When(1));
    fsm.configure(2).unwrap();
    fsm.configure(3).unwrap();
    let verdicts = GuardVerdicts { verdicts: vec![true, true] };
    assert_eq!(fsm.fire(&7, &verdicts), Ok(vec![]));
    assert_eq!(fsm.get_current_state(), Some(&2));
}

#[test]
fn later_transition_wins_when_earlier_guard_denies() {
    let mut fsm: FiniteStateMachine<u32, u32> = FiniteStateMachine::new(&1);
    fsm.configure(1)
        .unwrap()
        .permit_if(7, 2, Guard::When(0))
        .permit_if(7, 3, Guard::When(1));
    fsm.configure(2).unwrap();
    fsm.configure(3).unwrap();
    let verdicts = GuardVerdicts { verdicts: vec![false, true] };
    assert_eq!(fsm.fire(&7, &verdicts), Ok(vec![]));
    assert_eq!(fsm.get_current_state(), Some(&3));
}

#[test]
fn guard_without_a_verdict_denies() {
    let mut fsm: FiniteStateMachine<u32, u32> = FiniteStateMachine::new(&1);
    fsm.configure(1).unwrap().permit_if(7, 2, Guard::When(5));
    let verdicts = GuardVerdicts { verdicts: vec![true, true] };
    assert_eq!(fsm.fire(&7, &verdicts), Err(FsmError::NotPermitted));
}

#[test]
fn fire_to_unconfigured_destination_reports_exited_actions() {
    let mut fsm: FiniteStateMachine<u32, u32> = FiniteStateMachine::new(&1);
    fsm.configure(1).unwrap().on_exit(40).on_exit(41).permit(7, 2);
    let verdicts = GuardVerdicts::none();
    match fsm.fire(&7, &verdicts) {
        Err(FsmError::UnconfiguredDestination { exited }) => {
            assert_eq!(exited, vec![40, 41]);
        }
        other => panic!("expected UnconfiguredDestination, got {:?}", other),
    }
    // The current state has advanced to the unconfigured destination.
    assert_eq!(fsm.get_current_state(), None);
    fsm.configure(2).unwrap();
    assert_eq!(fsm.get_current_state(), Some(&2));
}

#[test]
fn successful_fire_lists_exit_then_entry_actions_in_declaration_order() {
    let mut fsm: FiniteStateMachine<u32, u32> = FiniteStateMachine::new(&1);
    fsm.configure(1).unwrap().on_exit(30).on_exit(31).permit(7, 2);
    fsm.configure(2).unwrap().on_entry(20).on_entry(21).on_entry(22);
    let verdicts = GuardVerdicts::none();
    assert_eq!(fsm.fire(&7, &verdicts), Ok(vec![30, 31, 20, 21, 22]));
    assert_eq!(fsm.get_current_state(), Some(&2));
}

#[test]
fn self_transition_changes_nothing_and_lists_no_actions() {
    let mut fsm: FiniteStateMachine<u32, u32> = FiniteStateMachine::new(&1);
    fsm.configure(1).unwrap().on_entry(20).on_exit(30).permit(7, 1);
    let verdicts = GuardVerdicts::none();
    assert_eq!(fsm.fire(&7, &verdicts), Ok(vec![]));
    assert_eq!(fsm.get_current_state(), Some(&1));
}

#[test]
fn reconfigure_resets_the_node_entirely() {
    let mut fsm: FiniteStateMachine<u32, u32> = FiniteStateMachine::new(&1);
    fsm.configure(1).unwrap().on_entry(20).on_exit(30).permit(7, 2);
    fsm.configure(1).unwrap();
    let node = fsm.get_state(&1).unwrap();
    assert!(node.entering_state().is_empty());
    assert!(node.exiting_state().is_empty());
    let verdicts = GuardVerdicts::none();
    assert_eq!(fsm.fire(&7, &verdicts), Err(FsmError::NotPermitted));
}

#[test]
fn only_the_last_configuration_is_observable() {
    let mut fsm: FiniteStateMachine<u32, u32> = FiniteStateMachine::new(&1);
    fsm.configure(1).unwrap().permit(7, 2).on_exit(30);
    fsm.configure(1).unwrap().permit(7, 3);
    fsm.configure(3).unwrap().on_entry(21);
    let verdicts = GuardVerdicts::none();
    assert_eq!(fsm.fire(&7, &verdicts), Ok(vec![21]));
    assert_eq!(fsm.get_current_state(), Some(&3));
}

#[test]
fn get_state_finds_only_configured_states() {
    let mut fsm: FiniteStateMachine<u32, u32> = FiniteStateMachine::new(&1);
    assert!(fsm.get_state(&1).is_none());
    fsm.configure(1).unwrap();
    assert!(fsm.get_state(&1).is_some());
    assert!(fsm.get_state(&2).is_none());
}

#[test]
fn get_current_state_node_follows_the_current_state() {
    let mut fsm: FiniteStateMachine<u32, u32> = FiniteStateMachine::new(&1);
    assert!(fsm.get_current_state_node().is_none());
    fsm.configure(1).unwrap();
    let node = fsm.get_current_state_node().unwrap();
    assert_eq!(node.get_state(), &1);
}

#[test]
fn next_state_resolves_against_one_node() {
    let mut node: StateNode<u32, u32> = StateNode::configure(1);
    node.permit(7, 2).permit_if(8, 3, Guard::When(0));
    let verdicts = GuardVerdicts { verdicts: vec![true] };
    assert_eq!(node.next_state(&7, &verdicts), Ok(&2));
    assert_eq!(node.next_state(&8, &verdicts), Ok(&3));
    assert_eq!(node.next_state(&9, &verdicts), Err(FsmError::NotPermitted));
}

#[test]
fn entering_and_exiting_state_list_actions_in_declaration_order() {
    let mut node: StateNode<u32, u32> = StateNode::configure(1);
    node.on_entry(20).on_entry(21).on_exit(30);
    assert_eq!(node.entering_state(), &vec![20, 21]);
    assert_eq!(node.exiting_state(), &vec![30]);
    assert_eq!(node.get_state(), &1);
}

#[test]
fn empty_guard_is_the_default_guard() {
    assert_eq!(StateNode::<u32, u32>::empty_guard(), Guard::Always);
    let verdicts = GuardVerdicts::none();
    assert!(verdicts.allows(&Guard::Always));
    assert!(!verdicts.allows(&Guard::When(0)));
}

#[test]
fn state_record_counts_triggers() {
    let mut state: State<u32> = State::configure(1);
    state.inc_trigger().inc_trigger();
}

#[test]
fn internal_transition_holds_its_fields() {
    let t = InternalTransition { trigger: 7u32, action: 20, guard: Guard::Always };
    assert_eq!(t.trigger, 7);
    assert_eq!(t.action, 20);
    assert_eq!(t.guard, Guard::Always);
}
