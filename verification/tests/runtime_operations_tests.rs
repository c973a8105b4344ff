use sys_design::store::RuntimeOperations;
use sys_design::model::runtime::{RuntimeView, Participant, Scenario, Step, Group, GroupBranch, Block, ParticipantType, StepType, GroupType, NotePosition};


fn create_test_view() -> RuntimeView {
    RuntimeView::new("Test Runtime")
}

#[test]
fn test_add_scenario() {
    let mut view = create_test_view();
    RuntimeOperations::add_scenario(&mut view, "S1", Some("Scenario 1"), None).unwrap();
    assert_eq!(view.scenarios.len(), 1);
    assert_eq!(view.scenarios[0].id, "S1");
}

#[test]
fn test_add_duplicate_scenario() {
    let mut view = create_test_view();
    RuntimeOperations::add_scenario(&mut view, "S1", Some("S1"), None).unwrap();
    let result = RuntimeOperations::add_scenario(&mut view, "S1", Some("S1 dup"), None);
    assert!(result.is_err());
}

#[test]
fn test_add_participant() {
    let mut view = create_test_view();
    RuntimeOperations::add_scenario(&mut view, "S1", Some("S1"), None).unwrap();
    RuntimeOperations::add_participant(
        &mut view,
        "S1",
        "USER",
        ParticipantType::Actor,
        None,
        None,
    )
    .unwrap();
    assert_eq!(view.scenarios[0].participants.len(), 1);
}

#[test]
fn test_add_duplicate_participant() {
    let mut view = create_test_view();
    RuntimeOperations::add_scenario(&mut view, "S1", Some("S1"), None).unwrap();
    RuntimeOperations::add_participant(&mut view, "S1", "USER", ParticipantType::Actor, None, None).unwrap();
    let result = RuntimeOperations::add_participant(&mut view, "S1", "USER", ParticipantType::Actor, None, None);
    assert!(result.is_err());
}

#[test]
fn test_add_step_top_level() {
    let mut view = create_test_view();
    RuntimeOperations::add_scenario(&mut view, "S1", Some("S1"), None).unwrap();
    RuntimeOperations::add_participant(&mut view, "S1", "A", ParticipantType::Participant, None, None).unwrap();
    RuntimeOperations::add_participant(&mut view, "S1", "B", ParticipantType::Participant, None, None).unwrap();
    RuntimeOperations::add_step(
        &mut view, "S1", "A", "B", "hello",
        StepType::Sync, None, None, None, None, None,
    ).unwrap();

    assert_eq!(view.scenarios[0].blocks.len(), 1);
    if let Block::Step(s) = &view.scenarios[0].blocks[0] {
        assert_eq!(s.order, 1);
        assert_eq!(s.from, "A");
    }
}

#[test]
fn test_auto_step_order() {
    let mut view = create_test_view();
    RuntimeOperations::add_scenario(&mut view, "S1", Some("S1"), None).unwrap();
    RuntimeOperations::add_step(&mut view, "S1", "A", "B", "first", StepType::Sync, None, None, None, None, None).unwrap();
    RuntimeOperations::add_step(&mut view, "S1", "B", "A", "second", StepType::Return, None, None, None, None, None).unwrap();

    if let Block::Step(s) = &view.scenarios[0].blocks[1] {
        assert_eq!(s.order, 2);
    }
}

#[test]
fn test_add_step_to_alt_branch() {
    let mut view = create_test_view();
    RuntimeOperations::add_scenario(&mut view, "S1", Some("S1"), None).unwrap();
    RuntimeOperations::add_group(
        &mut view, "S1", GroupType::Alt, "result",
        vec!["ok".to_string(), "err".to_string()], None, None,
    ).unwrap();

    RuntimeOperations::add_step(
        &mut view, "S1", "A", "B", "success",
        StepType::Sync, None, None, None, Some("result"), Some("ok"),
    ).unwrap();

    let scenario = &view.scenarios[0];
    if let Block::Group(g) = &scenario.blocks[0] {
        assert_eq!(g.branches[0].blocks.len(), 1);
    }
}

#[test]
fn test_add_step_to_nonexistent_group() {
    let mut view = create_test_view();
    RuntimeOperations::add_scenario(&mut view, "S1", Some("S1"), None).unwrap();
    let result = RuntimeOperations::add_step(
        &mut view, "S1", "A", "B", "msg",
        StepType::Sync, None, None, None, Some("nonexistent"), None,
    );
    assert!(result.is_err());
}

#[test]
fn test_add_step_to_alt_without_branch() {
    let mut view = create_test_view();
    RuntimeOperations::add_scenario(&mut view, "S1", Some("S1"), None).unwrap();
    RuntimeOperations::add_group(
        &mut view, "S1", GroupType::Alt, "result",
        vec!["ok".to_string()], None, None,
    ).unwrap();
    let result = RuntimeOperations::add_step(
        &mut view, "S1", "A", "B", "msg",
        StepType::Sync, None, None, None, Some("result"), None,
    );
    assert!(result.is_err());
}

#[test]
fn test_add_step_with_branch_to_non_alt() {
    let mut view = create_test_view();
    RuntimeOperations::add_scenario(&mut view, "S1", Some("S1"), None).unwrap();
    RuntimeOperations::add_group(
        &mut view, "S1", GroupType::Loop, "retry",
        vec![], None, None,
    ).unwrap();
    let result = RuntimeOperations::add_step(
        &mut view, "S1", "A", "B", "msg",
        StepType::Sync, None, None, None, Some("retry"), Some("x"),
    );
    assert!(result.is_err());
}

#[test]
fn test_remove_participant_cascade() {
    let mut view = create_test_view();
    RuntimeOperations::add_scenario(&mut view, "S1", Some("S1"), None).unwrap();
    RuntimeOperations::add_step(&mut view, "S1", "A", "B", "msg1", StepType::Sync, None, None, None, None, None).unwrap();
    RuntimeOperations::add_step(&mut view, "S1", "B", "A", "msg2", StepType::Return, None, None, None, None, None).unwrap();

    // Remove A should cascade-remove both steps (both reference A)
    RuntimeOperations::remove_step(&mut view, "S1", 2, None, None).unwrap(); // remove msg2 first
    // Now only step1 (A->B) remains. Remove participant A.
    // We need to add A and B as participants first
    let scenario = view.find_scenario_mut("S1").unwrap();
    scenario.participants.push(Participant {
        element_id: "A".to_string(),
        participant_type: ParticipantType::Participant,
        alias: None,
        color: None,
    });
    scenario.participants.push(Participant {
        element_id: "B".to_string(),
        participant_type: ParticipantType::Participant,
        alias: None,
        color: None,
    });

    RuntimeOperations::remove_participant(&mut view, "S1", "A").unwrap();
    assert_eq!(view.scenarios[0].participants.len(), 1);
    assert_eq!(view.scenarios[0].blocks.len(), 0); // step1 (A->B) was cascade-removed
}

#[test]
fn test_remove_group_cascade() {
    let mut view = create_test_view();
    RuntimeOperations::add_scenario(&mut view, "S1", Some("S1"), None).unwrap();
    RuntimeOperations::add_step(&mut view, "S1", "A", "B", "before", StepType::Sync, None, None, None, None, None).unwrap();
    RuntimeOperations::add_group(
        &mut view, "S1", GroupType::Loop, "retry",
        vec![], None, None,
    ).unwrap();

    assert_eq!(view.scenarios[0].blocks.len(), 2);
    RuntimeOperations::remove_group(&mut view, "S1", "retry", None, None).unwrap();
    assert_eq!(view.scenarios[0].blocks.len(), 1);
}

#[test]
fn test_remove_nonexistent_scenario() {
    let mut view = create_test_view();
    let result = RuntimeOperations::remove_scenario(&mut view, "NOPE");
    assert!(result.is_err());
}

#[test]
fn test_remove_nonexistent_step() {
    let mut view = create_test_view();
    RuntimeOperations::add_scenario(&mut view, "S1", Some("S1"), None).unwrap();
    let result = RuntimeOperations::remove_step(&mut view, "S1", 999, None, None);
    assert!(result.is_err());
}

#[test]
fn test_add_nested_group() {
    let mut view = create_test_view();
    RuntimeOperations::add_scenario(&mut view, "S1", Some("S1"), None).unwrap();
    RuntimeOperations::add_group(
        &mut view, "S1", GroupType::Alt, "result",
        vec!["ok".to_string(), "err".to_string()], None, None,
    ).unwrap();
    RuntimeOperations::add_group(
        &mut view, "S1", GroupType::Loop, "retry",
        vec![], Some("result"), Some("err"),
    ).unwrap();

    let scenario = &view.scenarios[0];
    if let Block::Group(g) = &scenario.blocks[0] {
        assert_eq!(g.branches[1].blocks.len(), 1); // "err" branch contains "retry" group
        if let Block::Group(nested) = &g.branches[1].blocks[0] {
            assert_eq!(nested.label, "retry");
        }
    }
}

#[test]
fn test_add_note_and_divider() {
    let mut view = create_test_view();
    RuntimeOperations::add_scenario(&mut view, "S1", Some("S1"), None).unwrap();
    RuntimeOperations::add_note(&mut view, "S1", NotePosition::Right, "A", "test note").unwrap();
    RuntimeOperations::add_divider(&mut view, "S1", "Phase 1", 0).unwrap();

    assert_eq!(view.scenarios[0].notes.len(), 1);
    assert_eq!(view.scenarios[0].dividers.len(), 1);
}

#[test]
fn test_remove_note_and_divider() {
    let mut view = create_test_view();
    RuntimeOperations::add_scenario(&mut view, "S1", Some("S1"), None).unwrap();
    RuntimeOperations::add_note(&mut view, "S1", NotePosition::Right, "A", "note1").unwrap();
    RuntimeOperations::add_note(&mut view, "S1", NotePosition::Left, "B", "note2").unwrap();
    RuntimeOperations::add_divider(&mut view, "S1", "Phase 1", 0).unwrap();

    RuntimeOperations::remove_note(&mut view, "S1", 0).unwrap();
    assert_eq!(view.scenarios[0].notes.len(), 1);

    RuntimeOperations::remove_divider(&mut view, "S1", 0).unwrap();
    assert_eq!(view.scenarios[0].dividers.len(), 0);
}

#[test]
fn test_step_after_branch_step_gets_larger_order() {
    let mut view = create_test_view();
    RuntimeOperations::add_scenario(&mut view, "S1", Some("S1"), None).unwrap();
    RuntimeOperations::add_group(
        &mut view, "S1", GroupType::Alt, "result",
        vec!["ok".to_string(), "err".to_string()], None, None,
    ).unwrap();
    RuntimeOperations::add_step(
        &mut view, "S1", "A", "B", "in branch",
        StepType::Sync, None, None, None, Some("result"), Some("err"),
    ).unwrap();
    RuntimeOperations::add_step(&mut view, "S1", "B", "A", "after", StepType::Sync, None, None, None, None, None).unwrap();
    let steps = view.scenarios[0].collect_all_steps();
    assert_eq!(steps.len(), 2);
    assert_eq!(steps[0].order, 1);
    assert_eq!(steps[1].order, 2);
    assert_eq!(steps[1].message, "after");
}

#[test]
fn test_add_then_remove_scenario_restores_scenarios() {
    let mut view = create_test_view();
    RuntimeOperations::add_scenario(&mut view, "S1", None, None).unwrap();
    RuntimeOperations::add_scenario(&mut view, "S2", Some("Second"), None).unwrap();
    RuntimeOperations::remove_scenario(&mut view, "S2").unwrap();
    assert_eq!(view.scenarios.len(), 1);
    assert_eq!(view.scenarios[0].id, "S1");
}
