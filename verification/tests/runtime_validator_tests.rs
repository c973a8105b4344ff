use sys_design::validator::result::Severity;
use sys_design::validator::runtime_view::validate;
use sys_design::model::runtime::{RuntimeView, Scenario, Participant, ParticipantType, Block, Step, StepType, Group, GroupType, GroupBranch};


fn create_test_scenario() -> Scenario {
    Scenario {
        id: "TEST_SCENARIO".to_string(),
        name: "Test Scenario".to_string(),
        description: None,
        participants: vec![
            Participant {
                element_id: "A".to_string(),
                participant_type: ParticipantType::Participant,
                alias: None,
                color: None,
            },
            Participant {
                element_id: "B".to_string(),
                participant_type: ParticipantType::Participant,
                alias: None,
                color: None,
            },
        ],
        blocks: vec![Block::Step(Step {
            order: 1,
            from: "A".to_string(),
            to: "B".to_string(),
            message: "hello".to_string(),
            step_type: StepType::Sync,
            protocol: None,
            color: None,
            activate_target: None,
        })],
        notes: Vec::new(),
        dividers: Vec::new(),
    }
}

#[test]
fn test_validate_valid_scenario() {
    let mut view = RuntimeView::new("Test");
    view.scenarios.push(create_test_scenario());
    let result = validate(&view);
    assert!(result.is_valid);
}

#[test]
fn test_r001_empty_id() {
    let mut view = RuntimeView::new("Test");
    let mut scenario = create_test_scenario();
    scenario.id = "".to_string();
    view.scenarios.push(scenario);
    let result = validate(&view);
    assert!(!result.is_valid);
    assert!(result.errors.iter().any(|e| e.code == "R001"));
}

#[test]
fn test_r004_min_participants() {
    let mut view = RuntimeView::new("Test");
    let mut scenario = create_test_scenario();
    scenario.participants.truncate(1);
    view.scenarios.push(scenario);
    let result = validate(&view);
    assert!(result.errors.iter().any(|e| e.code == "R004" && e.severity == Severity::Warning));
}

#[test]
fn test_r006_invalid_reference() {
    let mut view = RuntimeView::new("Test");
    let mut scenario = create_test_scenario();
    if let Block::Step(s) = &mut scenario.blocks[0] {
        s.from = "NONEXISTENT".to_string();
    }
    view.scenarios.push(scenario);
    let result = validate(&view);
    assert!(result.errors.iter().any(|e| e.code == "R006"));
}

#[test]
fn test_r009_alt_without_branches() {
    let mut view = RuntimeView::new("Test");
    let mut scenario = create_test_scenario();
    scenario.blocks.push(Block::Group(Group {
        group_type: GroupType::Alt,
        label: "result".to_string(),
        blocks: Vec::new(),
        branches: Vec::new(), // Empty!
    }));
    view.scenarios.push(scenario);
    let result = validate(&view);
    assert!(result.errors.iter().any(|e| e.code == "R009"));
}

#[test]
fn test_r010_non_alt_with_branches() {
    let mut view = RuntimeView::new("Test");
    let mut scenario = create_test_scenario();
    scenario.blocks.push(Block::Group(Group {
        group_type: GroupType::Loop,
        label: "retry".to_string(),
        blocks: Vec::new(),
        branches: vec![GroupBranch {
            label: "body".to_string(),
            blocks: Vec::new(),
        }],
    }));
    view.scenarios.push(scenario);
    let result = validate(&view);
    assert!(result.errors.iter().any(|e| e.code == "R010"));
}

#[test]
fn test_r011_naming_convention() {
    let mut view = RuntimeView::new("Test");
    let mut scenario = create_test_scenario();
    scenario.id = "bad-name".to_string();
    view.scenarios.push(scenario);
    let result = validate(&view);
    assert!(result.errors.iter().any(|e| e.code == "R011"));
}

#[test]
fn test_r012_name_length() {
    let mut view = RuntimeView::new("Test");
    let mut scenario = create_test_scenario();
    scenario.name = "x".repeat(51);
    view.scenarios.push(scenario);
    let result = validate(&view);
    assert!(result.errors.iter().any(|e| e.code == "R012"));
}
