use sys_design::generator::plantuml::runtime_view::generate_runtime_plantuml;
use sys_design::model::runtime::{RuntimeView, Scenario, Participant, ParticipantType, Block, Step, StepType, Group, GroupType, GroupBranch, Note, NotePosition};
use sys_design::model::c4::context::ContextDiagram;
use sys_design::model::workspace::Workspace;


fn create_test_view() -> RuntimeView {
    RuntimeView::new("Test")
}

fn create_test_workspace() -> Workspace {
    let mut ws = Workspace::new("Test");
    ws.context_diagram = Some(ContextDiagram::new(
        "MY_SYSTEM", "My System",
    ));
    ws
}

#[test]
fn test_generate_basic_sequence() {
    let mut view = create_test_view();
    let mut scenario = Scenario::new("S1", "Test Scenario");
    scenario.participants.push(Participant {
        element_id: "A".to_string(),
        participant_type: ParticipantType::Participant,
        alias: None,
        color: None,
    });
    scenario.participants.push(Participant {
        element_id: "B".to_string(),
        participant_type: ParticipantType::Participant,
        alias: None,
        color: None,
    });
    scenario.blocks.push(Block::Step(Step {
        order: 1,
        from: "A".to_string(),
        to: "B".to_string(),
        message: "hello".to_string(),
        step_type: StepType::Sync,
        protocol: None,
        color: None,
        activate_target: None,
    }));
    view.scenarios.push(scenario);

    let ws = create_test_workspace();
    let result = generate_runtime_plantuml(&ws, &view, "S1");

    assert!(result.contains("@startuml"));
    assert!(result.contains("@enduml"));
    assert!(result.contains("participant \"A\" as A"));
    assert!(result.contains("A -> B : hello"));
    assert!(result.contains("autonumber"));
}

#[test]
fn test_generate_self_call() {
    let mut view = create_test_view();
    let mut scenario = Scenario::new("S1", "Test");
    scenario.participants.push(Participant {
        element_id: "A".to_string(),
        participant_type: ParticipantType::Participant,
        alias: None,
        color: None,
    });
    scenario.blocks.push(Block::Step(Step {
        order: 1,
        from: "A".to_string(),
        to: "A".to_string(),
        message: "process".to_string(),
        step_type: StepType::Sync,
        protocol: None,
        color: None,
        activate_target: None,
    }));
    view.scenarios.push(scenario);

    let ws = create_test_workspace();
    let result = generate_runtime_plantuml(&ws, &view, "S1");
    assert!(result.contains("A -> A : process"));
}

#[test]
fn test_generate_all_step_types() {
    let mut view = create_test_view();
    let mut scenario = Scenario::new("S1", "Test");
    scenario.participants.push(Participant {
        element_id: "A".to_string(),
        participant_type: ParticipantType::Participant,
        alias: None,
        color: None,
    });
    scenario.participants.push(Participant {
        element_id: "B".to_string(),
        participant_type: ParticipantType::Participant,
        alias: None,
        color: None,
    });

    scenario.blocks.push(Block::Step(Step {
        order: 1, from: "A".into(), to: "B".into(), message: "sync".into(),
        step_type: StepType::Sync, protocol: None, color: None, activate_target: None,
    }));
    scenario.blocks.push(Block::Step(Step {
        order: 2, from: "A".into(), to: "B".into(), message: "async".into(),
        step_type: StepType::Async, protocol: None, color: None, activate_target: None,
    }));
    scenario.blocks.push(Block::Step(Step {
        order: 3, from: "B".into(), to: "A".into(), message: "ret".into(),
        step_type: StepType::Return, protocol: None, color: None, activate_target: None,
    }));
    scenario.blocks.push(Block::Step(Step {
        order: 4, from: "A".into(), to: "B".into(), message: "lost".into(),
        step_type: StepType::Lost, protocol: None, color: None, activate_target: None,
    }));
    view.scenarios.push(scenario);

    let ws = create_test_workspace();
    let result = generate_runtime_plantuml(&ws, &view, "S1");

    assert!(result.contains("A -> B : sync"));
    assert!(result.contains("A ->> B : async"));
    assert!(result.contains("B --> A : ret"));
    assert!(result.contains("A ->o B : lost"));
}

#[test]
fn test_generate_alt_group() {
    let mut view = create_test_view();
    let mut scenario = Scenario::new("S1", "Test");
    scenario.participants.push(Participant {
        element_id: "A".to_string(),
        participant_type: ParticipantType::Participant,
        alias: None,
        color: None,
    });
    scenario.participants.push(Participant {
        element_id: "B".to_string(),
        participant_type: ParticipantType::Participant,
        alias: None,
        color: None,
    });
    scenario.blocks.push(Block::Group(Group {
        group_type: GroupType::Alt,
        label: "result".to_string(),
        blocks: Vec::new(),
        branches: vec![
            GroupBranch {
                label: "ok".to_string(),
                blocks: vec![Block::Step(Step {
                    order: 1, from: "B".into(), to: "A".into(), message: "token".into(),
                    step_type: StepType::Return, protocol: None, color: None, activate_target: None,
                })],
            },
            GroupBranch {
                label: "err".to_string(),
                blocks: vec![Block::Step(Step {
                    order: 2, from: "B".into(), to: "A".into(), message: "error".into(),
                    step_type: StepType::Return, protocol: None, color: None, activate_target: None,
                })],
            },
        ],
    }));
    view.scenarios.push(scenario);

    let ws = create_test_workspace();
    let result = generate_runtime_plantuml(&ws, &view, "S1");

    assert!(result.contains("alt result"));
    assert!(result.contains("B --> A : token"));
    assert!(result.contains("else err"));
    assert!(result.contains("B --> A : error"));
    assert!(result.contains("end"));
}

#[test]
fn test_generate_loop_group() {
    let mut view = create_test_view();
    let mut scenario = Scenario::new("S1", "Test");
    scenario.participants.push(Participant {
        element_id: "A".to_string(),
        participant_type: ParticipantType::Participant,
        alias: None,
        color: None,
    });
    scenario.blocks.push(Block::Group(Group {
        group_type: GroupType::Loop,
        label: "retry".to_string(),
        blocks: vec![Block::Step(Step {
            order: 1, from: "A".into(), to: "A".into(), message: "retry".into(),
            step_type: StepType::Sync, protocol: None, color: None, activate_target: None,
        })],
        branches: Vec::new(),
    }));
    view.scenarios.push(scenario);

    let ws = create_test_workspace();
    let result = generate_runtime_plantuml(&ws, &view, "S1");

    assert!(result.contains("loop retry"));
    assert!(result.contains("A -> A : retry"));
    assert!(result.contains("end"));
}

#[test]
fn test_generate_nested_groups() {
    let mut view = create_test_view();
    let mut scenario = Scenario::new("S1", "Test");
    scenario.participants.push(Participant {
        element_id: "A".to_string(),
        participant_type: ParticipantType::Participant,
        alias: None,
        color: None,
    });
    scenario.participants.push(Participant {
        element_id: "B".to_string(),
        participant_type: ParticipantType::Participant,
        alias: None,
        color: None,
    });

    let inner_loop = Block::Group(Group {
        group_type: GroupType::Loop,
        label: "retry".to_string(),
        blocks: vec![Block::Step(Step {
            order: 3, from: "A".into(), to: "B".into(), message: "retry".into(),
            step_type: StepType::Sync, protocol: None, color: None, activate_target: None,
        })],
        branches: Vec::new(),
    });

    scenario.blocks.push(Block::Group(Group {
        group_type: GroupType::Alt,
        label: "result".to_string(),
        blocks: Vec::new(),
        branches: vec![
            GroupBranch {
                label: "ok".to_string(),
                blocks: vec![Block::Step(Step {
                    order: 1, from: "B".into(), to: "A".into(), message: "ok".into(),
                    step_type: StepType::Return, protocol: None, color: None, activate_target: None,
                })],
            },
            GroupBranch {
                label: "err".to_string(),
                blocks: vec![inner_loop],
            },
        ],
    }));
    view.scenarios.push(scenario);

    let ws = create_test_workspace();
    let result = generate_runtime_plantuml(&ws, &view, "S1");

    assert!(result.contains("alt result"));
    assert!(result.contains("loop retry"));
    assert!(result.contains("end")); // loop end
    assert!(result.contains("end")); // alt end
}

#[test]
fn test_generate_participant_types() {
    let mut view = create_test_view();
    let mut scenario = Scenario::new("S1", "Test");
    scenario.participants.push(Participant {
        element_id: "U".to_string(),
        participant_type: ParticipantType::Actor,
        alias: None,
        color: None,
    });
    scenario.participants.push(Participant {
        element_id: "D".to_string(),
        participant_type: ParticipantType::Database,
        alias: None,
        color: None,
    });
    scenario.participants.push(Participant {
        element_id: "Q".to_string(),
        participant_type: ParticipantType::Queue,
        alias: None,
        color: None,
    });
    view.scenarios.push(scenario);

    let ws = create_test_workspace();
    let result = generate_runtime_plantuml(&ws, &view, "S1");

    assert!(result.contains("actor \"U\" as U"));
    assert!(result.contains("database \"D\" as D"));
    assert!(result.contains("queue \"Q\" as Q"));
}

#[test]
fn test_generate_nonexistent_scenario() {
    let view = create_test_view();
    let ws = create_test_workspace();
    let result = generate_runtime_plantuml(&ws, &view, "NOPE");
    assert!(result.contains("ERROR"));
    assert!(result.contains("NOPE"));
}

#[test]
fn test_generate_note() {
    let mut view = create_test_view();
    let mut scenario = Scenario::new("S1", "Test");
    scenario.participants.push(Participant {
        element_id: "A".to_string(),
        participant_type: ParticipantType::Participant,
        alias: None,
        color: None,
    });
    scenario.notes.push(Note {
        position: NotePosition::Right,
        target: "A".to_string(),
        text: "Important".to_string(),
    });
    view.scenarios.push(scenario);

    let ws = create_test_workspace();
    let result = generate_runtime_plantuml(&ws, &view, "S1");
    assert!(result.contains("note right of A"));
    assert!(result.contains("Important"));
    assert!(result.contains("end note"));
}

#[test]
fn test_generate_activate() {
    let mut view = create_test_view();
    let mut scenario = Scenario::new("S1", "Test");
    scenario.participants.push(Participant {
        element_id: "A".to_string(),
        participant_type: ParticipantType::Participant,
        alias: None,
        color: None,
    });
    scenario.participants.push(Participant {
        element_id: "B".to_string(),
        participant_type: ParticipantType::Participant,
        alias: None,
        color: None,
    });
    scenario.blocks.push(Block::Step(Step {
        order: 1, from: "A".into(), to: "B".into(), message: "call".into(),
        step_type: StepType::Sync, protocol: None, color: None, activate_target: Some(true),
    }));
    view.scenarios.push(scenario);

    let ws = create_test_workspace();
    let result = generate_runtime_plantuml(&ws, &view, "S1");
    assert!(result.contains("activate B"));
}
