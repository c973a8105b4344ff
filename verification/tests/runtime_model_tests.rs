use sys_design::model::runtime::{
    RuntimeView, DiagramKind, Scenario, Block, Step, StepType, Group, GroupType, GroupBranch, Participant,
    ParticipantType,
};
use sys_design::model::logic::concept::{LogicConceptDiagram, Subsystem, Component};
use sys_design::model::logic::concept_model::LogicArchitectureConceptModel;

fn step(order: u32, from: &str, to: &str, message: &str, step_type: StepType) -> Step {
    Step {
        order,
        from: from.to_string(),
        to: to.to_string(),
        message: message.to_string(),
        step_type,
        protocol: None,
        color: None,
        activate_target: None,
    }
}

fn scenario_with(blocks: Vec<Block>) -> Scenario {
    Scenario {
        id: "S1".to_string(),
        name: "Test".to_string(),
        description: None,
        participants: Vec::new(),
        blocks,
        notes: Vec::new(),
        dividers: Vec::new(),
    }
}

fn group(group_type: GroupType, label: &str, blocks: Vec<Block>, branches: Vec<GroupBranch>) -> Block {
    Block::Group(Group { group_type, label: label.to_string(), blocks, branches })
}

fn branch(label: &str, blocks: Vec<Block>) -> GroupBranch {
    GroupBranch { label: label.to_string(), blocks }
}

#[test]
fn concept_test_create_diagram() {
    let diagram = LogicConceptDiagram::new("MY_SYSTEM", "My System");
    assert_eq!(diagram.system.id, "MY_SYSTEM");
    assert_eq!(diagram.metadata.title, "My System");
    assert!(diagram.system.subsystems.is_empty());
    assert!(diagram.system.components.is_empty());
}

#[test]
fn test_nested_structure() {
    let mut diagram = LogicConceptDiagram::new("MY_SYSTEM", "My System");
    diagram.system.subsystems.push(Subsystem {
        id: "SUB_SYS".to_string(),
        name: "Sub System".to_string(),
        description: None,
        components: vec![Component {
            id: "COMP".to_string(),
            name: "Component".to_string(),
            description: None,
            modules: vec![],
            exposed_interfaces: vec![],
        }],
    });
    diagram.system.components.push(Component {
        id: "DIRECT_COMP".to_string(),
        name: "Direct Component".to_string(),
        description: None,
        modules: vec![],
        exposed_interfaces: vec![],
    });
    let ids = diagram.all_element_ids();
    assert!(ids.contains(&"MY_SYSTEM"));
    assert!(ids.contains(&"SUB_SYS"));
    assert!(ids.contains(&"COMP"));
    assert!(ids.contains(&"DIRECT_COMP"));
    assert_eq!(ids, vec!["MY_SYSTEM", "SUB_SYS", "COMP", "DIRECT_COMP"]);
    assert_eq!(diagram.get_element_name("COMP"), Some("Component"));
    assert_eq!(diagram.get_element_name("MY_SYSTEM"), Some("MY_SYSTEM"));
    assert_eq!(diagram.get_element_name("NOPE"), None);
}

#[test]
fn test_empty_hierarchy() {
    let model = LogicArchitectureConceptModel::new("Test Model");
    assert!(!model.has_containment("SYSTEM", "SUBSYSTEM"));
}

#[test]
fn test_add_containment() {
    let mut model = LogicArchitectureConceptModel::new("Test Model");
    assert!(model.add_containment("system", "subsystem"));
    assert!(model.has_containment("SYSTEM", "SUBSYSTEM"));
    assert!(model.can_contain("SYSTEM", "SUBSYSTEM"));
    assert!(!model.add_containment("SYSTEM", "SUBSYSTEM"));
    assert!(model.add_containment("subsystem", "component"));
    assert!(model.add_containment("component", "module"));
    assert!(model.can_contain("SUBSYSTEM", "COMPONENT"));
    assert!(model.can_contain("COMPONENT", "MODULE"));
}

#[test]
fn test_get_level() {
    let mut model = LogicArchitectureConceptModel::new("Test Model");
    model.add_containment("system", "subsystem");
    let system_level = model.get_level("SYSTEM");
    assert!(system_level.is_some());
    assert_eq!(system_level.unwrap().name, "system");
}

#[test]
fn test_element_types() {
    let mut model = LogicArchitectureConceptModel::new("Test Model");
    assert!(!model.has_element_type("SUBSYSTEM"));
    assert!(model.add_element_type("subsystem"));
    assert!(model.has_element_type("SUBSYSTEM"));
    assert!(model.has_element_type("subsystem"));
    assert!(!model.add_element_type("SUBSYSTEM"));
    assert!(model.add_element_type("component"));
    let unused = model.get_unused_element_types(&["SUBSYSTEM"]);
    assert_eq!(unused.len(), 1);
    assert_eq!(unused[0], "COMPONENT");
    assert!(model.remove_element_type("component"));
    assert!(!model.has_element_type("COMPONENT"));
}

#[test]
fn test_create_runtime_view() {
    let view = RuntimeView::new("Test Runtime View");
    assert_eq!(view.version, "1.0");
    assert_eq!(view.kind, DiagramKind::RuntimeView);
    assert_eq!(view.metadata.title, "Test Runtime View");
    assert!(view.scenarios.is_empty());
}

#[test]
fn test_find_scenario() {
    let mut view = RuntimeView::new("Test");
    view.scenarios.push(Scenario {
        id: "S1".to_string(),
        name: "Scenario 1".to_string(),
        description: None,
        participants: Vec::new(),
        blocks: Vec::new(),
        notes: Vec::new(),
        dividers: Vec::new(),
    });
    assert!(view.find_scenario("S1").is_some());
    assert!(view.find_scenario("S2").is_none());
}

#[test]
fn test_scenario_max_step_order() {
    let scenario = scenario_with(vec![
        Block::Step(step(5, "A", "B", "msg", StepType::Sync)),
        Block::Step(step(10, "B", "A", "reply", StepType::Return)),
    ]);
    assert_eq!(scenario.max_step_order(), 10);
}

#[test]
fn test_nested_group_max_order() {
    let scenario = scenario_with(vec![
        Block::Step(step(1, "A", "B", "msg", StepType::Sync)),
        group(GroupType::Alt, "result", Vec::new(), vec![
            branch("ok", vec![Block::Step(step(2, "B", "A", "ok", StepType::Return))]),
            branch("err", vec![Block::Step(step(3, "B", "A", "err", StepType::Return))]),
        ]),
    ]);
    assert_eq!(scenario.max_step_order(), 3);
    assert_eq!(scenario.collect_all_steps().len(), 3);
}

#[test]
fn test_max_order_ignores_blocks_of_branched_group() {
    let scenario = scenario_with(vec![
        group(GroupType::Alt, "g", vec![Block::Step(step(9, "A", "B", "hidden", StepType::Sync))],
            vec![branch("b", vec![Block::Step(step(4, "A", "B", "seen", StepType::Sync))])]),
    ]);
    assert_eq!(scenario.max_step_order(), 4);
    let steps = scenario.collect_all_steps();
    assert_eq!(steps.len(), 1);
    assert_eq!(steps[0].message, "seen");
}

#[test]
fn test_empty_scenario_max_order_is_zero() {
    let scenario = scenario_with(Vec::new());
    assert_eq!(scenario.max_step_order(), 0);
    assert!(scenario.collect_all_steps().is_empty());
}

#[test]
fn test_get_target_blocks_mut_top_level() {
    let mut scenario = scenario_with(vec![Block::Step(step(1, "A", "B", "msg", StepType::Sync))]);
    let blocks = scenario.get_target_blocks_mut(None, None).unwrap();
    assert_eq!(blocks.len(), 1);
}

#[test]
fn test_get_target_blocks_mut_group() {
    let mut scenario = scenario_with(vec![group(GroupType::Loop, "retry", Vec::new(), Vec::new())]);
    let blocks = scenario.get_target_blocks_mut(Some("retry"), None).unwrap();
    assert!(blocks.is_empty());
}

#[test]
fn test_get_target_blocks_mut_alt_branch() {
    let mut scenario = scenario_with(vec![group(GroupType::Alt, "result", Vec::new(),
        vec![branch("ok", Vec::new()), branch("err", Vec::new())])]);
    let blocks = scenario.get_target_blocks_mut(Some("result"), Some("ok")).unwrap();
    assert!(blocks.is_empty());
}

#[test]
fn test_get_target_blocks_mut_alt_no_branch_fails() {
    let mut scenario = scenario_with(vec![group(GroupType::Alt, "result", Vec::new(),
        vec![branch("ok", Vec::new())])]);
    assert!(scenario.get_target_blocks_mut(Some("result"), None).is_none());
}

#[test]
fn test_get_target_blocks_mut_non_alt_with_branch_fails() {
    let mut scenario = scenario_with(vec![group(GroupType::Loop, "retry", Vec::new(), Vec::new())]);
    assert!(scenario.get_target_blocks_mut(Some("retry"), Some("x")).is_none());
}

#[test]
fn test_get_target_blocks_mut_writes_into_branch() {
    let mut scenario = scenario_with(vec![group(GroupType::Alt, "result", Vec::new(),
        vec![branch("ok", Vec::new()), branch("err", Vec::new())])]);
    scenario.get_target_blocks_mut(Some("result"), Some("err")).unwrap()
        .push(Block::Step(step(7, "A", "B", "x", StepType::Async)));
    match &scenario.blocks[0] {
        Block::Group(g) => {
            assert!(g.branches[0].blocks.is_empty());
            assert_eq!(g.branches[1].blocks.len(), 1);
        }
        Block::Step(_) => panic!("expected a group"),
    }
    assert!(scenario.get_target_blocks_mut(Some("missing"), None).is_none());
    assert!(scenario.get_target_blocks_mut(Some("result"), Some("nope")).is_none());
}

#[test]
fn test_containment_added_to_existing_level() {
    let mut model = LogicArchitectureConceptModel::new("Test Model");
    assert!(model.add_containment("system", "subsystem"));
    assert!(model.add_containment("System", "component"));
    assert_eq!(model.hierarchy.levels.len(), 1);
    assert_eq!(model.hierarchy.levels[0].can_contain, vec!["SUBSYSTEM".to_string(), "COMPONENT".to_string()]);
    assert!(model.has_containment("system", "Component"));
    assert!(!model.has_containment("system", "module"));
}

#[test]
fn runtime_participant_id_set_counts_distinct_ids() {
    let mut scenario = scenario_with(vec![]);
    for id in ["A", "B", "A", "C", "B"] {
        scenario.participants.push(Participant {
            element_id: id.to_string(),
            participant_type: ParticipantType::Participant,
            alias: None,
            color: None,
        });
    }
    assert_eq!(scenario.participant_id_set(), vec!["A", "B", "C"]);
}

#[test]
fn runtime_max_step_order_is_reached() {
    let scenario = scenario_with(vec![
        Block::Step(step(3, "A", "B", "m", StepType::Sync)),
        group(GroupType::Alt, "g", vec![], vec![branch("x", vec![Block::Step(step(8, "B", "A", "r", StepType::Return))])]),
    ]);
    assert_eq!(scenario.max_step_order(), 8);
}
