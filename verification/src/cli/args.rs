use vstd::prelude::*;
use crate::model::c4::context::{ActorType, Protocol};
use crate::model::runtime::runtime_view::{ParticipantType, StepType, GroupType, NotePosition};
use crate::model::code::code_model::Language;
use crate::model::builds::build_model::{BuildTool, OutputType, BuildProfile};
use crate::model::delivery::delivery_model::DeliveryType;
use crate::model::deployment::deployment_model::NodeType;

verus! {

/// Adds an element or a relation to the context model.
pub enum AddCommand {
    System { id: String, name: Option<String>, desc: Option<String> },
    Actor { id: String, name: Option<String>, desc: Option<String>, actor_type: ActorType },
    ExternalSystem { id: String, name: Option<String>, desc: Option<String>, tech: Option<String> },
    Interface { id: String, name: Option<String>, desc: Option<String>, protocol: Protocol },
    ProvideRelation { system_id: String, interface_id: String },
    InterfaceUsage { actor_id: String, interface_id: String },
}

/// Removes an element or a relation from the context model.
pub enum RemoveCommand {
    Actor { id: String },
    ExternalSystem { id: String },
    Interface { id: String },
    ProvideRelation { system_id: String, interface_id: String },
    InterfaceUsage { actor_id: String, interface_id: String },
}

/// Adds an element type, a containment rule or a hierarchy level to the concept model.
pub enum ConceptModelAddCommand {
    Element { element_type: String },
    Containment { parent: String, child: String },
    Level { id: String, name: Option<String>, desc: Option<String>, can_contain: Vec<String> },
}

/// Removes an element type or a hierarchy level from the concept model.
pub enum ConceptModelRemoveCommand {
    Element { element_type: String },
    Level { id: String },
}

/// Adds an element or a relation to the logic view.
pub enum LogicAddCommand {
    System { id: String, name: Option<String>, desc: Option<String> },
    Subsystem { id: String, name: Option<String>, desc: Option<String> },
    Component { id: String, name: Option<String>, desc: Option<String>, subsystem: Option<String> },
    Module { id: String, name: Option<String>, desc: Option<String> },
    Submodule { id: String, name: Option<String>, desc: Option<String> },
    Element { type_label: String, id: String, name: Option<String>, desc: Option<String> },
    Interface { id: String, name: Option<String>, desc: Option<String> },
    ProvideRelation { element_id: String, interface_id: String },
    Containment { parent_id: String, child_id: String },
    Dependency { module_id: String, interface_id: String },
    Expose { component_id: String, interface_id: String },
}

/// Adds a scenario, or a participant, step, group, note or divider to one.
pub enum RuntimeAddCommand {
    Scenario { id: String, name: Option<String>, desc: Option<String> },
    Participant {
        scenario_id: String,
        element_id: String,
        participant_type: ParticipantType,
        alias: Option<String>,
        color: Option<String>,
    },
    Step {
        scenario_id: String,
        from: String,
        to: String,
        message: String,
        step_type: StepType,
        protocol: Option<String>,
        color: Option<String>,
        activate: Option<bool>,
        group: Option<String>,
        branch: Option<String>,
    },
    Group {
        scenario_id: String,
        group_type: GroupType,
        label: String,
        branches: Vec<String>,
        group: Option<String>,
        branch: Option<String>,
    },
    Note { scenario_id: String, position: NotePosition, target: String, text: String },
    Divider { scenario_id: String, label: String, after_order: u32 },
}

/// Removes a scenario, or a participant, step, group, note or divider from one.
pub enum RuntimeRemoveCommand {
    Scenario { id: String },
    Participant { scenario_id: String, element_id: String },
    Step { scenario_id: String, order: u32, group: Option<String>, branch: Option<String> },
    Group { scenario_id: String, label: String, group: Option<String>, branch: Option<String> },
    Note { scenario_id: String, index: usize },
    Divider { scenario_id: String, index: usize },
}

/// The diagram to generate.
pub enum GenerateCommand {
    ContextModelDiagram,
    ConceptModelDiagram,
    LogicModelDiagram { root: Option<String> },
    RuntimeModelDiagram { scenario_id: Option<String> },
    CodeModelDiagram,
    BuildModelDiagram,
    DeliveryModelDiagram,
    DeploymentModelDiagram { environment_id: Option<String> },
}

/// Adds a package or a dependency to the code model.
pub enum CodeModelAddCommand {
    Package {
        id: String,
        name: Option<String>,
        desc: Option<String>,
        language: Option<Language>,
        framework: Option<String>,
        path: Option<String>,
        element_id: Option<String>,
    },
    Dependency { from: String, to: String },
}

/// Removes a package or a dependency from the code model.
pub enum CodeModelRemoveCommand {
    Package { id: String },
    Dependency { from: String, to: String },
}

/// Adds an artifact or a dependency to the build model.
pub enum BuildModelAddCommand {
    Artifact {
        id: String,
        name: Option<String>,
        desc: Option<String>,
        build_tool: Option<BuildTool>,
        output_type: Option<OutputType>,
        source_packages: Vec<String>,
        build_file: Option<String>,
        profile: Option<BuildProfile>,
        build_args: Option<String>,
    },
    Dependency { from: String, to: String },
}

/// Removes an artifact or a dependency from the build model.
pub enum BuildModelRemoveCommand {
    Artifact { id: String },
    Dependency { from: String, to: String },
}

/// Adds a package to the delivery model.
pub enum DeliveryModelAddCommand {
    Package {
        id: String,
        name: Option<String>,
        desc: Option<String>,
        version: Option<String>,
        delivery_type: Option<DeliveryType>,
        artifacts: Vec<String>,
        registry: Option<String>,
    },
}

/// Removes a package from the delivery model.
pub enum DeliveryModelRemoveCommand {
    Package { id: String },
}

/// Adds an environment, node, service or network link to the deployment model.
pub enum DeploymentModelAddCommand {
    Environment { id: String, name: Option<String>, desc: Option<String> },
    Node {
        id: String,
        name: Option<String>,
        desc: Option<String>,
        node_type: Option<NodeType>,
        environment: Option<String>,
        technology: Option<String>,
    },
    Service {
        id: String,
        name: Option<String>,
        desc: Option<String>,
        delivery_package: String,
        target_node: String,
        replicas: Option<u32>,
        port: Option<u16>,
    },
    NetworkLink { id: String, from: String, to: String, protocol: Option<String>, port: Option<u16>, desc: Option<String> },
}

/// Removes an environment, node, service or network link from the deployment model.
pub enum DeploymentModelRemoveCommand {
    Environment { id: String },
    Node { id: String },
    Service { id: String },
    NetworkLink { id: String },
}

/// What the context model's `list` command shows.
#[derive(Debug, Clone, Copy, PartialEq, Eq, Structural)]
pub enum ListElement {
    System,
    Actors,
    ExternalSystems,
    Interfaces,
    Relations,
}

/// What the logic model's `list` command shows.
#[derive(Debug, Clone, Copy, PartialEq, Eq, Structural)]
pub enum LogicListElement {
    System,
    Subsystems,
    Components,
    Modules,
    Interfaces,
    Dependencies,
}

/// What the runtime model's `list` command shows.
#[derive(Debug, Clone, Copy, PartialEq, Eq, Structural)]
pub enum RuntimeListElement {
    Scenarios,
    Participants,
    Steps,
    Groups,
}

/// What the code model's `list` command shows.
#[derive(Debug, Clone, Copy, PartialEq, Eq, Structural)]
pub enum CodeModelListElement {
    Packages,
    Dependencies,
}

/// What the build model's `list` command shows.
#[derive(Debug, Clone, Copy, PartialEq, Eq, Structural)]
pub enum BuildModelListElement {
    Artifacts,
    Dependencies,
}

/// What the delivery model's `list` command shows.
#[derive(Debug, Clone, Copy, PartialEq, Eq, Structural)]
pub enum DeliveryModelListElement {
    Packages,
}

/// What the deployment model's `list` command shows.
#[derive(Debug, Clone, Copy, PartialEq, Eq, Structural)]
pub enum DeploymentModelListElement {
    Environments,
    Nodes,
    Services,
    NetworkLinks,
}

} // verus!
