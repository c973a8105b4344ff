use vstd::prelude::*;
use crate::model::workspace::Workspace;
use crate::model::c4::context::ContextDiagram;
use crate::model::logic::concept_model::LogicArchitectureConceptModel;
use crate::model::code::code_model::CodeModel;
use crate::model::builds::build_model::BuildModel;
use crate::model::delivery::delivery_model::DeliveryModel;
use crate::model::deployment::deployment_model::DeploymentModel;
use crate::model::runtime::runtime_view::{RuntimeView, Scenario};
use crate::utils::keyed::{has_key, is_first_key};
use crate::generator::plantuml::context::context_plantuml;
use crate::generator::plantuml::concept_model::concept_model_plantuml;
use crate::generator::plantuml::code_model::code_model_plantuml;
use crate::generator::plantuml::build_model::build_model_plantuml;
use crate::generator::plantuml::delivery_model::delivery_model_plantuml;
use crate::generator::plantuml::deployment_model::deployment_model_plantuml;
use crate::generator::plantuml::runtime_view::{runtime_plantuml, scenario_plantuml, missing_scenario_plantuml};
use crate::generator::plantuml::logic_concept::logic_concept_plantuml;
use crate::model::logic::concept::LogicConceptDiagram;

verus! {

/// A PlantUML document: its first line is `@startuml`, its last `@enduml`.
pub open spec fn framed(t: Seq<char>) -> bool {
    &&& t.len() >= 18
    &&& t.take(10) == "@startuml\n"@
    &&& t.skip(t.len() - 8) == "@enduml\n"@
}

proof fn lemma_context_framed(context: ContextDiagram)
    ensures
        framed(context_plantuml(context)),
{
    reveal_strlit("@startuml\n\n");
    reveal_strlit("@startuml\n");
    reveal_strlit("@enduml\n");
    reveal_strlit("\n@enduml\n");
    let t = context_plantuml(context);
    assert(t.take(10) =~= "@startuml\n"@);
    assert(t.skip(t.len() - 8) =~= "@enduml\n"@);
}

proof fn lemma_concept_framed(concept: LogicArchitectureConceptModel)
    ensures
        framed(concept_model_plantuml(concept)),
{
    reveal_strlit("@startuml\n\n");
    reveal_strlit("@startuml\n");
    reveal_strlit("@enduml\n");
    reveal_strlit("\n@enduml\n");
    let t = concept_model_plantuml(concept);
    assert(t.take(10) =~= "@startuml\n"@);
    assert(t.skip(t.len() - 8) =~= "@enduml\n"@);
}

proof fn lemma_code_framed(w: Workspace, code: CodeModel)
    ensures
        framed(code_model_plantuml(w, code)),
{
    reveal_strlit("@startuml\n\n");
    reveal_strlit("@startuml\n");
    reveal_strlit("@enduml\n");
    reveal_strlit("\n@enduml\n");
    let t = code_model_plantuml(w, code);
    assert(t.take(10) =~= "@startuml\n"@);
    assert(t.skip(t.len() - 8) =~= "@enduml\n"@);
}

proof fn lemma_build_framed(w: Workspace, build: BuildModel)
    ensures
        framed(build_model_plantuml(w, build)),
{
    reveal_strlit("@startuml\n\n");
    reveal_strlit("@startuml\n");
    reveal_strlit("@enduml\n");
    reveal_strlit("\n@enduml\n");
    let t = build_model_plantuml(w, build);
    assert(t.take(10) =~= "@startuml\n"@);
    assert(t.skip(t.len() - 8) =~= "@enduml\n"@);
}

proof fn lemma_delivery_framed(w: Workspace, delivery: DeliveryModel)
    ensures
        framed(delivery_model_plantuml(w, delivery)),
{
    reveal_strlit("@startuml\n\n");
    reveal_strlit("@startuml\n");
    reveal_strlit("@enduml\n");
    reveal_strlit("\n@enduml\n");
    let t = delivery_model_plantuml(w, delivery);
    assert(t.take(10) =~= "@startuml\n"@);
    assert(t.skip(t.len() - 8) =~= "@enduml\n"@);
}

proof fn lemma_deployment_framed(w: Workspace, deployment: DeploymentModel, environment: Option<Seq<char>>)
    ensures
        framed(deployment_model_plantuml(w, deployment, environment)),
{
    reveal_strlit("@startuml\n\n");
    reveal_strlit("@startuml\n");
    reveal_strlit("@enduml\n");
    reveal_strlit("\n@enduml\n");
    let t = deployment_model_plantuml(w, deployment, environment);
    assert(t.take(10) =~= "@startuml\n"@);
    assert(t.skip(t.len() - 8) =~= "@enduml\n"@);
}

proof fn lemma_scenario_framed(w: Workspace, sc: Scenario)
    ensures
        framed(scenario_plantuml(w, sc)),
{
    reveal_strlit("@startuml\n\n");
    reveal_strlit("@startuml\n");
    reveal_strlit("@enduml\n");
    reveal_strlit("\n@enduml\n");
    let t = scenario_plantuml(w, sc);
    assert(t.take(10) =~= "@startuml\n"@);
    assert(t.skip(t.len() - 8) =~= "@enduml\n"@);
}

proof fn lemma_missing_framed(runtime: RuntimeView, scenario: Seq<char>)
    ensures
        framed(missing_scenario_plantuml(runtime, scenario)),
{
    reveal_strlit("@startuml\n\n");
    reveal_strlit("@startuml\n");
    reveal_strlit("@enduml\n");
    reveal_strlit("\n@enduml\n");
    let t = missing_scenario_plantuml(runtime, scenario);
    assert(t.take(10) =~= "@startuml\n"@);
    assert(t.skip(t.len() - 8) =~= "@enduml\n"@);
}

proof fn lemma_logic_framed(w: Option<&Workspace>, logic: LogicConceptDiagram, root: Option<Seq<char>>)
    ensures
        framed(logic_concept_plantuml(w, logic, root)),
{
    reveal_strlit("@startuml\n\n");
    reveal_strlit("@startuml\n");
    reveal_strlit("@enduml\n");
    reveal_strlit("\n@enduml\n");
    let t = logic_concept_plantuml(w, logic, root);
    assert(t.take(10) =~= "@startuml\n"@);
    assert(t.skip(t.len() - 8) =~= "@enduml\n"@);
}

/// Every diagram that the generators write is a whole PlantUML document: it
/// begins with `@startuml` and ends with `@enduml`, whatever the model holds,
/// including the diagram for a scenario that the runtime view lacks.
pub proof fn lemma_diagrams_framed(
    w: Workspace,
    context: ContextDiagram,
    concept: LogicArchitectureConceptModel,
    code: CodeModel,
    build: BuildModel,
    delivery: DeliveryModel,
    deployment: DeploymentModel,
    environment: Option<Seq<char>>,
    runtime: RuntimeView,
    scenario: Seq<char>,
    logic: LogicConceptDiagram,
    root: Option<Seq<char>>,
)
    ensures
        framed(context_plantuml(context)),
        framed(concept_model_plantuml(concept)),
        framed(code_model_plantuml(w, code)),
        framed(build_model_plantuml(w, build)),
        framed(delivery_model_plantuml(w, delivery)),
        framed(deployment_model_plantuml(w, deployment, environment)),
        framed(runtime_plantuml(w, runtime, scenario)),
        framed(logic_concept_plantuml(Some(&w), logic, root)),
        framed(logic_concept_plantuml(None, logic, root)),
{
    lemma_logic_framed(Some(&w), logic, root);
    lemma_logic_framed(None, logic, root);
    lemma_context_framed(context);
    lemma_concept_framed(concept);
    lemma_code_framed(w, code);
    lemma_build_framed(w, build);
    lemma_delivery_framed(w, delivery);
    lemma_deployment_framed(w, deployment, environment);
    if has_key(runtime.scenarios@, scenario) {
        lemma_scenario_framed(w, runtime.scenarios@[choose|i: int| is_first_key(runtime.scenarios@, scenario, i)]);
    } else {
        lemma_missing_framed(runtime, scenario);
    }
}

} // verus!
