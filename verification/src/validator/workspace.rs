use vstd::prelude::*;
use crate::model::workspace::Workspace;
use crate::model::c4::context::element_ids;
use crate::model::logic::concept::{LogicConceptDiagram, system_ids, system_name, str_views};
use crate::model::runtime::runtime_view::{RuntimeView, Scenario, Participant};
use crate::model::code::code_model::{CodeModel, CodePackage};
use crate::model::builds::build_model::{BuildModel, BuildArtifact};
use crate::model::delivery::delivery_model::{DeliveryModel, DeliveryPackage};
use crate::model::deployment::deployment_model::{DeploymentModel, DeployedService};
use crate::validator::result::{ValidationResult, Severity, Finding, finding, findings_of};
use crate::validator::support::{gather, finding_if, report, lemma_gather_step, lemma_gather_all};
use crate::validator::{context_findings, validate, validate_concept_model, validate_logic_concept, validate_runtime_view,
    validate_code_model, validate_build_model, validate_delivery_model, validate_deployment_model};
use crate::validator::concept_model::concept_model_findings;
use crate::validator::runtime_view::runtime_view_findings;
use crate::validator::code_model::code_model_findings;
use crate::validator::build_model::build_model_findings;
use crate::validator::delivery_model::delivery_model_findings;
use crate::validator::deployment_model::deployment_model_findings;
use crate::utils::error::{AppError, ErrorKind, Result, fails_with};
use crate::utils::keyed::{has_key, contains_key};
use crate::utils::text::{concat3, concat4, concat5, opt_view, same_text};
use crate::model::logic::concept_model::LogicArchitectureConceptModel;
use crate::validator::logic_concept::{
    logic_concept_findings, hierarchy_findings, unused_findings, orphan_findings, view_used_types, listed_if,
    uses_components, uses_modules, validate_hierarchy_conformance,
    validate_unused_element_types, validate_orphan_elements, report_unused, any_subsystem_components,
    any_component_modules, any_subsystem_modules,
};

verus! {

/// The IDs that a runtime participant may name: the elements of the context
/// diagram, then those of the logic view.
pub open spec fn static_ids(w: Workspace) -> Seq<Seq<char>> {
    (match w.context_diagram {
        Some(c) => element_ids(c),
        None => Seq::empty(),
    }) + (match w.logic_view {
        Some(l) => seq![l.system.id@] + system_ids(l.system),
        None => Seq::empty(),
    })
}

/// The finding on a participant of scenario `s` that names no static element.
pub open spec fn unknown_participant(ids: Seq<Seq<char>>, s: Scenario) -> spec_fn(int, Participant) -> Seq<Finding> {
    |j: int, p: Participant|
        finding_if(!ids.contains(p.element_id@), finding("R007"@, "ElementReferenceExists"@,
            "Participant '"@ + p.element_id@ + "' in scenario '"@ + s.id@ + "' does not exist in context_diagram or logic_view"@,
            Severity::Error, Some("runtime_view.scenarios."@ + s.id@ + ".participants."@ + p.element_id@)))
}

/// The participant findings of each scenario.
pub open spec fn participant_refs(ids: Seq<Seq<char>>) -> spec_fn(int, Scenario) -> Seq<Finding> {
    |i: int, s: Scenario| gather(s.participants@, unknown_participant(ids, s))
}

/// Whether the logic view of a workspace names an element `id`.
pub open spec fn in_logic_view(w: Workspace, id: Seq<char>) -> bool {
    match w.logic_view {
        Some(l) => l.system.id@ == id || system_name(l.system, id) is Some,
        None => false,
    }
}

/// The finding on a package whose element ID the logic view does not name.
pub open spec fn element_refs(w: Workspace) -> spec_fn(int, CodePackage) -> Seq<Finding> {
    |i: int, p: CodePackage| match opt_view(p.element_id) {
        Some(e) => finding_if(!in_logic_view(w, e), finding("CM010"@, "ElementReferenceExists"@,
            "Package '"@ + p.id@ + "' element_id '"@ + e + "' does not exist in logic_view"@, Severity::Error,
            Some("code_model.packages."@ + p.id@ + ".element_id"@))),
        None => Seq::empty(),
    }
}

/// The findings on the source packages of artifact `a` that the code model lacks.
pub open spec fn unknown_sources(code: CodeModel, a: BuildArtifact) -> spec_fn(int, String) -> Seq<Finding> {
    |j: int, p: String|
        finding_if(!has_key(code.packages@, p@), finding("BM006"@, "SourcePackageReferenceExists"@,
            "Artifact '"@ + a.id@ + "' source_package '"@ + p@ + "' does not exist in code_model"@, Severity::Error,
            Some("build_model.artifacts."@ + a.id@ + ".source_packages"@)))
}

/// The source package findings of each artifact.
pub open spec fn source_refs(code: CodeModel) -> spec_fn(int, BuildArtifact) -> Seq<Finding> {
    |i: int, a: BuildArtifact| gather(a.source_packages@, unknown_sources(code, a))
}

/// The findings on the artifacts of package `p` that the build model lacks.
pub open spec fn unknown_artifacts(build: BuildModel, p: DeliveryPackage) -> spec_fn(int, String) -> Seq<Finding> {
    |j: int, x: String|
        finding_if(!has_key(build.artifacts@, x@), finding("DM006"@, "ArtifactReferenceExists"@,
            "Package '"@ + p.id@ + "' artifact '"@ + x@ + "' does not exist in build_model"@, Severity::Error,
            Some("delivery_model.packages."@ + p.id@ + ".artifacts"@)))
}

/// The artifact findings of each delivery package.
pub open spec fn artifact_refs(build: BuildModel) -> spec_fn(int, DeliveryPackage) -> Seq<Finding> {
    |i: int, p: DeliveryPackage| gather(p.artifacts@, unknown_artifacts(build, p))
}

/// The finding on a service whose delivery package the delivery model lacks.
pub open spec fn package_refs(delivery: DeliveryModel) -> spec_fn(int, DeployedService) -> Seq<Finding> {
    |i: int, s: DeployedService|
        finding_if(!has_key(delivery.packages@, s.delivery_package@), finding("DP020"@,
            "ServiceDeliveryPackageExists"@,
            "Service '"@ + s.id@ + "' delivery_package '"@ + s.delivery_package@ + "' does not exist in delivery_model"@,
            Severity::Error, Some("deployment_model.services."@ + s.id@ + ".delivery_package"@)))
}

/// The element IDs a runtime participant may name.
pub(crate) fn collect_static_ids<'a>(w: &'a Workspace) -> (r: Vec<&'a str>)
    ensures
        str_views(r@) == static_ids(*w),
{
    let mut ids: Vec<&'a str> = Vec::new();
    match &w.context_diagram {
        Some(c) => {
            ids = c.all_element_ids();
            assert(str_views(ids@) =~= ids@.map_values(|s: &str| s@));
        },
        None => {},
    }
    let ghost first = str_views(ids@);
    match &w.logic_view {
        Some(l) => {
            let more = l.all_element_ids();
            let mut k: usize = 0;
            while k < more.len()
                invariant
                    k <= more.len(),
                    str_views(ids@) == first + str_views(more@).take(k as int),
                decreases more.len() - k,
            {
                let ghost before = ids@;
                ids.push(more[k]);
                assert(str_views(ids@) =~= str_views(before).push(more@[k as int]@));
                assert(str_views(more@).take(k + 1) =~= str_views(more@).take(k as int).push(more@[k as int]@));
                k = k + 1;
            }
            assert(str_views(more@).take(more@.len() as int) =~= str_views(more@));
        },
        None => {},
    }
    assert(str_views(ids@) =~= static_ids(*w));
    ids
}

/// Whether some text of `ids` equals `x`.
pub(crate) fn lists(ids: &Vec<&str>, x: &String) -> (r: bool)
    ensures
        r == str_views(ids@).contains(x@),
{
    let ghost views = str_views(ids@);
    let mut k: usize = 0;
    while k < ids.len()
        invariant
            k <= ids.len(),
            views == str_views(ids@),
            forall|j: int| 0 <= j < k ==> views[j] != x@,
        decreases ids.len() - k,
    {
        let item = String::from_str(ids[k]);
        if same_text(&item, x) {
            assert(views[k as int] == x@);
            return true;
        }
        k = k + 1;
    }
    false
}

/// Reports each runtime participant that names no element of the context
/// diagram or the logic view.
pub fn validate_runtime_participant_references(workspace: &Workspace, view: &RuntimeView, result: &mut ValidationResult)
    ensures
        old(result).wf() ==> final(result).wf(),
        findings_of(final(result).errors@) == findings_of(old(result).errors@)
            + gather(view.scenarios@, participant_refs(static_ids(*workspace))),
{
    let ghost was_wf = result.wf();
    let ids = collect_static_ids(workspace);
    let ghost all = static_ids(*workspace);
    let ghost check = participant_refs(all);
    let ghost base = findings_of(result.errors@);
    let mut i: usize = 0;
    while i < view.scenarios.len()
        invariant
            i <= view.scenarios.len(),
            was_wf ==> result.wf(),
            all == static_ids(*workspace),
            str_views(ids@) == all,
            check == participant_refs(all),
            findings_of(result.errors@) == base + gather(view.scenarios@.take(i as int), check),
        decreases view.scenarios.len() - i,
    {
        proof {
            lemma_gather_step(view.scenarios@, check, i as int);
        }
        let s = &view.scenarios[i];
        let ghost before = findings_of(result.errors@);
        let ghost inner = unknown_participant(all, *s);
        let mut j: usize = 0;
        while j < s.participants.len()
            invariant
                j <= s.participants.len(),
                was_wf ==> result.wf(),
                str_views(ids@) == all,
                inner == unknown_participant(all, *s),
                findings_of(result.errors@) == before + gather(s.participants@.take(j as int), inner),
            decreases s.participants.len() - j,
        {
            proof {
                lemma_gather_step(s.participants@, inner, j as int);
            }
            let p = &s.participants[j];
            let ghost b2 = findings_of(result.errors@);
            if !lists(&ids, &p.element_id) {
                let head = concat5("Participant '", p.element_id.as_str(), "' in scenario '", s.id.as_str(),
                    "' does not exist in context_diagram or logic_view");
                report(result, "R007", "ElementReferenceExists", head, Severity::Error,
                    Some(concat4("runtime_view.scenarios.", s.id.as_str(), ".participants.", p.element_id.as_str())));
            }
            assert(findings_of(result.errors@) =~= b2 + inner(j as int, s.participants@[j as int]));
            j = j + 1;
        }
        proof {
            lemma_gather_all(s.participants@, inner);
        }
        i = i + 1;
    }
    proof {
        lemma_gather_all(view.scenarios@, check);
    }
}

/// Reports each package whose element ID the logic view does not name.
pub fn validate_code_model_element_references(workspace: &Workspace, model: &CodeModel, result: &mut ValidationResult)
    ensures
        old(result).wf() ==> final(result).wf(),
        findings_of(final(result).errors@) == findings_of(old(result).errors@)
            + gather(model.packages@, element_refs(*workspace)),
{
    let ghost was_wf = result.wf();
    let ghost check = element_refs(*workspace);
    let ghost base = findings_of(result.errors@);
    let mut i: usize = 0;
    while i < model.packages.len()
        invariant
            i <= model.packages.len(),
            was_wf ==> result.wf(),
            check == element_refs(*workspace),
            findings_of(result.errors@) == base + gather(model.packages@.take(i as int), check),
        decreases model.packages.len() - i,
    {
        proof {
            lemma_gather_step(model.packages@, check, i as int);
        }
        let p = &model.packages[i];
        let ghost before = findings_of(result.errors@);
        match &p.element_id {
            Some(e) => {
                let found = match &workspace.logic_view {
                    Some(l) => l.get_element_name(e.as_str()).is_some(),
                    None => false,
                };
                if !found {
                    report(result, "CM010", "ElementReferenceExists",
                        concat5("Package '", p.id.as_str(), "' element_id '", e.as_str(), "' does not exist in logic_view"),
                        Severity::Error, Some(concat3("code_model.packages.", p.id.as_str(), ".element_id")));
                }
            },
            None => {},
        }
        assert(findings_of(result.errors@) =~= before + check(i as int, model.packages@[i as int]));
        i = i + 1;
    }
    proof {
        lemma_gather_all(model.packages@, check);
    }
}

/// Reports each source package of an artifact that the code model lacks
/// (nothing without a code model).
pub fn validate_build_model_source_references(workspace: &Workspace, model: &BuildModel, result: &mut ValidationResult)
    ensures
        old(result).wf() ==> final(result).wf(),
        findings_of(final(result).errors@) == findings_of(old(result).errors@) + match workspace.code_model {
            Some(code) => gather(model.artifacts@, source_refs(code)),
            None => Seq::empty(),
        },
{
    let ghost was_wf = result.wf();
    let ghost base = findings_of(result.errors@);
    let code = match &workspace.code_model {
        Some(c) => c,
        None => {
            assert(findings_of(result.errors@) =~= base + Seq::<Finding>::empty());
            return;
        },
    };
    let ghost check = source_refs(*code);
    let mut i: usize = 0;
    while i < model.artifacts.len()
        invariant
            i <= model.artifacts.len(),
            was_wf ==> result.wf(),
            check == source_refs(*code),
            findings_of(result.errors@) == base + gather(model.artifacts@.take(i as int), check),
        decreases model.artifacts.len() - i,
    {
        proof {
            lemma_gather_step(model.artifacts@, check, i as int);
        }
        let a = &model.artifacts[i];
        let ghost before = findings_of(result.errors@);
        let ghost inner = unknown_sources(*code, *a);
        let mut j: usize = 0;
        while j < a.source_packages.len()
            invariant
                j <= a.source_packages.len(),
                was_wf ==> result.wf(),
                inner == unknown_sources(*code, *a),
                findings_of(result.errors@) == before + gather(a.source_packages@.take(j as int), inner),
            decreases a.source_packages.len() - j,
        {
            proof {
                lemma_gather_step(a.source_packages@, inner, j as int);
            }
            let pkg = &a.source_packages[j];
            let ghost b2 = findings_of(result.errors@);
            if !contains_key(&code.packages, pkg) {
                report(result, "BM006", "SourcePackageReferenceExists",
                    concat5("Artifact '", a.id.as_str(), "' source_package '", pkg.as_str(), "' does not exist in code_model"),
                    Severity::Error, Some(concat3("build_model.artifacts.", a.id.as_str(), ".source_packages")));
            }
            assert(findings_of(result.errors@) =~= b2 + inner(j as int, a.source_packages@[j as int]));
            j = j + 1;
        }
        proof {
            lemma_gather_all(a.source_packages@, inner);
        }
        i = i + 1;
    }
    proof {
        lemma_gather_all(model.artifacts@, check);
    }
}

/// Reports each artifact of a delivery package that the build model lacks
/// (nothing without a build model).
pub fn validate_delivery_model_artifact_references(workspace: &Workspace, model: &DeliveryModel, result: &mut ValidationResult)
    ensures
        old(result).wf() ==> final(result).wf(),
        findings_of(final(result).errors@) == findings_of(old(result).errors@) + match workspace.build_model {
            Some(build) => gather(model.packages@, artifact_refs(build)),
            None => Seq::empty(),
        },
{
    let ghost was_wf = result.wf();
    let ghost base = findings_of(result.errors@);
    let build = match &workspace.build_model {
        Some(b) => b,
        None => {
            assert(findings_of(result.errors@) =~= base + Seq::<Finding>::empty());
            return;
        },
    };
    let ghost check = artifact_refs(*build);
    let mut i: usize = 0;
    while i < model.packages.len()
        invariant
            i <= model.packages.len(),
            was_wf ==> result.wf(),
            check == artifact_refs(*build),
            findings_of(result.errors@) == base + gather(model.packages@.take(i as int), check),
        decreases model.packages.len() - i,
    {
        proof {
            lemma_gather_step(model.packages@, check, i as int);
        }
        let p = &model.packages[i];
        let ghost before = findings_of(result.errors@);
        let ghost inner = unknown_artifacts(*build, *p);
        let mut j: usize = 0;
        while j < p.artifacts.len()
            invariant
                j <= p.artifacts.len(),
                was_wf ==> result.wf(),
                inner == unknown_artifacts(*build, *p),
                findings_of(result.errors@) == before + gather(p.artifacts@.take(j as int), inner),
            decreases p.artifacts.len() - j,
        {
            proof {
                lemma_gather_step(p.artifacts@, inner, j as int);
            }
            let art = &p.artifacts[j];
            let ghost b2 = findings_of(result.errors@);
            if !contains_key(&build.artifacts, art) {
                report(result, "DM006", "ArtifactReferenceExists",
                    concat5("Package '", p.id.as_str(), "' artifact '", art.as_str(), "' does not exist in build_model"),
                    Severity::Error, Some(concat3("delivery_model.packages.", p.id.as_str(), ".artifacts")));
            }
            assert(findings_of(result.errors@) =~= b2 + inner(j as int, p.artifacts@[j as int]));
            j = j + 1;
        }
        proof {
            lemma_gather_all(p.artifacts@, inner);
        }
        i = i + 1;
    }
    proof {
        lemma_gather_all(model.packages@, check);
    }
}

/// Reports each service whose delivery package the delivery model lacks
/// (nothing without a delivery model).
pub fn validate_deployment_service_delivery_references(
    workspace: &Workspace,
    model: &DeploymentModel,
    result: &mut ValidationResult,
)
    ensures
        old(result).wf() ==> final(result).wf(),
        findings_of(final(result).errors@) == findings_of(old(result).errors@) + match workspace.delivery_model {
            Some(delivery) => gather(model.services@, package_refs(delivery)),
            None => Seq::empty(),
        },
{
    let ghost was_wf = result.wf();
    let ghost base = findings_of(result.errors@);
    let delivery = match &workspace.delivery_model {
        Some(d) => d,
        None => {
            assert(findings_of(result.errors@) =~= base + Seq::<Finding>::empty());
            return;
        },
    };
    let ghost check = package_refs(*delivery);
    let mut i: usize = 0;
    while i < model.services.len()
        invariant
            i <= model.services.len(),
            was_wf ==> result.wf(),
            check == package_refs(*delivery),
            findings_of(result.errors@) == base + gather(model.services@.take(i as int), check),
        decreases model.services.len() - i,
    {
        proof {
            lemma_gather_step(model.services@, check, i as int);
        }
        let s = &model.services[i];
        let ghost before = findings_of(result.errors@);
        if !contains_key(&delivery.packages, &s.delivery_package) {
            report(result, "DP020", "ServiceDeliveryPackageExists",
                concat5("Service '", s.id.as_str(), "' delivery_package '", s.delivery_package.as_str(),
                    "' does not exist in delivery_model"), Severity::Error,
                Some(concat3("deployment_model.services.", s.id.as_str(), ".delivery_package")));
        }
        assert(findings_of(result.errors@) =~= before + check(i as int, model.services@[i as int]));
        i = i + 1;
    }
    proof {
        lemma_gather_all(model.services@, check);
    }
}

/// The model of a workspace that a validation run checks.
#[derive(Debug, Clone, Copy, PartialEq, Eq, Structural)]
pub enum DiagramType {
    Context,
    ConceptModel,
    LogicView,
    RuntimeView,
    CodeModel,
    BuildModel,
    DeliveryModel,
    DeploymentModel,
}

/// The findings of a validation run on a workspace, or none when the
/// requested model is missing: the model's own findings, then those on its
/// references into the other models.
pub open spec fn requested_findings(w: Workspace, t: DiagramType) -> Option<Seq<Finding>> {
    match t {
        DiagramType::Context => match w.context_diagram {
            Some(d) => Some(context_findings(d)),
            None => None,
        },
        DiagramType::ConceptModel => match w.logic_architecture_concept_model {
            Some(m) => Some(concept_model_findings(m)),
            None => None,
        },
        DiagramType::LogicView => match w.logic_view {
            Some(v) => Some(match w.logic_architecture_concept_model {
                Some(m) => conformance_findings(v, m),
                None => logic_concept_findings(v),
            }),
            None => None,
        },
        DiagramType::RuntimeView => match w.runtime_view {
            Some(v) => Some(runtime_view_findings(v) + gather(v.scenarios@, participant_refs(static_ids(w)))),
            None => None,
        },
        DiagramType::CodeModel => match w.code_model {
            Some(m) => Some(code_model_findings(m) + gather(m.packages@, element_refs(w))),
            None => None,
        },
        DiagramType::BuildModel => match w.build_model {
            Some(m) => Some(build_model_findings(m) + match w.code_model {
                Some(code) => gather(m.artifacts@, source_refs(code)),
                None => Seq::empty(),
            }),
            None => None,
        },
        DiagramType::DeliveryModel => match w.delivery_model {
            Some(m) => Some(delivery_model_findings(m) + match w.build_model {
                Some(build) => gather(m.packages@, artifact_refs(build)),
                None => Seq::empty(),
            }),
            None => None,
        },
        DiagramType::DeploymentModel => match w.deployment_model {
            Some(m) => Some(deployment_model_findings(m) + match w.delivery_model {
                Some(delivery) => gather(m.services@, package_refs(delivery)),
                None => Seq::empty(),
            }),
            None => None,
        },
    }
}

/// The element types that a workspace instantiates: the system when it has
/// a context diagram; subsystems, components and modules when its logic view
/// holds them; submodules when the logic view lists submodule IDs.
pub open spec fn workspace_used_types(w: Workspace) -> Seq<Seq<char>> {
    listed_if(w.context_diagram is Some, "SYSTEM"@) + match w.logic_view {
        Some(v) => listed_if(v.system.subsystems@.len() > 0, "SUBSYSTEM"@)
            + listed_if(uses_components(v.system), "COMPONENT"@)
            + listed_if(uses_modules(v.system), "MODULE"@)
            + listed_if(v.submodule_ids@.len() > 0, "SUBMODULE"@),
        None => Seq::empty(),
    }
}

/// The findings that every validation run adds after those of the requested
/// model: with a concept model, its element types that the workspace does not
/// instantiate; with a logic view as well, its orphan elements.
pub open spec fn workspace_findings(w: Workspace) -> Seq<Finding> {
    match w.logic_architecture_concept_model {
        Some(m) => unused_findings(m, workspace_used_types(w)) + match w.logic_view {
            Some(v) => orphan_findings(v, m),
            None => Seq::empty(),
        },
        None => Seq::empty(),
    }
}

/// The findings of a validation run on a workspace, or none when the
/// requested model is missing.
pub open spec fn target_findings(w: Workspace, t: DiagramType) -> Option<Seq<Finding>> {
    match requested_findings(w, t) {
        Some(f) => Some(f + workspace_findings(w)),
        None => None,
    }
}

/// The message when the requested model is missing.
pub open spec fn missing_message(t: DiagramType) -> Seq<char> {
    match t {
        DiagramType::Context => "context_diagram not found in workspace"@,
        DiagramType::ConceptModel => "logic_architecture_concept_model not found in workspace"@,
        DiagramType::LogicView => "logic_view not found in workspace"@,
        DiagramType::RuntimeView => "runtime_view not found in workspace"@,
        DiagramType::CodeModel => "code_model not found in workspace"@,
        DiagramType::BuildModel => "build_model not found in workspace"@,
        DiagramType::DeliveryModel => "delivery_model not found in workspace"@,
        DiagramType::DeploymentModel => "deployment_model not found in workspace"@,
    }
}

/// Appends the findings of another result.
fn absorb(result: &mut ValidationResult, other: ValidationResult)
    requires
        other.wf(),
    ensures
        old(result).wf() ==> final(result).wf(),
        findings_of(final(result).errors@) == findings_of(old(result).errors@) + findings_of(other.errors@),
{
    let ghost a = result.errors@;
    let ghost b = other.errors@;
    result.merge(other);
    assert(findings_of(a + b) =~= findings_of(a) + findings_of(b));
}

/// All findings on a logic view checked against a concept model: its own
/// findings, then hierarchy conformance, then the element types it does not
/// instantiate, then its orphan elements.
pub open spec fn conformance_findings(v: LogicConceptDiagram, m: LogicArchitectureConceptModel) -> Seq<Finding> {
    logic_concept_findings(v) + hierarchy_findings(v, m) + unused_findings(m, view_used_types(v)) + orphan_findings(v, m)
}

/// Checks a logic view on its own and against a concept model.
pub fn validate_logic_view_against_concept_model(
    logic_view: &LogicConceptDiagram,
    concept_model: &LogicArchitectureConceptModel,
) -> (r: ValidationResult)
    ensures
        r.wf(),
        findings_of(r.errors@) == conformance_findings(*logic_view, *concept_model),
{
    let mut result = validate_logic_concept(logic_view);
    validate_hierarchy_conformance(logic_view, concept_model, &mut result);
    validate_unused_element_types(logic_view, concept_model, &mut result);
    validate_orphan_elements(logic_view, concept_model, &mut result);
    result
}

/// Adds a type name to the used types when `b` holds.
fn note_type<'a>(used: &mut Vec<&'a str>, b: bool, t: &'a str)
    ensures
        str_views(final(used)@) == str_views(old(used)@) + listed_if(b, t@),
{
    let ghost prev = used@;
    if b {
        used.push(t);
    }
    assert(str_views(used@) =~= str_views(prev) + listed_if(b, t@));
}

/// Reports each element type of the concept model that the workspace does
/// not instantiate.
pub fn validate_workspace_unused_elements(
    workspace: &Workspace,
    concept_model: &LogicArchitectureConceptModel,
    result: &mut ValidationResult,
)
    ensures
        old(result).wf() ==> final(result).wf(),
        findings_of(final(result).errors@) == findings_of(old(result).errors@)
            + unused_findings(*concept_model, workspace_used_types(*workspace)),
{
    let mut used: Vec<&str> = Vec::new();
    assert(str_views(used@) =~= Seq::<Seq<char>>::empty());
    note_type(&mut used, workspace.context_diagram.is_some(), "SYSTEM");
    match &workspace.logic_view {
        Some(v) => {
            let sys = &v.system;
            note_type(&mut used, sys.subsystems.len() > 0, "SUBSYSTEM");
            note_type(&mut used, sys.components.len() > 0 || any_subsystem_components(&sys.subsystems), "COMPONENT");
            let has_modules = sys.modules.len() > 0 || any_component_modules(&sys.components)
                || any_subsystem_modules(&sys.subsystems);
            note_type(&mut used, has_modules, "MODULE");
            note_type(&mut used, v.submodule_ids.len() > 0, "SUBMODULE");
        },
        None => {},
    }
    assert(str_views(used@) =~= workspace_used_types(*workspace));
    report_unused(concept_model, &used, result);
}

/// Validates the requested model of a workspace, with the references it
/// makes into the other models.
pub fn validate_from_workspace(workspace: &Workspace, diagram_type: DiagramType) -> (r: Result<ValidationResult>)
    ensures
        match r {
            Ok(v) => v.wf() && target_findings(*workspace, diagram_type) == Some(findings_of(v.errors@)),
            Err(e) => {
                &&& target_findings(*workspace, diagram_type) is None
                &&& fails_with(r, ErrorKind::ElementNotFound, missing_message(diagram_type))
            },
        },
{
    let w = workspace;
    let mut result = ValidationResult::new();
    assert(findings_of(result.errors@) =~= Seq::<Finding>::empty());
    match diagram_type {
        DiagramType::Context => match &w.context_diagram {
            Some(d) => absorb(&mut result, validate(d)),
            None => {
                return Err(AppError::ElementNotFound(String::from_str("context_diagram not found in workspace")));
            },
        },
        DiagramType::ConceptModel => match &w.logic_architecture_concept_model {
            Some(m) => absorb(&mut result, validate_concept_model(m)),
            None => {
                return Err(AppError::ElementNotFound(
                    String::from_str("logic_architecture_concept_model not found in workspace"),
                ));
            },
        },
        DiagramType::LogicView => match &w.logic_view {
            Some(v) => match &w.logic_architecture_concept_model {
                Some(m) => absorb(&mut result, validate_logic_view_against_concept_model(v, m)),
                None => absorb(&mut result, validate_logic_concept(v)),
            },
            None => {
                return Err(AppError::ElementNotFound(String::from_str("logic_view not found in workspace")));
            },
        },
        DiagramType::RuntimeView => match &w.runtime_view {
            Some(v) => {
                absorb(&mut result, validate_runtime_view(v));
                validate_runtime_participant_references(w, v, &mut result);
            },
            None => {
                return Err(AppError::ElementNotFound(String::from_str("runtime_view not found in workspace")));
            },
        },
        DiagramType::CodeModel => match &w.code_model {
            Some(m) => {
                absorb(&mut result, validate_code_model(m));
                validate_code_model_element_references(w, m, &mut result);
            },
            None => {
                return Err(AppError::ElementNotFound(String::from_str("code_model not found in workspace")));
            },
        },
        DiagramType::BuildModel => match &w.build_model {
            Some(m) => {
                absorb(&mut result, validate_build_model(m));
                validate_build_model_source_references(w, m, &mut result);
            },
            None => {
                return Err(AppError::ElementNotFound(String::from_str("build_model not found in workspace")));
            },
        },
        DiagramType::DeliveryModel => match &w.delivery_model {
            Some(m) => {
                absorb(&mut result, validate_delivery_model(m));
                validate_delivery_model_artifact_references(w, m, &mut result);
            },
            None => {
                return Err(AppError::ElementNotFound(String::from_str("delivery_model not found in workspace")));
            },
        },
        DiagramType::DeploymentModel => match &w.deployment_model {
            Some(m) => {
                absorb(&mut result, validate_deployment_model(m));
                validate_deployment_service_delivery_references(w, m, &mut result);
            },
            None => {
                return Err(AppError::ElementNotFound(String::from_str("deployment_model not found in workspace")));
            },
        },
    }
    let ghost own = findings_of(result.errors@);
    if let Some(m) = &w.logic_architecture_concept_model {
        validate_workspace_unused_elements(w, m, &mut result);
    }
    if let (Some(v), Some(m)) = (&w.logic_view, &w.logic_architecture_concept_model) {
        validate_orphan_elements(v, m, &mut result);
    }
    assert(findings_of(result.errors@) =~= own + workspace_findings(*w));
    Ok(result)
}

} // verus!
