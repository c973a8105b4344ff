use vstd::prelude::*;
use crate::model::deployment::deployment_model::{
    DeploymentModel, Environment, DeploymentNode, DeployedService, NetworkLink,
};
use crate::validator::result::{ValidationResult, Severity, Finding, finding, findings_of};
use crate::validator::support::{gather, finding_if, report, lemma_gather_step, lemma_gather_all, upper_snake, is_upper_snake};
use crate::utils::keyed::{has_key, contains_key, key_before};
use crate::utils::text::{concat2, concat3, concat4, concat5, is_blank, opt_view};

verus! {

/// Whether `id` is the non-empty ID of some element of `s`.
pub open spec fn known<T: crate::utils::keyed::Keyed>(s: Seq<T>, id: Seq<char>) -> bool {
    id.len() != 0 && has_key(s, id)
}

/// The finding on an ID that is not in upper snake case.
pub open spec fn id_naming(what: Seq<char>, id: Seq<char>, loc: Seq<char>) -> Seq<Finding> {
    finding_if(id.len() != 0 && !upper_snake(id), finding("DP012"@, "IdNaming"@,
        what + " ID '"@ + id + "' does not follow UPPER_SNAKE_CASE convention"@, Severity::Warning, Some(loc + ".id"@)))
}

/// The findings on environment `i`.
pub open spec fn environment_findings(es: Seq<Environment>) -> spec_fn(int, Environment) -> Seq<Finding> {
    |i: int, e: Environment| {
        let loc = "environments."@ + e.id@;
        finding_if(e.id@.len() == 0, finding("DP001"@, "EnvironmentRequiredFields"@, "Environment ID cannot be empty"@,
            Severity::Error, Some(loc)))
        + finding_if(e.name@.len() == 0, finding("DP001"@, "EnvironmentRequiredFields"@,
            "Environment '"@ + e.id@ + "' name cannot be empty"@, Severity::Error, Some(loc + ".name"@)))
        + finding_if(e.id@.len() != 0 && has_key(es.take(i), e.id@), finding("DP005"@, "EnvironmentIdUniqueness"@,
            "Duplicate environment ID: "@ + e.id@, Severity::Error, Some(loc)))
        + id_naming("Environment"@, e.id@, loc)
    }
}

/// The findings on node `i`.
pub open spec fn node_findings(m: DeploymentModel) -> spec_fn(int, DeploymentNode) -> Seq<Finding> {
    |i: int, n: DeploymentNode| {
        let loc = "nodes."@ + n.id@;
        finding_if(n.id@.len() == 0, finding("DP002"@, "NodeRequiredFields"@, "Node ID cannot be empty"@,
            Severity::Error, Some(loc)))
        + finding_if(n.name@.len() == 0, finding("DP002"@, "NodeRequiredFields"@,
            "Node '"@ + n.id@ + "' name cannot be empty"@, Severity::Error, Some(loc + ".name"@)))
        + finding_if(n.id@.len() != 0 && has_key(m.nodes@.take(i), n.id@), finding("DP006"@, "NodeIdUniqueness"@,
            "Duplicate node ID: "@ + n.id@, Severity::Error, Some(loc)))
        + (match opt_view(n.environment) {
            Some(e) => finding_if(e.len() != 0 && !has_key(m.environments@, e), finding("DP009"@,
                "NodeEnvironmentReference"@,
                "Node '"@ + n.id@ + "' references non-existent environment '"@ + e + "'"@, Severity::Error,
                Some(loc + ".environment"@))),
            None => Seq::empty(),
        })
        + id_naming("Node"@, n.id@, loc)
    }
}

/// The findings on service `i`.
pub open spec fn service_findings(m: DeploymentModel) -> spec_fn(int, DeployedService) -> Seq<Finding> {
    |i: int, s: DeployedService| {
        let loc = "services."@ + s.id@;
        finding_if(s.id@.len() == 0, finding("DP003"@, "ServiceRequiredFields"@, "Service ID cannot be empty"@,
            Severity::Error, Some(loc)))
        + finding_if(s.name@.len() == 0, finding("DP003"@, "ServiceRequiredFields"@,
            "Service '"@ + s.id@ + "' name cannot be empty"@, Severity::Error, Some(loc + ".name"@)))
        + finding_if(s.delivery_package@.len() == 0, finding("DP003"@, "ServiceRequiredFields"@,
            "Service '"@ + s.id@ + "' delivery_package cannot be empty"@, Severity::Error,
            Some(loc + ".delivery_package"@)))
        + finding_if(s.target_node@.len() == 0, finding("DP003"@, "ServiceRequiredFields"@,
            "Service '"@ + s.id@ + "' target_node cannot be empty"@, Severity::Error, Some(loc + ".target_node"@)))
        + finding_if(s.id@.len() != 0 && has_key(m.services@.take(i), s.id@), finding("DP007"@,
            "ServiceIdUniqueness"@, "Duplicate service ID: "@ + s.id@, Severity::Error, Some(loc)))
        + finding_if(s.target_node@.len() != 0 && !has_key(m.nodes@, s.target_node@), finding("DP010"@,
            "ServiceTargetNodeReference"@,
            "Service '"@ + s.id@ + "' references non-existent target_node '"@ + s.target_node@ + "'"@, Severity::Error,
            Some(loc + ".target_node"@)))
        + id_naming("Service"@, s.id@, loc)
    }
}

/// The findings on network link `i`.
pub open spec fn link_findings(m: DeploymentModel) -> spec_fn(int, NetworkLink) -> Seq<Finding> {
    |i: int, l: NetworkLink| {
        let loc = "network_links."@ + l.id@;
        finding_if(l.id@.len() == 0, finding("DP004"@, "NetworkLinkRequiredFields"@, "NetworkLink ID cannot be empty"@,
            Severity::Error, Some(loc)))
        + finding_if(l.from_service@.len() == 0, finding("DP004"@, "NetworkLinkRequiredFields"@,
            "NetworkLink '"@ + l.id@ + "' from_service cannot be empty"@, Severity::Error,
            Some(loc + ".from_service"@)))
        + finding_if(l.to_service@.len() == 0, finding("DP004"@, "NetworkLinkRequiredFields"@,
            "NetworkLink '"@ + l.id@ + "' to_service cannot be empty"@, Severity::Error, Some(loc + ".to_service"@)))
        + finding_if(l.id@.len() != 0 && has_key(m.network_links@.take(i), l.id@), finding("DP008"@,
            "NetworkLinkIdUniqueness"@, "Duplicate network_link ID: "@ + l.id@, Severity::Error, Some(loc)))
        + finding_if(l.from_service@.len() != 0 && !has_key(m.services@, l.from_service@), finding("DP011"@,
            "NetworkLinkServiceReference"@,
            "NetworkLink '"@ + l.id@ + "' references non-existent from_service '"@ + l.from_service@ + "'"@,
            Severity::Error, Some(loc + ".from_service"@)))
        + finding_if(l.to_service@.len() != 0 && !has_key(m.services@, l.to_service@), finding("DP011"@,
            "NetworkLinkServiceReference"@,
            "NetworkLink '"@ + l.id@ + "' references non-existent to_service '"@ + l.to_service@ + "'"@,
            Severity::Error, Some(loc + ".to_service"@)))
        + id_naming("NetworkLink"@, l.id@, loc)
    }
}

/// All findings on a deployment model, in the order they are checked.
pub open spec fn deployment_model_findings(m: DeploymentModel) -> Seq<Finding> {
    gather(m.environments@, environment_findings(m.environments@))
        + gather(m.nodes@, node_findings(m))
        + gather(m.services@, service_findings(m))
        + gather(m.network_links@, link_findings(m))
        + finding_if(m.nodes@.len() == 0, finding("DP013"@, "MinNodes"@, "Deployment model should have at least 1 node"@,
            Severity::Warning, None))
}

/// Reports an ID that is not in upper snake case.
fn check_id_naming(result: &mut ValidationResult, what: &str, id: &String, location: &String)
    ensures
        old(result).wf() ==> final(result).wf(),
        findings_of(final(result).errors@) == findings_of(old(result).errors@) + id_naming(what@, id@, location@),
{
    let ghost before = findings_of(result.errors@);
    if !is_blank(id) && !is_upper_snake(id.as_str()) {
        report(result, "DP012", "IdNaming",
            concat4(what, " ID '", id.as_str(), "' does not follow UPPER_SNAKE_CASE convention"),
            Severity::Warning, Some(concat2(location.as_str(), ".id")));
    }
    assert(findings_of(result.errors@) =~= before + id_naming(what@, id@, location@));
}

/// Checks environment `i`.
fn check_environment(result: &mut ValidationResult, es: &Vec<Environment>, i: usize)
    requires
        i < es@.len(),
    ensures
        old(result).wf() ==> final(result).wf(),
        findings_of(final(result).errors@) == findings_of(old(result).errors@)
            + environment_findings(es@)(i as int, es@[i as int]),
{
    let e = &es[i];
    let ghost before = findings_of(result.errors@);
    let location = concat2("environments.", e.id.as_str());
    if is_blank(&e.id) {
        report(result, "DP001", "EnvironmentRequiredFields", String::from_str("Environment ID cannot be empty"),
            Severity::Error, Some(location.clone()));
    }
    if is_blank(&e.name) {
        report(result, "DP001", "EnvironmentRequiredFields",
            concat3("Environment '", e.id.as_str(), "' name cannot be empty"), Severity::Error,
            Some(concat2(location.as_str(), ".name")));
    }
    if !is_blank(&e.id) && key_before(es, i, &e.id) {
        report(result, "DP005", "EnvironmentIdUniqueness", concat2("Duplicate environment ID: ", e.id.as_str()),
            Severity::Error, Some(location.clone()));
    }
    check_id_naming(result, "Environment", &e.id, &location);
    assert(findings_of(result.errors@) =~= before + environment_findings(es@)(i as int, es@[i as int]));
}

/// Checks node `i`.
fn check_node(result: &mut ValidationResult, m: &DeploymentModel, i: usize)
    requires
        i < m.nodes@.len(),
    ensures
        old(result).wf() ==> final(result).wf(),
        findings_of(final(result).errors@) == findings_of(old(result).errors@)
            + node_findings(*m)(i as int, m.nodes@[i as int]),
{
    let n = &m.nodes[i];
    let ghost before = findings_of(result.errors@);
    let location = concat2("nodes.", n.id.as_str());
    if is_blank(&n.id) {
        report(result, "DP002", "NodeRequiredFields", String::from_str("Node ID cannot be empty"), Severity::Error,
            Some(location.clone()));
    }
    if is_blank(&n.name) {
        report(result, "DP002", "NodeRequiredFields", concat3("Node '", n.id.as_str(), "' name cannot be empty"),
            Severity::Error, Some(concat2(location.as_str(), ".name")));
    }
    if !is_blank(&n.id) && key_before(&m.nodes, i, &n.id) {
        report(result, "DP006", "NodeIdUniqueness", concat2("Duplicate node ID: ", n.id.as_str()), Severity::Error,
            Some(location.clone()));
    }
    match &n.environment {
        Some(env) => {
            if !is_blank(env) && !contains_key(&m.environments, env) {
                report(result, "DP009", "NodeEnvironmentReference",
                    concat5("Node '", n.id.as_str(), "' references non-existent environment '", env.as_str(), "'"),
                    Severity::Error, Some(concat2(location.as_str(), ".environment")));
            }
        },
        None => {},
    }
    check_id_naming(result, "Node", &n.id, &location);
    assert(findings_of(result.errors@) =~= before + node_findings(*m)(i as int, m.nodes@[i as int]));
}

/// Checks service `i`.
#[verifier::rlimit(60)]
fn check_service(result: &mut ValidationResult, m: &DeploymentModel, i: usize)
    requires
        i < m.services@.len(),
    ensures
        old(result).wf() ==> final(result).wf(),
        findings_of(final(result).errors@) == findings_of(old(result).errors@)
            + service_findings(*m)(i as int, m.services@[i as int]),
{
    let s = &m.services[i];
    let ghost before = findings_of(result.errors@);
    let location = concat2("services.", s.id.as_str());
    if is_blank(&s.id) {
        report(result, "DP003", "ServiceRequiredFields", String::from_str("Service ID cannot be empty"),
            Severity::Error, Some(location.clone()));
    }
    if is_blank(&s.name) {
        report(result, "DP003", "ServiceRequiredFields", concat3("Service '", s.id.as_str(), "' name cannot be empty"),
            Severity::Error, Some(concat2(location.as_str(), ".name")));
    }
    if is_blank(&s.delivery_package) {
        report(result, "DP003", "ServiceRequiredFields",
            concat3("Service '", s.id.as_str(), "' delivery_package cannot be empty"), Severity::Error,
            Some(concat2(location.as_str(), ".delivery_package")));
    }
    if is_blank(&s.target_node) {
        report(result, "DP003", "ServiceRequiredFields",
            concat3("Service '", s.id.as_str(), "' target_node cannot be empty"), Severity::Error,
            Some(concat2(location.as_str(), ".target_node")));
    }
    if !is_blank(&s.id) && key_before(&m.services, i, &s.id) {
        report(result, "DP007", "ServiceIdUniqueness", concat2("Duplicate service ID: ", s.id.as_str()),
            Severity::Error, Some(location.clone()));
    }
    if !is_blank(&s.target_node) && !contains_key(&m.nodes, &s.target_node) {
        report(result, "DP010", "ServiceTargetNodeReference",
            concat5("Service '", s.id.as_str(), "' references non-existent target_node '", s.target_node.as_str(), "'"),
            Severity::Error, Some(concat2(location.as_str(), ".target_node")));
    }
    check_id_naming(result, "Service", &s.id, &location);
    assert(findings_of(result.errors@) =~= before + service_findings(*m)(i as int, m.services@[i as int]));
}

/// Checks network link `i`.
#[verifier::rlimit(60)]
fn check_link(result: &mut ValidationResult, m: &DeploymentModel, i: usize)
    requires
        i < m.network_links@.len(),
    ensures
        old(result).wf() ==> final(result).wf(),
        findings_of(final(result).errors@) == findings_of(old(result).errors@)
            + link_findings(*m)(i as int, m.network_links@[i as int]),
{
    let l = &m.network_links[i];
    let ghost before = findings_of(result.errors@);
    let location = concat2("network_links.", l.id.as_str());
    if is_blank(&l.id) {
        report(result, "DP004", "NetworkLinkRequiredFields", String::from_str("NetworkLink ID cannot be empty"),
            Severity::Error, Some(location.clone()));
    }
    if is_blank(&l.from_service) {
        report(result, "DP004", "NetworkLinkRequiredFields",
            concat3("NetworkLink '", l.id.as_str(), "' from_service cannot be empty"), Severity::Error,
            Some(concat2(location.as_str(), ".from_service")));
    }
    if is_blank(&l.to_service) {
        report(result, "DP004", "NetworkLinkRequiredFields",
            concat3("NetworkLink '", l.id.as_str(), "' to_service cannot be empty"), Severity::Error,
            Some(concat2(location.as_str(), ".to_service")));
    }
    if !is_blank(&l.id) && key_before(&m.network_links, i, &l.id) {
        report(result, "DP008", "NetworkLinkIdUniqueness", concat2("Duplicate network_link ID: ", l.id.as_str()),
            Severity::Error, Some(location.clone()));
    }
    if !is_blank(&l.from_service) && !contains_key(&m.services, &l.from_service) {
        report(result, "DP011", "NetworkLinkServiceReference",
            concat5("NetworkLink '", l.id.as_str(), "' references non-existent from_service '", l.from_service.as_str(),
                "'"), Severity::Error, Some(concat2(location.as_str(), ".from_service")));
    }
    if !is_blank(&l.to_service) && !contains_key(&m.services, &l.to_service) {
        report(result, "DP011", "NetworkLinkServiceReference",
            concat5("NetworkLink '", l.id.as_str(), "' references non-existent to_service '", l.to_service.as_str(),
                "'"), Severity::Error, Some(concat2(location.as_str(), ".to_service")));
    }
    check_id_naming(result, "NetworkLink", &l.id, &location);
    assert(findings_of(result.errors@) =~= before + link_findings(*m)(i as int, m.network_links@[i as int]));
}

/// Checks a deployment model: fields, unique IDs, naming and the references
/// of environments, nodes, services and network links, and that there is a node.
pub fn validate(model: &DeploymentModel) -> (r: ValidationResult)
    ensures
        r.wf(),
        findings_of(r.errors@) == deployment_model_findings(*model),
{
    let m = model;
    let mut result = ValidationResult::new();
    assert(findings_of(result.errors@) =~= Seq::<Finding>::empty());
    let ghost check = environment_findings(m.environments@);
    let ghost base = findings_of(result.errors@);
    let mut i: usize = 0;
    while i < m.environments.len()
        invariant
            i <= m.environments.len(),
            result.wf(),
            check == environment_findings(m.environments@),
            findings_of(result.errors@) == base + gather(m.environments@.take(i as int), check),
        decreases m.environments.len() - i,
    {
        proof {
            lemma_gather_step(m.environments@, check, i as int);
        }
        check_environment(&mut result, &m.environments, i);
        i = i + 1;
    }
    proof {
        lemma_gather_all(m.environments@, check);
    }
    let ghost check = node_findings(*m);
    let ghost base = findings_of(result.errors@);
    let mut i: usize = 0;
    while i < m.nodes.len()
        invariant
            i <= m.nodes.len(),
            result.wf(),
            check == node_findings(*m),
            findings_of(result.errors@) == base + gather(m.nodes@.take(i as int), check),
        decreases m.nodes.len() - i,
    {
        proof {
            lemma_gather_step(m.nodes@, check, i as int);
        }
        check_node(&mut result, m, i);
        i = i + 1;
    }
    proof {
        lemma_gather_all(m.nodes@, check);
    }
    let ghost check = service_findings(*m);
    let ghost base = findings_of(result.errors@);
    let mut i: usize = 0;
    while i < m.services.len()
        invariant
            i <= m.services.len(),
            result.wf(),
            check == service_findings(*m),
            findings_of(result.errors@) == base + gather(m.services@.take(i as int), check),
        decreases m.services.len() - i,
    {
        proof {
            lemma_gather_step(m.services@, check, i as int);
        }
        check_service(&mut result, m, i);
        i = i + 1;
    }
    proof {
        lemma_gather_all(m.services@, check);
    }
    let ghost check = link_findings(*m);
    let ghost base = findings_of(result.errors@);
    let mut i: usize = 0;
    while i < m.network_links.len()
        invariant
            i <= m.network_links.len(),
            result.wf(),
            check == link_findings(*m),
            findings_of(result.errors@) == base + gather(m.network_links@.take(i as int), check),
        decreases m.network_links.len() - i,
    {
        proof {
            lemma_gather_step(m.network_links@, check, i as int);
        }
        check_link(&mut result, m, i);
        i = i + 1;
    }
    proof {
        lemma_gather_all(m.network_links@, check);
    }
    let ghost before = findings_of(result.errors@);
    if m.nodes.len() == 0 {
        report(&mut result, "DP013", "MinNodes", String::from_str("Deployment model should have at least 1 node"),
            Severity::Warning, None);
    }
    assert(findings_of(result.errors@) =~= before + finding_if(m.nodes@.len() == 0, finding("DP013"@, "MinNodes"@,
        "Deployment model should have at least 1 node"@, Severity::Warning, None)));
    result
}

} // verus!
