use vstd::prelude::*;
use crate::model::deployment::deployment_model::{
    DeploymentModel, DeploymentNode, DeployedService, NetworkLink, NodeType,
};
use crate::model::workspace::Workspace;
use crate::generator::plantuml::support::{concat_map, text_if, lemma_concat_map_step, lemma_concat_map_all};
use crate::utils::keyed::{has_key, is_first_key, lemma_first_key_unique};
use crate::utils::text::{
    decimal, decimal_string, join, join_strings, string_views, concat2, concat3, opt_str_view,
    contains_text, lemma_has_text_views, copy_string, same_text, to_owned_string,
};

verus! {

/// What the `Debug` format prints for a node type.
pub open spec fn node_type_name(t: NodeType) -> Seq<char> {
    match t {
        NodeType::Server => "Server"@,
        NodeType::Vm => "Vm"@,
        NodeType::Container => "Container"@,
        NodeType::Kubernetes => "Kubernetes"@,
        NodeType::Serverless => "Serverless"@,
    }
}

/// The message of the error given when no environment was named and the
/// model has more than one.
pub open spec fn multiple_environments_message() -> Seq<char> {
    "Multiple environments exist. Please specify environment_id."@
}

/// The environment shown: the one named, else the only one, else none.
pub open spec fn chosen_environment(m: DeploymentModel, env_id: Option<Seq<char>>) -> Option<Seq<char>> {
    match env_id {
        Some(e) => Some(e),
        None => if m.environments@.len() == 0 {
            None
        } else {
            Some(m.environments@[0].id@)
        },
    }
}

/// Whether a node belongs to the shown environment (every node, when none is).
pub open spec fn node_selected(env: Option<Seq<char>>, n: DeploymentNode) -> bool {
    match env {
        Some(e) => n.environment matches Some(x) && x@ == e,
        None => true,
    }
}

/// The IDs of the shown nodes, in order.
pub open spec fn shown_node_ids(nodes: Seq<DeploymentNode>, env: Option<Seq<char>>) -> Seq<Seq<char>>
    decreases nodes.len(),
{
    if nodes.len() == 0 {
        Seq::empty()
    } else {
        let rest = shown_node_ids(nodes.drop_last(), env);
        if node_selected(env, nodes.last()) {
            rest.push(nodes.last().id@)
        } else {
            rest
        }
    }
}

/// The IDs of the services placed on one of `node_ids`, in order.
pub open spec fn shown_service_ids(services: Seq<DeployedService>, node_ids: Seq<Seq<char>>) -> Seq<Seq<char>>
    decreases services.len(),
{
    if services.len() == 0 {
        Seq::empty()
    } else {
        let rest = shown_service_ids(services.drop_last(), node_ids);
        if node_ids.contains(services.last().target_node@) {
            rest.push(services.last().id@)
        } else {
            rest
        }
    }
}

/// The name of delivery package `id`, if the workspace has a delivery model with it.
pub open spec fn delivery_package_name_of(w: Workspace, id: Seq<char>) -> Option<Seq<char>> {
    match w.delivery_model {
        Some(d) => if has_key(d.packages@, id) {
            Some(d.packages@[choose|i: int| is_first_key(d.packages@, id, i)].name@)
        } else {
            None
        },
        None => None,
    }
}

/// A delivery package as shown: its ID, with its name in brackets when known.
pub open spec fn package_display(w: Workspace, id: Seq<char>) -> Seq<char> {
    match delivery_package_name_of(w, id) {
        Some(n) => id + " ("@ + n + ")"@,
        None => id,
    }
}

/// The note lines of a service: its delivery package, replicas and port.
pub open spec fn service_note_lines(w: Workspace, s: DeployedService) -> Seq<Seq<char>> {
    seq!["delivery_package: "@ + package_display(w, s.delivery_package@)]
        + (match s.replicas {
            Some(r) => seq!["replicas: "@ + decimal(r as nat)],
            None => Seq::empty(),
        })
        + (match s.port {
            Some(p) => seq!["port: "@ + decimal(p as nat)],
            None => Seq::empty(),
        })
}

/// The lines of a service placed on node `node_id`, with its note; nothing
/// for a service placed elsewhere.
pub open spec fn service_lines(w: Workspace, node_id: Seq<char>) -> spec_fn(DeployedService) -> Seq<char> {
    |s: DeployedService| text_if(s.target_node@ == node_id,
        "    component \""@ + s.name@ + "\" as "@ + s.id@ + "\n"@
            + "    note right of "@ + s.id@ + "\n      "@ + join(service_note_lines(w, s), "\\n"@)
            + "\n    end note\n"@)
}

/// The block of a shown node with its services; nothing for another node.
pub open spec fn node_lines(w: Workspace, m: DeploymentModel, env: Option<Seq<char>>) -> spec_fn(DeploymentNode) -> Seq<char> {
    |n: DeploymentNode| text_if(node_selected(env, n),
        "  node \""@ + n.name@ + " <<"@ + node_type_name(n.node_type) + ">>\" as "@ + n.id@ + " {\n"@
            + concat_map(m.services@, service_lines(w, n.id@)) + "  }\n\n"@)
}

/// The label of a link: protocol and port, as far as they are given.
pub open spec fn link_label(l: NetworkLink) -> Seq<char> {
    match (l.protocol, l.port) {
        (Some(proto), Some(port)) => proto@ + ":"@ + decimal(port as nat),
        (Some(proto), None) => proto@,
        (None, Some(port)) => ":"@ + decimal(port as nat),
        (None, None) => Seq::empty(),
    }
}

/// The line of a link between two shown services; nothing for another link.
pub open spec fn link_lines(service_ids: Seq<Seq<char>>) -> spec_fn(NetworkLink) -> Seq<char> {
    |l: NetworkLink| text_if(service_ids.contains(l.from_service@) && service_ids.contains(l.to_service@),
        l.from_service@ + " --> "@ + l.to_service@ + " : "@ + link_label(l) + "\n"@)
}

/// The label of the enclosing rectangle: the environment's name (its ID when
/// the model has no such environment), or "Deployment" when none is shown.
pub open spec fn environment_label(m: DeploymentModel, env: Option<Seq<char>>) -> Seq<char> {
    match env {
        Some(e) => if has_key(m.environments@, e) {
            m.environments@[choose|i: int| is_first_key(m.environments@, e, i)].name@
        } else {
            e
        },
        None => "Deployment"@,
    }
}

/// The PlantUML text of a deployment model, showing environment `env`.
pub open spec fn deployment_model_plantuml(w: Workspace, m: DeploymentModel, env: Option<Seq<char>>) -> Seq<char> {
    "@startuml\n\n"@ + "rectangle \""@ + environment_label(m, env) + "\" {\n"@
        + concat_map(m.nodes@, node_lines(w, m, env)) + "}\n\n"@
        + concat_map(m.network_links@, link_lines(shown_service_ids(m.services@, shown_node_ids(m.nodes@, env))))
        + "\n@enduml\n"@
}

pub(crate) fn node_type_text(t: NodeType) -> (r: &'static str)
    ensures
        r@ == node_type_name(t),
{
    match t {
        NodeType::Server => "Server",
        NodeType::Vm => "Vm",
        NodeType::Container => "Container",
        NodeType::Kubernetes => "Kubernetes",
        NodeType::Serverless => "Serverless",
    }
}

/// The name of a delivery package, if the workspace has a delivery model with it.
fn resolve_delivery_package_name<'a>(workspace: &'a Workspace, package_id: &str) -> (r: Option<&'a str>)
    ensures
        match r {
            Some(n) => delivery_package_name_of(*workspace, package_id@) == Some(n@),
            None => delivery_package_name_of(*workspace, package_id@) is None,
        },
{
    match &workspace.delivery_model {
        Some(d) => {
            let r = d.get_package_name(package_id);
            proof {
                if let Some(n) = r {
                    let i = choose|i: int| is_first_key(d.packages@, package_id@, i) && n@ == d.packages@[i].name@;
                    lemma_first_key_unique(d.packages@, package_id@, i);
                }
            }
            r
        },
        None => None,
    }
}

/// The note lines of a service (see `service_note_lines`).
fn service_notes(workspace: &Workspace, s: &DeployedService) -> (r: Vec<String>)
    ensures
        string_views(r@) == service_note_lines(*workspace, *s),
{
    let display = match resolve_delivery_package_name(workspace, s.delivery_package.as_str()) {
        Some(n) => {
            let mut d = concat3(s.delivery_package.as_str(), " (", n);
            d.append(")");
            d
        },
        None => copy_string(&s.delivery_package),
    };
    let mut notes: Vec<String> = Vec::new();
    notes.push(concat2("delivery_package: ", display.as_str()));
    match s.replicas {
        Some(r) => {
            let digits = decimal_string(r as u64);
            notes.push(concat2("replicas: ", digits.as_str()));
        },
        None => {},
    }
    match s.port {
        Some(p) => {
            let digits = decimal_string(p as u64);
            notes.push(concat2("port: ", digits.as_str()));
        },
        None => {},
    }
    assert(string_views(notes@) =~= service_note_lines(*workspace, *s));
    notes
}

fn write_service(out: &mut String, workspace: &Workspace, node_id: &String, s: &DeployedService)
    ensures
        final(out)@ == old(out)@ + service_lines(*workspace, node_id@)(*s),
{
    let ghost before = out@;
    if same_text(&s.target_node, node_id) {
        out.append("    component \"");
        out.append(s.name.as_str());
        out.append("\" as ");
        out.append(s.id.as_str());
        out.append("\n");
        out.append("    note right of ");
        out.append(s.id.as_str());
        out.append("\n      ");
        let notes = service_notes(workspace, s);
        out.append(join_strings(&notes, "\\n").as_str());
        out.append("\n    end note\n");
    }
    assert(out@ =~= before + service_lines(*workspace, node_id@)(*s));
}

fn selected(env: Option<&str>, n: &DeploymentNode) -> (r: bool)
    ensures
        r == node_selected(opt_str_view(env), *n),
{
    match env {
        Some(e) => match &n.environment {
            Some(x) => same_text(x, &to_owned_string(e)),
            None => false,
        },
        None => true,
    }
}

fn write_node_services(out: &mut String, workspace: &Workspace, model: &DeploymentModel, node_id: &String)
    ensures
        final(out)@ == old(out)@ + concat_map(model.services@, service_lines(*workspace, node_id@)),
{
    let ghost s0 = out@;
    let ghost f = service_lines(*workspace, node_id@);
    let mut i: usize = 0;
    while i < model.services.len()
        invariant
            i <= model.services.len(),
            f == service_lines(*workspace, node_id@),
            out@ == s0 + concat_map(model.services@.take(i as int), f),
        decreases model.services.len() - i,
    {
        proof {
            lemma_concat_map_step(model.services@, f, i as int);
        }
        write_service(out, workspace, node_id, &model.services[i]);
        i = i + 1;
    }
    proof {
        lemma_concat_map_all(model.services@, f);
    }
}

fn write_node(out: &mut String, workspace: &Workspace, model: &DeploymentModel, env: Option<&str>, n: &DeploymentNode)
    ensures
        final(out)@ == old(out)@ + node_lines(*workspace, *model, opt_str_view(env))(*n),
{
    let ghost before = out@;
    if selected(env, n) {
        out.append("  node \"");
        out.append(n.name.as_str());
        out.append(" <<");
        out.append(node_type_text(n.node_type));
        out.append(">>\" as ");
        out.append(n.id.as_str());
        out.append(" {\n");
        write_node_services(out, workspace, model, &n.id);
        out.append("  }\n\n");
    }
    assert(out@ =~= before + node_lines(*workspace, *model, opt_str_view(env))(*n));
}

fn link_label_text(l: &NetworkLink) -> (r: String)
    ensures
        r@ == link_label(*l),
{
    match (&l.protocol, &l.port) {
        (Some(proto), Some(port)) => {
            let digits = decimal_string(*port as u64);
            concat3(proto.as_str(), ":", digits.as_str())
        },
        (Some(proto), None) => copy_string(proto),
        (None, Some(port)) => {
            let digits = decimal_string(*port as u64);
            concat2(":", digits.as_str())
        },
        (None, None) => String::new(),
    }
}

fn write_link(out: &mut String, service_ids: &Vec<String>, l: &NetworkLink)
    ensures
        final(out)@ == old(out)@ + link_lines(string_views(service_ids@))(*l),
{
    let ghost before = out@;
    proof {
        lemma_has_text_views(service_ids@, l.from_service@);
        lemma_has_text_views(service_ids@, l.to_service@);
    }
    if contains_text(service_ids, &l.from_service) && contains_text(service_ids, &l.to_service) {
        out.append(l.from_service.as_str());
        out.append(" --> ");
        out.append(l.to_service.as_str());
        out.append(" : ");
        out.append(link_label_text(l).as_str());
        out.append("\n");
    }
    assert(out@ =~= before + link_lines(string_views(service_ids@))(*l));
}

/// The IDs of the shown nodes (see `shown_node_ids`).
fn node_ids_shown(model: &DeploymentModel, env: Option<&str>) -> (r: Vec<String>)
    ensures
        string_views(r@) == shown_node_ids(model.nodes@, opt_str_view(env)),
{
    let mut out: Vec<String> = Vec::new();
    let mut i: usize = 0;
    while i < model.nodes.len()
        invariant
            i <= model.nodes.len(),
            string_views(out@) == shown_node_ids(model.nodes@.take(i as int), opt_str_view(env)),
        decreases model.nodes.len() - i,
    {
        assert(model.nodes@.take(i + 1).drop_last() =~= model.nodes@.take(i as int));
        let ghost before = out@;
        if selected(env, &model.nodes[i]) {
            out.push(copy_string(&model.nodes[i].id));
            assert(string_views(out@) =~= string_views(before).push(model.nodes@[i as int].id@));
        }
        i = i + 1;
    }
    assert(model.nodes@.take(model.nodes@.len() as int) =~= model.nodes@);
    out
}

/// The IDs of the services placed on one of `node_ids` (see `shown_service_ids`).
fn service_ids_shown(model: &DeploymentModel, node_ids: &Vec<String>) -> (r: Vec<String>)
    ensures
        string_views(r@) == shown_service_ids(model.services@, string_views(node_ids@)),
{
    let mut out: Vec<String> = Vec::new();
    let mut i: usize = 0;
    while i < model.services.len()
        invariant
            i <= model.services.len(),
            string_views(out@) == shown_service_ids(model.services@.take(i as int), string_views(node_ids@)),
        decreases model.services.len() - i,
    {
        assert(model.services@.take(i + 1).drop_last() =~= model.services@.take(i as int));
        let ghost before = out@;
        proof {
            lemma_has_text_views(node_ids@, model.services@[i as int].target_node@);
        }
        if contains_text(node_ids, &model.services[i].target_node) {
            out.push(copy_string(&model.services[i].id));
            assert(string_views(out@) =~= string_views(before).push(model.services@[i as int].id@));
        }
        i = i + 1;
    }
    assert(model.services@.take(model.services@.len() as int) =~= model.services@);
    out
}

fn environment_label_text(model: &DeploymentModel, env: Option<&str>) -> (r: String)
    ensures
        r@ == environment_label(*model, opt_str_view(env)),
{
    match env {
        Some(e) => match model.find_environment(e) {
            Some(found) => {
                proof {
                    let i = choose|i: int| is_first_key(model.environments@, e@, i) && model.environments@[i] == *found;
                    lemma_first_key_unique(model.environments@, e@, i);
                }
                copy_string(&found.name)
            },
            None => String::from_str(e),
        },
        None => String::from_str("Deployment"),
    }
}

fn write_nodes(out: &mut String, workspace: &Workspace, model: &DeploymentModel, env: Option<&str>)
    ensures
        final(out)@ == old(out)@ + concat_map(model.nodes@, node_lines(*workspace, *model, opt_str_view(env))),
{
    let ghost s0 = out@;
    let ghost f = node_lines(*workspace, *model, opt_str_view(env));
    let mut i: usize = 0;
    while i < model.nodes.len()
        invariant
            i <= model.nodes.len(),
            f == node_lines(*workspace, *model, opt_str_view(env)),
            out@ == s0 + concat_map(model.nodes@.take(i as int), f),
        decreases model.nodes.len() - i,
    {
        proof {
            lemma_concat_map_step(model.nodes@, f, i as int);
        }
        write_node(out, workspace, model, env, &model.nodes[i]);
        i = i + 1;
    }
    proof {
        lemma_concat_map_all(model.nodes@, f);
    }
}

fn write_links(out: &mut String, model: &DeploymentModel, service_ids: &Vec<String>)
    ensures
        final(out)@ == old(out)@ + concat_map(model.network_links@, link_lines(string_views(service_ids@))),
{
    let ghost s0 = out@;
    let ghost f = link_lines(string_views(service_ids@));
    let mut i: usize = 0;
    while i < model.network_links.len()
        invariant
            i <= model.network_links.len(),
            f == link_lines(string_views(service_ids@)),
            out@ == s0 + concat_map(model.network_links@.take(i as int), f),
        decreases model.network_links.len() - i,
    {
        proof {
            lemma_concat_map_step(model.network_links@, f, i as int);
        }
        write_link(out, service_ids, &model.network_links[i]);
        i = i + 1;
    }
    proof {
        lemma_concat_map_all(model.network_links@, f);
    }
}

/// Generates the PlantUML text of a deployment model for one environment:
/// the named one, else the only one, else all nodes. Nodes of the shown
/// environment enclose the services placed on them; links between shown
/// services follow. Without a named environment, a model with more than one
/// is refused.
pub fn generate_deployment_model_plantuml(workspace: &Workspace, model: &DeploymentModel, environment_id: Option<&str>)
    -> (r: Result<String, String>)
    ensures
        r is Err <==> (environment_id is None && model.environments@.len() > 1),
        match r {
            Ok(text) => text@ == deployment_model_plantuml(*workspace, *model,
                chosen_environment(*model, opt_str_view(environment_id))),
            Err(msg) => msg@ == multiple_environments_message(),
        },
{
    let env: Option<&str> = match environment_id {
        Some(id) => Some(id),
        None => {
            if model.environments.len() == 0 {
                None
            } else if model.environments.len() == 1 {
                Some(model.environments[0].id.as_str())
            } else {
                return Err(String::from_str("Multiple environments exist. Please specify environment_id."));
            }
        },
    };
    assert(opt_str_view(env) == chosen_environment(*model, opt_str_view(environment_id)));
    let node_ids = node_ids_shown(model, env);
    let service_ids = service_ids_shown(model, &node_ids);
    let mut out = String::new();
    out.append("@startuml\n\n");
    out.append("rectangle \"");
    let label = environment_label_text(model, env);
    out.append(label.as_str());
    out.append("\" {\n");
    write_nodes(&mut out, workspace, model, env);
    out.append("}\n\n");
    write_links(&mut out, model, &service_ids);
    out.append("\n@enduml\n");
    assert(out@ =~= deployment_model_plantuml(*workspace, *model, opt_str_view(env)));
    Ok(out)
}

} // verus!
