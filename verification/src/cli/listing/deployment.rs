use vstd::prelude::*;
use crate::cli::args::DeploymentModelListElement;
use crate::cli::report::{Line, LineView, report_view, plain_line, lines_for, lemma_lines_for_step, lemma_lines_for_all, emit_plain};
use crate::cli::listing::fields::{
    kv, opt_kv, opt_count, opt_u32, opt_u16, keyed_entry, title_line, emit_kv, emit_opt_kv, emit_opt_u32, emit_opt_u16,
    emit_keyed_entry, emit_title_line,
};
use crate::generator::plantuml::deployment_model::{node_type_name, node_type_text};
use crate::model::deployment::deployment_model::{DeploymentModel, Environment, DeploymentNode, DeployedService, NetworkLink};
use crate::utils::error::{AppError, ErrorKind, Result, fails_with};
use crate::utils::keyed::{has_key, is_first_key, lemma_first_key_unique};
use crate::utils::text::concat2;

verus! {

/// The fields of an environment after its name.
pub open spec fn environment_fields(e: Environment, indent: Seq<char>) -> Seq<LineView> {
    opt_kv(indent, "description"@, e.description)
}

/// The fields of a node after its name.
pub open spec fn node_fields(n: DeploymentNode, indent: Seq<char>) -> Seq<LineView> {
    seq![kv(indent, "node_type"@, node_type_name(n.node_type))] + opt_kv(indent, "environment"@, n.environment)
        + opt_kv(indent, "technology"@, n.technology) + opt_kv(indent, "description"@, n.description)
}

/// The fields of a service after its name.
pub open spec fn service_fields(s: DeployedService, indent: Seq<char>) -> Seq<LineView> {
    seq![kv(indent, "delivery_package"@, s.delivery_package@), kv(indent, "target_node"@, s.target_node@)]
        + opt_count(indent, "replicas"@, opt_u32(s.replicas)) + opt_count(indent, "port"@, opt_u16(s.port))
        + opt_kv(indent, "description"@, s.description)
}

/// The fields of a network link.
pub open spec fn link_fields(l: NetworkLink, indent: Seq<char>) -> Seq<LineView> {
    seq![kv(indent, "from"@, l.from_service@), kv(indent, "to"@, l.to_service@)]
        + opt_kv(indent, "protocol"@, l.protocol) + opt_count(indent, "port"@, opt_u16(l.port))
        + opt_kv(indent, "description"@, l.description)
}

/// The element with key `k` that comes first.
pub open spec fn first_of<T: crate::utils::keyed::Keyed>(s: Seq<T>, k: Seq<char>) -> T {
    s[choose|i: int| is_first_key(s, k, i)]
}

/// What `show` prints for the element with ID `id`: the first environment,
/// else node, else service, else network link with it; `None` when there is none.
pub open spec fn deployment_show(m: DeploymentModel, id: Seq<char>) -> Option<Seq<LineView>> {
    if has_key(m.environments@, id) {
        let e = first_of(m.environments@, id);
        Some(seq![title_line("Environment: "@ + e.id@), kv("  "@, "name"@, e.name@)] + environment_fields(e, "  "@))
    } else if has_key(m.nodes@, id) {
        let n = first_of(m.nodes@, id);
        Some(seq![title_line("Node: "@ + n.id@), kv("  "@, "name"@, n.name@)] + node_fields(n, "  "@))
    } else if has_key(m.services@, id) {
        let s = first_of(m.services@, id);
        Some(seq![title_line("Service: "@ + s.id@), kv("  "@, "name"@, s.name@)] + service_fields(s, "  "@))
    } else if has_key(m.network_links@, id) {
        let l = first_of(m.network_links@, id);
        Some(seq![title_line("Network Link: "@ + l.id@)] + link_fields(l, "  "@))
    } else {
        None
    }
}

/// The message given when `show` finds no element.
pub open spec fn not_found_message(id: Seq<char>) -> Seq<char> {
    "deployment_model 中未找到元素: "@ + id
}

/// The listing lines of an environment.
pub open spec fn environment_entry() -> spec_fn(Environment) -> Seq<LineView> {
    |e: Environment| seq![keyed_entry(e.id@, e.name@)] + environment_fields(e, "    "@)
}

/// The listing lines of a node.
pub open spec fn node_entry() -> spec_fn(DeploymentNode) -> Seq<LineView> {
    |n: DeploymentNode| seq![keyed_entry(n.id@, n.name@)] + node_fields(n, "    "@)
}

/// The listing lines of a service.
pub open spec fn service_entry() -> spec_fn(DeployedService) -> Seq<LineView> {
    |s: DeployedService| seq![keyed_entry(s.id@, s.name@)] + service_fields(s, "    "@)
}

/// The listing lines of a network link, which has no name: its ID stands twice.
pub open spec fn link_entry() -> spec_fn(NetworkLink) -> Seq<LineView> {
    |l: NetworkLink| seq![keyed_entry(l.id@, l.id@)] + link_fields(l, "    "@)
}

/// A list: a notice when there is nothing, else a title and the entries.
pub open spec fn listed<T>(items: Seq<T>, none: Seq<char>, title: Seq<char>, f: spec_fn(T) -> Seq<LineView>) -> Seq<LineView> {
    if items.len() == 0 {
        seq![plain_line(none)]
    } else {
        seq![title_line(title)] + lines_for(items, f)
    }
}

/// What `list` prints for each kind of element.
pub open spec fn deployment_list(m: DeploymentModel, element: DeploymentModelListElement) -> Seq<LineView> {
    match element {
        DeploymentModelListElement::Environments => listed(m.environments@, "No environments found."@,
            "Environments:"@, environment_entry()),
        DeploymentModelListElement::Nodes => listed(m.nodes@, "No nodes found."@, "Nodes:"@, node_entry()),
        DeploymentModelListElement::Services => listed(m.services@, "No services found."@, "Services:"@,
            service_entry()),
        DeploymentModelListElement::NetworkLinks => listed(m.network_links@, "No network-links found."@,
            "Network Links:"@, link_entry()),
    }
}

fn write_environment_fields(out: &mut Vec<Line>, e: &Environment, indent: &str)
    ensures
        report_view(final(out)@) == report_view(old(out)@) + environment_fields(*e, indent@),
{
    emit_opt_kv(out, indent, "description", &e.description);
}

fn write_node_fields(out: &mut Vec<Line>, n: &DeploymentNode, indent: &str)
    ensures
        report_view(final(out)@) == report_view(old(out)@) + node_fields(*n, indent@),
{
    let ghost before = report_view(out@);
    emit_kv(out, indent, "node_type", node_type_text(n.node_type));
    emit_opt_kv(out, indent, "environment", &n.environment);
    emit_opt_kv(out, indent, "technology", &n.technology);
    emit_opt_kv(out, indent, "description", &n.description);
    assert(report_view(out@) =~= before + node_fields(*n, indent@));
}

fn write_service_fields(out: &mut Vec<Line>, s: &DeployedService, indent: &str)
    ensures
        report_view(final(out)@) == report_view(old(out)@) + service_fields(*s, indent@),
{
    let ghost before = report_view(out@);
    emit_kv(out, indent, "delivery_package", s.delivery_package.as_str());
    emit_kv(out, indent, "target_node", s.target_node.as_str());
    emit_opt_u32(out, indent, "replicas", s.replicas);
    emit_opt_u16(out, indent, "port", s.port);
    emit_opt_kv(out, indent, "description", &s.description);
    assert(report_view(out@) =~= before + service_fields(*s, indent@));
}

fn write_link_fields(out: &mut Vec<Line>, l: &NetworkLink, indent: &str)
    ensures
        report_view(final(out)@) == report_view(old(out)@) + link_fields(*l, indent@),
{
    let ghost before = report_view(out@);
    emit_kv(out, indent, "from", l.from_service.as_str());
    emit_kv(out, indent, "to", l.to_service.as_str());
    emit_opt_kv(out, indent, "protocol", &l.protocol);
    emit_opt_u16(out, indent, "port", l.port);
    emit_opt_kv(out, indent, "description", &l.description);
    assert(report_view(out@) =~= before + link_fields(*l, indent@));
}

/// The lines that `show` prints for the element with ID `id` (see `deployment_show`).
pub fn show_deployment(m: &DeploymentModel, id: &str) -> (r: Result<Vec<Line>>)
    ensures
        r is Err <==> deployment_show(*m, id@) is None,
        r is Err ==> fails_with(r, ErrorKind::ElementNotFound, not_found_message(id@)),
        r is Ok ==> deployment_show(*m, id@) == Some(report_view(r->Ok_0@)),
{
    let mut out: Vec<Line> = Vec::new();
    assert(report_view(out@) =~= Seq::<LineView>::empty());
    match m.find_environment(id) {
        Some(e) => {
            proof {
                let i = choose|i: int| is_first_key(m.environments@, id@, i) && m.environments@[i] == *e;
                lemma_first_key_unique(m.environments@, id@, i);
            }
            let t = concat2("Environment: ", e.id.as_str());
            emit_title_line(&mut out, t.as_str());
            emit_kv(&mut out, "  ", "name", e.name.as_str());
            write_environment_fields(&mut out, e, "  ");
            assert(Some(report_view(out@)) =~= deployment_show(*m, id@));
            return Ok(out);
        },
        None => {},
    }
    match m.find_node(id) {
        Some(n) => {
            proof {
                let i = choose|i: int| is_first_key(m.nodes@, id@, i) && m.nodes@[i] == *n;
                lemma_first_key_unique(m.nodes@, id@, i);
            }
            let t = concat2("Node: ", n.id.as_str());
            emit_title_line(&mut out, t.as_str());
            emit_kv(&mut out, "  ", "name", n.name.as_str());
            write_node_fields(&mut out, n, "  ");
            assert(Some(report_view(out@)) =~= deployment_show(*m, id@));
            return Ok(out);
        },
        None => {},
    }
    match m.find_service(id) {
        Some(s) => {
            proof {
                let i = choose|i: int| is_first_key(m.services@, id@, i) && m.services@[i] == *s;
                lemma_first_key_unique(m.services@, id@, i);
            }
            let t = concat2("Service: ", s.id.as_str());
            emit_title_line(&mut out, t.as_str());
            emit_kv(&mut out, "  ", "name", s.name.as_str());
            write_service_fields(&mut out, s, "  ");
            assert(Some(report_view(out@)) =~= deployment_show(*m, id@));
            return Ok(out);
        },
        None => {},
    }
    match m.find_network_link(id) {
        Some(l) => {
            proof {
                let i = choose|i: int| is_first_key(m.network_links@, id@, i) && m.network_links@[i] == *l;
                lemma_first_key_unique(m.network_links@, id@, i);
            }
            let t = concat2("Network Link: ", l.id.as_str());
            emit_title_line(&mut out, t.as_str());
            write_link_fields(&mut out, l, "  ");
            assert(Some(report_view(out@)) =~= deployment_show(*m, id@));
            return Ok(out);
        },
        None => {},
    }
    Err(AppError::ElementNotFound(concat2("deployment_model 中未找到元素: ", id)))
}

/// The lines that `list` prints for the chosen kind of element (see `deployment_list`).
pub fn list_deployment(m: &DeploymentModel, element: DeploymentModelListElement) -> (r: Vec<Line>)
    ensures
        report_view(r@) == deployment_list(*m, element),
{
    let mut out: Vec<Line> = Vec::new();
    assert(report_view(out@) =~= Seq::<LineView>::empty());
    match element {
        DeploymentModelListElement::Environments => {
            if m.environments.len() == 0 {
                emit_plain(&mut out, "No environments found.");
            } else {
                emit_title_line(&mut out, "Environments:");
                let ghost head = report_view(out@);
                let ghost f = environment_entry();
                let mut j: usize = 0;
                while j < m.environments.len()
                    invariant
                        j <= m.environments.len(),
                        f == environment_entry(),
                        report_view(out@) == head + lines_for(m.environments@.take(j as int), f),
                    decreases m.environments.len() - j,
                {
                    proof {
                        lemma_lines_for_step(m.environments@, f, j as int);
                    }
                    let e = &m.environments[j];
                    let ghost before = report_view(out@);
                    emit_keyed_entry(&mut out, e.id.as_str(), e.name.as_str());
                    write_environment_fields(&mut out, e, "    ");
                    assert(report_view(out@) =~= head + lines_for(m.environments@.take(j + 1), f));
                    j = j + 1;
                }
                proof {
                    lemma_lines_for_all(m.environments@, f);
                }
            }
        },
        DeploymentModelListElement::Nodes => {
            if m.nodes.len() == 0 {
                emit_plain(&mut out, "No nodes found.");
            } else {
                emit_title_line(&mut out, "Nodes:");
                let ghost head = report_view(out@);
                let ghost f = node_entry();
                let mut j: usize = 0;
                while j < m.nodes.len()
                    invariant
                        j <= m.nodes.len(),
                        f == node_entry(),
                        report_view(out@) == head + lines_for(m.nodes@.take(j as int), f),
                    decreases m.nodes.len() - j,
                {
                    proof {
                        lemma_lines_for_step(m.nodes@, f, j as int);
                    }
                    let n = &m.nodes[j];
                    emit_keyed_entry(&mut out, n.id.as_str(), n.name.as_str());
                    write_node_fields(&mut out, n, "    ");
                    assert(report_view(out@) =~= head + lines_for(m.nodes@.take(j + 1), f));
                    j = j + 1;
                }
                proof {
                    lemma_lines_for_all(m.nodes@, f);
                }
            }
        },
        DeploymentModelListElement::Services => {
            if m.services.len() == 0 {
                emit_plain(&mut out, "No services found.");
            } else {
                emit_title_line(&mut out, "Services:");
                let ghost head = report_view(out@);
                let ghost f = service_entry();
                let mut j: usize = 0;
                while j < m.services.len()
                    invariant
                        j <= m.services.len(),
                        f == service_entry(),
                        report_view(out@) == head + lines_for(m.services@.take(j as int), f),
                    decreases m.services.len() - j,
                {
                    proof {
                        lemma_lines_for_step(m.services@, f, j as int);
                    }
                    let s = &m.services[j];
                    emit_keyed_entry(&mut out, s.id.as_str(), s.name.as_str());
                    write_service_fields(&mut out, s, "    ");
                    assert(report_view(out@) =~= head + lines_for(m.services@.take(j + 1), f));
                    j = j + 1;
                }
                proof {
                    lemma_lines_for_all(m.services@, f);
                }
            }
        },
        DeploymentModelListElement::NetworkLinks => {
            if m.network_links.len() == 0 {
                emit_plain(&mut out, "No network-links found.");
            } else {
                emit_title_line(&mut out, "Network Links:");
                let ghost head = report_view(out@);
                let ghost f = link_entry();
                let mut j: usize = 0;
                while j < m.network_links.len()
                    invariant
                        j <= m.network_links.len(),
                        f == link_entry(),
                        report_view(out@) == head + lines_for(m.network_links@.take(j as int), f),
                    decreases m.network_links.len() - j,
                {
                    proof {
                        lemma_lines_for_step(m.network_links@, f, j as int);
                    }
                    let l = &m.network_links[j];
                    emit_keyed_entry(&mut out, l.id.as_str(), l.id.as_str());
                    write_link_fields(&mut out, l, "    ");
                    assert(report_view(out@) =~= head + lines_for(m.network_links@.take(j + 1), f));
                    j = j + 1;
                }
                proof {
                    lemma_lines_for_all(m.network_links@, f);
                }
            }
        },
    }
    assert(report_view(out@) =~= deployment_list(*m, element));
    out
}

} // verus!
