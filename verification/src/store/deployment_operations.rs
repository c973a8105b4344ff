use vstd::prelude::*;
use crate::model::deployment::deployment_model::{
    DeploymentModel, DeploymentNode, DeployedService, Environment, NetworkLink, NodeType,
};
use crate::utils::error::{AppError, ErrorKind, Result, fails_with};
use crate::utils::keyed::{
    Keyed, has_key, is_first_key, position_of, contains_key, lemma_has_key_remove, lemma_has_key_push, keys_distinct,
    lemma_push_fresh_keeps_distinct, lemma_remove_keeps_distinct,
};
use crate::utils::text::{
    to_owned_string, opt_str_to_string, opt_view, name_or_id, concat2, concat4, string_views, same_text,
    join, join_strings, opt_str_view,
};

verus! {

/// Operations that edit a deployment model.
pub struct DeploymentOperations;

/// The parts of a model that an edit keeps, and the modification time that a
/// successful edit renews from the clock, which never reads before 1970.
pub open spec fn same_header(a: DeploymentModel, b: DeploymentModel) -> bool {
    &&& a.version == b.version
    &&& a.kind == b.kind
    &&& a.metadata.title == b.metadata.title
    &&& a.metadata.description == b.metadata.description
    &&& a.metadata.created_at == b.metadata.created_at
    &&& b.metadata.updated_at >= 0
}

/// Every reference in the model names an element that exists: a node's
/// environment, a service's target node, and both services of a link.
pub open spec fn references_hold(m: DeploymentModel) -> bool {
    &&& forall|i: int| 0 <= i < m.nodes@.len() ==> match (#[trigger] m.nodes@[i]).environment {
        Some(e) => has_key(m.environments@, e@),
        None => true,
    }
    &&& forall|i: int| 0 <= i < m.services@.len() ==> has_key(m.nodes@, (#[trigger] m.services@[i]).target_node@)
    &&& forall|i: int| 0 <= i < m.network_links@.len() ==> {
        &&& has_key(m.services@, (#[trigger] m.network_links@[i]).from_service@)
        &&& has_key(m.services@, m.network_links@[i].to_service@)
    }
}

/// The IDs of the nodes placed in environment `env`, in order.
pub open spec fn nodes_in(nodes: Seq<DeploymentNode>, env: Seq<char>) -> Seq<Seq<char>>
    decreases nodes.len(),
{
    if nodes.len() == 0 {
        Seq::empty()
    } else {
        let rest = nodes_in(nodes.drop_last(), env);
        if opt_view(nodes.last().environment) == Some(env) {
            rest.push(nodes.last().id@)
        } else {
            rest
        }
    }
}

/// The IDs of the services deployed on node `node`, in order.
pub open spec fn services_on(services: Seq<DeployedService>, node: Seq<char>) -> Seq<Seq<char>>
    decreases services.len(),
{
    if services.len() == 0 {
        Seq::empty()
    } else {
        let rest = services_on(services.drop_last(), node);
        if services.last().target_node@ == node {
            rest.push(services.last().id@)
        } else {
            rest
        }
    }
}

/// The links that neither start nor end at service `id`, in order.
pub open spec fn links_avoiding(links: Seq<NetworkLink>, id: Seq<char>) -> Seq<NetworkLink>
    decreases links.len(),
{
    if links.len() == 0 {
        links
    } else {
        let rest = links_avoiding(links.drop_last(), id);
        if links.last().from_service@ != id && links.last().to_service@ != id {
            rest.push(links.last())
        } else {
            rest
        }
    }
}

/// The message when an environment still has nodes.
pub open spec fn environment_in_use(id: Seq<char>, users: Seq<Seq<char>>) -> Seq<char> {
    "无法删除环境 '"@ + id + "'，以下节点引用了该环境: "@ + join(users, ", "@)
}

/// The message when a node still has services.
pub open spec fn node_in_use(id: Seq<char>, users: Seq<Seq<char>>) -> Seq<char> {
    "无法删除节点 '"@ + id + "'，以下服务部署在该节点上: "@ + join(users, ", "@)
}

/// The IDs of the nodes placed in an environment.
fn nodes_in_environment(nodes: &Vec<DeploymentNode>, env: &String) -> (r: Vec<String>)
    ensures
        string_views(r@) == nodes_in(nodes@, env@),
{
    let mut out: Vec<String> = Vec::new();
    let mut i: usize = 0;
    while i < nodes.len()
        invariant
            i <= nodes.len(),
            string_views(out@) == nodes_in(nodes@.take(i as int), env@),
        decreases nodes.len() - i,
    {
        assert(nodes@.take(i + 1).drop_last() =~= nodes@.take(i as int));
        let ghost before = out@;
        match &nodes[i].environment {
            Some(e) => {
                if same_text(e, env) {
                    out.push(nodes[i].id.clone());
                    assert(string_views(out@) =~= string_views(before).push(nodes@[i as int].id@));
                }
            },
            None => {},
        }
        i = i + 1;
    }
    assert(nodes@.take(nodes@.len() as int) =~= nodes@);
    out
}

/// The IDs of the services deployed on a node.
fn services_on_node(services: &Vec<DeployedService>, node: &String) -> (r: Vec<String>)
    ensures
        string_views(r@) == services_on(services@, node@),
{
    let mut out: Vec<String> = Vec::new();
    let mut i: usize = 0;
    while i < services.len()
        invariant
            i <= services.len(),
            string_views(out@) == services_on(services@.take(i as int), node@),
        decreases services.len() - i,
    {
        assert(services@.take(i + 1).drop_last() =~= services@.take(i as int));
        let ghost before = out@;
        if same_text(&services[i].target_node, node) {
            out.push(services[i].id.clone());
            assert(string_views(out@) =~= string_views(before).push(services@[i as int].id@));
        }
        i = i + 1;
    }
    assert(services@.take(services@.len() as int) =~= services@);
    out
}

/// When `nodes_in` lists nothing, no node is placed in the environment.
proof fn lemma_nodes_in_empty(nodes: Seq<DeploymentNode>, env: Seq<char>)
    requires
        nodes_in(nodes, env).len() == 0,
    ensures
        forall|i: int| 0 <= i < nodes.len() ==> opt_view(#[trigger] nodes[i].environment) != Some(env),
    decreases nodes.len(),
{
    if nodes.len() > 0 {
        lemma_nodes_in_empty(nodes.drop_last(), env);
        assert forall|i: int| 0 <= i < nodes.len() implies opt_view(#[trigger] nodes[i].environment) != Some(env) by {
            if i < nodes.len() - 1 {
                assert(nodes.drop_last()[i] == nodes[i]);
            }
        }
    }
}

/// When `services_on` lists nothing, no service is deployed on the node.
proof fn lemma_services_on_empty(services: Seq<DeployedService>, node: Seq<char>)
    requires
        services_on(services, node).len() == 0,
    ensures
        forall|i: int| 0 <= i < services.len() ==> (#[trigger] services[i]).target_node@ != node,
    decreases services.len(),
{
    if services.len() > 0 {
        lemma_services_on_empty(services.drop_last(), node);
        assert forall|i: int| 0 <= i < services.len() implies (#[trigger] services[i]).target_node@ != node by {
            if i < services.len() - 1 {
                assert(services.drop_last()[i] == services[i]);
            }
        }
    }
}

/// The kept links are links of the model that avoid the service.
proof fn lemma_links_avoiding(links: Seq<NetworkLink>, id: Seq<char>)
    ensures
        forall|i: int| 0 <= i < links_avoiding(links, id).len() ==> {
            &&& (#[trigger] links_avoiding(links, id)[i]).from_service@ != id
            &&& links_avoiding(links, id)[i].to_service@ != id
            &&& links.contains(links_avoiding(links, id)[i])
        },
    decreases links.len(),
{
    if links.len() > 0 {
        lemma_links_avoiding(links.drop_last(), id);
        let rest = links_avoiding(links.drop_last(), id);
        assert forall|i: int| 0 <= i < rest.len() implies links.contains(#[trigger] rest[i]) by {
            let j = choose|j: int| 0 <= j < links.drop_last().len() && links.drop_last()[j] == rest[i];
            assert(links[j] == rest[i]);
        }
        assert(links[links.len() - 1] == links.last());
    }
}

/// Removes from `links` (in place) every link that starts or ends at `id`.
fn drop_links_of(links: &mut Vec<NetworkLink>, id: &String)
    ensures
        final(links)@ == links_avoiding(old(links)@, id@),
{
    let ghost orig = links@;
    let mut rest: Vec<NetworkLink> = Vec::new();
    std::mem::swap(&mut rest, links);
    let ghost mut n: int = 0;
    while rest.len() > 0
        invariant
            0 <= n <= orig.len(),
            rest@ == orig.skip(n),
            links@ == links_avoiding(orig.take(n), id@),
        decreases rest@.len(),
    {
        let l = rest.remove(0);
        assert(n < orig.len());
        assert(l == orig[n]);
        assert(rest@ =~= orig.skip(n + 1));
        assert(orig.take(n + 1).drop_last() =~= orig.take(n));
        if !same_text(&l.from_service, id) && !same_text(&l.to_service, id) {
            links.push(l);
        }
        proof {
            n = n + 1;
        }
    }
    assert(orig.take(n) =~= orig);
}

/// `e` is an environment with exactly these fields.
pub open spec fn environment_is(e: Environment, id: Seq<char>, name: Seq<char>, description: Option<Seq<char>>) -> bool {
    &&& e.id@ == id
    &&& e.name@ == name
    &&& opt_view(e.description) == description
}

/// What `add_environment` does.
pub open spec fn add_environment_post(
    m0: DeploymentModel,
    m1: DeploymentModel,
    id: Seq<char>,
    name: Seq<char>,
    description: Option<Seq<char>>,
    r: Result<()>,
) -> bool {
    &&& has_key(m0.environments@, id) ==> fails_with(r, ErrorKind::ElementAlreadyExists, "environment: "@ + id)
    &&& r is Ok <==> !has_key(m0.environments@, id)
    &&& r is Err ==> m1 == m0
    &&& r is Ok ==> {
        &&& same_header(m0, m1)
        &&& m1.environments@.len() == m0.environments@.len() + 1
        &&& m1.environments@.drop_last() == m0.environments@
        &&& environment_is(m1.environments@.last(), id, name, description)
        &&& m1.nodes == m0.nodes
        &&& m1.services == m0.services
        &&& m1.network_links == m0.network_links
    }
}

/// What `add_node` does; a node without a type is a server.
pub open spec fn add_node_post(
    m0: DeploymentModel,
    m1: DeploymentModel,
    id: Seq<char>,
    name: Seq<char>,
    description: Option<Seq<char>>,
    node_type: Option<NodeType>,
    environment: Option<Seq<char>>,
    technology: Option<Seq<char>>,
    r: Result<()>,
) -> bool {
    let env_ok = match environment {
        Some(e) => has_key(m0.environments@, e),
        None => true,
    };
    &&& has_key(m0.nodes@, id) ==> fails_with(r, ErrorKind::ElementAlreadyExists, "node: "@ + id)
    &&& !has_key(m0.nodes@, id) && !env_ok
        ==> fails_with(r, ErrorKind::ElementNotFound, "environment: "@ + environment->Some_0)
    &&& r is Ok <==> !has_key(m0.nodes@, id) && env_ok
    &&& r is Err ==> m1 == m0
    &&& r is Ok ==> {
        &&& same_header(m0, m1)
        &&& m1.nodes@.len() == m0.nodes@.len() + 1
        &&& m1.nodes@.drop_last() == m0.nodes@
        &&& ({
            let n = m1.nodes@.last();
            &&& n.id@ == id
            &&& n.name@ == name
            &&& opt_view(n.description) == description
            &&& n.node_type == (match node_type { Some(t) => t, None => NodeType::Server })
            &&& opt_view(n.environment) == environment
            &&& opt_view(n.technology) == technology
        })
        &&& m1.environments == m0.environments
        &&& m1.services == m0.services
        &&& m1.network_links == m0.network_links
    }
}

/// What `add_service` does.
pub open spec fn add_service_post(
    m0: DeploymentModel,
    m1: DeploymentModel,
    id: Seq<char>,
    name: Seq<char>,
    description: Option<Seq<char>>,
    delivery_package: Seq<char>,
    target_node: Seq<char>,
    replicas: Option<u32>,
    port: Option<u16>,
    r: Result<()>,
) -> bool {
    &&& has_key(m0.services@, id) ==> fails_with(r, ErrorKind::ElementAlreadyExists, "service: "@ + id)
    &&& !has_key(m0.services@, id) && !has_key(m0.nodes@, target_node)
        ==> fails_with(r, ErrorKind::ElementNotFound, "target_node: "@ + target_node)
    &&& r is Ok <==> !has_key(m0.services@, id) && has_key(m0.nodes@, target_node)
    &&& r is Err ==> m1 == m0
    &&& r is Ok ==> {
        &&& same_header(m0, m1)
        &&& m1.services@.len() == m0.services@.len() + 1
        &&& m1.services@.drop_last() == m0.services@
        &&& ({
            let s = m1.services@.last();
            &&& s.id@ == id
            &&& s.name@ == name
            &&& opt_view(s.description) == description
            &&& s.delivery_package@ == delivery_package
            &&& s.target_node@ == target_node
            &&& s.replicas == replicas
            &&& s.port == port
        })
        &&& m1.environments == m0.environments
        &&& m1.nodes == m0.nodes
        &&& m1.network_links == m0.network_links
    }
}

/// What `add_network_link` does.
pub open spec fn add_network_link_post(
    m0: DeploymentModel,
    m1: DeploymentModel,
    id: Seq<char>,
    from: Seq<char>,
    to: Seq<char>,
    protocol: Option<Seq<char>>,
    port: Option<u16>,
    description: Option<Seq<char>>,
    r: Result<()>,
) -> bool {
    &&& has_key(m0.network_links@, id) ==> fails_with(r, ErrorKind::ElementAlreadyExists, "network_link: "@ + id)
    &&& !has_key(m0.network_links@, id) && !has_key(m0.services@, from)
        ==> fails_with(r, ErrorKind::ElementNotFound, "from_service: "@ + from)
    &&& !has_key(m0.network_links@, id) && has_key(m0.services@, from) && !has_key(m0.services@, to)
        ==> fails_with(r, ErrorKind::ElementNotFound, "to_service: "@ + to)
    &&& r is Ok <==> !has_key(m0.network_links@, id) && has_key(m0.services@, from) && has_key(m0.services@, to)
    &&& r is Err ==> m1 == m0
    &&& r is Ok ==> {
        &&& same_header(m0, m1)
        &&& m1.network_links@.len() == m0.network_links@.len() + 1
        &&& m1.network_links@.drop_last() == m0.network_links@
        &&& ({
            let l = m1.network_links@.last();
            &&& l.id@ == id
            &&& l.from_service@ == from
            &&& l.to_service@ == to
            &&& opt_view(l.protocol) == protocol
            &&& l.port == port
            &&& opt_view(l.description) == description
        })
        &&& m1.environments == m0.environments
        &&& m1.nodes == m0.nodes
        &&& m1.services == m0.services
    }
}

/// What `remove_environment` does: refused while nodes are placed in it.
pub open spec fn remove_environment_post(m0: DeploymentModel, m1: DeploymentModel, id: Seq<char>, r: Result<()>) -> bool {
    let users = nodes_in(m0.nodes@, id);
    &&& !has_key(m0.environments@, id) ==> fails_with(r, ErrorKind::ElementNotFound, "environment: "@ + id)
    &&& has_key(m0.environments@, id) && users.len() > 0
        ==> fails_with(r, ErrorKind::InvalidOperation, environment_in_use(id, users))
    &&& r is Ok <==> has_key(m0.environments@, id) && users.len() == 0
    &&& r is Err ==> m1 == m0
    &&& r is Ok ==> {
        &&& same_header(m0, m1)
        &&& exists|i: int| is_first_key(m0.environments@, id, i) && m1.environments@ == m0.environments@.remove(i)
        &&& m1.nodes == m0.nodes
        &&& m1.services == m0.services
        &&& m1.network_links == m0.network_links
    }
}

/// What `remove_node` does: refused while services are deployed on it.
pub open spec fn remove_node_post(m0: DeploymentModel, m1: DeploymentModel, id: Seq<char>, r: Result<()>) -> bool {
    let users = services_on(m0.services@, id);
    &&& !has_key(m0.nodes@, id) ==> fails_with(r, ErrorKind::ElementNotFound, "node: "@ + id)
    &&& has_key(m0.nodes@, id) && users.len() > 0 ==> fails_with(r, ErrorKind::InvalidOperation, node_in_use(id, users))
    &&& r is Ok <==> has_key(m0.nodes@, id) && users.len() == 0
    &&& r is Err ==> m1 == m0
    &&& r is Ok ==> {
        &&& same_header(m0, m1)
        &&& exists|i: int| is_first_key(m0.nodes@, id, i) && m1.nodes@ == m0.nodes@.remove(i)
        &&& m1.environments == m0.environments
        &&& m1.services == m0.services
        &&& m1.network_links == m0.network_links
    }
}

/// What `remove_service` does: the links from or to it go too.
pub open spec fn remove_service_post(m0: DeploymentModel, m1: DeploymentModel, id: Seq<char>, r: Result<()>) -> bool {
    &&& !has_key(m0.services@, id) ==> fails_with(r, ErrorKind::ElementNotFound, "service: "@ + id)
    &&& r is Ok <==> has_key(m0.services@, id)
    &&& r is Err ==> m1 == m0
    &&& r is Ok ==> {
        &&& same_header(m0, m1)
        &&& exists|i: int| is_first_key(m0.services@, id, i) && m1.services@ == m0.services@.remove(i)
        &&& m1.network_links@ == links_avoiding(m0.network_links@, id)
        &&& m1.environments == m0.environments
        &&& m1.nodes == m0.nodes
    }
}

/// What `remove_network_link` does.
pub open spec fn remove_network_link_post(m0: DeploymentModel, m1: DeploymentModel, id: Seq<char>, r: Result<()>) -> bool {
    &&& !has_key(m0.network_links@, id) ==> fails_with(r, ErrorKind::ElementNotFound, "network_link: "@ + id)
    &&& r is Ok <==> has_key(m0.network_links@, id)
    &&& r is Err ==> m1 == m0
    &&& r is Ok ==> {
        &&& same_header(m0, m1)
        &&& exists|i: int| is_first_key(m0.network_links@, id, i) && m1.network_links@ == m0.network_links@.remove(i)
        &&& m1.environments == m0.environments
        &&& m1.nodes == m0.nodes
        &&& m1.services == m0.services
    }
}

impl DeploymentOperations {
    /// Adds an environment; its name defaults to its ID.
    pub fn add_environment(model: &mut DeploymentModel, id: &str, name: Option<&str>, desc: Option<&str>) -> (r: Result<()>)
        ensures
            add_environment_post(*old(model), *final(model), id@, name_or_id(name, id), opt_str_view(desc), r),
            references_hold(*old(model)) ==> references_hold(*final(model)),
            keys_distinct(old(model).environments@) ==> keys_distinct(final(model).environments@),
    {
        let key = to_owned_string(id);
        if contains_key(&model.environments, &key) {
            return Err(AppError::ElementAlreadyExists(concat2("environment: ", id)));
        }
        let shown = match name {
            Some(n) => n,
            None => id,
        };
        let ghost m0 = *model;
        let env = Environment { id: key, name: to_owned_string(shown), description: opt_str_to_string(desc) };
        let ghost x = env;
        model.environments.push(env);
        assert(model.environments@.drop_last() =~= m0.environments@);
        model.touch();
        proof {
            if keys_distinct(m0.environments@) {
                assert(model.environments@.drop_last() =~= m0.environments@);
                lemma_push_fresh_keeps_distinct(m0.environments@, model.environments@);
            }
            if references_hold(m0) {
                assert forall|i: int| 0 <= i < model.nodes@.len() implies match (#[trigger] model.nodes@[i]).environment {
                    Some(e) => has_key(model.environments@, e@),
                    None => true,
                } by {
                    if let Some(e) = model.nodes@[i].environment {
                        lemma_has_key_push(m0.environments@, x, e@);
                    }
                }
            }
        }
        Ok(())
    }

    /// Adds a node, placed in an existing environment if one is named.
    pub fn add_node(
        model: &mut DeploymentModel,
        id: &str,
        name: Option<&str>,
        desc: Option<&str>,
        node_type: Option<NodeType>,
        environment: Option<&str>,
        technology: Option<&str>,
    ) -> (r: Result<()>)
        ensures
            add_node_post(
                *old(model),
                *final(model),
                id@,
                name_or_id(name, id),
                opt_str_view(desc),
                node_type,
                opt_str_view(environment),
                opt_str_view(technology),
                r,
            ),
            references_hold(*old(model)) ==> references_hold(*final(model)),
            keys_distinct(old(model).nodes@) ==> keys_distinct(final(model).nodes@),
    {
        let key = to_owned_string(id);
        if contains_key(&model.nodes, &key) {
            return Err(AppError::ElementAlreadyExists(concat2("node: ", id)));
        }
        match environment {
            Some(env_id) => {
                if model.find_environment(env_id).is_none() {
                    return Err(AppError::ElementNotFound(concat2("environment: ", env_id)));
                }
            },
            None => {},
        }
        let shown = match name {
            Some(n) => n,
            None => id,
        };
        let kind = match node_type {
            Some(t) => t,
            None => NodeType::default(),
        };
        let ghost m0 = *model;
        model.nodes.push(DeploymentNode {
            id: key,
            name: to_owned_string(shown),
            description: opt_str_to_string(desc),
            node_type: kind,
            environment: opt_str_to_string(environment),
            technology: opt_str_to_string(technology),
        });
        assert(model.nodes@.drop_last() =~= m0.nodes@);
        model.touch();
        proof {
            if keys_distinct(m0.nodes@) {
                assert(model.nodes@.drop_last() =~= m0.nodes@);
                lemma_push_fresh_keeps_distinct(m0.nodes@, model.nodes@);
            }
            if references_hold(m0) {
                assert forall|i: int| 0 <= i < model.services@.len() implies has_key(
                    model.nodes@,
                    (#[trigger] model.services@[i]).target_node@,
                ) by {
                    lemma_has_key_push(m0.nodes@, model.nodes@.last(), model.services@[i].target_node@);
                }
                assert forall|i: int| 0 <= i < model.nodes@.len() implies match (#[trigger] model.nodes@[i]).environment {
                    Some(e) => has_key(model.environments@, e@),
                    None => true,
                } by {
                    if i < m0.nodes@.len() {
                        assert(model.nodes@[i] == m0.nodes@[i]);
                    }
                }
            }
        }
        Ok(())
    }

    /// Adds a service deployed on an existing node.
    pub fn add_service(
        model: &mut DeploymentModel,
        id: &str,
        name: Option<&str>,
        desc: Option<&str>,
        delivery_package: &str,
        target_node: &str,
        replicas: Option<u32>,
        port: Option<u16>,
    ) -> (r: Result<()>)
        ensures
            add_service_post(
                *old(model),
                *final(model),
                id@,
                name_or_id(name, id),
                opt_str_view(desc),
                delivery_package@,
                target_node@,
                replicas,
                port,
                r,
            ),
            references_hold(*old(model)) ==> references_hold(*final(model)),
            keys_distinct(old(model).services@) ==> keys_distinct(final(model).services@),
    {
        let key = to_owned_string(id);
        if contains_key(&model.services, &key) {
            return Err(AppError::ElementAlreadyExists(concat2("service: ", id)));
        }
        if model.find_node(target_node).is_none() {
            return Err(AppError::ElementNotFound(concat2("target_node: ", target_node)));
        }
        let shown = match name {
            Some(n) => n,
            None => id,
        };
        let ghost m0 = *model;
        model.services.push(DeployedService {
            id: key,
            name: to_owned_string(shown),
            description: opt_str_to_string(desc),
            delivery_package: to_owned_string(delivery_package),
            target_node: to_owned_string(target_node),
            replicas,
            port,
        });
        assert(model.services@.drop_last() =~= m0.services@);
        model.touch();
        proof {
            if keys_distinct(m0.services@) {
                assert(model.services@.drop_last() =~= m0.services@);
                lemma_push_fresh_keeps_distinct(m0.services@, model.services@);
            }
            if references_hold(m0) {
                assert forall|i: int| 0 <= i < model.network_links@.len() implies {
                    &&& has_key(model.services@, (#[trigger] model.network_links@[i]).from_service@)
                    &&& has_key(model.services@, model.network_links@[i].to_service@)
                } by {
                    lemma_has_key_push(m0.services@, model.services@.last(), model.network_links@[i].from_service@);
                    lemma_has_key_push(m0.services@, model.services@.last(), model.network_links@[i].to_service@);
                }
                assert forall|i: int| 0 <= i < model.services@.len() implies has_key(
                    model.nodes@,
                    (#[trigger] model.services@[i]).target_node@,
                ) by {
                    if i < m0.services@.len() {
                        assert(model.services@[i] == m0.services@[i]);
                    }
                }
            }
        }
        Ok(())
    }

    /// Adds a network link between two existing services.
    pub fn add_network_link(
        model: &mut DeploymentModel,
        id: &str,
        from_service: &str,
        to_service: &str,
        protocol: Option<&str>,
        port: Option<u16>,
        desc: Option<&str>,
    ) -> (r: Result<()>)
        ensures
            add_network_link_post(
                *old(model),
                *final(model),
                id@,
                from_service@,
                to_service@,
                opt_str_view(protocol),
                port,
                opt_str_view(desc),
                r,
            ),
            references_hold(*old(model)) ==> references_hold(*final(model)),
            keys_distinct(old(model).network_links@) ==> keys_distinct(final(model).network_links@),
    {
        let key = to_owned_string(id);
        if contains_key(&model.network_links, &key) {
            return Err(AppError::ElementAlreadyExists(concat2("network_link: ", id)));
        }
        if model.find_service(from_service).is_none() {
            return Err(AppError::ElementNotFound(concat2("from_service: ", from_service)));
        }
        if model.find_service(to_service).is_none() {
            return Err(AppError::ElementNotFound(concat2("to_service: ", to_service)));
        }
        let ghost m0 = *model;
        model.network_links.push(NetworkLink {
            id: key,
            from_service: to_owned_string(from_service),
            to_service: to_owned_string(to_service),
            protocol: opt_str_to_string(protocol),
            port,
            description: opt_str_to_string(desc),
        });
        assert(model.network_links@.drop_last() =~= m0.network_links@);
        model.touch();
        proof {
            if keys_distinct(m0.network_links@) {
                assert(model.network_links@.drop_last() =~= m0.network_links@);
                lemma_push_fresh_keeps_distinct(m0.network_links@, model.network_links@);
            }
            if references_hold(m0) {
                assert forall|i: int| 0 <= i < model.network_links@.len() implies {
                    &&& has_key(model.services@, (#[trigger] model.network_links@[i]).from_service@)
                    &&& has_key(model.services@, model.network_links@[i].to_service@)
                } by {
                    if i < m0.network_links@.len() {
                        assert(model.network_links@[i] == m0.network_links@[i]);
                    }
                }
            }
        }
        Ok(())
    }

    /// Removes an environment, unless nodes are placed in it.
    pub fn remove_environment(model: &mut DeploymentModel, id: &str) -> (r: Result<()>)
        ensures
            remove_environment_post(*old(model), *final(model), id@, r),
            references_hold(*old(model)) ==> references_hold(*final(model)),
            keys_distinct(old(model).environments@) ==> keys_distinct(final(model).environments@),
    {
        let key = to_owned_string(id);
        let idx = match position_of(&model.environments, &key) {
            Some(i) => i,
            None => {
                return Err(AppError::ElementNotFound(concat2("environment: ", id)));
            },
        };
        let users = nodes_in_environment(&model.nodes, &key);
        if users.len() > 0 {
            let listed = join_strings(&users, ", ");
            return Err(AppError::InvalidOperation(concat4(
                "无法删除环境 '",
                id,
                "'，以下节点引用了该环境: ",
                listed.as_str(),
            )));
        }
        let ghost m0 = *model;
        proof {
            lemma_nodes_in_empty(m0.nodes@, id@);
        }
        model.environments.remove(idx);
        model.touch();
        proof {
            if keys_distinct(m0.environments@) {
                lemma_remove_keeps_distinct(m0.environments@, idx as int);
            }
            if references_hold(m0) {
                assert forall|i: int| 0 <= i < model.nodes@.len() implies match (#[trigger] model.nodes@[i]).environment {
                    Some(e) => has_key(model.environments@, e@),
                    None => true,
                } by {
                    if let Some(e) = model.nodes@[i].environment {
                        assert(opt_view(model.nodes@[i].environment) != Some(id@));
                        lemma_has_key_remove(m0.environments@, idx as int, e@);
                    }
                }
            }
        }
        Ok(())
    }

    /// Removes a node, unless services are deployed on it.
    pub fn remove_node(model: &mut DeploymentModel, id: &str) -> (r: Result<()>)
        ensures
            remove_node_post(*old(model), *final(model), id@, r),
            references_hold(*old(model)) ==> references_hold(*final(model)),
            keys_distinct(old(model).nodes@) ==> keys_distinct(final(model).nodes@),
    {
        let key = to_owned_string(id);
        let idx = match position_of(&model.nodes, &key) {
            Some(i) => i,
            None => {
                return Err(AppError::ElementNotFound(concat2("node: ", id)));
            },
        };
        let users = services_on_node(&model.services, &key);
        if users.len() > 0 {
            let listed = join_strings(&users, ", ");
            return Err(AppError::InvalidOperation(concat4(
                "无法删除节点 '",
                id,
                "'，以下服务部署在该节点上: ",
                listed.as_str(),
            )));
        }
        let ghost m0 = *model;
        proof {
            lemma_services_on_empty(m0.services@, id@);
        }
        model.nodes.remove(idx);
        model.touch();
        proof {
            if keys_distinct(m0.nodes@) {
                lemma_remove_keeps_distinct(m0.nodes@, idx as int);
            }
            if references_hold(m0) {
                assert forall|i: int| 0 <= i < model.services@.len() implies has_key(
                    model.nodes@,
                    (#[trigger] model.services@[i]).target_node@,
                ) by {
                    lemma_has_key_remove(m0.nodes@, idx as int, model.services@[i].target_node@);
                }
            }
        }
        Ok(())
    }

    /// Removes a service and every network link from or to it.
    pub fn remove_service(model: &mut DeploymentModel, id: &str) -> (r: Result<()>)
        ensures
            remove_service_post(*old(model), *final(model), id@, r),
            references_hold(*old(model)) ==> references_hold(*final(model)),
            keys_distinct(old(model).services@) ==> keys_distinct(final(model).services@),
    {
        let key = to_owned_string(id);
        let idx = match position_of(&model.services, &key) {
            Some(i) => i,
            None => {
                return Err(AppError::ElementNotFound(concat2("service: ", id)));
            },
        };
        let ghost m0 = *model;
        drop_links_of(&mut model.network_links, &key);
        model.services.remove(idx);
        model.touch();
        proof {
            if keys_distinct(m0.services@) {
                lemma_remove_keeps_distinct(m0.services@, idx as int);
            }
            lemma_links_avoiding(m0.network_links@, id@);
            if references_hold(m0) {
                let kept = model.network_links@;
                assert forall|i: int| 0 <= i < kept.len() implies {
                    &&& has_key(model.services@, (#[trigger] kept[i]).from_service@)
                    &&& has_key(model.services@, kept[i].to_service@)
                } by {
                    let j = choose|j: int| 0 <= j < m0.network_links@.len() && m0.network_links@[j] == kept[i];
                    assert(m0.network_links@[j] == kept[i]);
                    lemma_has_key_remove(m0.services@, idx as int, kept[i].from_service@);
                    lemma_has_key_remove(m0.services@, idx as int, kept[i].to_service@);
                }
            }
        }
        Ok(())
    }

    /// Removes a network link.
    pub fn remove_network_link(model: &mut DeploymentModel, id: &str) -> (r: Result<()>)
        ensures
            remove_network_link_post(*old(model), *final(model), id@, r),
            references_hold(*old(model)) ==> references_hold(*final(model)),
            keys_distinct(old(model).network_links@) ==> keys_distinct(final(model).network_links@),
    {
        let key = to_owned_string(id);
        let idx = match position_of(&model.network_links, &key) {
            Some(i) => i,
            None => {
                return Err(AppError::ElementNotFound(concat2("network_link: ", id)));
            },
        };
        let ghost m0 = *model;
        model.network_links.remove(idx);
        model.touch();
        proof {
            if keys_distinct(m0.network_links@) {
                lemma_remove_keeps_distinct(m0.network_links@, idx as int);
            }
            if references_hold(m0) {
                assert forall|i: int| 0 <= i < model.network_links@.len() implies {
                    &&& has_key(model.services@, (#[trigger] model.network_links@[i]).from_service@)
                    &&& has_key(model.services@, model.network_links@[i].to_service@)
                } by {
                    if i < idx {
                        assert(model.network_links@[i] == m0.network_links@[i]);
                    } else {
                        assert(model.network_links@[i] == m0.network_links@[i + 1]);
                    }
                }
            }
        }
        Ok(())
    }
}

/// When no node is placed in the environment, `nodes_in` lists nothing.
proof fn lemma_nodes_in_none(nodes: Seq<DeploymentNode>, env: Seq<char>)
    requires
        forall|i: int| 0 <= i < nodes.len() ==> opt_view(#[trigger] nodes[i].environment) != Some(env),
    ensures
        nodes_in(nodes, env).len() == 0,
    decreases nodes.len(),
{
    if nodes.len() > 0 {
        lemma_nodes_in_none(nodes.drop_last(), env);
        assert(nodes[nodes.len() - 1] == nodes.last());
    }
}

/// Adding an environment and then removing it by the same ID succeeds and
/// gives back the environments of the model before, when every reference of
/// that model named an existing element.
pub proof fn lemma_add_then_remove_environment(
    m0: DeploymentModel,
    m1: DeploymentModel,
    m2: DeploymentModel,
    id: Seq<char>,
    name: Seq<char>,
    description: Option<Seq<char>>,
    r1: Result<()>,
    r2: Result<()>,
)
    requires
        references_hold(m0),
        add_environment_post(m0, m1, id, name, description, r1),
        r1 is Ok,
        remove_environment_post(m1, m2, id, r2),
    ensures
        r2 is Ok,
        m2.environments@ == m0.environments@,
        m2.nodes == m0.nodes,
        m2.services == m0.services,
        m2.network_links == m0.network_links,
{
    let n = m0.environments@.len() as int;
    assert(m1.environments@[n].key() == id);
    assert(has_key(m1.environments@, id));
    assert forall|k: int| 0 <= k < m0.nodes@.len() implies
        opt_view(#[trigger] m0.nodes@[k].environment) != Some(id) by {
        match m0.nodes@[k].environment {
            Some(e) => {
                assert(has_key(m0.environments@, e@));
            },
            None => {},
        }
    }
    lemma_nodes_in_none(m0.nodes@, id);
    let i = choose|i: int| is_first_key(m1.environments@, id, i)
        && m2.environments@ == m1.environments@.remove(i);
    if i < n {
        assert(m0.environments@[i] == m1.environments@[i]);
        assert(has_key(m0.environments@, id));
    }
    assert(i == n);
    assert(m2.environments@ =~= m0.environments@);
}

} // verus!
