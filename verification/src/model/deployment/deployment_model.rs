use vstd::prelude::*;
use crate::utils::clock::now_seconds;
use crate::utils::keyed::{Keyed, has_key, is_first_key, key_strs, position_of};
use crate::utils::text::to_owned_string;

verus! {

/// Root structure for a deployment model.
#[derive(Debug)]
pub struct DeploymentModel {
    pub version: String,
    pub kind: DeploymentDiagramKind,
    pub metadata: DeploymentMetadata,
    pub environments: Vec<Environment>,
    pub nodes: Vec<DeploymentNode>,
    pub services: Vec<DeployedService>,
    pub network_links: Vec<NetworkLink>,
}

/// The lookup result `r` for key `id` in `s`: the first match, or none.
pub open spec fn lookup<T: Keyed>(s: Seq<T>, id: Seq<char>, r: Option<&T>) -> bool {
    match r {
        Some(e) => exists|i: int| is_first_key(s, id, i) && s[i] == *e,
        None => !has_key(s, id),
    }
}

/// The name found by the cross-type lookup: environments, then nodes, then services.
pub open spec fn element_name_of(m: DeploymentModel, id: Seq<char>) -> Option<Seq<char>> {
    if has_key(m.environments@, id) {
        Some(m.environments@[choose|i: int| is_first_key(m.environments@, id, i)].name@)
    } else if has_key(m.nodes@, id) {
        Some(m.nodes@[choose|i: int| is_first_key(m.nodes@, id, i)].name@)
    } else if has_key(m.services@, id) {
        Some(m.services@[choose|i: int| is_first_key(m.services@, id, i)].name@)
    } else {
        None
    }
}

impl DeploymentModel {
    /// A new, empty deployment model with the given title.
    pub fn new(title: &str) -> (m: Self)
        ensures
            m.metadata.created_at >= 0,
            m.metadata.updated_at >= 0,
            m.version@ == "1.0"@,
            m.kind == DeploymentDiagramKind::DeploymentModel,
            m.metadata.title@ == title@,
            m.metadata.description is None,
            m.environments@.len() == 0,
            m.nodes@.len() == 0,
            m.services@.len() == 0,
            m.network_links@.len() == 0,
    {
        DeploymentModel {
            version: String::from_str("1.0"),
            kind: DeploymentDiagramKind::DeploymentModel,
            metadata: DeploymentMetadata {
                title: String::from_str(title),
                description: None,
                created_at: now_seconds(),
                updated_at: now_seconds(),
            },
            environments: Vec::new(),
            nodes: Vec::new(),
            services: Vec::new(),
            network_links: Vec::new(),
        }
    }

    /// Updates the modification time; nothing else changes.
    pub fn touch(&mut self)
        ensures
            final(self).metadata.updated_at >= 0,
            final(self).version == old(self).version,
            final(self).kind == old(self).kind,
            final(self).metadata.title == old(self).metadata.title,
            final(self).metadata.description == old(self).metadata.description,
            final(self).metadata.created_at == old(self).metadata.created_at,
            final(self).environments == old(self).environments,
            final(self).nodes == old(self).nodes,
            final(self).services == old(self).services,
            final(self).network_links == old(self).network_links,
    {
        self.metadata.updated_at = now_seconds();
    }

    /// The IDs of all environments, in order.
    pub fn all_environment_ids(&self) -> (r: Vec<&str>)
        ensures
            r@.len() == self.environments@.len(),
            forall|i: int| 0 <= i < self.environments@.len() ==> #[trigger] r@[i]@ == self.environments@[i].id@,
    {
        key_strs(&self.environments)
    }

    /// The IDs of all nodes, in order.
    pub fn all_node_ids(&self) -> (r: Vec<&str>)
        ensures
            r@.len() == self.nodes@.len(),
            forall|i: int| 0 <= i < self.nodes@.len() ==> #[trigger] r@[i]@ == self.nodes@[i].id@,
    {
        key_strs(&self.nodes)
    }

    /// The IDs of all services, in order.
    pub fn all_service_ids(&self) -> (r: Vec<&str>)
        ensures
            r@.len() == self.services@.len(),
            forall|i: int| 0 <= i < self.services@.len() ==> #[trigger] r@[i]@ == self.services@[i].id@,
    {
        key_strs(&self.services)
    }

    /// The first environment with the given ID.
    pub fn find_environment(&self, id: &str) -> (r: Option<&Environment>)
        ensures
            lookup(self.environments@, id@, r),
    {
        let key = to_owned_string(id);
        match position_of(&self.environments, &key) {
            Some(i) => Some(&self.environments[i]),
            None => None,
        }
    }

    /// The first node with the given ID.
    pub fn find_node(&self, id: &str) -> (r: Option<&DeploymentNode>)
        ensures
            lookup(self.nodes@, id@, r),
    {
        let key = to_owned_string(id);
        match position_of(&self.nodes, &key) {
            Some(i) => Some(&self.nodes[i]),
            None => None,
        }
    }

    /// The first node with the given ID, for modification.
    pub fn find_node_mut(&mut self, id: &str) -> (r: Option<&mut DeploymentNode>)
        ensures
            match r {
                Some(n) => exists|i: int| {
                    &&& is_first_key(old(self).nodes@, id@, i)
                    &&& *n == old(self).nodes@[i]
                    &&& final(self).nodes@ == old(self).nodes@.update(i, *final(n))
                },
                None => !has_key(old(self).nodes@, id@) && *final(self) == *old(self),
            },
            final(self).version == old(self).version,
            final(self).kind == old(self).kind,
            final(self).metadata == old(self).metadata,
            final(self).environments == old(self).environments,
            final(self).services == old(self).services,
            final(self).network_links == old(self).network_links,
    {
        let key = to_owned_string(id);
        match position_of(&self.nodes, &key) {
            Some(i) => Some(&mut self.nodes[i]),
            None => None,
        }
    }

    /// The first service with the given ID.
    pub fn find_service(&self, id: &str) -> (r: Option<&DeployedService>)
        ensures
            lookup(self.services@, id@, r),
    {
        let key = to_owned_string(id);
        match position_of(&self.services, &key) {
            Some(i) => Some(&self.services[i]),
            None => None,
        }
    }

    /// The first service with the given ID, for modification.
    pub fn find_service_mut(&mut self, id: &str) -> (r: Option<&mut DeployedService>)
        ensures
            match r {
                Some(s) => exists|i: int| {
                    &&& is_first_key(old(self).services@, id@, i)
                    &&& *s == old(self).services@[i]
                    &&& final(self).services@ == old(self).services@.update(i, *final(s))
                },
                None => !has_key(old(self).services@, id@) && *final(self) == *old(self),
            },
            final(self).version == old(self).version,
            final(self).kind == old(self).kind,
            final(self).metadata == old(self).metadata,
            final(self).environments == old(self).environments,
            final(self).nodes == old(self).nodes,
            final(self).network_links == old(self).network_links,
    {
        let key = to_owned_string(id);
        match position_of(&self.services, &key) {
            Some(i) => Some(&mut self.services[i]),
            None => None,
        }
    }

    /// The first network link with the given ID.
    pub fn find_network_link(&self, id: &str) -> (r: Option<&NetworkLink>)
        ensures
            lookup(self.network_links@, id@, r),
    {
        let key = to_owned_string(id);
        match position_of(&self.network_links, &key) {
            Some(i) => Some(&self.network_links[i]),
            None => None,
        }
    }

    /// Cross-type name lookup: environments first, then nodes, then services.
    pub fn get_element_name(&self, id: &str) -> (r: Option<&str>)
        ensures
            match r {
                Some(n) => element_name_of(*self, id@) == Some(n@),
                None => element_name_of(*self, id@) is None,
            },
    {
        match self.find_environment(id) {
            Some(e) => {
                return Some(e.name.as_str());
            },
            None => {},
        }
        match self.find_node(id) {
            Some(n) => {
                return Some(n.name.as_str());
            },
            None => {},
        }
        match self.find_service(id) {
            Some(s) => Some(s.name.as_str()),
            None => None,
        }
    }
}

/// The kind tag of a deployment model.
#[derive(Debug, Clone, Copy, PartialEq, Eq, Structural)]
pub enum DeploymentDiagramKind {
    DeploymentModel,
}

/// Title, description and timestamps (seconds since the Unix epoch).
#[derive(Debug)]
pub struct DeploymentMetadata {
    pub title: String,
    pub description: Option<String>,
    pub created_at: i64,
    pub updated_at: i64,
}

/// A deployment environment (production, staging, ...).
#[derive(Debug)]
pub struct Environment {
    pub id: String,
    pub name: String,
    pub description: Option<String>,
}

impl Keyed for Environment {
    open spec fn key(&self) -> Seq<char> {
        self.id@
    }

    fn key_text(&self) -> (r: &String) {
        &self.id
    }
}

/// A node that runs services.
#[derive(Debug)]
pub struct DeploymentNode {
    pub id: String,
    pub name: String,
    pub description: Option<String>,
    pub node_type: NodeType,
    pub environment: Option<String>,
    pub technology: Option<String>,
}

impl Keyed for DeploymentNode {
    open spec fn key(&self) -> Seq<char> {
        self.id@
    }

    fn key_text(&self) -> (r: &String) {
        &self.id
    }
}

/// The kind of a deployment node.
#[derive(Debug, Clone, Copy, PartialEq, Eq, Structural)]
pub enum NodeType {
    Server,
    Vm,
    Container,
    Kubernetes,
    Serverless,
}

impl Default for NodeType {
    fn default() -> (r: Self)
        ensures
            r == NodeType::Server,
    {
        NodeType::Server
    }
}

/// A service deployed onto a node.
#[derive(Debug)]
pub struct DeployedService {
    pub id: String,
    pub name: String,
    pub description: Option<String>,
    pub delivery_package: String,
    pub target_node: String,
    pub replicas: Option<u32>,
    pub port: Option<u16>,
}

impl Keyed for DeployedService {
    open spec fn key(&self) -> Seq<char> {
        self.id@
    }

    fn key_text(&self) -> (r: &String) {
        &self.id
    }
}

/// A network link between two services.
#[derive(Debug)]
pub struct NetworkLink {
    pub id: String,
    pub from_service: String,
    pub to_service: String,
    pub protocol: Option<String>,
    pub port: Option<u16>,
    pub description: Option<String>,
}

impl Keyed for NetworkLink {
    open spec fn key(&self) -> Seq<char> {
        self.id@
    }

    fn key_text(&self) -> (r: &String) {
        &self.id
    }
}

} // verus!
