use vstd::prelude::*;
use crate::utils::clock::now_seconds;
use crate::utils::keyed::{Keyed, has_key, is_first_key, position_of};
use crate::utils::text::{to_owned_string, copy_string, same_text};

verus! {

/// Root structure for a context diagram.
#[derive(Debug)]
pub struct ContextDiagram {
    pub version: String,
    pub kind: DiagramKind,
    pub metadata: Metadata,
    pub system: System,
    pub actors: Vec<Actor>,
    pub external_systems: Vec<ExternalSystem>,
    pub interfaces: Vec<Interface>,
    pub interface_providers: Vec<InterfaceProvider>,
    pub interface_usages: Vec<InterfaceUsage>,
}

/// A derived relationship as characters: (from, to, via interface).
pub type RelationView = (Seq<char>, Seq<char>, Seq<char>);

/// Whether a list of interface IDs holds `iface`.
pub open spec fn lists_text(ids: Seq<String>, iface: Seq<char>) -> bool {
    exists|j: int| 0 <= j < ids.len() && #[trigger] ids[j]@ == iface
}

/// The system of the last provider entry that lists `iface`
/// (a later entry overrides an earlier one).
pub open spec fn provider_of(providers: Seq<InterfaceProvider>, iface: Seq<char>) -> Option<Seq<char>>
    decreases providers.len(),
{
    if providers.len() == 0 {
        None
    } else if lists_text(providers.last().interfaces@, iface) {
        Some(providers.last().system@)
    } else {
        provider_of(providers.drop_last(), iface)
    }
}

/// The relationships that the interfaces `ifaces`, used by `actor`, give rise to.
pub open spec fn relations_for(actor: Seq<char>, ifaces: Seq<String>, providers: Seq<InterfaceProvider>) -> Seq<RelationView>
    decreases ifaces.len(),
{
    if ifaces.len() == 0 {
        Seq::empty()
    } else {
        let prev = relations_for(actor, ifaces.drop_last(), providers);
        let iface = ifaces.last()@;
        match provider_of(providers, iface) {
            Some(p) => if actor != p { prev.push((actor, p, iface)) } else { prev },
            None => prev,
        }
    }
}

/// All derived relationships: for each usage in order, for each interface it
/// uses in order, `actor -> provider` when a provider exists and differs from
/// the actor.
pub open spec fn derived_relations(usages: Seq<InterfaceUsage>, providers: Seq<InterfaceProvider>) -> Seq<RelationView>
    decreases usages.len(),
{
    if usages.len() == 0 {
        Seq::empty()
    } else {
        derived_relations(usages.drop_last(), providers)
            + relations_for(usages.last().actor@, usages.last().interfaces@, providers)
    }
}

/// The characters of a derived relationship.
pub open spec fn relation_view(d: DerivedRelationship) -> RelationView {
    (d.from@, d.to@, d.via_interface@)
}

/// The element IDs of a context diagram: system, actors, external systems.
pub open spec fn element_ids(d: ContextDiagram) -> Seq<Seq<char>> {
    seq![d.system.id@]
        + d.actors@.map_values(|a: Actor| a.id@)
        + d.external_systems@.map_values(|e: ExternalSystem| e.id@)
}

/// The name of the element with ID `id`: the system, else the first actor,
/// else the first external system.
pub open spec fn element_name(d: ContextDiagram, id: Seq<char>) -> Option<Seq<char>> {
    if d.system.id@ == id {
        Some(d.system.name@)
    } else if has_key(d.actors@, id) {
        Some(d.actors@[choose|i: int| is_first_key(d.actors@, id, i)].name@)
    } else if has_key(d.external_systems@, id) {
        Some(d.external_systems@[choose|i: int| is_first_key(d.external_systems@, id, i)].name@)
    } else {
        None
    }
}

/// Whether the list of interface IDs holds `iface`.
pub fn list_contains(ids: &Vec<String>, iface: &String) -> (r: bool)
    ensures
        r == lists_text(ids@, iface@),
{
    let mut j: usize = 0;
    while j < ids.len()
        invariant
            j <= ids.len(),
            forall|k: int| 0 <= k < j ==> #[trigger] ids@[k]@ != iface@,
        decreases ids.len() - j,
    {
        if same_text(&ids[j], iface) {
            return true;
        }
        j = j + 1;
    }
    false
}

fn find_provider<'a>(providers: &'a Vec<InterfaceProvider>, iface: &String) -> (r: Option<&'a String>)
    ensures
        match r {
            Some(s) => provider_of(providers@, iface@) == Some(s@),
            None => provider_of(providers@, iface@) is None,
        },
{
    let mut k: usize = providers.len();
    assert(providers@.take(k as int) =~= providers@);
    while k > 0
        invariant
            k <= providers.len(),
            provider_of(providers@, iface@) == provider_of(providers@.take(k as int), iface@),
        decreases k,
    {
        let ghost pre = providers@.take(k as int);
        assert(pre.drop_last() =~= providers@.take(k - 1));
        if list_contains(&providers[k - 1].interfaces, iface) {
            return Some(&providers[k - 1].system);
        }
        k = k - 1;
    }
    assert(providers@.take(0) =~= Seq::<InterfaceProvider>::empty());
    None
}

impl ContextDiagram {
    /// A new context diagram whose system has the given ID (also used as its name).
    pub fn new(system_id: &str, title: &str) -> (d: Self)
        ensures
            d.metadata.created_at >= 0,
            d.metadata.updated_at >= 0,
            d.version@ == "1.0"@,
            d.kind == DiagramKind::ContextDiagram,
            d.metadata.title@ == title@,
            d.metadata.description is None,
            d.system.id@ == system_id@,
            d.system.name@ == system_id@,
            d.system.description is None,
            d.actors@.len() == 0,
            d.external_systems@.len() == 0,
            d.interfaces@.len() == 0,
            d.interface_providers@.len() == 0,
            d.interface_usages@.len() == 0,
    {
        ContextDiagram {
            version: String::from_str("1.0"),
            kind: DiagramKind::ContextDiagram,
            metadata: Metadata {
                title: String::from_str(title),
                description: None,
                created_at: now_seconds(),
                updated_at: now_seconds(),
            },
            system: System {
                id: String::from_str(system_id),
                name: String::from_str(system_id),
                description: None,
            },
            actors: Vec::new(),
            external_systems: Vec::new(),
            interfaces: Vec::new(),
            interface_providers: Vec::new(),
            interface_usages: Vec::new(),
        }
    }

    /// Derives `actor -> provider` relationships from interface usages and providers.
    pub fn derive_relationships(&self) -> (r: Vec<DerivedRelationship>)
        ensures
            r@.map_values(|d: DerivedRelationship| relation_view(d))
                == derived_relations(self.interface_usages@, self.interface_providers@),
    {
        let mut out: Vec<DerivedRelationship> = Vec::new();
        let usages = &self.interface_usages;
        let providers = &self.interface_providers;
        let mut u: usize = 0;
        while u < usages.len()
            invariant
                u <= usages.len(),
                usages@ == self.interface_usages@,
                providers@ == self.interface_providers@,
                out@.map_values(|d: DerivedRelationship| relation_view(d))
                    == derived_relations(usages@.take(u as int), providers@),
            decreases usages.len() - u,
        {
            let usage = &usages[u];
            let ghost before = out@.map_values(|d: DerivedRelationship| relation_view(d));
            let mut j: usize = 0;
            while j < usage.interfaces.len()
                invariant
                    j <= usage.interfaces.len(),
                    usage == usages@[u as int],
                    usages@ == self.interface_usages@,
                    providers@ == self.interface_providers@,
                    out@.map_values(|d: DerivedRelationship| relation_view(d))
                        == before + relations_for(usage.actor@, usage.interfaces@.take(j as int), providers@),
                decreases usage.interfaces.len() - j,
            {
                let ghost ifs = usage.interfaces@.take(j + 1);
                assert(ifs.drop_last() =~= usage.interfaces@.take(j as int));
                let iface = &usage.interfaces[j];
                match find_provider(providers, iface) {
                    Some(p) => {
                        if !same_text(&usage.actor, p) {
                            let rel = DerivedRelationship {
                                from: copy_string(&usage.actor),
                                to: copy_string(p),
                                via_interface: copy_string(iface),
                            };
                            let ghost prev = out@;
                            out.push(rel);
                            assert(out@.map_values(|d: DerivedRelationship| relation_view(d))
                                =~= prev.map_values(|d: DerivedRelationship| relation_view(d)).push(relation_view(rel)));
                        }
                    },
                    None => {},
                }
                j = j + 1;
            }
            assert(usage.interfaces@.take(usage.interfaces@.len() as int) =~= usage.interfaces@);
            assert(usages@.take(u + 1).drop_last() =~= usages@.take(u as int));
            u = u + 1;
        }
        assert(usages@.take(usages@.len() as int) =~= usages@);
        out
    }

    /// All element IDs: the system, then actors, then external systems.
    pub fn all_element_ids(&self) -> (r: Vec<&str>)
        ensures
            r@.map_values(|s: &str| s@) == element_ids(*self),
    {
        let mut ids: Vec<&str> = Vec::new();
        ids.push(self.system.id.as_str());
        let mut i: usize = 0;
        while i < self.actors.len()
            invariant
                i <= self.actors.len(),
                ids@.map_values(|s: &str| s@)
                    == seq![self.system.id@] + self.actors@.take(i as int).map_values(|a: Actor| a.id@),
            decreases self.actors.len() - i,
        {
            let ghost prev = ids@;
            ids.push(self.actors[i].id.as_str());
            assert(ids@.map_values(|s: &str| s@) =~= prev.map_values(|s: &str| s@).push(self.actors@[i as int].id@));
            assert(self.actors@.take(i + 1).map_values(|a: Actor| a.id@)
                =~= self.actors@.take(i as int).map_values(|a: Actor| a.id@).push(self.actors@[i as int].id@));
            i = i + 1;
        }
        assert(self.actors@.take(self.actors@.len() as int) =~= self.actors@);
        let ghost mid = ids@.map_values(|s: &str| s@);
        let mut k: usize = 0;
        while k < self.external_systems.len()
            invariant
                k <= self.external_systems.len(),
                ids@.map_values(|s: &str| s@)
                    == mid + self.external_systems@.take(k as int).map_values(|e: ExternalSystem| e.id@),
            decreases self.external_systems.len() - k,
        {
            let ghost prev = ids@;
            ids.push(self.external_systems[k].id.as_str());
            assert(ids@.map_values(|s: &str| s@) =~= prev.map_values(|s: &str| s@).push(self.external_systems@[k as int].id@));
            assert(self.external_systems@.take(k + 1).map_values(|e: ExternalSystem| e.id@)
                =~= self.external_systems@.take(k as int).map_values(|e: ExternalSystem| e.id@).push(self.external_systems@[k as int].id@));
            k = k + 1;
        }
        assert(self.external_systems@.take(self.external_systems@.len() as int) =~= self.external_systems@);
        ids
    }

    /// The name of the element with the given ID: system, then actors, then external systems.
    pub fn get_element_name(&self, id: &str) -> (r: Option<&str>)
        ensures
            match r {
                Some(n) => element_name(*self, id@) == Some(n@),
                None => element_name(*self, id@) is None,
            },
    {
        let key = to_owned_string(id);
        if same_text(&self.system.id, &key) {
            return Some(self.system.name.as_str());
        }
        match position_of(&self.actors, &key) {
            Some(i) => {
                return Some(self.actors[i].name.as_str());
            },
            None => {},
        }
        match position_of(&self.external_systems, &key) {
            Some(i) => Some(self.external_systems[i].name.as_str()),
            None => None,
        }
    }

    /// Updates the modification time; nothing else changes.
    pub fn touch(&mut self)
        ensures
            final(self).metadata.updated_at >= 0,
            final(self).version == old(self).version,
            final(self).kind == old(self).kind,
            final(self).metadata.title == old(self).metadata.title,
            final(self).metadata.description == old(self).metadata.description,
            final(self).metadata.created_at == old(self).metadata.created_at,
            final(self).system == old(self).system,
            final(self).actors == old(self).actors,
            final(self).external_systems == old(self).external_systems,
            final(self).interfaces == old(self).interfaces,
            final(self).interface_providers == old(self).interface_providers,
            final(self).interface_usages == old(self).interface_usages,
    {
        self.metadata.updated_at = now_seconds();
    }
}

/// The kind tag of a context diagram.
#[derive(Debug, Clone, Copy, PartialEq, Eq, Structural)]
pub enum DiagramKind {
    ContextDiagram,
}

/// Title, description and timestamps (seconds since the Unix epoch).
#[derive(Debug)]
pub struct Metadata {
    pub title: String,
    pub description: Option<String>,
    pub created_at: i64,
    pub updated_at: i64,
}

/// The core system (singleton).
#[derive(Debug)]
pub struct System {
    pub id: String,
    pub name: String,
    pub description: Option<String>,
}

/// An actor (person).
#[derive(Debug)]
pub struct Actor {
    pub id: String,
    pub name: String,
    pub description: Option<String>,
    pub actor_type: ActorType,
}

impl Keyed for Actor {
    open spec fn key(&self) -> Seq<char> {
        self.id@
    }

    fn key_text(&self) -> (r: &String) {
        &self.id
    }
}

/// Whether an actor is inside or outside the organisation.
#[derive(Debug, Clone, Copy, PartialEq, Eq, Structural)]
pub enum ActorType {
    External,
    Internal,
}

impl Default for ActorType {
    fn default() -> (r: Self)
        ensures
            r == ActorType::External,
    {
        ActorType::External
    }
}

/// An external system.
#[derive(Debug)]
pub struct ExternalSystem {
    pub id: String,
    pub name: String,
    pub description: Option<String>,
    pub technology: Option<String>,
}

impl Keyed for ExternalSystem {
    open spec fn key(&self) -> Seq<char> {
        self.id@
    }

    fn key_text(&self) -> (r: &String) {
        &self.id
    }
}

/// An interface definition.
#[derive(Debug)]
pub struct Interface {
    pub id: String,
    pub name: String,
    pub description: Option<String>,
    pub protocol: Protocol,
    pub endpoints: Vec<Endpoint>,
}

impl Keyed for Interface {
    open spec fn key(&self) -> Seq<char> {
        self.id@
    }

    fn key_text(&self) -> (r: &String) {
        &self.id
    }
}

/// The protocol of an interface.
#[derive(Debug, Clone, PartialEq, Eq)]
pub enum Protocol {
    Rest,
    Grpc,
    Graphql,
    WebSocket,
    Mqtt,
    Amqp,
    Custom(String),
}

impl Default for Protocol {
    fn default() -> (r: Self)
        ensures
            r == Protocol::Rest,
    {
        Protocol::Rest
    }
}

/// An endpoint of an interface.
#[derive(Debug)]
pub struct Endpoint {
    pub method: HttpMethod,
    pub path: String,
}

/// HTTP method of an endpoint.
#[derive(Debug, Clone, Copy, PartialEq, Eq, Structural)]
pub enum HttpMethod {
    GET,
    POST,
    PUT,
    DELETE,
    PATCH,
}

/// Interface provider: system -> interfaces.
#[derive(Debug)]
pub struct InterfaceProvider {
    pub system: String,
    pub interfaces: Vec<String>,
}

impl Keyed for InterfaceProvider {
    open spec fn key(&self) -> Seq<char> {
        self.system@
    }

    fn key_text(&self) -> (r: &String) {
        &self.system
    }
}

/// Interface usage: actor/system -> interfaces.
#[derive(Debug)]
pub struct InterfaceUsage {
    pub actor: String,
    pub interfaces: Vec<String>,
}

impl Keyed for InterfaceUsage {
    open spec fn key(&self) -> Seq<char> {
        self.actor@
    }

    fn key_text(&self) -> (r: &String) {
        &self.actor
    }
}

/// A relationship derived from an interface usage.
#[derive(Debug)]
pub struct DerivedRelationship {
    pub from: String,
    pub to: String,
    pub via_interface: String,
}

} // verus!
