use vstd::prelude::*;
use crate::utils::clock::now_seconds;
use crate::utils::text::{to_owned_string, same_text};
use crate::utils::keyed::Keyed;

verus! {

broadcast use {vstd::seq::group_seq_axioms, vstd::std_specs::vec::group_vec_axioms};

/// Root structure for a logical architecture diagram (logic view).
#[derive(Debug)]
pub struct LogicConceptDiagram {
    pub version: String,
    pub kind: DiagramKind,
    pub metadata: Metadata,
    pub system: System,
    /// Which element provides which interface.
    pub provide_relations: Vec<ProvideRelation>,
    /// Which element contains which.
    pub containments: Vec<ElementContainment>,
    /// The IDs of the system-level modules that were added as submodules.
    pub submodule_ids: Vec<String>,
    /// Dependencies between elements, drawn as they are listed.
    pub dependencies: Vec<Dependency>,
}

/// The characters of borrowed strings.
pub open spec fn str_views(v: Seq<&str>) -> Seq<Seq<char>> {
    v.map_values(|s: &str| s@)
}

/// IDs of a module and the modules nested in it, in pre-order.
pub open spec fn module_ids(m: Module) -> Seq<Seq<char>>
    decreases m,
{
    seq![m.id@] + module_list_ids(m.modules@)
}

/// IDs of a list of modules, in pre-order.
pub open spec fn module_list_ids(l: Seq<Module>) -> Seq<Seq<char>>
    decreases l,
{
    if l.len() == 0 {
        Seq::empty()
    } else {
        module_list_ids(l.drop_last()) + module_ids(l.last())
    }
}

/// IDs of a component and its modules, in pre-order.
pub open spec fn component_ids(c: Component) -> Seq<Seq<char>> {
    seq![c.id@] + module_list_ids(c.modules@)
}

/// IDs of a list of components, in pre-order.
pub open spec fn component_list_ids(l: Seq<Component>) -> Seq<Seq<char>>
    decreases l.len(),
{
    if l.len() == 0 {
        Seq::empty()
    } else {
        component_list_ids(l.drop_last()) + component_ids(l.last())
    }
}

/// IDs of a subsystem and its components, in pre-order.
pub open spec fn subsystem_ids(s: Subsystem) -> Seq<Seq<char>> {
    seq![s.id@] + component_list_ids(s.components@)
}

/// IDs of a list of subsystems, in pre-order.
pub open spec fn subsystem_list_ids(l: Seq<Subsystem>) -> Seq<Seq<char>>
    decreases l.len(),
{
    if l.len() == 0 {
        Seq::empty()
    } else {
        subsystem_list_ids(l.drop_last()) + subsystem_ids(l.last())
    }
}

/// IDs below the system (not the system itself): subsystems first, then
/// components, then the modules placed directly in the system.
pub open spec fn system_ids(s: System) -> Seq<Seq<char>> {
    subsystem_list_ids(s.subsystems@) + component_list_ids(s.components@) + module_list_ids(s.modules@)
}

/// The name of the first element with ID `id` in a module tree.
pub open spec fn module_name(m: Module, id: Seq<char>) -> Option<Seq<char>>
    decreases m,
{
    if m.id@ == id { Some(m.name@) } else { module_list_name(m.modules@, id) }
}

/// The name of the first element with ID `id` in a list of module trees.
pub open spec fn module_list_name(l: Seq<Module>, id: Seq<char>) -> Option<Seq<char>>
    decreases l,
{
    if l.len() == 0 {
        None
    } else {
        match module_name(l[0], id) {
            Some(n) => Some(n),
            None => module_list_name(l.drop_first(), id),
        }
    }
}

/// The name of the first element with ID `id` in a component tree.
pub open spec fn component_name(c: Component, id: Seq<char>) -> Option<Seq<char>> {
    if c.id@ == id { Some(c.name@) } else { module_list_name(c.modules@, id) }
}

/// The name of the first element with ID `id` in a list of component trees.
pub open spec fn component_list_name(l: Seq<Component>, id: Seq<char>) -> Option<Seq<char>>
    decreases l.len(),
{
    if l.len() == 0 {
        None
    } else {
        match component_name(l[0], id) {
            Some(n) => Some(n),
            None => component_list_name(l.drop_first(), id),
        }
    }
}

/// The name of the first element with ID `id` in a subsystem tree.
pub open spec fn subsystem_name(s: Subsystem, id: Seq<char>) -> Option<Seq<char>> {
    if s.id@ == id { Some(s.name@) } else { component_list_name(s.components@, id) }
}

/// The name of the first element with ID `id` in a list of subsystem trees.
pub open spec fn subsystem_list_name(l: Seq<Subsystem>, id: Seq<char>) -> Option<Seq<char>>
    decreases l.len(),
{
    if l.len() == 0 {
        None
    } else {
        match subsystem_name(l[0], id) {
            Some(n) => Some(n),
            None => subsystem_list_name(l.drop_first(), id),
        }
    }
}

/// The name of the first element below the system with ID `id`:
/// subsystem trees first, then component trees, then system-level module trees.
pub open spec fn system_name(s: System, id: Seq<char>) -> Option<Seq<char>> {
    match subsystem_list_name(s.subsystems@, id) {
        Some(n) => Some(n),
        None => match component_list_name(s.components@, id) {
            Some(n) => Some(n),
            None => module_list_name(s.modules@, id),
        },
    }
}

fn module_list_collect<'a>(l: &'a Vec<Module>, ids: &mut Vec<&'a str>)
    ensures
        str_views(final(ids)@) == str_views(old(ids)@) + module_list_ids(l@),
    decreases l,
{
    let ghost start = str_views(ids@);
    let mut k: usize = 0;
    while k < l.len()
        invariant
            k <= l.len(),
            str_views(ids@) == start + module_list_ids(l@.take(k as int)),
        decreases l.len() - k,
    {
        assert(l@.take(k + 1).drop_last() =~= l@.take(k as int));
        proof {
            assert(decreases_to!(*l => l@[k as int]));
        }
        l[k].collect_ids(ids);
        assert(start + module_list_ids(l@.take(k + 1))
            =~= start + module_list_ids(l@.take(k as int)) + module_ids(l@[k as int]));
        k = k + 1;
    }
    assert(l@.take(l@.len() as int) =~= l@);
}

fn module_list_find<'a>(l: &'a Vec<Module>, id: &String) -> (r: Option<&'a str>)
    ensures
        match r {
            Some(n) => module_list_name(l@, id@) == Some(n@),
            None => module_list_name(l@, id@) is None,
        },
    decreases l,
{
    let mut k: usize = 0;
    assert(l@.skip(0) =~= l@);
    while k < l.len()
        invariant
            k <= l.len(),
            module_list_name(l@, id@) == module_list_name(l@.skip(k as int), id@),
        decreases l.len() - k,
    {
        assert(l@.skip(k as int).drop_first() =~= l@.skip(k + 1));
        assert(l@.skip(k as int)[0] == l@[k as int]);
        proof {
            assert(decreases_to!(*l => l@[k as int]));
        }
        match l[k].find_name(id) {
            Some(n) => {
                return Some(n);
            },
            None => {},
        }
        k = k + 1;
    }
    None
}

fn push_str_id<'a>(ids: &mut Vec<&'a str>, s: &'a String)
    ensures
        str_views(final(ids)@) == str_views(old(ids)@).push(s@),
{
    let ghost prev = ids@;
    ids.push(s.as_str());
    assert(str_views(ids@) =~= str_views(prev).push(s@));
}

impl LogicConceptDiagram {
    /// A new logic view whose system has the given ID (also used as its name).
    pub fn new(system_id: &str, title: &str) -> (d: Self)
        ensures
            d.metadata.created_at >= 0,
            d.metadata.updated_at >= 0,
            d.version@ == "1.0"@,
            d.kind == DiagramKind::LogicConceptDiagram,
            d.metadata.title@ == title@,
            d.metadata.description is None,
            d.system.id@ == system_id@,
            d.system.name@ == system_id@,
            d.system.description is None,
            d.system.subsystems@.len() == 0,
            d.system.components@.len() == 0,
            d.system.modules@.len() == 0,
            d.system.interfaces@.len() == 0,
            d.provide_relations@.len() == 0,
            d.containments@.len() == 0,
            d.submodule_ids@.len() == 0,
            d.dependencies@.len() == 0,
    {
        LogicConceptDiagram {
            version: String::from_str("1.0"),
            kind: DiagramKind::LogicConceptDiagram,
            metadata: Metadata {
                title: String::from_str(title),
                description: None,
                created_at: now_seconds(),
                updated_at: now_seconds(),
            },
            system: System {
                id: String::from_str(system_id),
                name: String::from_str(system_id),
                description: None,
                subsystems: Vec::new(),
                components: Vec::new(),
                modules: Vec::new(),
                interfaces: Vec::new(),
            },
            provide_relations: Vec::new(),
            containments: Vec::new(),
            submodule_ids: Vec::new(),
            dependencies: Vec::new(),
        }
    }

    /// Updates the modification time; nothing else changes.
    pub fn touch(&mut self)
        ensures
            final(self).metadata.updated_at >= 0,
            final(self).version == old(self).version,
            final(self).kind == old(self).kind,
            final(self).metadata.title == old(self).metadata.title,
            final(self).metadata.description == old(self).metadata.description,
            final(self).metadata.created_at == old(self).metadata.created_at,
            final(self).system == old(self).system,
            final(self).provide_relations == old(self).provide_relations,
            final(self).containments == old(self).containments,
            final(self).submodule_ids == old(self).submodule_ids,
            final(self).dependencies == old(self).dependencies,
    {
        self.metadata.updated_at = now_seconds();
    }

    /// All element IDs: the system, then every element below it in pre-order.
    pub fn all_element_ids(&self) -> (r: Vec<&str>)
        ensures
            str_views(r@) == seq![self.system.id@] + system_ids(self.system),
    {
        let mut ids: Vec<&str> = Vec::new();
        push_str_id(&mut ids, &self.system.id);
        assert(str_views(ids@) =~= seq![self.system.id@]);
        self.system.collect_ids(&mut ids);
        ids
    }

    /// The name of the element with the given ID: the system, else the first
    /// element below it in pre-order.
    pub fn get_element_name(&self, id: &str) -> (r: Option<&str>)
        ensures
            match r {
                Some(n) => (if self.system.id@ == id@ { Some(self.system.name@) } else { system_name(self.system, id@) }) == Some(n@),
                None => self.system.id@ != id@ && system_name(self.system, id@) is None,
            },
    {
        let key = to_owned_string(id);
        if same_text(&self.system.id, &key) {
            return Some(self.system.name.as_str());
        }
        self.system.find_name(&key)
    }
}

/// The kind tag of a logic view.
#[derive(Debug, Clone, Copy, PartialEq, Eq, Structural)]
pub enum DiagramKind {
    LogicConceptDiagram,
}

/// Title, description and timestamps (seconds since the Unix epoch).
#[derive(Debug)]
pub struct Metadata {
    pub title: String,
    pub description: Option<String>,
    pub created_at: i64,
    pub updated_at: i64,
}

/// The kinds of elements of a logic view.
#[derive(Debug, Clone, Copy, PartialEq, Eq, Structural)]
pub enum ElementType {
    System,
    Subsystem,
    Component,
    Module,
    Submodule,
}

/// The system element (root).
#[derive(Debug)]
pub struct System {
    pub id: String,
    pub name: String,
    pub description: Option<String>,
    pub subsystems: Vec<Subsystem>,
    pub components: Vec<Component>,
    /// Modules placed directly in the system.
    pub modules: Vec<Module>,
    /// Interfaces defined at system level.
    pub interfaces: Vec<Interface>,
}

impl System {
    fn collect_ids<'a>(&'a self, ids: &mut Vec<&'a str>)
        ensures
            str_views(final(ids)@) == str_views(old(ids)@) + system_ids(*self),
    {
        let ghost start = str_views(ids@);
        let mut i: usize = 0;
        while i < self.subsystems.len()
            invariant
                i <= self.subsystems.len(),
                str_views(ids@) == start + subsystem_list_ids(self.subsystems@.take(i as int)),
            decreases self.subsystems.len() - i,
        {
            assert(self.subsystems@.take(i + 1).drop_last() =~= self.subsystems@.take(i as int));
            self.subsystems[i].collect_ids(ids);
            assert(start + subsystem_list_ids(self.subsystems@.take(i + 1))
                =~= start + subsystem_list_ids(self.subsystems@.take(i as int)) + subsystem_ids(self.subsystems@[i as int]));
            i = i + 1;
        }
        assert(self.subsystems@.take(self.subsystems@.len() as int) =~= self.subsystems@);
        let ghost mid = str_views(ids@);
        let mut k: usize = 0;
        while k < self.components.len()
            invariant
                k <= self.components.len(),
                str_views(ids@) == mid + component_list_ids(self.components@.take(k as int)),
            decreases self.components.len() - k,
        {
            assert(self.components@.take(k + 1).drop_last() =~= self.components@.take(k as int));
            self.components[k].collect_ids(ids);
            assert(mid + component_list_ids(self.components@.take(k + 1))
                =~= mid + component_list_ids(self.components@.take(k as int)) + component_ids(self.components@[k as int]));
            k = k + 1;
        }
        assert(self.components@.take(self.components@.len() as int) =~= self.components@);
        module_list_collect(&self.modules, ids);
        assert(mid + component_list_ids(self.components@) + module_list_ids(self.modules@) =~= start + system_ids(*self));
    }

    fn find_name<'a>(&'a self, id: &String) -> (r: Option<&'a str>)
        ensures
            match r {
                Some(n) => system_name(*self, id@) == Some(n@),
                None => system_name(*self, id@) is None,
            },
    {
        let mut i: usize = 0;
        assert(self.subsystems@.skip(0) =~= self.subsystems@);
        while i < self.subsystems.len()
            invariant
                i <= self.subsystems.len(),
                subsystem_list_name(self.subsystems@, id@) == subsystem_list_name(self.subsystems@.skip(i as int), id@),
            decreases self.subsystems.len() - i,
        {
            assert(self.subsystems@.skip(i as int).drop_first() =~= self.subsystems@.skip(i + 1));
            assert(self.subsystems@.skip(i as int)[0] == self.subsystems@[i as int]);
            match self.subsystems[i].find_name(id) {
                Some(n) => {
                    return Some(n);
                },
                None => {},
            }
            i = i + 1;
        }
        assert(self.subsystems@.skip(self.subsystems@.len() as int) =~= Seq::<Subsystem>::empty());
        let mut k: usize = 0;
        assert(self.components@.skip(0) =~= self.components@);
        while k < self.components.len()
            invariant
                k <= self.components.len(),
                subsystem_list_name(self.subsystems@, id@) is None,
                component_list_name(self.components@, id@) == component_list_name(self.components@.skip(k as int), id@),
            decreases self.components.len() - k,
        {
            assert(self.components@.skip(k as int).drop_first() =~= self.components@.skip(k + 1));
            assert(self.components@.skip(k as int)[0] == self.components@[k as int]);
            match self.components[k].find_name(id) {
                Some(n) => {
                    return Some(n);
                },
                None => {},
            }
            k = k + 1;
        }
        assert(self.components@.skip(self.components@.len() as int) =~= Seq::<Component>::empty());
        module_list_find(&self.modules, id)
    }
}

/// A subsystem element.
#[derive(Debug)]
pub struct Subsystem {
    pub id: String,
    pub name: String,
    pub description: Option<String>,
    pub components: Vec<Component>,
}

impl Subsystem {
    fn collect_ids<'a>(&'a self, ids: &mut Vec<&'a str>)
        ensures
            str_views(final(ids)@) == str_views(old(ids)@) + subsystem_ids(*self),
    {
        let ghost start = str_views(ids@);
        push_str_id(ids, &self.id);
        let mut k: usize = 0;
        while k < self.components.len()
            invariant
                k <= self.components.len(),
                str_views(ids@) == start.push(self.id@) + component_list_ids(self.components@.take(k as int)),
            decreases self.components.len() - k,
        {
            assert(self.components@.take(k + 1).drop_last() =~= self.components@.take(k as int));
            self.components[k].collect_ids(ids);
            assert(start.push(self.id@) + component_list_ids(self.components@.take(k + 1))
                =~= start.push(self.id@) + component_list_ids(self.components@.take(k as int)) + component_ids(self.components@[k as int]));
            k = k + 1;
        }
        assert(self.components@.take(self.components@.len() as int) =~= self.components@);
        assert(start.push(self.id@) + component_list_ids(self.components@) =~= start + subsystem_ids(*self));
    }

    fn find_name<'a>(&'a self, id: &String) -> (r: Option<&'a str>)
        ensures
            match r {
                Some(n) => subsystem_name(*self, id@) == Some(n@),
                None => subsystem_name(*self, id@) is None,
            },
    {
        if same_text(&self.id, id) {
            return Some(self.name.as_str());
        }
        let mut k: usize = 0;
        assert(self.components@.skip(0) =~= self.components@);
        while k < self.components.len()
            invariant
                k <= self.components.len(),
                self.id@ != id@,
                component_list_name(self.components@, id@) == component_list_name(self.components@.skip(k as int), id@),
            decreases self.components.len() - k,
        {
            assert(self.components@.skip(k as int).drop_first() =~= self.components@.skip(k + 1));
            assert(self.components@.skip(k as int)[0] == self.components@[k as int]);
            match self.components[k].find_name(id) {
                Some(n) => {
                    return Some(n);
                },
                None => {},
            }
            k = k + 1;
        }
        None
    }
}

/// A component element.
#[derive(Debug)]
pub struct Component {
    pub id: String,
    pub name: String,
    pub description: Option<String>,
    pub modules: Vec<Module>,
    /// IDs of the interfaces of its modules that the component exposes.
    pub exposed_interfaces: Vec<String>,
}

impl Component {
    fn collect_ids<'a>(&'a self, ids: &mut Vec<&'a str>)
        ensures
            str_views(final(ids)@) == str_views(old(ids)@) + component_ids(*self),
    {
        let ghost start = str_views(ids@);
        push_str_id(ids, &self.id);
        let mut k: usize = 0;
        while k < self.modules.len()
            invariant
                k <= self.modules.len(),
                str_views(ids@) == start.push(self.id@) + module_list_ids(self.modules@.take(k as int)),
            decreases self.modules.len() - k,
        {
            assert(self.modules@.take(k + 1).drop_last() =~= self.modules@.take(k as int));
            self.modules[k].collect_ids(ids);
            assert(start.push(self.id@) + module_list_ids(self.modules@.take(k + 1))
                =~= start.push(self.id@) + module_list_ids(self.modules@.take(k as int)) + module_ids(self.modules@[k as int]));
            k = k + 1;
        }
        assert(self.modules@.take(self.modules@.len() as int) =~= self.modules@);
        assert(start.push(self.id@) + module_list_ids(self.modules@) =~= start + component_ids(*self));
    }

    fn find_name<'a>(&'a self, id: &String) -> (r: Option<&'a str>)
        ensures
            match r {
                Some(n) => component_name(*self, id@) == Some(n@),
                None => component_name(*self, id@) is None,
            },
    {
        if same_text(&self.id, id) {
            return Some(self.name.as_str());
        }
        let mut k: usize = 0;
        assert(self.modules@.skip(0) =~= self.modules@);
        while k < self.modules.len()
            invariant
                k <= self.modules.len(),
                self.id@ != id@,
                module_list_name(self.modules@, id@) == module_list_name(self.modules@.skip(k as int), id@),
            decreases self.modules.len() - k,
        {
            assert(self.modules@.skip(k as int).drop_first() =~= self.modules@.skip(k + 1));
            assert(self.modules@.skip(k as int)[0] == self.modules@[k as int]);
            match self.modules[k].find_name(id) {
                Some(n) => {
                    return Some(n);
                },
                None => {},
            }
            k = k + 1;
        }
        None
    }
}

/// A module element.
#[derive(Debug)]
pub struct Module {
    pub id: String,
    pub name: String,
    pub description: Option<String>,
    /// Interfaces the module defines.
    pub interfaces: Vec<Interface>,
    /// IDs of the interfaces the module uses.
    pub dependencies: Vec<String>,
    /// Modules nested in this one.
    pub modules: Vec<Module>,
}

impl Module {
    pub(crate) fn collect_ids<'a>(&'a self, ids: &mut Vec<&'a str>)
        ensures
            str_views(final(ids)@) == str_views(old(ids)@) + module_ids(*self),
        decreases self,
    {
        let ghost start = str_views(ids@);
        push_str_id(ids, &self.id);
        module_list_collect(&self.modules, ids);
        assert(start.push(self.id@) + module_list_ids(self.modules@) =~= start + module_ids(*self));
    }

    pub(crate) fn find_name<'a>(&'a self, id: &String) -> (r: Option<&'a str>)
        ensures
            match r {
                Some(n) => module_name(*self, id@) == Some(n@),
                None => module_name(*self, id@) is None,
            },
        decreases self,
    {
        if same_text(&self.id, id) {
            return Some(self.name.as_str());
        }
        module_list_find(&self.modules, id)
    }
}

/// An interface of the logic view.
#[derive(Debug)]
pub struct Interface {
    pub id: String,
    pub name: String,
    pub description: Option<String>,
}

/// Element `element_id` provides interface `interface_id`.
#[derive(Debug)]
pub struct ProvideRelation {
    pub element_id: String,
    pub interface_id: String,
}

/// Element `parent_id` contains element `child_id`.
#[derive(Debug)]
pub struct ElementContainment {
    pub parent_id: String,
    pub child_id: String,
}

/// A dependency from one element to another.
#[derive(Debug)]
pub struct Dependency {
    pub from: String,
    pub to: String,
}

/// A submodule element (may nest further submodules).
#[derive(Debug)]
pub struct Submodule {
    pub id: String,
    pub name: String,
    pub description: Option<String>,
    pub submodules: Vec<Submodule>,
}

impl Keyed for Subsystem {
    open spec fn key(&self) -> Seq<char> {
        self.id@
    }

    fn key_text(&self) -> (r: &String) {
        &self.id
    }
}

impl Keyed for Component {
    open spec fn key(&self) -> Seq<char> {
        self.id@
    }

    fn key_text(&self) -> (r: &String) {
        &self.id
    }
}

impl Keyed for Module {
    open spec fn key(&self) -> Seq<char> {
        self.id@
    }

    fn key_text(&self) -> (r: &String) {
        &self.id
    }
}

impl Keyed for Interface {
    open spec fn key(&self) -> Seq<char> {
        self.id@
    }

    fn key_text(&self) -> (r: &String) {
        &self.id
    }
}

} // verus!
