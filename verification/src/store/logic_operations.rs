use vstd::prelude::*;
use crate::model::logic::concept::{
    LogicConceptDiagram, System, Subsystem, Component, Module, Interface, ProvideRelation, ElementContainment,
    module_name, system_ids, str_views, subsystem_list_ids, component_list_ids, module_list_ids, subsystem_ids,
    component_ids, module_ids,
};
use crate::utils::error::{AppError, ErrorKind, Result, fails_with};
use crate::utils::keyed::{Keyed, has_key, is_first_key, position_of, contains_key};
use crate::utils::text::{
    to_owned_string, same_text, concat2, concat3, concat4, concat5, opt_view, opt_str_view, opt_str_to_string,
    name_or_id, has_text, contains_text, string_views, without, without_text,
};

verus! {

broadcast use {vstd::seq::group_seq_axioms, vstd::std_specs::vec::group_vec_axioms};

/// Operations that edit a logic view.
pub struct LogicOperations;

/// A change made to one module of a module tree.
pub enum ModuleChange {
    /// Nest a module in it.
    AddModule(Module),
    /// Define an interface in it.
    AddInterface(Interface),
    /// Drop the first interface with this ID.
    RemoveInterface(String),
    /// Use this interface, unless it is used already.
    AddDependency(String),
    /// Stop using this interface.
    RemoveDependency(String),
}

/// How a change to a module tree went.
#[derive(Debug, Clone, Copy, PartialEq, Eq, Structural)]
pub enum Outcome {
    Done,
    NoModule,
    NoInterface,
}

/// Whether the module tree holds a module with ID `id` (itself included).
pub open spec fn tree_has(m: Module, id: Seq<char>) -> bool {
    module_name(m, id) is Some
}

/// `k` is the first tree of the list that holds a module with ID `id`.
pub open spec fn is_first_tree(l: Seq<Module>, id: Seq<char>, k: int) -> bool {
    &&& 0 <= k < l.len()
    &&& tree_has(l[k], id)
    &&& forall|j: int| 0 <= j < k ==> !tree_has(#[trigger] l[j], id)
}

/// Whether some tree of the list holds a module with ID `id`.
pub open spec fn forest_has(l: Seq<Module>, id: Seq<char>) -> bool {
    exists|k: int| 0 <= k < l.len() && tree_has(#[trigger] l[k], id)
}

/// The module with ID `id` that a depth-first search finds first in a tree.
pub open spec fn tree_target(m: Module, id: Seq<char>) -> Module
    decreases m,
{
    if m.id@ == id {
        m
    } else if forest_has(m.modules@, id) {
        let k = choose|k: int| is_first_tree(m.modules@, id, k);
        if 0 <= k < m.modules@.len() {
            tree_target(m.modules@[k], id)
        } else {
            m
        }
    } else {
        m
    }
}

/// The module with ID `id` that a depth-first search finds first in a list of trees.
pub open spec fn forest_target(l: Seq<Module>, id: Seq<char>) -> Module {
    let k = choose|k: int| is_first_tree(l, id, k);
    tree_target(l[k], id)
}

/// Whether the module fields other than `modules` are the same.
pub open spec fn same_module_but_nested(a: Module, b: Module) -> bool {
    &&& a.id == b.id
    &&& a.name == b.name
    &&& a.description == b.description
    &&& a.interfaces == b.interfaces
    &&& a.dependencies == b.dependencies
}

/// What a change does to the module it is applied to.
pub open spec fn changed(c: ModuleChange, o: Module, n: Module) -> bool {
    &&& n.id == o.id
    &&& n.name == o.name
    &&& n.description == o.description
    &&& match c {
        ModuleChange::AddModule(x) => {
            &&& n.modules@ == o.modules@.push(x)
            &&& n.interfaces == o.interfaces
            &&& n.dependencies == o.dependencies
        },
        ModuleChange::AddInterface(x) => {
            &&& n.interfaces@ == o.interfaces@.push(x)
            &&& n.modules == o.modules
            &&& n.dependencies == o.dependencies
        },
        ModuleChange::RemoveInterface(x) => {
            &&& exists|i: int| is_first_key(o.interfaces@, x@, i) && n.interfaces@ == o.interfaces@.remove(i)
            &&& n.modules == o.modules
            &&& n.dependencies == o.dependencies
        },
        ModuleChange::AddDependency(x) => {
            &&& string_views(n.dependencies@) == if has_text(o.dependencies@, x@) {
                string_views(o.dependencies@)
            } else {
                string_views(o.dependencies@).push(x@)
            }
            &&& n.modules == o.modules
            &&& n.interfaces == o.interfaces
        },
        ModuleChange::RemoveDependency(x) => {
            &&& string_views(n.dependencies@) == without(string_views(o.dependencies@), x@)
            &&& n.modules == o.modules
            &&& n.interfaces == o.interfaces
        },
    }
}

/// How a change goes on the module it is applied to: removing an interface
/// the module does not define changes nothing.
pub open spec fn change_outcome(c: ModuleChange, o: Module) -> Outcome {
    match c {
        ModuleChange::RemoveInterface(x) => if has_key(o.interfaces@, x@) { Outcome::Done } else { Outcome::NoInterface },
        _ => Outcome::Done,
    }
}

/// The tree `n` is `o` with the change made to the first module with ID `id`.
pub open spec fn tree_changed(o: Module, n: Module, id: Seq<char>, c: ModuleChange) -> bool
    decreases o,
{
    if o.id@ == id {
        changed(c, o, n)
    } else {
        &&& same_module_but_nested(o, n)
        &&& forest_changed(o.modules@, n.modules@, id, c)
    }
}

/// The list `n` is `o` with the change made to the first module with ID `id`,
/// found depth first.
pub open spec fn forest_changed(o: Seq<Module>, n: Seq<Module>, id: Seq<char>, c: ModuleChange) -> bool
    decreases o,
{
    &&& forest_has(o, id)
    &&& n.len() == o.len()
    &&& {
        let k = choose|k: int| is_first_tree(o, id, k);
        &&& 0 <= k < o.len()
        &&& forall|j: int| 0 <= j < o.len() && j != k ==> n[j] == o[j]
        &&& tree_changed(o[k], n[k], id, c)
    }
}

/// Only one first tree.
pub(crate) proof fn lemma_first_tree_unique(l: Seq<Module>, id: Seq<char>, k: int)
    requires
        is_first_tree(l, id, k),
    ensures
        (choose|j: int| is_first_tree(l, id, j)) == k,
{
    let j = choose|j: int| is_first_tree(l, id, j);
    assert(is_first_tree(l, id, j));
    if j < k {
        assert(!tree_has(l[j], id));
    }
    if k < j {
        assert(!tree_has(l[k], id));
    }
}

/// Whether a module tree holds a module with ID `id`.
pub(crate) fn tree_holds(m: &Module, id: &String) -> (r: bool)
    ensures
        r == tree_has(*m, id@),
{
    match m.find_name(id) {
        Some(_) => true,
        None => false,
    }
}

/// Some module of the list holds `id` exactly when a depth-first search names one.
proof fn lemma_list_name_some(l: Seq<Module>, id: Seq<char>)
    ensures
        (crate::model::logic::concept::module_list_name(l, id) is Some) == forest_has(l, id),
    decreases l.len(),
{
    if l.len() > 0 {
        lemma_list_name_some(l.drop_first(), id);
        if forest_has(l.drop_first(), id) {
            let k = choose|k: int| 0 <= k < l.drop_first().len() && tree_has(#[trigger] l.drop_first()[k], id);
            assert(l.drop_first()[k] == l[k + 1]);
        }
        if forest_has(l, id) {
            let k = choose|k: int| 0 <= k < l.len() && tree_has(#[trigger] l[k], id);
            if k > 0 {
                assert(l.drop_first()[k - 1] == l[k]);
            }
        }
    }
}

/// A list that holds `id` has a first tree holding it.
proof fn lemma_first_tree_exists(l: Seq<Module>, id: Seq<char>)
    requires
        forest_has(l, id),
    ensures
        exists|k: int| is_first_tree(l, id, k),
    decreases l.len(),
{
    if forest_has(l.drop_last(), id) {
        let w = choose|k: int| 0 <= k < l.drop_last().len() && tree_has(#[trigger] l.drop_last()[k], id);
        assert(l.drop_last()[w] == l[w]);
        lemma_first_tree_exists(l.drop_last(), id);
        let k = choose|k: int| is_first_tree(l.drop_last(), id, k);
        assert forall|j: int| 0 <= j < k implies !tree_has(#[trigger] l[j], id) by {
            assert(l.drop_last()[j] == l[j]);
        }
        assert(l.drop_last()[k] == l[k]);
        assert(is_first_tree(l, id, k));
    } else {
        let k = l.len() - 1;
        assert forall|j: int| 0 <= j < k implies !tree_has(#[trigger] l[j], id) by {
            assert(l.drop_last()[j] == l[j]);
        }
        let w = choose|w: int| 0 <= w < l.len() && tree_has(#[trigger] l[w], id);
        if w < k {
            assert(l.drop_last()[w] == l[w]);
        }
        assert(is_first_tree(l, id, k));
    }
}

/// A tree holds `id` below its root exactly when its nested modules do.
proof fn lemma_tree_has_below(m: Module, id: Seq<char>)
    ensures
        m.id@ != id ==> (tree_has(m, id) == forest_has(m.modules@, id)),
{
    lemma_list_name_some(m.modules@, id);
}

/// The module that a depth-first search finds first in a tree.
fn tree_find<'a>(m: &'a Module, id: &String) -> (r: &'a Module)
    requires
        tree_has(*m, id@),
    ensures
        *r == tree_target(*m, id@),
    decreases m,
{
    if same_text(&m.id, id) {
        return m;
    }
    proof {
        lemma_tree_has_below(*m, id@);
        lemma_first_tree_exists(m.modules@, id@);
    }
    match forest_find(&m.modules, id) {
        Some(t) => t,
        None => m,
    }
}

/// The module that a depth-first search finds first in a list of trees.
pub(crate) fn forest_find<'a>(l: &'a Vec<Module>, id: &String) -> (r: Option<&'a Module>)
    ensures
        match r {
            Some(t) => forest_has(l@, id@) && *t == forest_target(l@, id@),
            None => !forest_has(l@, id@),
        },
    decreases l,
{
    let mut k: usize = 0;
    while k < l.len()
        invariant
            k <= l.len(),
            forall|j: int| 0 <= j < k ==> !tree_has(#[trigger] l@[j], id@),
        decreases l.len() - k,
    {
        if tree_holds(&l[k], id) {
            proof {
                assert(is_first_tree(l@, id@, k as int));
                lemma_first_tree_unique(l@, id@, k as int);
                assert(decreases_to!(*l => l@[k as int]));
            }
            return Some(tree_find(&l[k], id));
        }
        k = k + 1;
    }
    None
}

/// Makes a change to a module.
fn apply_change(m: &mut Module, c: ModuleChange)
    requires
        change_outcome(c, *old(m)) == Outcome::Done,
    ensures
        changed(c, *old(m), *final(m)),
{
    match c {
        ModuleChange::AddModule(x) => {
            m.modules.push(x);
        },
        ModuleChange::AddInterface(x) => {
            m.interfaces.push(x);
        },
        ModuleChange::RemoveInterface(x) => {
            match position_of(&m.interfaces, &x) {
                Some(i) => {
                    m.interfaces.remove(i);
                },
                None => {},
            }
        },
        ModuleChange::AddDependency(x) => {
            let ghost before = m.dependencies@;
            if !contains_text(&m.dependencies, &x) {
                m.dependencies.push(x);
                assert(string_views(m.dependencies@) =~= string_views(before).push(x@));
            }
        },
        ModuleChange::RemoveDependency(x) => {
            let kept = without_text(&m.dependencies, x.as_str());
            m.dependencies = kept;
        },
    }
}

/// Makes a change to the first module with ID `id` of a tree that holds one.
fn change_tree(m: &mut Module, id: &String, c: ModuleChange)
    requires
        tree_has(*old(m), id@),
        change_outcome(c, tree_target(*old(m), id@)) == Outcome::Done,
    ensures
        tree_changed(*old(m), *final(m), id@, c),
    decreases *old(m),
{
    if same_text(&m.id, id) {
        apply_change(m, c);
        return;
    }
    let ghost m0 = *m;
    proof {
        lemma_tree_has_below(m0, id@);
        lemma_first_tree_exists(m0.modules@, id@);
        assert(decreases_to!(m0 => m0.modules));
    }
    change_forest(&mut m.modules, id, c);
}

/// Makes a change to the first module with ID `id`, found depth first, of a
/// list of trees that holds one.
fn change_forest(l: &mut Vec<Module>, id: &String, c: ModuleChange)
    requires
        forest_has(old(l)@, id@),
        change_outcome(c, forest_target(old(l)@, id@)) == Outcome::Done,
    ensures
        forest_changed(old(l)@, final(l)@, id@, c),
    decreases *old(l),
{
    let ghost lv = *l;
    let ghost l0 = l@;
    let mut k: usize = 0;
    while k < l.len()
        invariant
            k <= l.len(),
            *l == lv,
            lv == *old(l),
            l0 == lv@,
            forest_has(l0, id@),
            change_outcome(c, forest_target(l0, id@)) == Outcome::Done,
            forall|j: int| 0 <= j < k ==> !tree_has(#[trigger] l0[j], id@),
        decreases l.len() - k,
    {
        if tree_holds(&l[k], id) {
            proof {
                assert(is_first_tree(l0, id@, k as int));
                lemma_first_tree_unique(l0, id@, k as int);
                assert(decreases_to!(lv => lv@[k as int]));
            }
            let mut m = l.remove(k);
            change_tree(&mut m, id, c);
            l.insert(k, m);
            assert forall|j: int| 0 <= j < l0.len() && j != k implies l@[j] == l0[j] by {}
            return;
        }
        k = k + 1;
    }
    proof {
        let w = choose|w: int| 0 <= w < l0.len() && tree_has(#[trigger] l0[w], id@);
        assert(!tree_has(l0[w], id@));
    }
}

/// Whether a module tree defines an interface with ID `iid`.
pub open spec fn iface_in_tree(m: Module, iid: Seq<char>) -> bool
    decreases m,
{
    has_key(m.interfaces@, iid) || iface_in_forest(m.modules@, iid)
}

/// Whether some tree of a list defines an interface with ID `iid`.
pub open spec fn iface_in_forest(l: Seq<Module>, iid: Seq<char>) -> bool
    decreases l,
{
    l.len() > 0 && (iface_in_forest(l.drop_last(), iid) || iface_in_tree(l.last(), iid))
}

/// Whether the modules of some component define an interface with ID `iid`.
pub open spec fn comps_iface(c: Seq<Component>, iid: Seq<char>) -> bool {
    exists|i: int| 0 <= i < c.len() && iface_in_forest(#[trigger] c[i].modules@, iid)
}

/// Whether the modules of some component of some subsystem define an interface with ID `iid`.
pub open spec fn subs_iface(s: Seq<Subsystem>, iid: Seq<char>) -> bool {
    exists|k: int| 0 <= k < s.len() && comps_iface(#[trigger] s[k].components@, iid)
}

/// Whether the logic view defines an interface with ID `iid` anywhere: at
/// system level or in any module.
pub open spec fn iface_known(d: LogicConceptDiagram, iid: Seq<char>) -> bool {
    has_key(d.system.interfaces@, iid)
        || iface_in_forest(d.system.modules@, iid)
        || comps_iface(d.system.components@, iid)
        || subs_iface(d.system.subsystems@, iid)
}

/// Whether some element of the logic view (the system included) has ID `id`.
pub open spec fn element_known(d: LogicConceptDiagram, id: Seq<char>) -> bool {
    (seq![d.system.id@] + system_ids(d.system)).contains(id)
}

/// Whether a module tree defines an interface with ID `iid`.
fn tree_defines(m: &Module, iid: &String) -> (r: bool)
    ensures
        r == iface_in_tree(*m, iid@),
    decreases m,
{
    contains_key(&m.interfaces, iid) || forest_defines(&m.modules, iid)
}

/// Whether some tree of a list defines an interface with ID `iid`.
pub(crate) fn forest_defines(l: &Vec<Module>, iid: &String) -> (r: bool)
    ensures
        r == iface_in_forest(l@, iid@),
    decreases l,
{
    let mut k: usize = 0;
    while k < l.len()
        invariant
            k <= l.len(),
            !iface_in_forest(l@.take(k as int), iid@),
        decreases l.len() - k,
    {
        assert(l@.take(k + 1).drop_last() =~= l@.take(k as int));
        proof {
            assert(decreases_to!(*l => l@[k as int]));
        }
        if tree_defines(&l[k], iid) {
            proof {
                lemma_forest_prefix(l@, iid@, k + 1);
            }
            return true;
        }
        k = k + 1;
    }
    assert(l@.take(l@.len() as int) =~= l@);
    false
}

/// A list whose prefix defines an interface defines it.
proof fn lemma_forest_prefix(l: Seq<Module>, iid: Seq<char>, n: int)
    requires
        0 <= n <= l.len(),
        iface_in_forest(l.take(n), iid),
    ensures
        iface_in_forest(l, iid),
    decreases l.len() - n,
{
    if n < l.len() {
        assert(l.take(n + 1).drop_last() =~= l.take(n));
        lemma_forest_prefix(l, iid, n + 1);
    } else {
        assert(l.take(n) =~= l);
    }
}

/// Whether the modules of some component define an interface with ID `iid`.
fn components_define(c: &Vec<Component>, iid: &String) -> (r: bool)
    ensures
        r == comps_iface(c@, iid@),
{
    let mut i: usize = 0;
    while i < c.len()
        invariant
            i <= c.len(),
            forall|j: int| 0 <= j < i ==> !iface_in_forest(#[trigger] c@[j].modules@, iid@),
        decreases c.len() - i,
    {
        if forest_defines(&c[i].modules, iid) {
            return true;
        }
        i = i + 1;
    }
    false
}

/// Whether the logic view defines an interface with ID `iid` anywhere.
pub(crate) fn interface_defined(d: &LogicConceptDiagram, iid: &String) -> (r: bool)
    ensures
        r == iface_known(*d, iid@),
{
    if contains_key(&d.system.interfaces, iid) || forest_defines(&d.system.modules, iid)
        || components_define(&d.system.components, iid) {
        return true;
    }
    let s = &d.system.subsystems;
    let mut k: usize = 0;
    while k < s.len()
        invariant
            k <= s.len(),
            s@ == d.system.subsystems@,
            !has_key(d.system.interfaces@, iid@),
            !iface_in_forest(d.system.modules@, iid@),
            !comps_iface(d.system.components@, iid@),
            forall|j: int| 0 <= j < k ==> !comps_iface(#[trigger] s@[j].components@, iid@),
        decreases s.len() - k,
    {
        if components_define(&s[k].components, iid) {
            assert(comps_iface(s@[k as int].components@, iid@));
            return true;
        }
        k = k + 1;
    }
    false
}

/// Whether some element of the logic view has ID `id`.
fn element_exists(d: &LogicConceptDiagram, id: &str) -> (r: bool)
    ensures
        r == element_known(*d, id@),
{
    let ids = d.all_element_ids();
    let ghost views = str_views(ids@);
    let mut i: usize = 0;
    while i < ids.len()
        invariant
            i <= ids.len(),
            views == str_views(ids@),
            views == seq![d.system.id@] + system_ids(d.system),
            forall|j: int| 0 <= j < i ==> views[j] != id@,
        decreases ids.len() - i,
    {
        let x: &str = ids[i];
        let a = to_owned_string(x);
        let b = to_owned_string(id);
        assert(views[i as int] == ids@[i as int]@);
        if same_text(&a, &b) {
            assert(views[i as int] == id@);
            assert(views.contains(id@));
            return true;
        }
        i = i + 1;
    }
    proof {
        if views.contains(id@) {
            let j = choose|j: int| 0 <= j < views.len() && views[j] == id@;
            assert(views[j] != id@);
        }
    }
    false
}

/// Where a component sits: directly in the system, or in a subsystem.
#[derive(Debug, Clone, Copy, PartialEq, Eq, Structural)]
pub enum ComponentAt {
    Direct(usize),
    Nested(usize, usize),
}

/// `k` is the first subsystem holding a component with ID `cid`.
pub open spec fn is_first_sub(s: Seq<Subsystem>, cid: Seq<char>, k: int) -> bool {
    &&& 0 <= k < s.len()
    &&& has_key(s[k].components@, cid)
    &&& forall|j: int| 0 <= j < k ==> !has_key(#[trigger] s[j].components@, cid)
}

/// Where the component with ID `cid` is found: the system's own components
/// first, then those of each subsystem in order.
pub open spec fn component_site(s: System, cid: Seq<char>) -> Option<ComponentAt> {
    if has_key(s.components@, cid) {
        Some(ComponentAt::Direct((choose|i: int| is_first_key(s.components@, cid, i)) as usize))
    } else if exists|k: int| is_first_sub(s.subsystems@, cid, k) {
        let k = choose|k: int| is_first_sub(s.subsystems@, cid, k);
        Some(ComponentAt::Nested(k as usize, (choose|i: int| is_first_key(s.subsystems@[k].components@, cid, i)) as usize))
    } else {
        None
    }
}

/// Whether `at` names a component of the system.
pub open spec fn site_valid(s: System, at: ComponentAt) -> bool {
    match at {
        ComponentAt::Direct(i) => i < s.components@.len(),
        ComponentAt::Nested(k, i) => k < s.subsystems@.len() && i < s.subsystems@[k as int].components@.len(),
    }
}

/// The component at `at`.
pub open spec fn component_at(s: System, at: ComponentAt) -> Component {
    match at {
        ComponentAt::Direct(i) => s.components@[i as int],
        ComponentAt::Nested(k, i) => s.subsystems@[k as int].components@[i as int],
    }
}

/// The system `s1` is `s0` with the component at `at` replaced by `c`.
pub open spec fn component_replaced(s0: System, s1: System, at: ComponentAt, c: Component) -> bool {
    &&& s1.id == s0.id
    &&& s1.name == s0.name
    &&& s1.description == s0.description
    &&& s1.modules == s0.modules
    &&& s1.interfaces == s0.interfaces
    &&& match at {
        ComponentAt::Direct(i) => {
            &&& s1.subsystems == s0.subsystems
            &&& s1.components@ == s0.components@.update(i as int, c)
        },
        ComponentAt::Nested(k, i) => {
            &&& s1.components == s0.components
            &&& s1.subsystems@.len() == s0.subsystems@.len()
            &&& forall|j: int| 0 <= j < s0.subsystems@.len() && j != k ==> s1.subsystems@[j] == s0.subsystems@[j]
            &&& s1.subsystems@[k as int].id == s0.subsystems@[k as int].id
            &&& s1.subsystems@[k as int].name == s0.subsystems@[k as int].name
            &&& s1.subsystems@[k as int].description == s0.subsystems@[k as int].description
            &&& s1.subsystems@[k as int].components@ == s0.subsystems@[k as int].components@.update(i as int, c)
        },
    }
}

/// Finds where the component with ID `cid` sits.
pub(crate) fn locate_component(s: &System, cid: &String) -> (r: Option<ComponentAt>)
    ensures
        r == component_site(*s, cid@),
        r matches Some(at) ==> site_valid(*s, at),
{
    match position_of(&s.components, cid) {
        Some(i) => {
            proof {
                crate::utils::keyed::lemma_first_key_unique(s.components@, cid@, i as int);
            }
            return Some(ComponentAt::Direct(i));
        },
        None => {},
    }
    let subs = &s.subsystems;
    let mut k: usize = 0;
    while k < subs.len()
        invariant
            k <= subs.len(),
            subs@ == s.subsystems@,
            !has_key(s.components@, cid@),
            forall|j: int| 0 <= j < k ==> !has_key(#[trigger] subs@[j].components@, cid@),
        decreases subs.len() - k,
    {
        match position_of(&subs[k].components, cid) {
            Some(i) => {
                proof {
                    assert(is_first_sub(subs@, cid@, k as int));
                    let c = choose|c: int| is_first_sub(subs@, cid@, c);
                    if c < k {
                        assert(!has_key(subs@[c].components@, cid@));
                    }
                    if k < c {
                        assert(!has_key(subs@[k as int].components@, cid@));
                    }
                    crate::utils::keyed::lemma_first_key_unique(subs@[k as int].components@, cid@, i as int);
                }
                return Some(ComponentAt::Nested(k, i));
            },
            None => {},
        }
        k = k + 1;
    }
    proof {
        if exists|c: int| is_first_sub(subs@, cid@, c) {
            let c = choose|c: int| is_first_sub(subs@, cid@, c);
            assert(!has_key(subs@[c].components@, cid@));
        }
    }
    None
}

/// A change made to one component.
pub enum ComponentChange {
    /// Add a module at its top level.
    AddModule(Module),
    /// Drop the first top-level module with this ID.
    RemoveModule(String),
    /// Change the first module with this ID, found depth first.
    InModule(String, ModuleChange),
    /// Expose this interface, unless it is exposed already.
    Expose(String),
    /// Stop exposing this interface.
    Unexpose(String),
}

/// Whether a change can be made to a component.
pub open spec fn component_change_ok(ch: ComponentChange, c: Component) -> bool {
    match ch {
        ComponentChange::RemoveModule(x) => has_key(c.modules@, x@),
        ComponentChange::InModule(x, mc) => forest_has(c.modules@, x@)
            && change_outcome(mc, forest_target(c.modules@, x@)) == Outcome::Done,
        ComponentChange::Expose(x) => iface_in_forest(c.modules@, x@),
        _ => true,
    }
}

/// What a change does to a component.
pub open spec fn component_changed(ch: ComponentChange, o: Component, n: Component) -> bool {
    &&& n.id == o.id
    &&& n.name == o.name
    &&& n.description == o.description
    &&& match ch {
        ComponentChange::AddModule(x) => n.modules@ == o.modules@.push(x) && n.exposed_interfaces == o.exposed_interfaces,
        ComponentChange::RemoveModule(x) => {
            &&& exists|i: int| is_first_key(o.modules@, x@, i) && n.modules@ == o.modules@.remove(i)
            &&& n.exposed_interfaces == o.exposed_interfaces
        },
        ComponentChange::InModule(x, mc) => {
            &&& forest_changed(o.modules@, n.modules@, x@, mc)
            &&& n.exposed_interfaces == o.exposed_interfaces
        },
        ComponentChange::Expose(x) => {
            &&& n.modules == o.modules
            &&& string_views(n.exposed_interfaces@) == if has_text(o.exposed_interfaces@, x@) {
                string_views(o.exposed_interfaces@)
            } else {
                string_views(o.exposed_interfaces@).push(x@)
            }
        },
        ComponentChange::Unexpose(x) => {
            &&& n.modules == o.modules
            &&& string_views(n.exposed_interfaces@) == without(string_views(o.exposed_interfaces@), x@)
        },
    }
}

/// Makes a change to a component.
fn change_component(c: &mut Component, ch: ComponentChange)
    requires
        component_change_ok(ch, *old(c)),
    ensures
        component_changed(ch, *old(c), *final(c)),
{
    match ch {
        ComponentChange::AddModule(x) => {
            c.modules.push(x);
        },
        ComponentChange::RemoveModule(x) => {
            match position_of(&c.modules, &x) {
                Some(i) => {
                    c.modules.remove(i);
                },
                None => {},
            }
        },
        ComponentChange::InModule(x, mc) => {
            change_forest(&mut c.modules, &x, mc);
        },
        ComponentChange::Expose(x) => {
            let ghost before = c.exposed_interfaces@;
            if !contains_text(&c.exposed_interfaces, &x) {
                c.exposed_interfaces.push(x);
                assert(string_views(c.exposed_interfaces@) =~= string_views(before).push(x@));
            }
        },
        ComponentChange::Unexpose(x) => {
            let kept = without_text(&c.exposed_interfaces, x.as_str());
            c.exposed_interfaces = kept;
        },
    }
}

/// Makes a change to the component at `at`.
fn change_component_at(s: &mut System, at: ComponentAt, ch: ComponentChange)
    requires
        site_valid(*old(s), at),
        component_change_ok(ch, component_at(*old(s), at)),
    ensures
        site_valid(*final(s), at),
        component_replaced(*old(s), *final(s), at, component_at(*final(s), at)),
        component_changed(ch, component_at(*old(s), at), component_at(*final(s), at)),
{
    let ghost s0 = *s;
    match at {
        ComponentAt::Direct(i) => {
            let mut c = s.components.remove(i);
            change_component(&mut c, ch);
            s.components.insert(i, c);
            assert(s.components@ =~= s0.components@.update(i as int, component_at(*s, at)));
        },
        ComponentAt::Nested(k, i) => {
            let mut sub = s.subsystems.remove(k);
            let mut c = sub.components.remove(i);
            change_component(&mut c, ch);
            sub.components.insert(i, c);
            assert(sub.components@ =~= s0.subsystems@[k as int].components@.update(i as int, c));
            s.subsystems.insert(k, sub);
            assert forall|j: int| 0 <= j < s0.subsystems@.len() && j != k implies s.subsystems@[j] == s0.subsystems@[j] by {}
        },
    }
}

/// Whether two logic views have the same version, kind, title, description and
/// creation time, with the second's modification time renewed from the clock,
/// which never reads before 1970.
pub open spec fn same_header(a: LogicConceptDiagram, b: LogicConceptDiagram) -> bool {
    &&& a.version == b.version
    &&& a.kind == b.kind
    &&& a.metadata.title == b.metadata.title
    &&& a.metadata.description == b.metadata.description
    &&& a.metadata.created_at == b.metadata.created_at
    &&& b.metadata.updated_at >= 0
}

/// Whether two logic views have the same provide relations, containments,
/// submodule IDs and dependencies.
pub open spec fn same_links(a: LogicConceptDiagram, b: LogicConceptDiagram) -> bool {
    &&& a.provide_relations == b.provide_relations
    &&& a.containments == b.containments
    &&& a.submodule_ids == b.submodule_ids
    &&& a.dependencies == b.dependencies
}

/// Whether two systems have the same ID, name and description.
pub open spec fn same_system_header(a: System, b: System) -> bool {
    &&& a.id == b.id
    &&& a.name == b.name
    &&& a.description == b.description
}

/// A fresh component with the given ID, name and description.
pub open spec fn new_component(c: Component, id: Seq<char>, name: Seq<char>, description: Option<Seq<char>>) -> bool {
    &&& c.id@ == id
    &&& c.name@ == name
    &&& opt_view(c.description) == description
    &&& c.modules@.len() == 0
    &&& c.exposed_interfaces@.len() == 0
}

/// A fresh subsystem with the given ID, name and description.
pub open spec fn new_subsystem(x: Subsystem, id: Seq<char>, name: Seq<char>, description: Option<Seq<char>>) -> bool {
    &&& x.id@ == id
    &&& x.name@ == name
    &&& opt_view(x.description) == description
    &&& x.components@.len() == 0
}

/// A fresh module with the given ID, name and description.
pub open spec fn new_module(m: Module, id: Seq<char>, name: Seq<char>, description: Option<Seq<char>>) -> bool {
    &&& m.id@ == id
    &&& m.name@ == name
    &&& opt_view(m.description) == description
    &&& m.interfaces@.len() == 0
    &&& m.dependencies@.len() == 0
    &&& m.modules@.len() == 0
}

/// An interface with the given ID, name and description.
pub open spec fn new_interface(x: Interface, id: Seq<char>, name: Seq<char>, description: Option<Seq<char>>) -> bool {
    &&& x.id@ == id
    &&& x.name@ == name
    &&& opt_view(x.description) == description
}

/// What `add_component` does: a new component is appended to the system's
/// own components, unless some element has its ID.
pub open spec fn add_component_post(
    d0: LogicConceptDiagram, d1: LogicConceptDiagram, id: Seq<char>, name: Seq<char>,
    description: Option<Seq<char>>, r: Result<()>,
) -> bool {
    &&& element_known(d0, id) ==> fails_with(r, ErrorKind::ElementAlreadyExists, "element with id: "@ + id)
    &&& r is Ok <==> !element_known(d0, id)
    &&& r is Err ==> d1 == d0
    &&& r is Ok ==> {
        &&& same_header(d0, d1) && same_links(d0, d1) && same_system_header(d0.system, d1.system)
        &&& d1.system.subsystems == d0.system.subsystems
        &&& d1.system.modules == d0.system.modules
        &&& d1.system.interfaces == d0.system.interfaces
        &&& d1.system.components@.len() == d0.system.components@.len() + 1
        &&& d1.system.components@.drop_last() == d0.system.components@
        &&& new_component(d1.system.components@.last(), id, name, description)
    }
}

/// What `remove_component` does: the first of the system's own components
/// with the ID goes.
pub open spec fn remove_component_post(d0: LogicConceptDiagram, d1: LogicConceptDiagram, id: Seq<char>, r: Result<()>) -> bool {
    &&& !has_key(d0.system.components@, id) ==> fails_with(r, ErrorKind::ElementNotFound, "component: "@ + id)
    &&& r is Ok <==> has_key(d0.system.components@, id)
    &&& r is Err ==> d1 == d0
    &&& r is Ok ==> {
        &&& same_header(d0, d1) && same_links(d0, d1) && same_system_header(d0.system, d1.system)
        &&& d1.system.subsystems == d0.system.subsystems
        &&& d1.system.modules == d0.system.modules
        &&& d1.system.interfaces == d0.system.interfaces
        &&& exists|i: int| is_first_key(d0.system.components@, id, i)
            && d1.system.components@ == d0.system.components@.remove(i)
    }
}

/// What `add_subsystem` does: a new subsystem is appended, unless some
/// element has its ID.
pub open spec fn add_subsystem_post(
    d0: LogicConceptDiagram, d1: LogicConceptDiagram, id: Seq<char>, name: Seq<char>,
    description: Option<Seq<char>>, r: Result<()>,
) -> bool {
    &&& element_known(d0, id) ==> fails_with(r, ErrorKind::ElementAlreadyExists, "element with id: "@ + id)
    &&& r is Ok <==> !element_known(d0, id)
    &&& r is Err ==> d1 == d0
    &&& r is Ok ==> {
        &&& same_header(d0, d1) && same_links(d0, d1) && same_system_header(d0.system, d1.system)
        &&& d1.system.components == d0.system.components
        &&& d1.system.modules == d0.system.modules
        &&& d1.system.interfaces == d0.system.interfaces
        &&& d1.system.subsystems@.len() == d0.system.subsystems@.len() + 1
        &&& d1.system.subsystems@.drop_last() == d0.system.subsystems@
        &&& new_subsystem(d1.system.subsystems@.last(), id, name, description)
    }
}

/// Subsystem `k` of `s1` is that of `s0` with a new component appended;
/// the other subsystems are as they were.
pub open spec fn subsystem_component_appended(
    s0: Seq<Subsystem>, s1: Seq<Subsystem>, k: int, id: Seq<char>, name: Seq<char>, description: Option<Seq<char>>,
) -> bool {
    &&& s1.len() == s0.len()
    &&& forall|j: int| 0 <= j < s0.len() && j != k ==> s1[j] == s0[j]
    &&& s1[k].id == s0[k].id
    &&& s1[k].name == s0[k].name
    &&& s1[k].description == s0[k].description
    &&& s1[k].components@.len() == s0[k].components@.len() + 1
    &&& s1[k].components@.drop_last() == s0[k].components@
    &&& new_component(s1[k].components@.last(), id, name, description)
}

/// What `add_component_to_subsystem` does: a new component is appended to
/// the components of the first subsystem with ID `sid`, unless some element
/// has the component's ID or no subsystem has that ID.
pub open spec fn add_component_to_subsystem_post(
    d0: LogicConceptDiagram, d1: LogicConceptDiagram, sid: Seq<char>, id: Seq<char>, name: Seq<char>,
    description: Option<Seq<char>>, r: Result<()>,
) -> bool {
    &&& element_known(d0, id) ==> fails_with(r, ErrorKind::ElementAlreadyExists, "element with id: "@ + id)
    &&& !element_known(d0, id) && !has_key(d0.system.subsystems@, sid)
        ==> fails_with(r, ErrorKind::ElementNotFound, "subsystem: "@ + sid)
    &&& r is Ok <==> !element_known(d0, id) && has_key(d0.system.subsystems@, sid)
    &&& r is Err ==> d1 == d0
    &&& r is Ok ==> {
        &&& same_header(d0, d1) && same_links(d0, d1) && same_system_header(d0.system, d1.system)
        &&& d1.system.components == d0.system.components
        &&& d1.system.modules == d0.system.modules
        &&& d1.system.interfaces == d0.system.interfaces
        &&& exists|k: int| is_first_key(d0.system.subsystems@, sid, k)
            && subsystem_component_appended(d0.system.subsystems@, d1.system.subsystems@, k, id, name, description)
    }
}

/// What `remove_subsystem` does: the first subsystem with the ID goes.
pub open spec fn remove_subsystem_post(d0: LogicConceptDiagram, d1: LogicConceptDiagram, id: Seq<char>, r: Result<()>) -> bool {
    &&& !has_key(d0.system.subsystems@, id) ==> fails_with(r, ErrorKind::ElementNotFound, "subsystem: "@ + id)
    &&& r is Ok <==> has_key(d0.system.subsystems@, id)
    &&& r is Err ==> d1 == d0
    &&& r is Ok ==> {
        &&& same_header(d0, d1) && same_links(d0, d1) && same_system_header(d0.system, d1.system)
        &&& d1.system.components == d0.system.components
        &&& d1.system.modules == d0.system.modules
        &&& d1.system.interfaces == d0.system.interfaces
        &&& exists|i: int| is_first_key(d0.system.subsystems@, id, i)
            && d1.system.subsystems@ == d0.system.subsystems@.remove(i)
    }
}

/// What `add_module_to_system` does, and `add_submodule` to the system: a
/// new module is appended to the system's own modules, unless some element
/// has its ID.
pub open spec fn system_module_added(
    d0: LogicConceptDiagram, d1: LogicConceptDiagram, id: Seq<char>, name: Seq<char>,
    description: Option<Seq<char>>, r: Result<()>,
) -> bool {
    &&& element_known(d0, id) ==> fails_with(r, ErrorKind::ElementAlreadyExists, "element with id: "@ + id)
    &&& r is Ok <==> !element_known(d0, id)
    &&& r is Err ==> d1 == d0
    &&& r is Ok ==> {
        &&& same_header(d0, d1) && same_system_header(d0.system, d1.system)
        &&& d1.system.subsystems == d0.system.subsystems
        &&& d1.system.components == d0.system.components
        &&& d1.system.interfaces == d0.system.interfaces
        &&& d1.system.modules@.len() == d0.system.modules@.len() + 1
        &&& d1.system.modules@.drop_last() == d0.system.modules@
        &&& new_module(d1.system.modules@.last(), id, name, description)
        &&& d1.provide_relations == d0.provide_relations
        &&& d1.containments == d0.containments
        &&& d1.dependencies == d0.dependencies
    }
}

/// What `add_module_to_system` does.
pub open spec fn add_module_to_system_post(
    d0: LogicConceptDiagram, d1: LogicConceptDiagram, id: Seq<char>, name: Seq<char>,
    description: Option<Seq<char>>, r: Result<()>,
) -> bool {
    &&& system_module_added(d0, d1, id, name, description, r)
    &&& r is Ok ==> d1.submodule_ids == d0.submodule_ids
}

/// What `add_submodule` does: as `add_module_to_system`, and the ID is
/// recorded among the submodule IDs.
pub open spec fn add_submodule_post(
    d0: LogicConceptDiagram, d1: LogicConceptDiagram, id: Seq<char>, name: Seq<char>,
    description: Option<Seq<char>>, r: Result<()>,
) -> bool {
    &&& system_module_added(d0, d1, id, name, description, r)
    &&& r is Ok ==> string_views(d1.submodule_ids@) == string_views(d0.submodule_ids@).push(id)
}

/// What `add_standalone_interface` does: a system-level interface is
/// appended, unless an interface with its ID is defined anywhere.
pub open spec fn add_standalone_interface_post(
    d0: LogicConceptDiagram, d1: LogicConceptDiagram, id: Seq<char>, name: Seq<char>,
    description: Option<Seq<char>>, r: Result<()>,
) -> bool {
    &&& iface_known(d0, id) ==> fails_with(r, ErrorKind::ElementAlreadyExists, "interface with id: "@ + id)
    &&& r is Ok <==> !iface_known(d0, id)
    &&& r is Err ==> d1 == d0
    &&& r is Ok ==> {
        &&& same_header(d0, d1) && same_links(d0, d1) && same_system_header(d0.system, d1.system)
        &&& d1.system.subsystems == d0.system.subsystems
        &&& d1.system.components == d0.system.components
        &&& d1.system.modules == d0.system.modules
        &&& d1.system.interfaces@.len() == d0.system.interfaces@.len() + 1
        &&& d1.system.interfaces@.drop_last() == d0.system.interfaces@
        &&& new_interface(d1.system.interfaces@.last(), id, name, description)
    }
}

/// Fails when some element has the ID.
fn check_id_free(d: &LogicConceptDiagram, id: &str) -> (r: Result<()>)
    ensures
        r is Ok <==> !element_known(*d, id@),
        r is Err ==> fails_with(r, ErrorKind::ElementAlreadyExists, "element with id: "@ + id@),
{
    if element_exists(d, id) {
        return Err(AppError::ElementAlreadyExists(concat2("element with id: ", id)));
    }
    Ok(())
}

/// Fails when an interface with the ID is defined anywhere.
fn check_interface_id_free(d: &LogicConceptDiagram, id: &str) -> (r: Result<()>)
    ensures
        r is Ok <==> !iface_known(*d, id@),
        r is Err ==> fails_with(r, ErrorKind::ElementAlreadyExists, "interface with id: "@ + id@),
{
    let key = to_owned_string(id);
    if interface_defined(d, &key) {
        return Err(AppError::ElementAlreadyExists(concat2("interface with id: ", id)));
    }
    Ok(())
}

/// A fresh module; its name defaults to its ID.
fn fresh_module(id: &str, name: Option<&str>, description: Option<&str>) -> (m: Module)
    ensures
        new_module(m, id@, name_or_id(name, id), opt_str_view(description)),
{
    let shown = match name {
        Some(n) => n,
        None => id,
    };
    Module {
        id: to_owned_string(id),
        name: to_owned_string(shown),
        description: opt_str_to_string(description),
        interfaces: Vec::new(),
        dependencies: Vec::new(),
        modules: Vec::new(),
    }
}

/// An interface; its name defaults to its ID.
fn fresh_interface(id: &str, name: Option<&str>, description: Option<&str>) -> (x: Interface)
    ensures
        new_interface(x, id@, name_or_id(name, id), opt_str_view(description)),
{
    let shown = match name {
        Some(n) => n,
        None => id,
    };
    Interface { id: to_owned_string(id), name: to_owned_string(shown), description: opt_str_to_string(description) }
}

impl LogicOperations {
    /// Adds a component to the system; its name defaults to its ID.
    pub fn add_component(diagram: &mut LogicConceptDiagram, id: &str, name: Option<&str>, description: Option<&str>) -> (r: Result<()>)
        ensures
            add_component_post(*old(diagram), *final(diagram), id@, name_or_id(name, id), opt_str_view(description), r),
    {
        match check_id_free(diagram, id) {
            Ok(()) => {},
            Err(e) => {
                return Err(e);
            },
        }
        let shown = match name {
            Some(n) => n,
            None => id,
        };
        let ghost d0 = *diagram;
        diagram.system.components.push(Component {
            id: to_owned_string(id),
            name: to_owned_string(shown),
            description: opt_str_to_string(description),
            modules: Vec::new(),
            exposed_interfaces: Vec::new(),
        });
        assert(diagram.system.components@.drop_last() =~= d0.system.components@);
        diagram.touch();
        Ok(())
    }

    /// Removes the first of the system's own components with the ID.
    pub fn remove_component(diagram: &mut LogicConceptDiagram, id: &str) -> (r: Result<()>)
        ensures
            remove_component_post(*old(diagram), *final(diagram), id@, r),
    {
        let key = to_owned_string(id);
        let idx = match position_of(&diagram.system.components, &key) {
            Some(i) => i,
            None => {
                return Err(AppError::ElementNotFound(concat2("component: ", id)));
            },
        };
        diagram.system.components.remove(idx);
        diagram.touch();
        Ok(())
    }

    /// Adds a subsystem to the system; its name defaults to its ID.
    pub fn add_subsystem(diagram: &mut LogicConceptDiagram, id: &str, name: Option<&str>, description: Option<&str>) -> (r: Result<()>)
        ensures
            add_subsystem_post(*old(diagram), *final(diagram), id@, name_or_id(name, id), opt_str_view(description), r),
    {
        match check_id_free(diagram, id) {
            Ok(()) => {},
            Err(e) => {
                return Err(e);
            },
        }
        let shown = match name {
            Some(n) => n,
            None => id,
        };
        let ghost d0 = *diagram;
        diagram.system.subsystems.push(Subsystem {
            id: to_owned_string(id),
            name: to_owned_string(shown),
            description: opt_str_to_string(description),
            components: Vec::new(),
        });
        assert(diagram.system.subsystems@.drop_last() =~= d0.system.subsystems@);
        diagram.touch();
        Ok(())
    }

    /// Adds a component to the first subsystem with ID `subsystem_id`; its
    /// name defaults to its ID.
    pub fn add_component_to_subsystem(
        diagram: &mut LogicConceptDiagram,
        subsystem_id: &str,
        id: &str,
        name: Option<&str>,
        description: Option<&str>,
    ) -> (r: Result<()>)
        ensures
            add_component_to_subsystem_post(*old(diagram), *final(diagram), subsystem_id@, id@, name_or_id(name, id),
                opt_str_view(description), r),
    {
        match check_id_free(diagram, id) {
            Ok(()) => {},
            Err(e) => {
                return Err(e);
            },
        }
        let key = to_owned_string(subsystem_id);
        let k = match position_of(&diagram.system.subsystems, &key) {
            Some(k) => k,
            None => {
                return Err(AppError::ElementNotFound(concat2("subsystem: ", subsystem_id)));
            },
        };
        let shown = match name {
            Some(n) => n,
            None => id,
        };
        let ghost d0 = *diagram;
        let mut sub = diagram.system.subsystems.remove(k);
        sub.components.push(Component {
            id: to_owned_string(id),
            name: to_owned_string(shown),
            description: opt_str_to_string(description),
            modules: Vec::new(),
            exposed_interfaces: Vec::new(),
        });
        assert(sub.components@.drop_last() =~= d0.system.subsystems@[k as int].components@);
        diagram.system.subsystems.insert(k, sub);
        assert forall|j: int| 0 <= j < d0.system.subsystems@.len() && j != k implies
            diagram.system.subsystems@[j] == d0.system.subsystems@[j] by {}
        assert(subsystem_component_appended(d0.system.subsystems@, diagram.system.subsystems@, k as int, id@,
            name_or_id(name, id), opt_str_view(description)));
        diagram.touch();
        Ok(())
    }

    /// Removes the first subsystem with the ID.
    pub fn remove_subsystem(diagram: &mut LogicConceptDiagram, id: &str) -> (r: Result<()>)
        ensures
            remove_subsystem_post(*old(diagram), *final(diagram), id@, r),
    {
        let key = to_owned_string(id);
        let idx = match position_of(&diagram.system.subsystems, &key) {
            Some(i) => i,
            None => {
                return Err(AppError::ElementNotFound(concat2("subsystem: ", id)));
            },
        };
        diagram.system.subsystems.remove(idx);
        diagram.touch();
        Ok(())
    }

    /// Adds a module directly to the system; its name defaults to its ID.
    pub fn add_module_to_system(diagram: &mut LogicConceptDiagram, module_id: &str, name: Option<&str>, description: Option<&str>) -> (r: Result<()>)
        ensures
            add_module_to_system_post(*old(diagram), *final(diagram), module_id@, name_or_id(name, module_id), opt_str_view(description), r),
    {
        match check_id_free(diagram, module_id) {
            Ok(()) => {},
            Err(e) => {
                return Err(e);
            },
        }
        let ghost d0 = *diagram;
        diagram.system.modules.push(fresh_module(module_id, name, description));
        assert(diagram.system.modules@.drop_last() =~= d0.system.modules@);
        diagram.touch();
        Ok(())
    }

    /// Adds a submodule: a module placed directly in the system whose ID is
    /// recorded among the submodule IDs.
    pub fn add_submodule(diagram: &mut LogicConceptDiagram, submodule_id: &str, name: Option<&str>, description: Option<&str>) -> (r: Result<()>)
        ensures
            add_submodule_post(*old(diagram), *final(diagram), submodule_id@, name_or_id(name, submodule_id), opt_str_view(description), r),
    {
        match check_id_free(diagram, submodule_id) {
            Ok(()) => {},
            Err(e) => {
                return Err(e);
            },
        }
        let ghost d0 = *diagram;
        diagram.system.modules.push(fresh_module(submodule_id, name, description));
        assert(diagram.system.modules@.drop_last() =~= d0.system.modules@);
        diagram.submodule_ids.push(to_owned_string(submodule_id));
        assert(string_views(diagram.submodule_ids@) =~= string_views(d0.submodule_ids@).push(submodule_id@));
        diagram.touch();
        Ok(())
    }

    /// Adds an interface at system level; its name defaults to its ID.
    pub fn add_standalone_interface(diagram: &mut LogicConceptDiagram, interface_id: &str, name: Option<&str>, description: Option<&str>) -> (r: Result<()>)
        ensures
            add_standalone_interface_post(*old(diagram), *final(diagram), interface_id@, name_or_id(name, interface_id), opt_str_view(description), r),
    {
        match check_interface_id_free(diagram, interface_id) {
            Ok(()) => {},
            Err(e) => {
                return Err(e);
            },
        }
        let ghost d0 = *diagram;
        diagram.system.interfaces.push(fresh_interface(interface_id, name, description));
        assert(diagram.system.interfaces@.drop_last() =~= d0.system.interfaces@);
        diagram.touch();
        Ok(())
    }
}

/// The component with ID `cid`, where `component_site` finds it.
pub open spec fn site_component(d: LogicConceptDiagram, cid: Seq<char>) -> Component {
    component_at(d.system, component_site(d.system, cid)->Some_0)
}

/// The logic view `d1` is `d0` with the component that has ID `cid` changed
/// as `rel` says, and nothing else changed.
pub open spec fn component_edited(
    d0: LogicConceptDiagram, d1: LogicConceptDiagram, cid: Seq<char>, rel: spec_fn(Component, Component) -> bool,
) -> bool {
    &&& same_header(d0, d1)
    &&& same_links(d0, d1)
    &&& component_site(d0.system, cid) is Some
    &&& ({
        let at = component_site(d0.system, cid)->Some_0;
        &&& component_replaced(d0.system, d1.system, at, component_at(d1.system, at))
        &&& rel(component_at(d0.system, at), component_at(d1.system, at))
    })
}

/// What `add_module` does: a new module is added at the top level of the
/// component, unless some element has its ID or the component is missing.
pub open spec fn add_module_post(
    d0: LogicConceptDiagram, d1: LogicConceptDiagram, cid: Seq<char>, mid: Seq<char>, name: Seq<char>,
    description: Option<Seq<char>>, r: Result<()>,
) -> bool {
    let site = component_site(d0.system, cid);
    &&& element_known(d0, mid) ==> fails_with(r, ErrorKind::ElementAlreadyExists, "element with id: "@ + mid)
    &&& !element_known(d0, mid) && site is None ==> fails_with(r, ErrorKind::ElementNotFound, "component: "@ + cid)
    &&& r is Ok <==> !element_known(d0, mid) && site is Some
    &&& r is Err ==> d1 == d0
    &&& r is Ok ==> component_edited(d0, d1, cid, |c0: Component, c1: Component|
        exists|x: Module| new_module(x, mid, name, description) && component_changed(ComponentChange::AddModule(x), c0, c1))
}

/// What `remove_module` does: the first top-level module of the component
/// with the ID goes.
pub open spec fn remove_module_post(
    d0: LogicConceptDiagram, d1: LogicConceptDiagram, cid: Seq<char>, mid: Seq<char>, r: Result<()>,
) -> bool {
    let site = component_site(d0.system, cid);
    &&& site is None ==> fails_with(r, ErrorKind::ElementNotFound, "component: "@ + cid)
    &&& site is Some && !has_key(site_component(d0, cid).modules@, mid)
        ==> fails_with(r, ErrorKind::ElementNotFound, "module: "@ + mid)
    &&& r is Ok <==> site is Some && has_key(site_component(d0, cid).modules@, mid)
    &&& r is Err ==> d1 == d0
    &&& r is Ok ==> component_edited(d0, d1, cid, |c0: Component, c1: Component|
        exists|x: String| x@ == mid && component_changed(ComponentChange::RemoveModule(x), c0, c1))
}

/// What `add_nested_module` does: a new module is nested in the first module
/// of the component with the parent ID, found depth first.
pub open spec fn add_nested_module_post(
    d0: LogicConceptDiagram, d1: LogicConceptDiagram, cid: Seq<char>, pid: Seq<char>, mid: Seq<char>,
    name: Seq<char>, description: Option<Seq<char>>, r: Result<()>,
) -> bool {
    let site = component_site(d0.system, cid);
    let found = site is Some && forest_has(site_component(d0, cid).modules@, pid);
    &&& element_known(d0, mid) ==> fails_with(r, ErrorKind::ElementAlreadyExists, "element with id: "@ + mid)
    &&& !element_known(d0, mid) && site is None ==> fails_with(r, ErrorKind::ElementNotFound, "component: "@ + cid)
    &&& !element_known(d0, mid) && site is Some && !found
        ==> fails_with(r, ErrorKind::ElementNotFound, "parent module: "@ + pid)
    &&& r is Ok <==> !element_known(d0, mid) && found
    &&& r is Err ==> d1 == d0
    &&& r is Ok ==> component_edited(d0, d1, cid, |c0: Component, c1: Component|
        exists|x: Module, y: String| y@ == pid && new_module(x, mid, name, description)
            && component_changed(ComponentChange::InModule(y, ModuleChange::AddModule(x)), c0, c1))
}

/// What `add_interface` does: the interface is defined in the first module of
/// the component with the module ID, unless an interface with its ID exists.
pub open spec fn add_interface_post(
    d0: LogicConceptDiagram, d1: LogicConceptDiagram, cid: Seq<char>, mid: Seq<char>, iid: Seq<char>,
    name: Seq<char>, description: Option<Seq<char>>, r: Result<()>,
) -> bool {
    let site = component_site(d0.system, cid);
    let found = site is Some && forest_has(site_component(d0, cid).modules@, mid);
    &&& iface_known(d0, iid) ==> fails_with(r, ErrorKind::ElementAlreadyExists, "interface with id: "@ + iid)
    &&& !iface_known(d0, iid) && site is None ==> fails_with(r, ErrorKind::ElementNotFound, "component: "@ + cid)
    &&& !iface_known(d0, iid) && site is Some && !found ==> fails_with(r, ErrorKind::ElementNotFound, "module: "@ + mid)
    &&& r is Ok <==> !iface_known(d0, iid) && found
    &&& r is Err ==> d1 == d0
    &&& r is Ok ==> component_edited(d0, d1, cid, |c0: Component, c1: Component|
        exists|x: Interface, y: String| y@ == mid && new_interface(x, iid, name, description)
            && component_changed(ComponentChange::InModule(y, ModuleChange::AddInterface(x)), c0, c1))
}

/// What `remove_interface` does: the first interface with the ID goes from
/// the first module of the component with the module ID; a component of the
/// system itself also stops exposing it.
pub open spec fn remove_interface_post(
    d0: LogicConceptDiagram, d1: LogicConceptDiagram, cid: Seq<char>, mid: Seq<char>, iid: Seq<char>, r: Result<()>,
) -> bool {
    let site = component_site(d0.system, cid);
    let found = site is Some && forest_has(site_component(d0, cid).modules@, mid);
    let defined = found && has_key(forest_target(site_component(d0, cid).modules@, mid).interfaces@, iid);
    &&& site is None ==> fails_with(r, ErrorKind::ElementNotFound, "component: "@ + cid)
    &&& site is Some && !found ==> fails_with(r, ErrorKind::ElementNotFound, "module: "@ + mid)
    &&& found && !defined ==> fails_with(r, ErrorKind::ElementNotFound, "interface: "@ + iid)
    &&& r is Ok <==> defined
    &&& r is Err ==> d1 == d0
    &&& r is Ok ==> {
        let at = site->Some_0;
        let c0 = component_at(d0.system, at);
        let c1 = component_at(d1.system, at);
        &&& same_header(d0, d1)
        &&& same_links(d0, d1)
        &&& component_replaced(d0.system, d1.system, at, c1)
        &&& c1.id == c0.id && c1.name == c0.name && c1.description == c0.description
        &&& exists|x: String| x@ == iid && forest_changed(c0.modules@, c1.modules@, mid, ModuleChange::RemoveInterface(x))
        &&& at is Direct ==> string_views(c1.exposed_interfaces@) == without(string_views(c0.exposed_interfaces@), iid)
        &&& at is Nested ==> c1.exposed_interfaces == c0.exposed_interfaces
    }
}

/// What `expose_interface` does: the component exposes the interface, which
/// one of its modules must define.
pub open spec fn expose_interface_post(
    d0: LogicConceptDiagram, d1: LogicConceptDiagram, cid: Seq<char>, iid: Seq<char>, r: Result<()>,
) -> bool {
    let site = component_site(d0.system, cid);
    let defined = site is Some && iface_in_forest(site_component(d0, cid).modules@, iid);
    &&& site is None ==> fails_with(r, ErrorKind::ElementNotFound, "component: "@ + cid)
    &&& site is Some && !defined
        ==> fails_with(r, ErrorKind::ElementNotFound, "interface "@ + iid + " in component "@ + cid)
    &&& r is Ok <==> defined
    &&& r is Err ==> d1 == d0
    &&& r is Ok ==> component_edited(d0, d1, cid, |c0: Component, c1: Component|
        exists|x: String| x@ == iid && component_changed(ComponentChange::Expose(x), c0, c1))
}

/// What `add_dependency` does: the first module of the component with the
/// module ID uses the interface, which must be defined somewhere.
pub open spec fn add_dependency_post(
    d0: LogicConceptDiagram, d1: LogicConceptDiagram, cid: Seq<char>, mid: Seq<char>, iid: Seq<char>, r: Result<()>,
) -> bool {
    let site = component_site(d0.system, cid);
    let found = site is Some && forest_has(site_component(d0, cid).modules@, mid);
    &&& !iface_known(d0, iid) ==> fails_with(r, ErrorKind::ElementNotFound, "interface: "@ + iid)
    &&& iface_known(d0, iid) && site is None ==> fails_with(r, ErrorKind::ElementNotFound, "component: "@ + cid)
    &&& iface_known(d0, iid) && site is Some && !found ==> fails_with(r, ErrorKind::ElementNotFound, "module: "@ + mid)
    &&& r is Ok <==> iface_known(d0, iid) && found
    &&& r is Err ==> d1 == d0
    &&& r is Ok ==> component_edited(d0, d1, cid, |c0: Component, c1: Component|
        exists|x: String, y: String| y@ == mid && x@ == iid
            && component_changed(ComponentChange::InModule(y, ModuleChange::AddDependency(x)), c0, c1))
}

/// What `remove_dependency` does: the first module of the component with the
/// module ID stops using the interface.
pub open spec fn remove_dependency_post(
    d0: LogicConceptDiagram, d1: LogicConceptDiagram, cid: Seq<char>, mid: Seq<char>, iid: Seq<char>, r: Result<()>,
) -> bool {
    let site = component_site(d0.system, cid);
    let found = site is Some && forest_has(site_component(d0, cid).modules@, mid);
    &&& site is None ==> fails_with(r, ErrorKind::ElementNotFound, "component: "@ + cid)
    &&& site is Some && !found ==> fails_with(r, ErrorKind::ElementNotFound, "module: "@ + mid)
    &&& r is Ok <==> found
    &&& r is Err ==> d1 == d0
    &&& r is Ok ==> component_edited(d0, d1, cid, |c0: Component, c1: Component|
        exists|x: String, y: String| y@ == mid && x@ == iid
            && component_changed(ComponentChange::InModule(y, ModuleChange::RemoveDependency(x)), c0, c1))
}

/// The component at `at`.
pub(crate) fn component_ref(s: &System, at: ComponentAt) -> (c: &Component)
    requires
        site_valid(*s, at),
    ensures
        *c == component_at(*s, at),
{
    match at {
        ComponentAt::Direct(i) => &s.components[i],
        ComponentAt::Nested(k, i) => &s.subsystems[k].components[i],
    }
}

/// Makes a change to the component at `at` and updates the modification time.
fn edit_at(diagram: &mut LogicConceptDiagram, at: ComponentAt, ch: ComponentChange)
    requires
        site_valid(old(diagram).system, at),
        component_change_ok(ch, component_at(old(diagram).system, at)),
    ensures
        same_header(*old(diagram), *final(diagram)),
        same_links(*old(diagram), *final(diagram)),
        site_valid(final(diagram).system, at),
        component_replaced(old(diagram).system, final(diagram).system, at, component_at(final(diagram).system, at)),
        component_changed(ch, component_at(old(diagram).system, at), component_at(final(diagram).system, at)),
{
    change_component_at(&mut diagram.system, at, ch);
    diagram.touch();
}

/// Finds the component with ID `cid`, or fails with its message.
fn find_component(diagram: &LogicConceptDiagram, cid: &str) -> (r: Result<ComponentAt>)
    ensures
        match r {
            Ok(at) => component_site(diagram.system, cid@) == Some(at) && site_valid(diagram.system, at),
            Err(_) => component_site(diagram.system, cid@) is None
                && fails_with(r, ErrorKind::ElementNotFound, "component: "@ + cid@),
        },
{
    let key = to_owned_string(cid);
    match locate_component(&diagram.system, &key) {
        Some(at) => Ok(at),
        None => Err(AppError::ElementNotFound(concat2("component: ", cid))),
    }
}

impl LogicOperations {
    /// Adds a module at the top level of a component; its name defaults to its ID.
    pub fn add_module(
        diagram: &mut LogicConceptDiagram,
        component_id: &str,
        module_id: &str,
        name: Option<&str>,
        description: Option<&str>,
    ) -> (r: Result<()>)
        ensures
            add_module_post(*old(diagram), *final(diagram), component_id@, module_id@, name_or_id(name, module_id),
                opt_str_view(description), r),
    {
        match check_id_free(diagram, module_id) {
            Ok(()) => {},
            Err(e) => {
                return Err(e);
            },
        }
        let at = match find_component(diagram, component_id) {
            Ok(a) => a,
            Err(e) => {
                return Err(e);
            },
        };
        let m = fresh_module(module_id, name, description);
        let ghost mv = m;
        edit_at(diagram, at, ComponentChange::AddModule(m));
        Ok(())
    }

    /// Removes the first top-level module of a component with the ID.
    pub fn remove_module(diagram: &mut LogicConceptDiagram, component_id: &str, module_id: &str) -> (r: Result<()>)
        ensures
            remove_module_post(*old(diagram), *final(diagram), component_id@, module_id@, r),
    {
        let at = match find_component(diagram, component_id) {
            Ok(a) => a,
            Err(e) => {
                return Err(e);
            },
        };
        let key = to_owned_string(module_id);
        if !contains_key(&component_ref(&diagram.system, at).modules, &key) {
            return Err(AppError::ElementNotFound(concat2("module: ", module_id)));
        }
        edit_at(diagram, at, ComponentChange::RemoveModule(key));
        Ok(())
    }

    /// Nests a new module in the first module of a component with the parent
    /// ID, found depth first; its name defaults to its ID.
    pub fn add_nested_module(
        diagram: &mut LogicConceptDiagram,
        component_id: &str,
        parent_module_id: &str,
        module_id: &str,
        name: Option<&str>,
        description: Option<&str>,
    ) -> (r: Result<()>)
        ensures
            add_nested_module_post(*old(diagram), *final(diagram), component_id@, parent_module_id@, module_id@,
                name_or_id(name, module_id), opt_str_view(description), r),
    {
        match check_id_free(diagram, module_id) {
            Ok(()) => {},
            Err(e) => {
                return Err(e);
            },
        }
        let at = match find_component(diagram, component_id) {
            Ok(a) => a,
            Err(e) => {
                return Err(e);
            },
        };
        let key = to_owned_string(parent_module_id);
        match forest_find(&component_ref(&diagram.system, at).modules, &key) {
            Some(_) => {},
            None => {
                return Err(AppError::ElementNotFound(concat2("parent module: ", parent_module_id)));
            },
        }
        let m = fresh_module(module_id, name, description);
        let ghost mv = m;
        let ghost kv = key;
        edit_at(diagram, at, ComponentChange::InModule(key, ModuleChange::AddModule(m)));
        Ok(())
    }

    /// Defines an interface in the first module of a component with the module
    /// ID, found depth first; its name defaults to its ID.
    pub fn add_interface(
        diagram: &mut LogicConceptDiagram,
        component_id: &str,
        module_id: &str,
        interface_id: &str,
        name: Option<&str>,
        description: Option<&str>,
    ) -> (r: Result<()>)
        ensures
            add_interface_post(*old(diagram), *final(diagram), component_id@, module_id@, interface_id@,
                name_or_id(name, interface_id), opt_str_view(description), r),
    {
        match check_interface_id_free(diagram, interface_id) {
            Ok(()) => {},
            Err(e) => {
                return Err(e);
            },
        }
        let at = match find_component(diagram, component_id) {
            Ok(a) => a,
            Err(e) => {
                return Err(e);
            },
        };
        let key = to_owned_string(module_id);
        match forest_find(&component_ref(&diagram.system, at).modules, &key) {
            Some(_) => {},
            None => {
                return Err(AppError::ElementNotFound(concat2("module: ", module_id)));
            },
        }
        let x = fresh_interface(interface_id, name, description);
        let ghost xv = x;
        let ghost kv = key;
        edit_at(diagram, at, ComponentChange::InModule(key, ModuleChange::AddInterface(x)));
        Ok(())
    }

    /// Exposes an interface that a module of the component defines.
    pub fn expose_interface(diagram: &mut LogicConceptDiagram, component_id: &str, interface_id: &str) -> (r: Result<()>)
        ensures
            expose_interface_post(*old(diagram), *final(diagram), component_id@, interface_id@, r),
    {
        let at = match find_component(diagram, component_id) {
            Ok(a) => a,
            Err(e) => {
                return Err(e);
            },
        };
        let key = to_owned_string(interface_id);
        if !forest_defines(&component_ref(&diagram.system, at).modules, &key) {
            return Err(AppError::ElementNotFound(concat4("interface ", interface_id, " in component ", component_id)));
        }
        let ghost kv = key;
        edit_at(diagram, at, ComponentChange::Expose(key));
        Ok(())
    }

    /// Lets the first module of a component with the module ID use an
    /// interface defined somewhere in the logic view.
    pub fn add_dependency(diagram: &mut LogicConceptDiagram, component_id: &str, module_id: &str, interface_id: &str) -> (r: Result<()>)
        ensures
            add_dependency_post(*old(diagram), *final(diagram), component_id@, module_id@, interface_id@, r),
    {
        let ikey = to_owned_string(interface_id);
        if !interface_defined(diagram, &ikey) {
            return Err(AppError::ElementNotFound(concat2("interface: ", interface_id)));
        }
        let at = match find_component(diagram, component_id) {
            Ok(a) => a,
            Err(e) => {
                return Err(e);
            },
        };
        let key = to_owned_string(module_id);
        match forest_find(&component_ref(&diagram.system, at).modules, &key) {
            Some(_) => {},
            None => {
                return Err(AppError::ElementNotFound(concat2("module: ", module_id)));
            },
        }
        let ghost kv = key;
        let ghost iv = ikey;
        edit_at(diagram, at, ComponentChange::InModule(key, ModuleChange::AddDependency(ikey)));
        Ok(())
    }

    /// Makes the first module of a component with the module ID stop using an interface.
    pub fn remove_dependency(diagram: &mut LogicConceptDiagram, component_id: &str, module_id: &str, interface_id: &str) -> (r: Result<()>)
        ensures
            remove_dependency_post(*old(diagram), *final(diagram), component_id@, module_id@, interface_id@, r),
    {
        let at = match find_component(diagram, component_id) {
            Ok(a) => a,
            Err(e) => {
                return Err(e);
            },
        };
        let key = to_owned_string(module_id);
        match forest_find(&component_ref(&diagram.system, at).modules, &key) {
            Some(_) => {},
            None => {
                return Err(AppError::ElementNotFound(concat2("module: ", module_id)));
            },
        }
        let ikey = to_owned_string(interface_id);
        let ghost kv = key;
        let ghost iv = ikey;
        edit_at(diagram, at, ComponentChange::InModule(key, ModuleChange::RemoveDependency(ikey)));
        Ok(())
    }
}

/// Two changes at the same place are one change there.
proof fn lemma_replaced_twice(s0: System, s1: System, s2: System, at: ComponentAt, c1: Component, c2: Component)
    requires
        site_valid(s0, at),
        component_replaced(s0, s1, at, c1),
        component_replaced(s1, s2, at, c2),
    ensures
        component_replaced(s0, s2, at, c2),
{
    match at {
        ComponentAt::Direct(i) => {
            assert(s0.components@.update(i as int, c1).update(i as int, c2) =~= s0.components@.update(i as int, c2));
        },
        ComponentAt::Nested(k, i) => {
            let l = s0.subsystems@[k as int].components@;
            assert(l.update(i as int, c1).update(i as int, c2) =~= l.update(i as int, c2));
        },
    }
}

/// Where a module is searched for by `add_dependency_simple`.
#[derive(Debug, Clone, Copy, PartialEq, Eq, Structural)]
pub enum ModuleSite {
    InSystem,
    InComponent(ComponentAt),
}

/// `i` is the first component whose modules hold a module with ID `mid`.
pub open spec fn is_first_comp_with(c: Seq<Component>, mid: Seq<char>, i: int) -> bool {
    &&& 0 <= i < c.len()
    &&& forest_has(c[i].modules@, mid)
    &&& forall|j: int| 0 <= j < i ==> !forest_has(#[trigger] c[j].modules@, mid)
}

/// Whether the modules of some component hold a module with ID `mid`.
pub open spec fn comps_have(c: Seq<Component>, mid: Seq<char>) -> bool {
    exists|i: int| 0 <= i < c.len() && forest_has(#[trigger] c[i].modules@, mid)
}

/// `k` is the first subsystem with a component whose modules hold a module with ID `mid`.
pub open spec fn is_first_sub_with(s: Seq<Subsystem>, mid: Seq<char>, k: int) -> bool {
    &&& 0 <= k < s.len()
    &&& comps_have(s[k].components@, mid)
    &&& forall|j: int| 0 <= j < k ==> !comps_have(#[trigger] s[j].components@, mid)
}

/// Where the module with ID `mid` is found: among the system's own modules
/// first, then in the system's components, then in each subsystem's components.
pub open spec fn module_site(s: System, mid: Seq<char>) -> Option<ModuleSite> {
    if forest_has(s.modules@, mid) {
        Some(ModuleSite::InSystem)
    } else if comps_have(s.components@, mid) {
        Some(ModuleSite::InComponent(ComponentAt::Direct((choose|i: int| is_first_comp_with(s.components@, mid, i)) as usize)))
    } else if exists|k: int| is_first_sub_with(s.subsystems@, mid, k) {
        let k = choose|k: int| is_first_sub_with(s.subsystems@, mid, k);
        Some(ModuleSite::InComponent(ComponentAt::Nested(k as usize,
            (choose|i: int| is_first_comp_with(s.subsystems@[k].components@, mid, i)) as usize)))
    } else {
        None
    }
}

/// The first component whose modules hold a module with ID `mid`.
pub(crate) fn first_component_with(c: &Vec<Component>, mid: &String) -> (r: Option<usize>)
    ensures
        match r {
            Some(i) => is_first_comp_with(c@, mid@, i as int) && (choose|j: int| is_first_comp_with(c@, mid@, j)) == i,
            None => !comps_have(c@, mid@),
        },
{
    let mut i: usize = 0;
    while i < c.len()
        invariant
            i <= c.len(),
            forall|j: int| 0 <= j < i ==> !forest_has(#[trigger] c@[j].modules@, mid@),
        decreases c.len() - i,
    {
        match forest_find(&c[i].modules, mid) {
            Some(_) => {
                proof {
                    assert(is_first_comp_with(c@, mid@, i as int));
                    let w = choose|j: int| is_first_comp_with(c@, mid@, j);
                    if w < i {
                        assert(!forest_has(c@[w].modules@, mid@));
                    }
                    if i < w {
                        assert(!forest_has(c@[i as int].modules@, mid@));
                    }
                }
                return Some(i);
            },
            None => {},
        }
        i = i + 1;
    }
    None
}

/// Finds where `add_dependency_simple` finds the module with ID `mid`.
pub(crate) fn locate_module(s: &System, mid: &String) -> (r: Option<ModuleSite>)
    ensures
        r == module_site(*s, mid@),
        r matches Some(ModuleSite::InComponent(at)) ==> site_valid(*s, at)
            && forest_has(component_at(*s, at).modules@, mid@),
{
    match forest_find(&s.modules, mid) {
        Some(_) => {
            return Some(ModuleSite::InSystem);
        },
        None => {},
    }
    match first_component_with(&s.components, mid) {
        Some(i) => {
            return Some(ModuleSite::InComponent(ComponentAt::Direct(i)));
        },
        None => {},
    }
    let subs = &s.subsystems;
    let mut k: usize = 0;
    while k < subs.len()
        invariant
            k <= subs.len(),
            subs@ == s.subsystems@,
            !forest_has(s.modules@, mid@),
            !comps_have(s.components@, mid@),
            forall|j: int| 0 <= j < k ==> !comps_have(#[trigger] subs@[j].components@, mid@),
        decreases subs.len() - k,
    {
        match first_component_with(&subs[k].components, mid) {
            Some(i) => {
                proof {
                    assert(is_first_sub_with(subs@, mid@, k as int));
                    let w = choose|j: int| is_first_sub_with(subs@, mid@, j);
                    if w < k {
                        assert(!comps_have(subs@[w].components@, mid@));
                    }
                    if k < w {
                        assert(!comps_have(subs@[k as int].components@, mid@));
                    }
                }
                return Some(ModuleSite::InComponent(ComponentAt::Nested(k, i)));
            },
            None => {},
        }
        k = k + 1;
    }
    proof {
        if exists|j: int| is_first_sub_with(subs@, mid@, j) {
            let w = choose|j: int| is_first_sub_with(subs@, mid@, j);
            assert(!comps_have(subs@[w].components@, mid@));
        }
    }
    None
}

/// What `add_dependency_simple` does: the first module with the ID, searched
/// among the system's modules, then its components, then its subsystems'
/// components, uses the interface, which must be defined somewhere.
pub open spec fn add_dependency_simple_post(
    d0: LogicConceptDiagram, d1: LogicConceptDiagram, mid: Seq<char>, iid: Seq<char>, r: Result<()>,
) -> bool {
    let site = module_site(d0.system, mid);
    &&& !iface_known(d0, iid) ==> fails_with(r, ErrorKind::ElementNotFound, "interface: "@ + iid)
    &&& iface_known(d0, iid) && site is None ==> fails_with(r, ErrorKind::ElementNotFound, "module: "@ + mid)
    &&& r is Ok <==> iface_known(d0, iid) && site is Some
    &&& r is Err ==> d1 == d0
    &&& r is Ok ==> {
        &&& same_header(d0, d1)
        &&& same_links(d0, d1)
        &&& match site->Some_0 {
            ModuleSite::InSystem => {
                &&& same_system_header(d0.system, d1.system)
                &&& d1.system.subsystems == d0.system.subsystems
                &&& d1.system.components == d0.system.components
                &&& d1.system.interfaces == d0.system.interfaces
                &&& exists|x: String| x@ == iid
                    && forest_changed(d0.system.modules@, d1.system.modules@, mid, ModuleChange::AddDependency(x))
            },
            ModuleSite::InComponent(at) => {
                &&& component_replaced(d0.system, d1.system, at, component_at(d1.system, at))
                &&& exists|x: String, y: String| y@ == mid && x@ == iid
                    && component_changed(ComponentChange::InModule(y, ModuleChange::AddDependency(x)),
                        component_at(d0.system, at), component_at(d1.system, at))
            },
        }
    }
}

/// Whether some provide relation links `e` to `i`.
pub open spec fn has_provide(ps: Seq<ProvideRelation>, e: Seq<char>, i: Seq<char>) -> bool {
    exists|j: int| 0 <= j < ps.len() && #[trigger] ps[j].element_id@ == e && ps[j].interface_id@ == i
}

/// Whether some containment has parent `p` and child `c`.
pub open spec fn has_containment(cs: Seq<ElementContainment>, p: Seq<char>, c: Seq<char>) -> bool {
    exists|j: int| 0 <= j < cs.len() && #[trigger] cs[j].parent_id@ == p && cs[j].child_id@ == c
}

/// What `add_provide_relation` does: an existing element comes to provide an
/// interface defined somewhere, unless it provides it already.
pub open spec fn add_provide_relation_post(
    d0: LogicConceptDiagram, d1: LogicConceptDiagram, e: Seq<char>, i: Seq<char>, r: Result<()>,
) -> bool {
    &&& !element_known(d0, e) ==> fails_with(r, ErrorKind::ElementNotFound, "element: "@ + e)
    &&& element_known(d0, e) && !iface_known(d0, i) ==> fails_with(r, ErrorKind::ElementNotFound, "interface: "@ + i)
    &&& element_known(d0, e) && iface_known(d0, i) && has_provide(d0.provide_relations@, e, i)
        ==> fails_with(r, ErrorKind::ElementAlreadyExists, "provide relation: "@ + e + " -> "@ + i)
    &&& r is Ok <==> element_known(d0, e) && iface_known(d0, i) && !has_provide(d0.provide_relations@, e, i)
    &&& r is Err ==> d1 == d0
    &&& r is Ok ==> {
        &&& same_header(d0, d1)
        &&& d1.system == d0.system
        &&& d1.containments == d0.containments
        &&& d1.submodule_ids == d0.submodule_ids
        &&& d1.dependencies == d0.dependencies
        &&& d1.provide_relations@.len() == d0.provide_relations@.len() + 1
        &&& d1.provide_relations@.drop_last() == d0.provide_relations@
        &&& d1.provide_relations@.last().element_id@ == e
        &&& d1.provide_relations@.last().interface_id@ == i
    }
}

/// The containment from `p` to `c` is appended.
pub open spec fn containment_appended(d0: LogicConceptDiagram, d1: LogicConceptDiagram, p: Seq<char>, c: Seq<char>) -> bool {
    &&& same_header(d0, d1)
    &&& d1.system == d0.system
    &&& d1.provide_relations == d0.provide_relations
    &&& d1.submodule_ids == d0.submodule_ids
    &&& d1.dependencies == d0.dependencies
    &&& d1.containments@.len() == d0.containments@.len() + 1
    &&& d1.containments@.drop_last() == d0.containments@
    &&& d1.containments@.last().parent_id@ == p
    &&& d1.containments@.last().child_id@ == c
}

/// What `add_element_containment` does: one existing element comes to
/// contain another, unless it contains it already.
pub open spec fn add_element_containment_post(
    d0: LogicConceptDiagram, d1: LogicConceptDiagram, p: Seq<char>, c: Seq<char>, r: Result<()>,
) -> bool {
    &&& !element_known(d0, p) ==> fails_with(r, ErrorKind::ElementNotFound, "element: "@ + p)
    &&& element_known(d0, p) && !element_known(d0, c) ==> fails_with(r, ErrorKind::ElementNotFound, "element: "@ + c)
    &&& element_known(d0, p) && element_known(d0, c) && has_containment(d0.containments@, p, c)
        ==> fails_with(r, ErrorKind::ElementAlreadyExists, "containment: "@ + p + " -> "@ + c)
    &&& r is Ok <==> element_known(d0, p) && element_known(d0, c) && !has_containment(d0.containments@, p, c)
    &&& r is Err ==> d1 == d0
    &&& r is Ok ==> containment_appended(d0, d1, p, c)
}

/// What `add_element_containment_with_context` does: as
/// `add_element_containment`, but only one of the two needs to be an element
/// of the logic view (the other may come from the context diagram).
pub open spec fn add_element_containment_with_context_post(
    d0: LogicConceptDiagram, d1: LogicConceptDiagram, p: Seq<char>, c: Seq<char>, r: Result<()>,
) -> bool {
    let either = element_known(d0, p) || element_known(d0, c);
    &&& !either ==> fails_with(r, ErrorKind::InvalidOperation,
        "At least one of parent '"@ + p + "' or child '"@ + c + "' must exist in logic view"@)
    &&& either && has_containment(d0.containments@, p, c)
        ==> fails_with(r, ErrorKind::ElementAlreadyExists, "containment: "@ + p + " -> "@ + c)
    &&& r is Ok <==> either && !has_containment(d0.containments@, p, c)
    &&& r is Err ==> d1 == d0
    &&& r is Ok ==> containment_appended(d0, d1, p, c)
}

/// Whether some provide relation links `e` to `i`.
fn provides(ps: &Vec<ProvideRelation>, e: &String, i: &String) -> (r: bool)
    ensures
        r == has_provide(ps@, e@, i@),
{
    let mut j: usize = 0;
    while j < ps.len()
        invariant
            j <= ps.len(),
            forall|k: int| 0 <= k < j ==> !(#[trigger] ps@[k].element_id@ == e@ && ps@[k].interface_id@ == i@),
        decreases ps.len() - j,
    {
        if same_text(&ps[j].element_id, e) && same_text(&ps[j].interface_id, i) {
            return true;
        }
        j = j + 1;
    }
    false
}

/// Whether some containment has parent `p` and child `c`.
fn contains_pair(cs: &Vec<ElementContainment>, p: &String, c: &String) -> (r: bool)
    ensures
        r == has_containment(cs@, p@, c@),
{
    let mut j: usize = 0;
    while j < cs.len()
        invariant
            j <= cs.len(),
            forall|k: int| 0 <= k < j ==> !(#[trigger] cs@[k].parent_id@ == p@ && cs@[k].child_id@ == c@),
        decreases cs.len() - j,
    {
        if same_text(&cs[j].parent_id, p) && same_text(&cs[j].child_id, c) {
            return true;
        }
        j = j + 1;
    }
    false
}

/// Appends a containment and updates the modification time.
fn append_containment(diagram: &mut LogicConceptDiagram, p: String, c: String)
    ensures
        containment_appended(*old(diagram), *final(diagram), p@, c@),
{
    let ghost d0 = *diagram;
    diagram.containments.push(ElementContainment { parent_id: p, child_id: c });
    assert(diagram.containments@.drop_last() =~= d0.containments@);
    diagram.touch();
}

impl LogicOperations {
    /// Removes an interface from the first module of a component with the
    /// module ID; a component of the system itself also stops exposing it.
    pub fn remove_interface(diagram: &mut LogicConceptDiagram, component_id: &str, module_id: &str, interface_id: &str) -> (r: Result<()>)
        ensures
            remove_interface_post(*old(diagram), *final(diagram), component_id@, module_id@, interface_id@, r),
    {
        let at = match find_component(diagram, component_id) {
            Ok(a) => a,
            Err(e) => {
                return Err(e);
            },
        };
        let key = to_owned_string(module_id);
        let ikey = to_owned_string(interface_id);
        match forest_find(&component_ref(&diagram.system, at).modules, &key) {
            Some(t) => {
                if !contains_key(&t.interfaces, &ikey) {
                    return Err(AppError::ElementNotFound(concat2("interface: ", interface_id)));
                }
            },
            None => {
                return Err(AppError::ElementNotFound(concat2("module: ", module_id)));
            },
        }
        let ghost d0 = *diagram;
        let ghost kv = key;
        let ghost iv = ikey;
        edit_at(diagram, at, ComponentChange::InModule(key, ModuleChange::RemoveInterface(ikey)));
        match at {
            ComponentAt::Direct(_) => {
                let ghost dm = *diagram;
                edit_at(diagram, at, ComponentChange::Unexpose(to_owned_string(interface_id)));
                proof {
                    lemma_replaced_twice(d0.system, dm.system, diagram.system, at,
                        component_at(dm.system, at), component_at(diagram.system, at));
                }
            },
            ComponentAt::Nested(_, _) => {},
        }
        Ok(())
    }

    /// Lets the first module with the ID anywhere in the system use an
    /// interface defined somewhere in the logic view.
    pub fn add_dependency_simple(diagram: &mut LogicConceptDiagram, module_id: &str, interface_id: &str) -> (r: Result<()>)
        ensures
            add_dependency_simple_post(*old(diagram), *final(diagram), module_id@, interface_id@, r),
    {
        let ikey = to_owned_string(interface_id);
        if !interface_defined(diagram, &ikey) {
            return Err(AppError::ElementNotFound(concat2("interface: ", interface_id)));
        }
        let key = to_owned_string(module_id);
        let site = match locate_module(&diagram.system, &key) {
            Some(s) => s,
            None => {
                return Err(AppError::ElementNotFound(concat2("module: ", module_id)));
            },
        };
        let ghost kv = key;
        let ghost iv = ikey;
        let ghost d0 = *diagram;
        match site {
            ModuleSite::InSystem => {
                proof {
                    lemma_first_tree_exists(diagram.system.modules@, key@);
                }
                change_forest(&mut diagram.system.modules, &key, ModuleChange::AddDependency(ikey));
                diagram.touch();
                assert(forest_changed(d0.system.modules@, diagram.system.modules@, module_id@, ModuleChange::AddDependency(iv)));
            },
            ModuleSite::InComponent(at) => {
                edit_at(diagram, at, ComponentChange::InModule(key, ModuleChange::AddDependency(ikey)));
                assert(component_changed(ComponentChange::InModule(kv, ModuleChange::AddDependency(iv)),
                    component_at(d0.system, at), component_at(diagram.system, at)));
            },
        }
        Ok(())
    }

    /// Records that an existing element provides an interface defined somewhere.
    pub fn add_provide_relation(diagram: &mut LogicConceptDiagram, element_id: &str, interface_id: &str) -> (r: Result<()>)
        ensures
            add_provide_relation_post(*old(diagram), *final(diagram), element_id@, interface_id@, r),
    {
        if !element_exists(diagram, element_id) {
            return Err(AppError::ElementNotFound(concat2("element: ", element_id)));
        }
        let e = to_owned_string(element_id);
        let i = to_owned_string(interface_id);
        if !interface_defined(diagram, &i) {
            return Err(AppError::ElementNotFound(concat2("interface: ", interface_id)));
        }
        if provides(&diagram.provide_relations, &e, &i) {
            return Err(AppError::ElementAlreadyExists(concat4("provide relation: ", element_id, " -> ", interface_id)));
        }
        let ghost d0 = *diagram;
        diagram.provide_relations.push(ProvideRelation { element_id: e, interface_id: i });
        assert(diagram.provide_relations@.drop_last() =~= d0.provide_relations@);
        diagram.touch();
        Ok(())
    }

    /// Records that one existing element contains another.
    pub fn add_element_containment(diagram: &mut LogicConceptDiagram, parent_id: &str, child_id: &str) -> (r: Result<()>)
        ensures
            add_element_containment_post(*old(diagram), *final(diagram), parent_id@, child_id@, r),
    {
        if !element_exists(diagram, parent_id) {
            return Err(AppError::ElementNotFound(concat2("element: ", parent_id)));
        }
        if !element_exists(diagram, child_id) {
            return Err(AppError::ElementNotFound(concat2("element: ", child_id)));
        }
        let p = to_owned_string(parent_id);
        let c = to_owned_string(child_id);
        if contains_pair(&diagram.containments, &p, &c) {
            return Err(AppError::ElementAlreadyExists(concat4("containment: ", parent_id, " -> ", child_id)));
        }
        append_containment(diagram, p, c);
        Ok(())
    }

    /// Records a containment of which at least one end is an element of the
    /// logic view; the other may name an element of the context diagram.
    pub fn add_element_containment_with_context(
        diagram: &mut LogicConceptDiagram,
        parent_id: &str,
        child_id: &str,
        context_interface_ids: &[&str],
    ) -> (r: Result<()>)
        ensures
            add_element_containment_with_context_post(*old(diagram), *final(diagram), parent_id@, child_id@, r),
    {
        let parent_in_logic = element_exists(diagram, parent_id);
        let child_in_logic = element_exists(diagram, child_id);
        if !parent_in_logic && !child_in_logic {
            return Err(AppError::InvalidOperation(concat5(
                "At least one of parent '", parent_id, "' or child '", child_id, "' must exist in logic view",
            )));
        }
        let p = to_owned_string(parent_id);
        let c = to_owned_string(child_id);
        if contains_pair(&diagram.containments, &p, &c) {
            return Err(AppError::ElementAlreadyExists(concat4("containment: ", parent_id, " -> ", child_id)));
        }
        append_containment(diagram, p, c);
        Ok(())
    }
}

/// The element with a given ID, once `add_component` has added it, is an
/// element of the logic view.
pub proof fn lemma_added_component_is_known(
    d0: LogicConceptDiagram, d1: LogicConceptDiagram, id: Seq<char>, name: Seq<char>, description: Option<Seq<char>>,
)
    requires
        add_component_post(d0, d1, id, name, description, Ok(())),
    ensures
        element_known(d1, id),
{
    let s = d1.system;
    let c = s.components@;
    assert(c.last().modules@ =~= Seq::<Module>::empty());
    assert(component_ids(c.last()) =~= seq![id]);
    assert(component_list_ids(c) == component_list_ids(c.drop_last()) + component_ids(c.last()));
    let all = seq![s.id@] + system_ids(s);
    let i = (1 + subsystem_list_ids(s.subsystems@).len() + component_list_ids(c.drop_last()).len()) as int;
    assert(all[i] == id);
}

/// The element with a given ID, once `add_subsystem` has added it, is an
/// element of the logic view.
pub proof fn lemma_added_subsystem_is_known(
    d0: LogicConceptDiagram, d1: LogicConceptDiagram, id: Seq<char>, name: Seq<char>, description: Option<Seq<char>>,
)
    requires
        add_subsystem_post(d0, d1, id, name, description, Ok(())),
    ensures
        element_known(d1, id),
{
    let s = d1.system;
    let l = s.subsystems@;
    assert(l.last().components@ =~= Seq::<Component>::empty());
    assert(subsystem_ids(l.last()) =~= seq![id]);
    assert(subsystem_list_ids(l) == subsystem_list_ids(l.drop_last()) + subsystem_ids(l.last()));
    let all = seq![s.id@] + system_ids(s);
    let i = (1 + subsystem_list_ids(l.drop_last()).len()) as int;
    assert(all[i] == id);
}

/// A module placed directly in the system by `add_module_to_system` or
/// `add_submodule` is an element of the logic view.
pub proof fn lemma_added_system_module_is_known(
    d0: LogicConceptDiagram, d1: LogicConceptDiagram, id: Seq<char>, name: Seq<char>, description: Option<Seq<char>>,
)
    requires
        system_module_added(d0, d1, id, name, description, Ok(())),
    ensures
        element_known(d1, id),
{
    let s = d1.system;
    let l = s.modules@;
    assert(l.last().modules@ =~= Seq::<Module>::empty());
    assert(module_ids(l.last()) =~= seq![id]);
    assert(module_list_ids(l) == module_list_ids(l.drop_last()) + module_ids(l.last()));
    let all = seq![s.id@] + system_ids(s);
    let i = (1 + subsystem_list_ids(s.subsystems@).len() + component_list_ids(s.components@).len()
        + module_list_ids(l.drop_last()).len()) as int;
    assert(all[i] == id);
}

/// An interface, once `add_standalone_interface` has added it, is defined in
/// the logic view, so adding it again is refused.
pub proof fn lemma_added_interface_is_known(
    d0: LogicConceptDiagram, d1: LogicConceptDiagram, id: Seq<char>, name: Seq<char>, description: Option<Seq<char>>,
)
    requires
        add_standalone_interface_post(d0, d1, id, name, description, Ok(())),
    ensures
        iface_known(d1, id),
{
    let l = d1.system.interfaces@;
    assert(l[l.len() - 1].id@ == id);
    assert(d1.system.interfaces@[l.len() - 1].key() == id);
}

/// Each component's ID is among the IDs of a list of components.
proof fn lemma_component_ids_listed(c: Seq<Component>, i: int)
    requires
        0 <= i < c.len(),
    ensures
        component_list_ids(c).contains(c[i].id@),
    decreases c.len(),
{
    let t = c.drop_last();
    assert(component_list_ids(c) == component_list_ids(t) + component_ids(c.last()));
    if i < c.len() - 1 {
        lemma_component_ids_listed(t, i);
        assert(t[i] == c[i]);
        let k = choose|k: int| 0 <= k < component_list_ids(t).len() && component_list_ids(t)[k] == c[i].id@;
        assert(component_list_ids(c)[k] == c[i].id@);
    } else {
        assert(component_ids(c.last())[0] == c[i].id@);
        assert(component_list_ids(c)[component_list_ids(t).len() as int] == c[i].id@);
    }
}

/// Each subsystem's ID is among the IDs of a list of subsystems.
proof fn lemma_subsystem_ids_listed(l: Seq<Subsystem>, i: int)
    requires
        0 <= i < l.len(),
    ensures
        subsystem_list_ids(l).contains(l[i].id@),
    decreases l.len(),
{
    let t = l.drop_last();
    assert(subsystem_list_ids(l) == subsystem_list_ids(t) + subsystem_ids(l.last()));
    if i < l.len() - 1 {
        lemma_subsystem_ids_listed(t, i);
        assert(t[i] == l[i]);
        let k = choose|k: int| 0 <= k < subsystem_list_ids(t).len() && subsystem_list_ids(t)[k] == l[i].id@;
        assert(subsystem_list_ids(l)[k] == l[i].id@);
    } else {
        assert(subsystem_ids(l.last())[0] == l[i].id@);
        assert(subsystem_list_ids(l)[subsystem_list_ids(t).len() as int] == l[i].id@);
    }
}

/// Removing the component that `add_component` has just added gives back the
/// components, and the rest of the system, as they were.
pub proof fn lemma_add_then_remove_component(
    d0: LogicConceptDiagram, d1: LogicConceptDiagram, d2: LogicConceptDiagram,
    id: Seq<char>, name: Seq<char>, description: Option<Seq<char>>, r: Result<()>,
)
    requires
        add_component_post(d0, d1, id, name, description, Ok(())),
        remove_component_post(d1, d2, id, r),
    ensures
        r is Ok,
        d2.system.components@ == d0.system.components@,
        d2.system.subsystems == d0.system.subsystems,
        d2.system.modules == d0.system.modules,
        d2.system.interfaces == d0.system.interfaces,
        same_header(d0, d2),
        same_links(d0, d2),
{
    let c0 = d0.system.components@;
    let c1 = d1.system.components@;
    let n = c0.len() as int;
    assert(c1[n].id@ == id);
    assert forall|j: int| 0 <= j < n implies #[trigger] c1[j].key() != id by {
        assert(c1[j] == c0[j]);
        if c0[j].id@ == id {
            lemma_component_ids_listed(c0, j);
            let k = choose|k: int| 0 <= k < component_list_ids(c0).len() && component_list_ids(c0)[k] == id;
            let all = seq![d0.system.id@] + system_ids(d0.system);
            assert(all[1 + subsystem_list_ids(d0.system.subsystems@).len() + k] == id);
        }
    }
    assert(is_first_key(c1, id, n));
    assert(has_key(c1, id));
    let i = choose|i: int| is_first_key(c1, id, i) && d2.system.components@ == c1.remove(i);
    crate::utils::keyed::lemma_first_key_same(c1, id, i, n);
    assert(c1.remove(n) =~= c0);
}

/// Removing the subsystem that `add_subsystem` has just added gives back the
/// subsystems, and the rest of the system, as they were.
pub proof fn lemma_add_then_remove_subsystem(
    d0: LogicConceptDiagram, d1: LogicConceptDiagram, d2: LogicConceptDiagram,
    id: Seq<char>, name: Seq<char>, description: Option<Seq<char>>, r: Result<()>,
)
    requires
        add_subsystem_post(d0, d1, id, name, description, Ok(())),
        remove_subsystem_post(d1, d2, id, r),
    ensures
        r is Ok,
        d2.system.subsystems@ == d0.system.subsystems@,
        d2.system.components == d0.system.components,
        d2.system.modules == d0.system.modules,
        d2.system.interfaces == d0.system.interfaces,
        same_header(d0, d2),
        same_links(d0, d2),
{
    let l0 = d0.system.subsystems@;
    let l1 = d1.system.subsystems@;
    let n = l0.len() as int;
    assert(l1[n].id@ == id);
    assert forall|j: int| 0 <= j < n implies #[trigger] l1[j].key() != id by {
        assert(l1[j] == l0[j]);
        if l0[j].id@ == id {
            lemma_subsystem_ids_listed(l0, j);
            let k = choose|k: int| 0 <= k < subsystem_list_ids(l0).len() && subsystem_list_ids(l0)[k] == id;
            let all = seq![d0.system.id@] + system_ids(d0.system);
            assert(all[1 + k] == id);
        }
    }
    assert(is_first_key(l1, id, n));
    assert(has_key(l1, id));
    let i = choose|i: int| is_first_key(l1, id, i) && d2.system.subsystems@ == l1.remove(i);
    crate::utils::keyed::lemma_first_key_same(l1, id, i, n);
    assert(l1.remove(n) =~= l0);
}

/// Whether no two elements of the logic view (the system included) share an ID.
pub open spec fn element_ids_distinct(d: LogicConceptDiagram) -> bool {
    (seq![d.system.id@] + system_ids(d.system)).no_duplicates()
}

/// A fresh item put between two parts of a sequence without repeats leaves none.
proof fn lemma_insert_fresh(a: Seq<Seq<char>>, b: Seq<Seq<char>>, x: Seq<char>)
    requires
        (a + b).no_duplicates(),
        !(a + b).contains(x),
    ensures
        (a + seq![x] + b).no_duplicates(),
{
    let s = a + b;
    let t = a + seq![x] + b;
    assert forall|i: int, j: int| 0 <= i < t.len() && 0 <= j < t.len() && i != j implies t[i] != t[j] by {
        let n = a.len() as int;
        let fi = if i < n { i } else { i - 1 };
        let fj = if j < n { j } else { j - 1 };
        if i == n {
            if j < n {
                assert(t[j] == s[j]);
            } else {
                assert(t[j] == s[j - 1]);
            }
        } else if j == n {
            if i < n {
                assert(t[i] == s[i]);
            } else {
                assert(t[i] == s[i - 1]);
            }
        } else {
            assert(t[i] == s[fi]);
            assert(t[j] == s[fj]);
        }
    }
}

/// The element IDs of a logic view, in parts.
proof fn lemma_ids_parts(d: LogicConceptDiagram)
    ensures
        seq![d.system.id@] + system_ids(d.system) == seq![d.system.id@] + subsystem_list_ids(d.system.subsystems@)
            + component_list_ids(d.system.components@) + module_list_ids(d.system.modules@),
{
    assert(seq![d.system.id@] + system_ids(d.system) =~= seq![d.system.id@] + subsystem_list_ids(d.system.subsystems@)
        + component_list_ids(d.system.components@) + module_list_ids(d.system.modules@));
}

/// Adding a component keeps the element IDs distinct: an ID that some
/// element has is refused.
pub proof fn lemma_add_component_keeps_ids_distinct(
    d0: LogicConceptDiagram, d1: LogicConceptDiagram, id: Seq<char>, name: Seq<char>, description: Option<Seq<char>>,
)
    requires
        element_ids_distinct(d0),
        add_component_post(d0, d1, id, name, description, Ok(())),
    ensures
        element_ids_distinct(d1),
{
    let head = seq![d0.system.id@];
    let ss = subsystem_list_ids(d0.system.subsystems@);
    let cs = component_list_ids(d0.system.components@);
    let ms = module_list_ids(d0.system.modules@);
    lemma_ids_parts(d0);
    assert(head + ss + cs + ms =~= (head + ss + cs) + ms);
    let c = d1.system.components@;
    assert(c.last().modules@ =~= Seq::<Module>::empty());
    assert(component_ids(c.last()) =~= seq![id]);
    assert(component_list_ids(c) == component_list_ids(c.drop_last()) + component_ids(c.last()));
    lemma_insert_fresh(head + ss + cs, ms, id);
    assert(seq![d1.system.id@] + system_ids(d1.system) =~= head + ss + cs + seq![id] + ms);
}

/// Adding a subsystem keeps the element IDs distinct: an ID that some
/// element has is refused.
pub proof fn lemma_add_subsystem_keeps_ids_distinct(
    d0: LogicConceptDiagram, d2: LogicConceptDiagram, id: Seq<char>, name: Seq<char>, description: Option<Seq<char>>,
)
    requires
        element_ids_distinct(d0),
        add_subsystem_post(d0, d2, id, name, description, Ok(())),
    ensures
        element_ids_distinct(d2),
{
    let head = seq![d0.system.id@];
    let ss = subsystem_list_ids(d0.system.subsystems@);
    let cs = component_list_ids(d0.system.components@);
    let ms = module_list_ids(d0.system.modules@);
    lemma_ids_parts(d0);
    assert(head + ss + cs + ms =~= (head + ss) + (cs + ms));
    let l = d2.system.subsystems@;
    assert(l.last().components@ =~= Seq::<Component>::empty());
    assert(subsystem_ids(l.last()) =~= seq![id]);
    assert(subsystem_list_ids(l) == subsystem_list_ids(l.drop_last()) + subsystem_ids(l.last()));
    lemma_insert_fresh(head + ss, cs + ms, id);
    assert(seq![d2.system.id@] + system_ids(d2.system) =~= head + ss + seq![id] + (cs + ms));
}

/// Adding a module directly to the system (`add_module_to_system`,
/// `add_submodule`) keeps the element IDs distinct: an ID that some element
/// has is refused.
pub proof fn lemma_add_system_module_keeps_ids_distinct(
    d0: LogicConceptDiagram, d3: LogicConceptDiagram, id: Seq<char>, name: Seq<char>, description: Option<Seq<char>>,
)
    requires
        element_ids_distinct(d0),
        system_module_added(d0, d3, id, name, description, Ok(())),
    ensures
        element_ids_distinct(d3),
{
    let all = seq![d0.system.id@] + system_ids(d0.system);
    let m = d3.system.modules@;
    assert(m.last().modules@ =~= Seq::<Module>::empty());
    assert(module_ids(m.last()) =~= seq![id]);
    assert(module_list_ids(m) == module_list_ids(m.drop_last()) + module_ids(m.last()));
    assert(all + Seq::<Seq<char>>::empty() =~= all);
    lemma_insert_fresh(all, Seq::empty(), id);
    assert(seq![d3.system.id@] + system_ids(d3.system) =~= all + seq![id] + Seq::<Seq<char>>::empty());
}

/// The IDs of two lists of subsystems, one after the other.
proof fn lemma_subsystem_list_ids_concat(a: Seq<Subsystem>, b: Seq<Subsystem>)
    ensures
        subsystem_list_ids(a + b) == subsystem_list_ids(a) + subsystem_list_ids(b),
    decreases b.len(),
{
    if b.len() == 0 {
        assert(a + b =~= a);
        assert(subsystem_list_ids(a) + subsystem_list_ids(b) =~= subsystem_list_ids(a));
    } else {
        lemma_subsystem_list_ids_concat(a, b.drop_last());
        assert((a + b).drop_last() =~= a + b.drop_last());
        assert((a + b).last() == b.last());
        assert(subsystem_list_ids(a) + subsystem_list_ids(b) =~= subsystem_list_ids(a) + subsystem_list_ids(b.drop_last())
            + subsystem_ids(b.last()));
    }
}

/// The IDs of one subsystem, as a list of one.
proof fn lemma_subsystem_list_ids_one(x: Subsystem)
    ensures
        subsystem_list_ids(seq![x]) == subsystem_ids(x),
{
    let l = seq![x];
    assert(l.drop_last() =~= Seq::<Subsystem>::empty());
    assert(l.last() == x);
    assert(subsystem_list_ids(l.drop_last()) =~= Seq::<Seq<char>>::empty());
    assert(subsystem_list_ids(l) == subsystem_list_ids(l.drop_last()) + subsystem_ids(l.last()));
    assert(Seq::<Seq<char>>::empty() + subsystem_ids(x) =~= subsystem_ids(x));
}

/// After `add_component_to_subsystem`, the element IDs are those from before
/// with the new ID put right after the IDs of the subsystem that received it.
proof fn lemma_subsystem_component_ids(
    d0: LogicConceptDiagram, d1: LogicConceptDiagram, sid: Seq<char>, id: Seq<char>, name: Seq<char>,
    description: Option<Seq<char>>,
) -> (parts: (Seq<Seq<char>>, Seq<Seq<char>>))
    requires
        add_component_to_subsystem_post(d0, d1, sid, id, name, description, Ok(())),
    ensures
        seq![d0.system.id@] + system_ids(d0.system) == parts.0 + parts.1,
        seq![d1.system.id@] + system_ids(d1.system) == parts.0 + seq![id] + parts.1,
{
    let l0 = d0.system.subsystems@;
    let l1 = d1.system.subsystems@;
    let k = choose|k: int| is_first_key(l0, sid, k)
        && subsystem_component_appended(l0, l1, k, id, name, description);
    let pre = l0.take(k);
    let post = l0.skip(k + 1);
    assert(l0 =~= pre + seq![l0[k]] + post);
    assert(l1 =~= pre + seq![l1[k]] + post);
    lemma_subsystem_list_ids_concat(pre + seq![l0[k]], post);
    lemma_subsystem_list_ids_concat(pre, seq![l0[k]]);
    lemma_subsystem_list_ids_concat(pre + seq![l1[k]], post);
    lemma_subsystem_list_ids_concat(pre, seq![l1[k]]);
    lemma_subsystem_list_ids_one(l0[k]);
    lemma_subsystem_list_ids_one(l1[k]);
    let c1 = l1[k].components@;
    assert(c1.last().modules@ =~= Seq::<Module>::empty());
    assert(component_ids(c1.last()) =~= seq![id]);
    assert(component_list_ids(c1) == component_list_ids(c1.drop_last()) + component_ids(c1.last()));
    assert(subsystem_ids(l1[k]) =~= subsystem_ids(l0[k]) + seq![id]);
    let head = seq![d0.system.id@];
    let cs = component_list_ids(d0.system.components@);
    let ms = module_list_ids(d0.system.modules@);
    lemma_ids_parts(d0);
    lemma_ids_parts(d1);
    let a = head + subsystem_list_ids(pre) + subsystem_ids(l0[k]);
    let b = subsystem_list_ids(post) + cs + ms;
    assert(seq![d0.system.id@] + system_ids(d0.system) =~= a + b);
    assert(seq![d1.system.id@] + system_ids(d1.system) =~= a + seq![id] + b);
    (a, b)
}

/// A component added to a subsystem is an element of the logic view.
pub proof fn lemma_added_subsystem_component_is_known(
    d0: LogicConceptDiagram, d1: LogicConceptDiagram, sid: Seq<char>, id: Seq<char>, name: Seq<char>,
    description: Option<Seq<char>>,
)
    requires
        add_component_to_subsystem_post(d0, d1, sid, id, name, description, Ok(())),
    ensures
        element_known(d1, id),
{
    let parts = lemma_subsystem_component_ids(d0, d1, sid, id, name, description);
    assert((parts.0 + seq![id] + parts.1)[parts.0.len() as int] == id);
}

/// Adding a component to a subsystem keeps the element IDs distinct: an ID
/// that some element has is refused.
pub proof fn lemma_add_subsystem_component_keeps_ids_distinct(
    d0: LogicConceptDiagram, d1: LogicConceptDiagram, sid: Seq<char>, id: Seq<char>, name: Seq<char>,
    description: Option<Seq<char>>,
)
    requires
        element_ids_distinct(d0),
        add_component_to_subsystem_post(d0, d1, sid, id, name, description, Ok(())),
    ensures
        element_ids_distinct(d1),
{
    let parts = lemma_subsystem_component_ids(d0, d1, sid, id, name, description);
    lemma_insert_fresh(parts.0, parts.1, id);
}

} // verus!
