use vstd::prelude::*;
use crate::model::logic::concept::{LogicConceptDiagram, Module, ElementContainment, ProvideRelation, Dependency};
use crate::store::logic_operations::{
    ModuleSite, module_site, forest_target, component_at, component_site, iface_in_forest,
    forest_find, forest_defines, component_ref, locate_module, locate_component,
};
use crate::generator::plantuml::support::{concat_map, text_if, lemma_concat_map_step, lemma_concat_map_all};
use crate::utils::keyed::{Keyed, has_key, contains_key, keys};
use crate::model::workspace::Workspace;
use crate::model::c4::context::InterfaceProvider;
use crate::utils::text::{has_text, contains_text, same_text, string_views, lemma_has_text_views, to_owned_string, join, join_strings, opt_str_view};

verus! {

/// The module with ID `id` that a search of the logic view finds first: the
/// system's own module trees, then those of its components, then those of
/// its subsystems' components.
pub open spec fn module_of(d: LogicConceptDiagram, id: Seq<char>) -> Option<Module> {
    match module_site(d.system, id) {
        Some(ModuleSite::InSystem) => Some(forest_target(d.system.modules@, id)),
        Some(ModuleSite::InComponent(at)) => Some(forest_target(component_at(d.system, at).modules@, id)),
        None => None,
    }
}

/// Whether the diagram draws `id` as an interface: a system-level interface
/// or one defined in the system's own module trees.
pub open spec fn drawn_interface(d: LogicConceptDiagram, id: Seq<char>) -> bool {
    has_key(d.system.interfaces@, id) || iface_in_forest(d.system.modules@, id)
}

/// Whether `id` names a component of the system or of a subsystem.
pub open spec fn component_named(d: LogicConceptDiagram, id: Seq<char>) -> bool {
    component_site(d.system, id) is Some
}

/// Whether `id` names a subsystem.
pub open spec fn subsystem_named(d: LogicConceptDiagram, id: Seq<char>) -> bool {
    has_key(d.system.subsystems@, id)
}

/// The stereotype of a module: a submodule when its ID is recorded as one.
pub open spec fn stereotype(d: LogicConceptDiagram, id: Seq<char>) -> Seq<char> {
    if has_text(d.submodule_ids@, id) { "SUBMODULE"@ } else { "MODULE"@ }
}

/// The interface that the first provide relation of element `e` names.
pub open spec fn provided(ps: Seq<ProvideRelation>, e: Seq<char>) -> Option<Seq<char>>
    decreases ps.len(),
{
    if ps.len() == 0 {
        None
    } else if ps[0].element_id@ == e {
        Some(ps[0].interface_id@)
    } else {
        provided(ps.drop_first(), e)
    }
}

/// What is drawn for each child of an element inside its rectangle.
#[derive(Debug, Clone, Copy, PartialEq, Eq, Structural)]
pub enum ChildPart {
    /// The interface the child provides.
    Interface,
    /// The interface a child module provides, when it is drawn as one.
    ModuleInterface,
    /// The child as a module.
    ModuleBox,
    /// The child as a component.
    ComponentBox,
    /// The child as whatever element it is.
    ElementBox,
}

/// A child's box line with the given stereotype.
pub open spec fn box_line(stereo: Seq<char>, x: Seq<char>) -> Seq<char> {
    "    rectangle \"<<"@ + stereo + ">>\\n"@ + x + "\" as "@ + x + "\n"@
}

/// An interface line inside a rectangle.
pub open spec fn iface_line(i: Seq<char>) -> Seq<char> {
    "    interface "@ + i + "\n"@
}

/// The text drawn for child `x` of a rectangle, as part `part`; only
/// elements among `members` are drawn.
pub open spec fn child_text(part: ChildPart, d: LogicConceptDiagram, members: Seq<Seq<char>>, x: Seq<char>) -> Seq<char> {
    match part {
        ChildPart::Interface => match provided(d.provide_relations@, x) {
            Some(i) => text_if(members.contains(x) && members.contains(i), iface_line(i)),
            None => Seq::empty(),
        },
        ChildPart::ModuleInterface => match provided(d.provide_relations@, x) {
            Some(i) => text_if(
                module_of(d, x) is Some && members.contains(x) && members.contains(i) && drawn_interface(d, i),
                iface_line(i),
            ),
            None => Seq::empty(),
        },
        ChildPart::ModuleBox => text_if(module_of(d, x) is Some && members.contains(x), box_line(stereotype(d, x), x)),
        ChildPart::ComponentBox => text_if(component_named(d, x) && members.contains(x), box_line("COMPONENT"@, x)),
        ChildPart::ElementBox => if !members.contains(x) {
            Seq::empty()
        } else if subsystem_named(d, x) {
            box_line("SUBSYSTEM"@, x)
        } else if component_named(d, x) {
            box_line("COMPONENT"@, x)
        } else if module_of(d, x) is Some {
            box_line(stereotype(d, x), x)
        } else {
            Seq::empty()
        },
    }
}

/// The text drawn for each child of `p`, in the order the containments list them.
pub open spec fn children_text(part: ChildPart, d: LogicConceptDiagram, members: Seq<Seq<char>>, p: Seq<char>) -> Seq<char> {
    concat_map(d.containments@, |c: ElementContainment| text_if(c.parent_id@ == p, child_text(part, d, members, c.child_id@)))
}

/// Whether some containment has parent `p`.
pub open spec fn has_children(cs: Seq<ElementContainment>, p: Seq<char>) -> bool {
    exists|i: int| 0 <= i < cs.len() && #[trigger] cs[i].parent_id@ == p
}

/// The opening line of a rectangle.
pub open spec fn open_line(stereo: Seq<char>, id: Seq<char>) -> Seq<char> {
    "rectangle \"<<"@ + stereo + ">>\\n"@ + id + "\" as "@ + id + " {\n\n"@
}

/// A rectangle drawn with the children that containments give it: their
/// interfaces, then their boxes.
pub open spec fn rect_text(stereo: Seq<char>, part: ChildPart, d: LogicConceptDiagram, members: Seq<Seq<char>>, id: Seq<char>) -> Seq<char> {
    open_line(stereo, id)
        + text_if(has_children(d.containments@, id),
            children_text(ChildPart::Interface, d, members, id) + "\n"@ + children_text(part, d, members, id))
        + "}\n\n"@
}

/// A module's rectangle: its child modules' interfaces, then the child modules.
pub open spec fn module_rect_text(d: LogicConceptDiagram, members: Seq<Seq<char>>, id: Seq<char>) -> Seq<char> {
    open_line(stereotype(d, id), id)
        + children_text(ChildPart::ModuleInterface, d, members, id) + "\n"@
        + children_text(ChildPart::ModuleBox, d, members, id)
        + "}\n\n"@
}

/// The module with ID `id` that a search of the logic view finds first.
fn find_module<'a>(d: &'a LogicConceptDiagram, id: &String) -> (r: Option<&'a Module>)
    ensures
        match r {
            Some(m) => module_of(*d, id@) == Some(*m),
            None => module_of(*d, id@) is None,
        },
{
    match locate_module(&d.system, id) {
        Some(ModuleSite::InSystem) => forest_find(&d.system.modules, id),
        Some(ModuleSite::InComponent(at)) => forest_find(&component_ref(&d.system, at).modules, id),
        None => None,
    }
}

/// Whether the diagram draws `id` as an interface.
fn is_drawn_interface(d: &LogicConceptDiagram, id: &String) -> (r: bool)
    ensures
        r == drawn_interface(*d, id@),
{
    contains_key(&d.system.interfaces, id) || forest_defines(&d.system.modules, id)
}

/// Whether `id` names a component.
fn is_component(d: &LogicConceptDiagram, id: &String) -> (r: bool)
    ensures
        r == component_named(*d, id@),
{
    match locate_component(&d.system, id) {
        Some(_) => true,
        None => false,
    }
}

/// The interface that the first provide relation of element `e` names.
fn provided_interface<'a>(ps: &'a Vec<ProvideRelation>, e: &String) -> (r: Option<&'a String>)
    ensures
        match r {
            Some(i) => provided(ps@, e@) == Some(i@),
            None => provided(ps@, e@) is None,
        },
{
    let mut k: usize = 0;
    assert(ps@.skip(0) =~= ps@);
    while k < ps.len()
        invariant
            k <= ps.len(),
            provided(ps@, e@) == provided(ps@.skip(k as int), e@),
        decreases ps.len() - k,
    {
        assert(ps@.skip(k as int).drop_first() =~= ps@.skip(k + 1));
        assert(ps@.skip(k as int)[0] == ps@[k as int]);
        if same_text(&ps[k].element_id, e) {
            return Some(&ps[k].interface_id);
        }
        k = k + 1;
    }
    None
}

/// Whether `x` is among the members.
fn is_member(members: &Vec<String>, x: &String) -> (r: bool)
    ensures
        r == string_views(members@).contains(x@),
{
    proof {
        lemma_has_text_views(members@, x@);
    }
    contains_text(members, x)
}

/// The stereotype of a module.
fn write_stereotype(out: &mut String, d: &LogicConceptDiagram, id: &String)
    ensures
        final(out)@ == old(out)@ + stereotype(*d, id@),
{
    if contains_text(&d.submodule_ids, id) {
        out.append("SUBMODULE");
    } else {
        out.append("MODULE");
    }
}

/// Writes a child's box line with the stereotype already written by the caller.
fn write_box(out: &mut String, d: &LogicConceptDiagram, stereo: &str, x: &String)
    ensures
        final(out)@ == old(out)@ + box_line(stereo@, x@),
{
    out.append("    rectangle \"<<");
    out.append(stereo);
    out.append(">>\\n");
    out.append(x.as_str());
    out.append("\" as ");
    out.append(x.as_str());
    out.append("\n");
}

/// Writes a module child's box line.
fn write_module_box(out: &mut String, d: &LogicConceptDiagram, x: &String)
    ensures
        final(out)@ == old(out)@ + box_line(stereotype(*d, x@), x@),
{
    if contains_text(&d.submodule_ids, x) {
        write_box(out, d, "SUBMODULE", x);
    } else {
        write_box(out, d, "MODULE", x);
    }
}

/// Writes an interface line inside a rectangle.
fn write_iface(out: &mut String, i: &String)
    ensures
        final(out)@ == old(out)@ + iface_line(i@),
{
    out.append("    interface ");
    out.append(i.as_str());
    out.append("\n");
}

/// Writes the text drawn for child `x`.
fn write_child(out: &mut String, part: ChildPart, d: &LogicConceptDiagram, members: &Vec<String>, x: &String)
    ensures
        final(out)@ == old(out)@ + child_text(part, *d, string_views(members@), x@),
{
    let ghost m = string_views(members@);
    match part {
        ChildPart::Interface => {
            match provided_interface(&d.provide_relations, x) {
                Some(i) => {
                    if is_member(members, x) && is_member(members, i) {
                        write_iface(out, i);
                    }
                },
                None => {},
            }
        },
        ChildPart::ModuleInterface => {
            match provided_interface(&d.provide_relations, x) {
                Some(i) => {
                    let is_module = match find_module(d, x) {
                        Some(_) => true,
                        None => false,
                    };
                    if is_module && is_member(members, x) && is_member(members, i) && is_drawn_interface(d, i) {
                        write_iface(out, i);
                    }
                },
                None => {},
            }
        },
        ChildPart::ModuleBox => {
            let is_module = match find_module(d, x) {
                Some(_) => true,
                None => false,
            };
            if is_module && is_member(members, x) {
                write_module_box(out, d, x);
            }
        },
        ChildPart::ComponentBox => {
            if is_component(d, x) && is_member(members, x) {
                write_box(out, d, "COMPONENT", x);
            }
        },
        ChildPart::ElementBox => {
            if is_member(members, x) {
                if contains_key(&d.system.subsystems, x) {
                    write_box(out, d, "SUBSYSTEM", x);
                } else if is_component(d, x) {
                    write_box(out, d, "COMPONENT", x);
                } else {
                    match find_module(d, x) {
                        Some(_) => write_module_box(out, d, x),
                        None => {},
                    }
                }
            }
        },
    }
}

/// Writes the text drawn for each child of `p`.
fn write_children(out: &mut String, part: ChildPart, d: &LogicConceptDiagram, members: &Vec<String>, p: &String)
    ensures
        final(out)@ == old(out)@ + children_text(part, *d, string_views(members@), p@),
{
    let ghost m = string_views(members@);
    let ghost f = |c: ElementContainment| text_if(c.parent_id@ == p@, child_text(part, *d, m, c.child_id@));
    let cs = &d.containments;
    let ghost start = out@;
    let mut j: usize = 0;
    while j < cs.len()
        invariant
            j <= cs.len(),
            cs@ == d.containments@,
            m == string_views(members@),
            f == (|c: ElementContainment| text_if(c.parent_id@ == p@, child_text(part, *d, m, c.child_id@))),
            out@ == start + concat_map(cs@.take(j as int), f),
        decreases cs.len() - j,
    {
        proof {
            lemma_concat_map_step(cs@, f, j as int);
        }
        let ghost before = out@;
        if same_text(&cs[j].parent_id, p) {
            write_child(out, part, d, members, &cs[j].child_id);
        }
        assert(out@ =~= before + f(cs@[j as int]));
        j = j + 1;
    }
    proof {
        lemma_concat_map_all(cs@, f);
    }
}

/// Whether some containment has parent `p`.
fn any_children(cs: &Vec<ElementContainment>, p: &String) -> (r: bool)
    ensures
        r == has_children(cs@, p@),
{
    let mut j: usize = 0;
    while j < cs.len()
        invariant
            j <= cs.len(),
            forall|k: int| 0 <= k < j ==> #[trigger] cs@[k].parent_id@ != p@,
        decreases cs.len() - j,
    {
        if same_text(&cs[j].parent_id, p) {
            return true;
        }
        j = j + 1;
    }
    false
}

/// Writes the opening line of a rectangle.
fn write_open(out: &mut String, stereo: &str, id: &String)
    ensures
        final(out)@ == old(out)@ + open_line(stereo@, id@),
{
    out.append("rectangle \"<<");
    out.append(stereo);
    out.append(">>\\n");
    out.append(id.as_str());
    out.append("\" as ");
    out.append(id.as_str());
    out.append(" {\n\n");
}

/// Writes a rectangle with the children that containments give it.
fn write_rect(out: &mut String, stereo: &str, part: ChildPart, d: &LogicConceptDiagram, members: &Vec<String>, id: &String)
    ensures
        final(out)@ == old(out)@ + rect_text(stereo@, part, *d, string_views(members@), id@),
{
    let ghost start = out@;
    write_open(out, stereo, id);
    if any_children(&d.containments, id) {
        write_children(out, ChildPart::Interface, d, members, id);
        out.append("\n");
        write_children(out, part, d, members, id);
    }
    out.append("}\n\n");
    assert(out@ =~= start + rect_text(stereo@, part, *d, string_views(members@), id@));
}

/// Writes a module's rectangle.
fn write_module_rect(out: &mut String, d: &LogicConceptDiagram, members: &Vec<String>, id: &String)
    ensures
        final(out)@ == old(out)@ + module_rect_text(*d, string_views(members@), id@),
{
    let ghost start = out@;
    if contains_text(&d.submodule_ids, id) {
        write_open(out, "SUBMODULE", id);
    } else {
        write_open(out, "MODULE", id);
    }
    write_children(out, ChildPart::ModuleInterface, d, members, id);
    out.append("\n");
    write_children(out, ChildPart::ModuleBox, d, members, id);
    out.append("}\n\n");
    assert(out@ =~= start + module_rect_text(*d, string_views(members@), id@));
}

/// Whether `x` is drawn as an interface, the root's interfaces included.
pub open spec fn is_iface_for(d: LogicConceptDiagram, roots: Seq<Seq<char>>, x: Seq<char>) -> bool {
    drawn_interface(d, x) || roots.contains(x)
}

/// The containment lines between two interfaces that are both drawn.
pub open spec fn iface_containment_text(d: LogicConceptDiagram, m: Seq<Seq<char>>, roots: Seq<Seq<char>>) -> Seq<char> {
    concat_map(d.containments@, |c: ElementContainment| text_if(
        is_iface_for(d, roots, c.parent_id@) && is_iface_for(d, roots, c.child_id@)
            && m.contains(c.parent_id@) && m.contains(c.child_id@),
        c.parent_id@ + " *.. "@ + c.child_id@ + "\n\n"@,
    ))
}

/// The lines linking each interface to its provider: the root's interfaces
/// to the system when the system is the root, then each provide relation of
/// a drawn element other than the system.
pub open spec fn provide_text(d: LogicConceptDiagram, m: Seq<Seq<char>>, roots: Seq<Seq<char>>, system_root: bool) -> Seq<char> {
    text_if(system_root, concat_map(roots, |i: Seq<char>| i + " --- "@ + d.system.id@ + "\n"@))
        + concat_map(d.provide_relations@, |r: ProvideRelation| text_if(
            m.contains(r.element_id@) && r.element_id@ != d.system.id@,
            r.interface_id@ + " --- "@ + r.element_id@ + "\n"@,
        ))
}

/// The dependency lines of a module.
pub open spec fn module_deps_text(md: Module) -> Seq<char> {
    concat_map(md.dependencies@, |x: String| md.id@ + " ..> "@ + x@ + "\n"@)
}

/// The dependency lines: the diagram's dependencies from drawn elements,
/// then, for each drawn element that is a module, the interfaces it uses.
pub open spec fn deps_text(d: LogicConceptDiagram, m: Seq<Seq<char>>) -> Seq<char> {
    concat_map(d.dependencies@, |dep: Dependency| text_if(m.contains(dep.from@), dep.from@ + " ..> "@ + dep.to@ + "\n"@))
        + concat_map(m, |e: Seq<char>| match module_of(d, e) {
            Some(md) => module_deps_text(md),
            None => Seq::empty(),
        })
}

/// Writes the containment lines between drawn interfaces.
fn write_iface_containments(out: &mut String, d: &LogicConceptDiagram, members: &Vec<String>, roots: &Vec<String>)
    ensures
        final(out)@ == old(out)@ + iface_containment_text(*d, string_views(members@), string_views(roots@)),
{
    let ghost m = string_views(members@);
    let ghost rs = string_views(roots@);
    let ghost f = |c: ElementContainment| text_if(
        is_iface_for(*d, rs, c.parent_id@) && is_iface_for(*d, rs, c.child_id@)
            && m.contains(c.parent_id@) && m.contains(c.child_id@),
        c.parent_id@ + " *.. "@ + c.child_id@ + "\n\n"@,
    );
    let cs = &d.containments;
    let ghost start = out@;
    let mut j: usize = 0;
    while j < cs.len()
        invariant
            j <= cs.len(),
            cs@ == d.containments@,
            m == string_views(members@),
            rs == string_views(roots@),
            f == (|c: ElementContainment| text_if(
                is_iface_for(*d, rs, c.parent_id@) && is_iface_for(*d, rs, c.child_id@)
                    && m.contains(c.parent_id@) && m.contains(c.child_id@),
                c.parent_id@ + " *.. "@ + c.child_id@ + "\n\n"@,
            )),
            out@ == start + concat_map(cs@.take(j as int), f),
        decreases cs.len() - j,
    {
        proof {
            lemma_concat_map_step(cs@, f, j as int);
        }
        let ghost before = out@;
        let c = &cs[j];
        let pi = is_drawn_interface(d, &c.parent_id) || is_member(roots, &c.parent_id);
        let ci = is_drawn_interface(d, &c.child_id) || is_member(roots, &c.child_id);
        if pi && ci && is_member(members, &c.parent_id) && is_member(members, &c.child_id) {
            out.append(c.parent_id.as_str());
            out.append(" *.. ");
            out.append(c.child_id.as_str());
            out.append("\n\n");
        }
        assert(out@ =~= before + f(cs@[j as int]));
        j = j + 1;
    }
    proof {
        lemma_concat_map_all(cs@, f);
    }
}

/// Writes the lines linking interfaces to their providers.
fn write_provides(out: &mut String, d: &LogicConceptDiagram, members: &Vec<String>, roots: &Vec<String>, system_root: bool)
    ensures
        final(out)@ == old(out)@ + provide_text(*d, string_views(members@), string_views(roots@), system_root),
{
    let ghost m = string_views(members@);
    let ghost rs = string_views(roots@);
    let ghost start = out@;
    let ghost g = |i: Seq<char>| i + " --- "@ + d.system.id@ + "\n"@;
    if system_root {
        let mut k: usize = 0;
        while k < roots.len()
            invariant
                k <= roots.len(),
                rs == string_views(roots@),
                g == (|i: Seq<char>| i + " --- "@ + d.system.id@ + "\n"@),
                out@ == start + concat_map(rs.take(k as int), g),
            decreases roots.len() - k,
        {
            proof {
                lemma_concat_map_step(rs, g, k as int);
            }
            out.append(roots[k].as_str());
            out.append(" --- ");
            out.append(d.system.id.as_str());
            out.append("\n");
            k = k + 1;
        }
        proof {
            lemma_concat_map_all(rs, g);
        }
    }
    assert(out@ =~= start + text_if(system_root, concat_map(rs, g)));
    let ghost mid = out@;
    let ghost f = |r: ProvideRelation| text_if(
        m.contains(r.element_id@) && r.element_id@ != d.system.id@,
        r.interface_id@ + " --- "@ + r.element_id@ + "\n"@,
    );
    let ps = &d.provide_relations;
    let mut j: usize = 0;
    while j < ps.len()
        invariant
            j <= ps.len(),
            ps@ == d.provide_relations@,
            m == string_views(members@),
            f == (|r: ProvideRelation| text_if(
                m.contains(r.element_id@) && r.element_id@ != d.system.id@,
                r.interface_id@ + " --- "@ + r.element_id@ + "\n"@,
            )),
            out@ == mid + concat_map(ps@.take(j as int), f),
        decreases ps.len() - j,
    {
        proof {
            lemma_concat_map_step(ps@, f, j as int);
        }
        let ghost before = out@;
        let r = &ps[j];
        if is_member(members, &r.element_id) && !same_text(&r.element_id, &d.system.id) {
            out.append(r.interface_id.as_str());
            out.append(" --- ");
            out.append(r.element_id.as_str());
            out.append("\n");
        }
        assert(out@ =~= before + f(ps@[j as int]));
        j = j + 1;
    }
    proof {
        lemma_concat_map_all(ps@, f);
    }
}

/// Writes the dependency lines of a module.
fn write_module_deps(out: &mut String, md: &Module)
    ensures
        final(out)@ == old(out)@ + module_deps_text(*md),
{
    let ghost f = |x: String| md.id@ + " ..> "@ + x@ + "\n"@;
    let ghost start = out@;
    let mut k: usize = 0;
    while k < md.dependencies.len()
        invariant
            k <= md.dependencies.len(),
            f == (|x: String| md.id@ + " ..> "@ + x@ + "\n"@),
            out@ == start + concat_map(md.dependencies@.take(k as int), f),
        decreases md.dependencies.len() - k,
    {
        proof {
            lemma_concat_map_step(md.dependencies@, f, k as int);
        }
        out.append(md.id.as_str());
        out.append(" ..> ");
        out.append(md.dependencies[k].as_str());
        out.append("\n");
        k = k + 1;
    }
    proof {
        lemma_concat_map_all(md.dependencies@, f);
    }
}

/// Writes the dependency lines.
fn write_deps(out: &mut String, d: &LogicConceptDiagram, members: &Vec<String>)
    ensures
        final(out)@ == old(out)@ + deps_text(*d, string_views(members@)),
{
    let ghost m = string_views(members@);
    let ghost start = out@;
    let ghost f = |dep: Dependency| text_if(m.contains(dep.from@), dep.from@ + " ..> "@ + dep.to@ + "\n"@);
    let ds = &d.dependencies;
    let mut j: usize = 0;
    while j < ds.len()
        invariant
            j <= ds.len(),
            ds@ == d.dependencies@,
            m == string_views(members@),
            f == (|dep: Dependency| text_if(m.contains(dep.from@), dep.from@ + " ..> "@ + dep.to@ + "\n"@)),
            out@ == start + concat_map(ds@.take(j as int), f),
        decreases ds.len() - j,
    {
        proof {
            lemma_concat_map_step(ds@, f, j as int);
        }
        let ghost before = out@;
        if is_member(members, &ds[j].from) {
            out.append(ds[j].from.as_str());
            out.append(" ..> ");
            out.append(ds[j].to.as_str());
            out.append("\n");
        }
        assert(out@ =~= before + f(ds@[j as int]));
        j = j + 1;
    }
    proof {
        lemma_concat_map_all(ds@, f);
    }
    let ghost mid = out@;
    let ghost g = |e: Seq<char>| match module_of(*d, e) {
        Some(md) => module_deps_text(md),
        None => Seq::<char>::empty(),
    };
    let mut k: usize = 0;
    while k < members.len()
        invariant
            k <= members.len(),
            m == string_views(members@),
            g == (|e: Seq<char>| match module_of(*d, e) {
                Some(md) => module_deps_text(md),
                None => Seq::<char>::empty(),
            }),
            out@ == mid + concat_map(m.take(k as int), g),
        decreases members.len() - k,
    {
        proof {
            lemma_concat_map_step(m, g, k as int);
        }
        let ghost before = out@;
        match find_module(d, &members[k]) {
            Some(md) => write_module_deps(out, md),
            None => {},
        }
        assert(out@ =~= before + g(m[k as int]));
        k = k + 1;
    }
    proof {
        lemma_concat_map_all(m, g);
    }
}

/// `m` with `x` added unless it is there already.
pub open spec fn with(m: Seq<Seq<char>>, x: Seq<char>) -> Seq<Seq<char>> {
    if m.contains(x) { m } else { m.push(x) }
}

/// `acc` with, in order, what `pick` gives for each item added.
pub open spec fn add_each<T>(acc: Seq<Seq<char>>, items: Seq<T>, pick: spec_fn(T) -> Option<Seq<char>>) -> Seq<Seq<char>>
    decreases items.len(),
{
    if items.len() == 0 {
        acc
    } else {
        let a = add_each(acc, items.drop_last(), pick);
        match pick(items.last()) {
            Some(x) => with(a, x),
            None => a,
        }
    }
}

/// One more item added.
proof fn lemma_add_each_step<T>(acc: Seq<Seq<char>>, items: Seq<T>, pick: spec_fn(T) -> Option<Seq<char>>, i: int)
    requires
        0 <= i < items.len(),
    ensures
        add_each(acc, items.take(i + 1), pick) == match pick(items[i]) {
            Some(x) => with(add_each(acc, items.take(i), pick), x),
            None => add_each(acc, items.take(i), pick),
        },
{
    assert(items.take(i + 1).drop_last() =~= items.take(i));
}

/// All items added.
proof fn lemma_add_each_all<T>(acc: Seq<Seq<char>>, items: Seq<T>, pick: spec_fn(T) -> Option<Seq<char>>)
    ensures
        add_each(acc, items.take(items.len() as int), pick) == add_each(acc, items, pick),
{
    assert(items.take(items.len() as int) =~= items);
}

/// Adds `x` to the members unless it is there already.
fn add_member(members: &mut Vec<String>, x: &String)
    ensures
        string_views(final(members)@) == with(string_views(old(members)@), x@),
{
    let ghost before = members@;
    if !is_member(members, x) {
        members.push(to_owned_string(x.as_str()));
        assert(string_views(members@) =~= string_views(before).push(x@));
    }
}

/// The child of a containment whose parent is among `snap`.
pub open spec fn child_of_member(snap: Seq<Seq<char>>) -> spec_fn(ElementContainment) -> Option<Seq<char>> {
    |c: ElementContainment| if snap.contains(c.parent_id@) { Some(c.child_id@) } else { None }
}

/// One round: each child of what the members held before the round is added.
pub open spec fn round(cs: Seq<ElementContainment>, snap: Seq<Seq<char>>) -> Seq<Seq<char>> {
    add_each(snap, cs, child_of_member(snap))
}

/// `r` rounds from `start`.
pub open spec fn rounds(cs: Seq<ElementContainment>, start: Seq<Seq<char>>, r: nat) -> Seq<Seq<char>>
    decreases r,
{
    if r == 0 {
        start
    } else {
        round(cs, rounds(cs, start, (r - 1) as nat))
    }
}

/// The elements of the full diagram: the system, then what containments
/// reach from it, as many rounds as there are containments, each element once.
pub open spec fn full_members(d: LogicConceptDiagram) -> Seq<Seq<char>> {
    rounds(d.containments@, seq![d.system.id@], d.containments@.len())
}

/// Whether the first `n` members, as characters, are `snap`.
pub open spec fn prefix_is(members: Seq<String>, snap: Seq<Seq<char>>) -> bool {
    string_views(members).take(snap.len() as int) == snap && snap.len() <= members.len()
}

/// Adds, in order, each child of a containment whose parent is among `snap`.
fn add_round(members: &mut Vec<String>, cs: &Vec<ElementContainment>)
    ensures
        string_views(final(members)@) == round(cs@, string_views(old(members)@)),
{
    let ghost snap = string_views(members@);
    let n = members.len();
    let ghost pick = child_of_member(snap);
    let mut j: usize = 0;
    while j < cs.len()
        invariant
            j <= cs.len(),
            n == snap.len(),
            pick == child_of_member(snap),
            string_views(members@) == add_each(snap, cs@.take(j as int), pick),
            string_views(members@).take(n as int) == snap,
            n <= members@.len(),
        decreases cs.len() - j,
    {
        proof {
            lemma_add_each_step(snap, cs@, pick, j as int);
        }
        let ghost before = string_views(members@);
        let mut k: usize = 0;
        let mut found = false;
        while k < n
            invariant
                k <= n,
                j < cs@.len(),
                n <= members@.len(),
                string_views(members@) == before,
                before.take(n as int) == snap,
                found == (exists|q: int| 0 <= q < k && snap[q] == cs@[j as int].parent_id@),
            decreases n - k,
        {
            assert(before[k as int] == snap[k as int]);
            assert(members@[k as int]@ == before[k as int]);
            if same_text(&members[k], &cs[j].parent_id) {
                found = true;
            }
            k = k + 1;
        }
        assert(found == snap.contains(cs@[j as int].parent_id@));
        if found {
            add_member(members, &cs[j].child_id);
        }
        assert(string_views(members@).len() == members@.len());
        assert(string_views(members@).take(n as int) =~= snap);
        j = j + 1;
    }
    proof {
        lemma_add_each_all(snap, cs@, pick);
    }
}

/// The elements of the full diagram.
fn collect_full_members(d: &LogicConceptDiagram) -> (r: Vec<String>)
    ensures
        string_views(r@) == full_members(*d),
{
    let mut members: Vec<String> = Vec::new();
    members.push(to_owned_string(d.system.id.as_str()));
    assert(string_views(members@) =~= seq![d.system.id@]);
    let cs = &d.containments;
    let mut r: usize = 0;
    while r < cs.len()
        invariant
            r <= cs.len(),
            cs@ == d.containments@,
            string_views(members@) == rounds(cs@, seq![d.system.id@], r as nat),
        decreases cs.len() - r,
    {
        add_round(&mut members, cs);
        r = r + 1;
    }
    members
}

/// The interfaces that the context diagram's providers named after the system give it, in order.
pub open spec fn provider_ifaces(ps: Seq<InterfaceProvider>, root: Seq<char>) -> Seq<Seq<char>>
    decreases ps.len(),
{
    if ps.len() == 0 {
        Seq::empty()
    } else {
        provider_ifaces(ps.drop_last(), root)
            + if ps.last().system@ == root { string_views(ps.last().interfaces@) } else { Seq::empty() }
    }
}

/// The interfaces drawn outside the root's rectangle: for the system, those
/// that the workspace's context diagram gives it; for another element, the
/// one its first provide relation names.
pub open spec fn root_ifaces(w: Option<&Workspace>, d: LogicConceptDiagram, root: Seq<char>) -> Seq<Seq<char>> {
    if d.system.id@ == root {
        match w {
            Some(ws) => match ws.context_diagram {
                Some(c) => provider_ifaces(c.interface_providers@, root),
                None => Seq::empty(),
            },
            None => Seq::empty(),
        }
    } else {
        match provided(d.provide_relations@, root) {
            Some(i) => seq![i],
            None => Seq::empty(),
        }
    }
}

/// The child of a containment whose parent is `p`.
pub open spec fn child_under(p: Seq<char>) -> spec_fn(ElementContainment) -> Option<Seq<char>> {
    |c: ElementContainment| if c.parent_id@ == p { Some(c.child_id@) } else { None }
}

/// The child of a containment whose parent is `p`, when it is drawn as an interface.
pub open spec fn iface_child_under(d: LogicConceptDiagram, p: Seq<char>) -> spec_fn(ElementContainment) -> Option<Seq<char>> {
    |c: ElementContainment| if c.parent_id@ == p && drawn_interface(d, c.child_id@) { Some(c.child_id@) } else { None }
}

/// Each item itself.
pub open spec fn itself() -> spec_fn(Seq<char>) -> Option<Seq<char>> {
    |x: Seq<char>| Some(x)
}

/// The interface an element provides.
pub open spec fn provided_by(d: LogicConceptDiagram) -> spec_fn(Seq<char>) -> Option<Seq<char>> {
    |e: Seq<char>| provided(d.provide_relations@, e)
}

/// The interfaces contained in each root interface, added in order.
pub open spec fn iface_children(d: LogicConceptDiagram, acc: Seq<Seq<char>>, roots: Seq<Seq<char>>) -> Seq<Seq<char>>
    decreases roots.len(),
{
    if roots.len() == 0 {
        acc
    } else {
        add_each(iface_children(d, acc, roots.drop_last()), d.containments@, iface_child_under(d, roots.last()))
    }
}

/// The elements drawn for a root: the root, its children, its interfaces, the
/// interface each of these provides, and the interfaces its interfaces contain.
pub open spec fn subtree_members(d: LogicConceptDiagram, root: Seq<char>, roots: Seq<Seq<char>>) -> Seq<Seq<char>> {
    let s1 = add_each(seq![root], d.containments@, child_under(root));
    let s2 = add_each(s1, roots, itself());
    let s3 = add_each(s2, s2, provided_by(d));
    iface_children(d, s3, roots)
}

/// The rectangle of the root, by the kind of element it is.
pub open spec fn root_rect_text(d: LogicConceptDiagram, m: Seq<Seq<char>>, root: Seq<char>) -> Seq<char> {
    if d.system.id@ == root {
        rect_text("SYSTEM"@, ChildPart::ElementBox, d, m, root)
    } else if module_of(d, root) is Some {
        module_rect_text(d, m, root)
    } else if component_named(d, root) {
        rect_text("COMPONENT"@, ChildPart::ModuleBox, d, m, root)
    } else if subsystem_named(d, root) {
        rect_text("SUBSYSTEM"@, ChildPart::ComponentBox, d, m, root)
    } else {
        Seq::empty()
    }
}

/// The lines of a root interface drawn outside the rectangle.
pub open spec fn outer_iface_line() -> spec_fn(Seq<char>) -> Seq<char> {
    |i: Seq<char>| "interface "@ + i + "\n"@
}

/// The diagram of one element and its direct children.
pub open spec fn subtree_text(w: Option<&Workspace>, d: LogicConceptDiagram, root: Seq<char>) -> Seq<char> {
    let roots = root_ifaces(w, d, root);
    let m = subtree_members(d, root, roots);
    concat_map(roots, outer_iface_line()) + text_if(roots.len() > 0, "\n"@)
        + root_rect_text(d, m, root)
        + iface_containment_text(d, m, roots)
        + provide_text(d, m, roots, d.system.id@ == root)
        + deps_text(d, m)
}

/// Whether the generator knows an element with ID `id`.
pub open spec fn drawable(d: LogicConceptDiagram, id: Seq<char>) -> bool {
    module_of(d, id) is Some || drawn_interface(d, id) || component_named(d, id) || subsystem_named(d, id)
        || d.system.id@ == id
}

/// The IDs offered when a root is unknown: system-level modules, components,
/// subsystems, then system-level interfaces.
pub open spec fn offered_ids(d: LogicConceptDiagram) -> Seq<Seq<char>> {
    keys(d.system.modules@) + keys(d.system.components@) + keys(d.system.subsystems@) + keys(d.system.interfaces@)
}

/// The lines reporting an unknown root.
pub open spec fn missing_root_text(d: LogicConceptDiagram, root: Seq<char>) -> Seq<char> {
    "' ERROR: Element '"@ + root + "' not found in diagram\n"@
        + "' Available elements: "@ + join(offered_ids(d), ", "@) + "\n"@
}

/// The full diagram: each component, subsystem and system-level module with
/// the children that containments give it, then the relations among what the
/// system reaches.
pub open spec fn full_text(d: LogicConceptDiagram) -> Seq<char> {
    let m = full_members(d);
    component_rects(d, m) + subsystem_rects(d, m) + module_rects(d, m)
        + iface_containment_text(d, m, Seq::empty())
        + provide_text(d, m, Seq::empty(), false)
        + deps_text(d, m)
}

/// The PlantUML text of a logic view: the full diagram, or the diagram of
/// one root element (an error note when the root is unknown).
pub open spec fn logic_concept_plantuml(w: Option<&Workspace>, d: LogicConceptDiagram, root: Option<Seq<char>>) -> Seq<char> {
    "@startuml\n\n"@ + "top to bottom direction\n"@ + "skinparam defaultTextAlignment center\n\n"@
        + match root {
            Some(r) => if drawable(d, r) { subtree_text(w, d, r) } else { missing_root_text(d, r) },
            None => full_text(d),
        }
        + "\n@enduml\n"@
}

/// The interfaces that the providers named `root` give it.
fn provider_interfaces(ps: &Vec<InterfaceProvider>, root: &String, out: &mut Vec<String>)
    ensures
        string_views(final(out)@) == string_views(old(out)@) + provider_ifaces(ps@, root@),
{
    let ghost start = string_views(out@);
    let mut k: usize = 0;
    while k < ps.len()
        invariant
            k <= ps.len(),
            string_views(out@) == start + provider_ifaces(ps@.take(k as int), root@),
        decreases ps.len() - k,
    {
        assert(ps@.take(k + 1).drop_last() =~= ps@.take(k as int));
        let ghost before = string_views(out@);
        if same_text(&ps[k].system, root) {
            let list = &ps[k].interfaces;
            let mut j: usize = 0;
            while j < list.len()
                invariant
                    j <= list.len(),
                    string_views(out@) == before + string_views(list@.take(j as int)),
                decreases list.len() - j,
            {
                let ghost prev = out@;
                out.push(to_owned_string(list[j].as_str()));
                assert(string_views(out@) =~= string_views(prev).push(list@[j as int]@));
                assert(string_views(list@.take(j + 1)) =~= string_views(list@.take(j as int)).push(list@[j as int]@));
                assert(string_views(out@) =~= before + string_views(list@.take(j + 1)));
                j = j + 1;
            }
            assert(list@.take(list.len() as int) =~= list@);
        }
        assert(string_views(out@) =~= start + provider_ifaces(ps@.take(k + 1), root@));
        k = k + 1;
    }
    assert(ps@.take(ps.len() as int) =~= ps@);
}

/// The interfaces drawn outside the root's rectangle.
fn collect_root_interfaces(w: Option<&Workspace>, d: &LogicConceptDiagram, root: &String) -> (r: Vec<String>)
    ensures
        string_views(r@) == root_ifaces(w, *d, root@),
{
    let mut out: Vec<String> = Vec::new();
    assert(string_views(out@) =~= Seq::<Seq<char>>::empty());
    if same_text(&d.system.id, root) {
        match w {
            Some(ws) => match &ws.context_diagram {
                Some(c) => {
                    provider_interfaces(&c.interface_providers, root, &mut out);
                    assert(string_views(out@) =~= provider_ifaces(c.interface_providers@, root@));
                },
                None => {},
            },
            None => {},
        }
    } else {
        match provided_interface(&d.provide_relations, root) {
            Some(i) => {
                out.push(to_owned_string(i.as_str()));
                assert(string_views(out@) =~= seq![i@]);
            },
            None => {},
        }
    }
    out
}

/// Adds each child of `p`.
fn add_children_of(members: &mut Vec<String>, cs: &Vec<ElementContainment>, p: &String)
    ensures
        string_views(final(members)@) == add_each(string_views(old(members)@), cs@, child_under(p@)),
{
    let ghost start = string_views(members@);
    let mut j: usize = 0;
    while j < cs.len()
        invariant
            j <= cs.len(),
            string_views(members@) == add_each(start, cs@.take(j as int), child_under(p@)),
        decreases cs.len() - j,
    {
        proof {
            lemma_add_each_step(start, cs@, child_under(p@), j as int);
        }
        if same_text(&cs[j].parent_id, p) {
            add_member(members, &cs[j].child_id);
        }
        j = j + 1;
    }
    proof {
        lemma_add_each_all(start, cs@, child_under(p@));
    }
}

/// Adds each child of `p` that is drawn as an interface.
fn add_interface_children_of(members: &mut Vec<String>, d: &LogicConceptDiagram, p: &String)
    ensures
        string_views(final(members)@) == add_each(string_views(old(members)@), d.containments@, iface_child_under(*d, p@)),
{
    let ghost start = string_views(members@);
    let cs = &d.containments;
    let mut j: usize = 0;
    while j < cs.len()
        invariant
            j <= cs.len(),
            cs@ == d.containments@,
            string_views(members@) == add_each(start, cs@.take(j as int), iface_child_under(*d, p@)),
        decreases cs.len() - j,
    {
        proof {
            lemma_add_each_step(start, cs@, iface_child_under(*d, p@), j as int);
        }
        if same_text(&cs[j].parent_id, p) && is_drawn_interface(d, &cs[j].child_id) {
            add_member(members, &cs[j].child_id);
        }
        j = j + 1;
    }
    proof {
        lemma_add_each_all(start, cs@, iface_child_under(*d, p@));
    }
}

/// The elements drawn for a root.
fn collect_subtree_members(d: &LogicConceptDiagram, root: &String, roots: &Vec<String>) -> (r: Vec<String>)
    ensures
        string_views(r@) == subtree_members(*d, root@, string_views(roots@)),
{
    let ghost rs = string_views(roots@);
    let mut members: Vec<String> = Vec::new();
    members.push(to_owned_string(root.as_str()));
    assert(string_views(members@) =~= seq![root@]);
    add_children_of(&mut members, &d.containments, root);
    let ghost s1 = string_views(members@);
    let mut k: usize = 0;
    while k < roots.len()
        invariant
            k <= roots.len(),
            rs == string_views(roots@),
            string_views(members@) == add_each(s1, rs.take(k as int), itself()),
        decreases roots.len() - k,
    {
        proof {
            lemma_add_each_step(s1, rs, itself(), k as int);
        }
        add_member(&mut members, &roots[k]);
        k = k + 1;
    }
    proof {
        lemma_add_each_all(s1, rs, itself());
    }
    let ghost s2 = string_views(members@);
    let n = members.len();
    let mut k: usize = 0;
    while k < n
        invariant
            k <= n,
            n == s2.len(),
            n <= members@.len(),
            string_views(members@).take(n as int) == s2,
            string_views(members@) == add_each(s2, s2.take(k as int), provided_by(*d)),
        decreases n - k,
    {
        proof {
            lemma_add_each_step(s2, s2, provided_by(*d), k as int);
        }
        assert(members@[k as int]@ == s2[k as int]);
        let e = to_owned_string(members[k].as_str());
        match provided_interface(&d.provide_relations, &e) {
            Some(i) => add_member(&mut members, i),
            None => {},
        }
        assert(string_views(members@).len() == members@.len());
        assert(string_views(members@).take(n as int) =~= s2);
        k = k + 1;
    }
    proof {
        lemma_add_each_all(s2, s2, provided_by(*d));
    }
    let ghost s3 = string_views(members@);
    let mut k: usize = 0;
    while k < roots.len()
        invariant
            k <= roots.len(),
            rs == string_views(roots@),
            string_views(members@) == iface_children(*d, s3, rs.take(k as int)),
        decreases roots.len() - k,
    {
        assert(rs.take(k + 1).drop_last() =~= rs.take(k as int));
        add_interface_children_of(&mut members, d, &roots[k]);
        k = k + 1;
    }
    assert(rs.take(roots.len() as int) =~= rs);
    members
}

/// Writes the rectangle of the root.
fn write_root_rect(out: &mut String, d: &LogicConceptDiagram, members: &Vec<String>, root: &String)
    ensures
        final(out)@ == old(out)@ + root_rect_text(*d, string_views(members@), root@),
{
    if same_text(&d.system.id, root) {
        write_rect(out, "SYSTEM", ChildPart::ElementBox, d, members, root);
        return;
    }
    match find_module(d, root) {
        Some(_) => {
            write_module_rect(out, d, members, root);
            return;
        },
        None => {},
    }
    if is_component(d, root) {
        write_rect(out, "COMPONENT", ChildPart::ModuleBox, d, members, root);
    } else if contains_key(&d.system.subsystems, root) {
        write_rect(out, "SUBSYSTEM", ChildPart::ComponentBox, d, members, root);
    }
}

/// Writes the root's interfaces drawn outside its rectangle.
fn write_outer_ifaces(out: &mut String, roots: &Vec<String>)
    ensures
        final(out)@ == old(out)@ + concat_map(string_views(roots@), outer_iface_line())
            + text_if(roots@.len() > 0, "\n"@),
{
    let ghost start = out@;
    let ghost rs = string_views(roots@);
    let mut k: usize = 0;
    while k < roots.len()
        invariant
            k <= roots.len(),
            rs == string_views(roots@),
            out@ == start + concat_map(rs.take(k as int), outer_iface_line()),
        decreases roots.len() - k,
    {
        proof {
            lemma_concat_map_step(rs, outer_iface_line(), k as int);
        }
        out.append("interface ");
        out.append(roots[k].as_str());
        out.append("\n");
        k = k + 1;
    }
    proof {
        lemma_concat_map_all(rs, outer_iface_line());
    }
    if roots.len() > 0 {
        out.append("\n");
    }
}

/// Writes the relations drawn below the root's rectangle.
fn write_relations(out: &mut String, d: &LogicConceptDiagram, members: &Vec<String>, roots: &Vec<String>, system_root: bool)
    ensures
        final(out)@ == old(out)@ + iface_containment_text(*d, string_views(members@), string_views(roots@))
            + provide_text(*d, string_views(members@), string_views(roots@), system_root)
            + deps_text(*d, string_views(members@)),
{
    let ghost start = out@;
    write_iface_containments(out, d, members, roots);
    write_provides(out, d, members, roots, system_root);
    write_deps(out, d, members);
    assert(out@ =~= start + iface_containment_text(*d, string_views(members@), string_views(roots@))
        + provide_text(*d, string_views(members@), string_views(roots@), system_root)
        + deps_text(*d, string_views(members@)));
}

/// Writes the diagram of one element and its direct children.
fn write_subtree(out: &mut String, w: Option<&Workspace>, d: &LogicConceptDiagram, root: &String)
    ensures
        final(out)@ == old(out)@ + subtree_text(w, *d, root@),
{
    let ghost start = out@;
    let roots = collect_root_interfaces(w, d, root);
    let members = collect_subtree_members(d, root, &roots);
    write_outer_ifaces(out, &roots);
    write_root_rect(out, d, &members, root);
    let system_root = same_text(&d.system.id, root);
    write_relations(out, d, &members, &roots, system_root);
    assert(out@ =~= start + subtree_text(w, *d, root@));
}

/// Whether the generator knows an element with ID `id`.
fn is_drawable(d: &LogicConceptDiagram, id: &String) -> (r: bool)
    ensures
        r == drawable(*d, id@),
{
    let is_module = match find_module(d, id) {
        Some(_) => true,
        None => false,
    };
    is_module || is_drawn_interface(d, id) || is_component(d, id) || contains_key(&d.system.subsystems, id)
        || same_text(&d.system.id, id)
}

/// Appends the IDs of the items.
fn push_ids<T: Keyed>(out: &mut Vec<String>, items: &Vec<T>)
    ensures
        string_views(final(out)@) == string_views(old(out)@) + keys(items@),
{
    let ghost start = string_views(out@);
    let mut k: usize = 0;
    while k < items.len()
        invariant
            k <= items.len(),
            string_views(out@) == start + keys(items@.take(k as int)),
        decreases items.len() - k,
    {
        let ghost before = string_views(out@);
        let ghost prev = out@;
        out.push(to_owned_string(items[k].key_text().as_str()));
        assert(string_views(out@) =~= string_views(prev).push(items@[k as int].key()));
        assert(keys(items@.take(k + 1)) =~= keys(items@.take(k as int)).push(items@[k as int].key()));
        assert(string_views(out@) =~= start + keys(items@.take(k + 1)));
        k = k + 1;
    }
    assert(items@.take(items.len() as int) =~= items@);
}

/// Writes the lines reporting an unknown root.
fn write_missing_root(out: &mut String, d: &LogicConceptDiagram, root: &String)
    ensures
        final(out)@ == old(out)@ + missing_root_text(*d, root@),
{
    let ghost start = out@;
    let mut ids: Vec<String> = Vec::new();
    assert(string_views(ids@) =~= Seq::<Seq<char>>::empty());
    push_ids(&mut ids, &d.system.modules);
    push_ids(&mut ids, &d.system.components);
    push_ids(&mut ids, &d.system.subsystems);
    push_ids(&mut ids, &d.system.interfaces);
    assert(string_views(ids@) =~= offered_ids(*d));
    out.append("' ERROR: Element '");
    out.append(root.as_str());
    out.append("' not found in diagram\n");
    out.append("' Available elements: ");
    let joined = join_strings(&ids, ", ");
    out.append(joined.as_str());
    out.append("\n");
    assert(out@ =~= start + missing_root_text(*d, root@));
}

/// The rectangles of the system's components.
pub open spec fn component_rects(d: LogicConceptDiagram, m: Seq<Seq<char>>) -> Seq<char> {
    concat_map(d.system.components@, |c: crate::model::logic::concept::Component| rect_text("COMPONENT"@, ChildPart::ModuleBox, d, m, c.id@))
}

/// The rectangles of the subsystems.
pub open spec fn subsystem_rects(d: LogicConceptDiagram, m: Seq<Seq<char>>) -> Seq<char> {
    concat_map(d.system.subsystems@, |s: crate::model::logic::concept::Subsystem| rect_text("SUBSYSTEM"@, ChildPart::ComponentBox, d, m, s.id@))
}

/// The rectangles of the system-level modules.
pub open spec fn module_rects(d: LogicConceptDiagram, m: Seq<Seq<char>>) -> Seq<char> {
    concat_map(d.system.modules@, |md: Module| module_rect_text(d, m, md.id@))
}

/// Writes the rectangles of the system's components.
fn write_component_rects(out: &mut String, d: &LogicConceptDiagram, members: &Vec<String>)
    ensures
        final(out)@ == old(out)@ + component_rects(*d, string_views(members@)),
{
    let ghost start = out@;
    let ghost m = string_views(members@);
    let comps = &d.system.components;
    let ghost f = |c: crate::model::logic::concept::Component| rect_text("COMPONENT"@, ChildPart::ModuleBox, *d, m, c.id@);
    let mut k: usize = 0;
    while k < comps.len()
        invariant
            k <= comps.len(),
            comps@ == d.system.components@,
            m == string_views(members@),
            f == (|c: crate::model::logic::concept::Component| rect_text("COMPONENT"@, ChildPart::ModuleBox, *d, m, c.id@)),
            out@ == start + concat_map(comps@.take(k as int), f),
        decreases comps.len() - k,
    {
        proof {
            lemma_concat_map_step(comps@, f, k as int);
        }
        write_rect(out, "COMPONENT", ChildPart::ModuleBox, d, members, &comps[k].id);
        k = k + 1;
    }
    proof {
        lemma_concat_map_all(comps@, f);
    }
}

/// Writes the rectangles of the subsystems.
fn write_subsystem_rects(out: &mut String, d: &LogicConceptDiagram, members: &Vec<String>)
    ensures
        final(out)@ == old(out)@ + subsystem_rects(*d, string_views(members@)),
{
    let ghost s1 = out@;
    let ghost m = string_views(members@);
    let subs = &d.system.subsystems;
    let ghost g = |s: crate::model::logic::concept::Subsystem| rect_text("SUBSYSTEM"@, ChildPart::ComponentBox, *d, m, s.id@);
    let mut k: usize = 0;
    while k < subs.len()
        invariant
            k <= subs.len(),
            subs@ == d.system.subsystems@,
            m == string_views(members@),
            g == (|s: crate::model::logic::concept::Subsystem| rect_text("SUBSYSTEM"@, ChildPart::ComponentBox, *d, m, s.id@)),
            out@ == s1 + concat_map(subs@.take(k as int), g),
        decreases subs.len() - k,
    {
        proof {
            lemma_concat_map_step(subs@, g, k as int);
        }
        write_rect(out, "SUBSYSTEM", ChildPart::ComponentBox, d, members, &subs[k].id);
        k = k + 1;
    }
    proof {
        lemma_concat_map_all(subs@, g);
    }
}

/// Writes the rectangles of the system-level modules.
fn write_module_rects(out: &mut String, d: &LogicConceptDiagram, members: &Vec<String>)
    ensures
        final(out)@ == old(out)@ + module_rects(*d, string_views(members@)),
{
    let ghost s2 = out@;
    let ghost m = string_views(members@);
    let mods = &d.system.modules;
    let ghost h = |md: Module| module_rect_text(*d, m, md.id@);
    let mut k: usize = 0;
    while k < mods.len()
        invariant
            k <= mods.len(),
            mods@ == d.system.modules@,
            m == string_views(members@),
            h == (|md: Module| module_rect_text(*d, m, md.id@)),
            out@ == s2 + concat_map(mods@.take(k as int), h),
        decreases mods.len() - k,
    {
        proof {
            lemma_concat_map_step(mods@, h, k as int);
        }
        write_module_rect(out, d, members, &mods[k].id);
        k = k + 1;
    }
    proof {
        lemma_concat_map_all(mods@, h);
    }
}

/// Writes the full diagram.
fn write_full(out: &mut String, d: &LogicConceptDiagram)
    ensures
        final(out)@ == old(out)@ + full_text(*d),
{
    let ghost start = out@;
    let members = collect_full_members(d);
    write_component_rects(out, d, &members);
    write_subsystem_rects(out, d, &members);
    write_module_rects(out, d, &members);
    let none: Vec<String> = Vec::new();
    assert(string_views(none@) =~= Seq::<Seq<char>>::empty());
    write_iface_containments(out, d, &members, &none);
    write_provides(out, d, &members, &none, false);
    write_deps(out, d, &members);
    assert(out@ =~= start + full_text(*d));
}

/// Generates the PlantUML text of a logic view, with access to the workspace
/// for the interfaces its context diagram gives the system: the full diagram,
/// or, for a root element, that element with its direct children.
pub fn generate_logic_concept_plantuml_with_workspace(
    workspace: Option<&Workspace>,
    diagram: &LogicConceptDiagram,
    root: Option<&str>,
) -> (r: String)
    ensures
        r@ == logic_concept_plantuml(workspace, *diagram, opt_str_view(root)),
{
    let mut out = String::new();
    out.append("@startuml\n\n");
    out.append("top to bottom direction\n");
    out.append("skinparam defaultTextAlignment center\n\n");
    let ghost head = out@;
    match root {
        Some(r) => {
            let key = to_owned_string(r);
            if is_drawable(diagram, &key) {
                write_subtree(&mut out, workspace, diagram, &key);
            } else {
                write_missing_root(&mut out, diagram, &key);
            }
        },
        None => write_full(&mut out, diagram),
    }
    out.append("\n@enduml\n");
    out
}

/// Generates the PlantUML text of a logic view, or of one root element of it.
pub fn generate_logic_concept_plantuml_with_root(diagram: &LogicConceptDiagram, root: Option<&str>) -> (r: String)
    ensures
        r@ == logic_concept_plantuml(None, *diagram, opt_str_view(root)),
{
    generate_logic_concept_plantuml_with_workspace(None, diagram, root)
}

/// Generates the PlantUML text of a whole logic view.
pub fn generate_logic_concept_plantuml(diagram: &LogicConceptDiagram) -> (r: String)
    ensures
        r@ == logic_concept_plantuml(None, *diagram, None),
{
    generate_logic_concept_plantuml_with_root(diagram, None)
}

} // verus!
