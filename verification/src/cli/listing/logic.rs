use vstd::prelude::*;
use crate::cli::args::LogicListElement;
use crate::cli::report::{Tone, Line, LineView, report_view, p, plain_line, lines_for, lines_if, lemma_lines_for_step,
    lemma_lines_for_all, emit, emit_plain};
use crate::cli::listing::context::{head_line, field_line, opt_field, entry_line, titled, emit_head, emit_field,
    emit_opt_field, emit_entry, emit_title, first_with};
use crate::store::logic_operations::{component_site, component_at, locate_component, component_ref};
use crate::utils::error::{AppError, ErrorKind, Result, fails_with};
use crate::utils::keyed::{has_key, position_of, lemma_first_key_unique};
use crate::utils::text::{decimal, decimal_string, same_text, to_owned_string, copy_string};
use crate::model::logic::concept::{LogicConceptDiagram, Component, Subsystem, Module, Interface};
use crate::utils::keyed::keys;
use crate::utils::text::{concat2, join, join_strings, string_views};

verus! {

/// A module's listing line and those of the modules nested in it, each one
/// level further in, with the dotted path from the component.
pub open spec fn module_lines(m: Module, indent: Seq<char>, path: Seq<char>) -> Seq<LineView>
    decreases m,
{
    let np = path + "."@ + m.id@;
    seq![seq![p(indent), p("- "@), p(m.id@), p(" ("@), p(m.name@), p(") ["@), p(np), p("]"@)]]
        + module_list_lines(m.modules@, "  "@ + indent, np)
}

/// The listing lines of a list of modules.
pub open spec fn module_list_lines(l: Seq<Module>, indent: Seq<char>, path: Seq<char>) -> Seq<LineView>
    decreases l,
{
    if l.len() == 0 {
        Seq::empty()
    } else {
        module_list_lines(l.drop_last(), indent, path) + module_lines(l.last(), indent, path)
    }
}

/// A module's dependency lines, then those of the modules nested in it.
pub open spec fn dep_lines(m: Module) -> Seq<LineView>
    decreases m,
{
    lines_for(m.dependencies@, |x: String| seq![seq![p("  "@), p("- "@), p(m.id@), p(" -> "@), p(x@)]])
        + dep_list_lines(m.modules@)
}

/// The dependency lines of a list of modules.
pub open spec fn dep_list_lines(l: Seq<Module>) -> Seq<LineView>
    decreases l,
{
    if l.len() == 0 {
        Seq::empty()
    } else {
        dep_list_lines(l.drop_last()) + dep_lines(l.last())
    }
}

/// The interfaces a module defines, then those of the modules nested in it.
pub open spec fn tree_interfaces(m: Module) -> Seq<Interface>
    decreases m,
{
    m.interfaces@ + forest_interfaces(m.modules@)
}

/// The interfaces defined in a list of modules.
pub open spec fn forest_interfaces(l: Seq<Module>) -> Seq<Interface>
    decreases l,
{
    if l.len() == 0 {
        Seq::empty()
    } else {
        forest_interfaces(l.drop_last()) + tree_interfaces(l.last())
    }
}

/// The interfaces defined in the modules of some components.
pub open spec fn component_interfaces(c: Seq<Component>) -> Seq<Interface>
    decreases c.len(),
{
    if c.len() == 0 {
        Seq::empty()
    } else {
        component_interfaces(c.drop_last()) + forest_interfaces(c.last().modules@)
    }
}

/// The interfaces defined in the modules of the components of some subsystems.
pub open spec fn subsystem_interfaces(s: Seq<Subsystem>) -> Seq<Interface>
    decreases s.len(),
{
    if s.len() == 0 {
        Seq::empty()
    } else {
        subsystem_interfaces(s.drop_last()) + component_interfaces(s.last().components@)
    }
}

/// Every interface of the logic view: the system's own, then those of the
/// system's modules, of its components' modules and of its subsystems'
/// components' modules, each module before the modules nested in it.
pub open spec fn all_interfaces(d: LogicConceptDiagram) -> Seq<Interface> {
    d.system.interfaces@ + forest_interfaces(d.system.modules@) + component_interfaces(d.system.components@)
        + subsystem_interfaces(d.system.subsystems@)
}

/// The listing line of an interface.
pub open spec fn interface_entry() -> spec_fn(Interface) -> Seq<LineView> {
    |i: Interface| seq![entry_line("  "@, i.id@, i.name@)]
}

/// The listing lines of a component of the system.
pub open spec fn component_entry() -> spec_fn(Component) -> Seq<LineView> {
    |c: Component| seq![entry_line("  "@, c.id@, c.name@)]
        + lines_if(c.modules@.len() > 0, seq![field_line("    Modules: "@, join(keys(c.modules@), ", "@))])
}

/// The listing lines of the components of a subsystem.
pub open spec fn subsystem_component_entries() -> spec_fn(Subsystem) -> Seq<LineView> {
    |s: Subsystem| lines_if(s.components@.len() > 0,
        seq![seq![(Tone::Label, "Components"@), p(" (in subsystem "@), p(s.id@), p("):"@)]]
            + lines_for(s.components@, |c: Component| seq![entry_line("  "@, c.id@, c.name@)]))
}

/// The module lines of each component of the system.
pub open spec fn component_module_lines() -> spec_fn(Component) -> Seq<LineView> {
    |c: Component| module_list_lines(c.modules@, "  "@, c.id@)
}

/// The dependency lines of each component of the system.
pub open spec fn component_dep_lines() -> spec_fn(Component) -> Seq<LineView> {
    |c: Component| dep_list_lines(c.modules@)
}

/// The lines a list of the logic view prints.
pub open spec fn logic_list(d: LogicConceptDiagram, element: LogicListElement) -> Seq<LineView> {
    let sys = d.system;
    match element {
        LogicListElement::System => seq![head_line("System"@, sys.id@), field_line("  Name: "@, sys.name@)]
            + opt_field("  Description: "@, sys.description),
        LogicListElement::Subsystems => titled("Subsystems:"@, sys.subsystems@.len() == 0,
            lines_for(sys.subsystems@, |s: Subsystem| seq![entry_line("  "@, s.id@, s.name@)]
                + opt_field("    Description: "@, s.description))),
        LogicListElement::Components => titled("Components (in system):"@, sys.components@.len() == 0,
            lines_for(sys.components@, component_entry()))
            + lines_for(sys.subsystems@, subsystem_component_entries()),
        LogicListElement::Modules => {
            let body = lines_for(sys.components@, component_module_lines());
            titled("Modules:"@, body.len() == 0, body)
        },
        LogicListElement::Interfaces => {
            let body = lines_for(all_interfaces(d), interface_entry());
            titled("Interfaces:"@, body.len() == 0, body)
        },
        LogicListElement::Dependencies => {
            let body = lines_for(sys.components@, component_dep_lines());
            titled("Dependencies:"@, body.len() == 0, body)
        },
    }
}

/// Lines for two sequences are the lines for the first, then for the second.
pub proof fn lemma_lines_for_append<T>(a: Seq<T>, b: Seq<T>, f: spec_fn(T) -> Seq<LineView>)
    ensures
        lines_for(a + b, f) == lines_for(a, f) + lines_for(b, f),
    decreases b.len(),
{
    if b.len() == 0 {
        assert(a + b =~= a);
    } else {
        lemma_lines_for_append(a, b.drop_last(), f);
        assert((a + b).drop_last() =~= a + b.drop_last());
    }
}

/// Writes a module's listing line and those of the modules nested in it.
fn write_module_lines(out: &mut Vec<Line>, m: &Module, indent: &str, path: &str)
    ensures
        report_view(final(out)@) == report_view(old(out)@) + module_lines(*m, indent@, path@),
    decreases m,
{
    let ghost start = report_view(out@);
    let np = crate::utils::text::concat3(path, ".", m.id.as_str());
    let mut l = Line::new();
    l.plain(indent);
    l.plain("- ");
    l.plain(m.id.as_str());
    l.plain(" (");
    l.plain(m.name.as_str());
    l.plain(") [");
    l.plain(np.as_str());
    l.plain("]");
    assert(l@ =~= seq![p(indent@), p("- "@), p(m.id@), p(" ("@), p(m.name@), p(") ["@), p(np@), p("]"@)]);
    emit(out, l);
    let deeper = concat2("  ", indent);
    write_module_list_lines(out, &m.modules, deeper.as_str(), np.as_str());
    assert(report_view(out@) =~= start + module_lines(*m, indent@, path@));
}

/// Writes the listing lines of a list of modules.
fn write_module_list_lines(out: &mut Vec<Line>, l: &Vec<Module>, indent: &str, path: &str)
    ensures
        report_view(final(out)@) == report_view(old(out)@) + module_list_lines(l@, indent@, path@),
    decreases l,
{
    let ghost start = report_view(out@);
    let mut k: usize = 0;
    while k < l.len()
        invariant
            k <= l.len(),
            report_view(out@) == start + module_list_lines(l@.take(k as int), indent@, path@),
        decreases l.len() - k,
    {
        assert(l@.take(k + 1).drop_last() =~= l@.take(k as int));
        proof {
            assert(decreases_to!(*l => l@[k as int]));
        }
        write_module_lines(out, &l[k], indent, path);
        assert(start + module_list_lines(l@.take(k + 1), indent@, path@)
            =~= start + module_list_lines(l@.take(k as int), indent@, path@) + module_lines(l@[k as int], indent@, path@));
        k = k + 1;
    }
    assert(l@.take(l@.len() as int) =~= l@);
}

/// Writes a module's dependency lines, then those of the modules nested in it.
fn write_dep_lines(out: &mut Vec<Line>, m: &Module)
    ensures
        report_view(final(out)@) == report_view(old(out)@) + dep_lines(*m),
    decreases m,
{
    let ghost start = report_view(out@);
    let ghost f = |x: String| seq![seq![p("  "@), p("- "@), p(m.id@), p(" -> "@), p(x@)]];
    let mut k: usize = 0;
    while k < m.dependencies.len()
        invariant
            k <= m.dependencies.len(),
            f == (|x: String| seq![seq![p("  "@), p("- "@), p(m.id@), p(" -> "@), p(x@)]]),
            report_view(out@) == start + lines_for(m.dependencies@.take(k as int), f),
        decreases m.dependencies.len() - k,
    {
        proof {
            lemma_lines_for_step(m.dependencies@, f, k as int);
        }
        let mut l = Line::new();
        l.plain("  ");
        l.plain("- ");
        l.plain(m.id.as_str());
        l.plain(" -> ");
        l.plain(m.dependencies[k].as_str());
        assert(l@ =~= seq![p("  "@), p("- "@), p(m.id@), p(" -> "@), p(m.dependencies@[k as int]@)]);
        let ghost before = report_view(out@);
        emit(out, l);
        assert(report_view(out@) =~= before + f(m.dependencies@[k as int]));
        k = k + 1;
    }
    proof {
        lemma_lines_for_all(m.dependencies@, f);
    }
    write_dep_list_lines(out, &m.modules);
    assert(report_view(out@) =~= start + dep_lines(*m));
}

/// Writes the dependency lines of a list of modules.
fn write_dep_list_lines(out: &mut Vec<Line>, l: &Vec<Module>)
    ensures
        report_view(final(out)@) == report_view(old(out)@) + dep_list_lines(l@),
    decreases l,
{
    let ghost start = report_view(out@);
    let mut k: usize = 0;
    while k < l.len()
        invariant
            k <= l.len(),
            report_view(out@) == start + dep_list_lines(l@.take(k as int)),
        decreases l.len() - k,
    {
        assert(l@.take(k + 1).drop_last() =~= l@.take(k as int));
        proof {
            assert(decreases_to!(*l => l@[k as int]));
        }
        write_dep_lines(out, &l[k]);
        assert(start + dep_list_lines(l@.take(k + 1)) =~= start + dep_list_lines(l@.take(k as int)) + dep_lines(l@[k as int]));
        k = k + 1;
    }
    assert(l@.take(l@.len() as int) =~= l@);
}

/// Writes the listing lines of some interfaces.
fn write_interface_entries(out: &mut Vec<Line>, items: &Vec<Interface>)
    ensures
        report_view(final(out)@) == report_view(old(out)@) + lines_for(items@, interface_entry()),
{
    let ghost start = report_view(out@);
    let mut k: usize = 0;
    while k < items.len()
        invariant
            k <= items.len(),
            report_view(out@) == start + lines_for(items@.take(k as int), interface_entry()),
        decreases items.len() - k,
    {
        proof {
            lemma_lines_for_step(items@, interface_entry(), k as int);
        }
        let ghost before = report_view(out@);
        emit_entry(out, "  ", items[k].id.as_str(), items[k].name.as_str());
        assert(report_view(out@) =~= before + interface_entry()(items@[k as int]));
        k = k + 1;
    }
    proof {
        lemma_lines_for_all(items@, interface_entry());
    }
}

/// Writes the listing lines of the interfaces of a module tree.
fn write_tree_interfaces(out: &mut Vec<Line>, m: &Module)
    ensures
        report_view(final(out)@) == report_view(old(out)@) + lines_for(tree_interfaces(*m), interface_entry()),
    decreases m,
{
    let ghost start = report_view(out@);
    write_interface_entries(out, &m.interfaces);
    write_forest_interfaces(out, &m.modules);
    proof {
        lemma_lines_for_append(m.interfaces@, forest_interfaces(m.modules@), interface_entry());
    }
}

/// Writes the listing lines of the interfaces of a list of module trees.
fn write_forest_interfaces(out: &mut Vec<Line>, l: &Vec<Module>)
    ensures
        report_view(final(out)@) == report_view(old(out)@) + lines_for(forest_interfaces(l@), interface_entry()),
    decreases l,
{
    let ghost start = report_view(out@);
    let mut k: usize = 0;
    while k < l.len()
        invariant
            k <= l.len(),
            report_view(out@) == start + lines_for(forest_interfaces(l@.take(k as int)), interface_entry()),
        decreases l.len() - k,
    {
        assert(l@.take(k + 1).drop_last() =~= l@.take(k as int));
        proof {
            assert(decreases_to!(*l => l@[k as int]));
            lemma_lines_for_append(forest_interfaces(l@.take(k as int)), tree_interfaces(l@[k as int]), interface_entry());
        }
        write_tree_interfaces(out, &l[k]);
        k = k + 1;
    }
    assert(l@.take(l@.len() as int) =~= l@);
}

/// Writes the listing lines of the interfaces of some components' modules.
fn write_component_interfaces(out: &mut Vec<Line>, c: &Vec<Component>)
    ensures
        report_view(final(out)@) == report_view(old(out)@) + lines_for(component_interfaces(c@), interface_entry()),
{
    let ghost start = report_view(out@);
    let mut k: usize = 0;
    while k < c.len()
        invariant
            k <= c.len(),
            report_view(out@) == start + lines_for(component_interfaces(c@.take(k as int)), interface_entry()),
        decreases c.len() - k,
    {
        assert(c@.take(k + 1).drop_last() =~= c@.take(k as int));
        proof {
            lemma_lines_for_append(component_interfaces(c@.take(k as int)), forest_interfaces(c@[k as int].modules@), interface_entry());
        }
        write_forest_interfaces(out, &c[k].modules);
        k = k + 1;
    }
    assert(c@.take(c@.len() as int) =~= c@);
}

/// Writes the listing lines of every interface of the logic view.
fn write_all_interfaces(out: &mut Vec<Line>, d: &LogicConceptDiagram)
    ensures
        report_view(final(out)@) == report_view(old(out)@) + lines_for(all_interfaces(*d), interface_entry()),
{
    let ghost start = report_view(out@);
    let sys = &d.system;
    write_interface_entries(out, &sys.interfaces);
    write_forest_interfaces(out, &sys.modules);
    write_component_interfaces(out, &sys.components);
    let ghost mid = report_view(out@);
    let s = &sys.subsystems;
    let mut k: usize = 0;
    while k < s.len()
        invariant
            k <= s.len(),
            report_view(out@) == mid + lines_for(subsystem_interfaces(s@.take(k as int)), interface_entry()),
        decreases s.len() - k,
    {
        assert(s@.take(k + 1).drop_last() =~= s@.take(k as int));
        proof {
            lemma_lines_for_append(subsystem_interfaces(s@.take(k as int)), component_interfaces(s@[k as int].components@), interface_entry());
        }
        write_component_interfaces(out, &s[k].components);
        k = k + 1;
    }
    assert(s@.take(s@.len() as int) =~= s@);
    proof {
        let f = interface_entry();
        let a = sys.interfaces@;
        let b = forest_interfaces(sys.modules@);
        let c = component_interfaces(sys.components@);
        let e = subsystem_interfaces(sys.subsystems@);
        lemma_lines_for_append(a, b, f);
        lemma_lines_for_append(a + b, c, f);
        lemma_lines_for_append(a + b + c, e, f);
    }
    assert(report_view(out@) =~= start + lines_for(all_interfaces(*d), interface_entry()));
}

/// Appends a section: its title, then `(none)` when the body is empty, else the body.
fn append_titled(out: &mut Vec<Line>, title: &str, body: Vec<Line>)
    ensures
        report_view(final(out)@) == report_view(old(out)@) + titled(title@, body@.len() == 0, report_view(body@)),
{
    let ghost start = report_view(out@);
    emit_title(out, Tone::Label, title);
    if body.len() == 0 {
        emit_plain(out, "  (none)");
    } else {
        let ghost a = out@;
        let ghost b = body@;
        let mut body = body;
        out.append(&mut body);
        assert(report_view(a + b) =~= report_view(a) + report_view(b));
    }
    assert(report_view(out@) =~= start + titled(title@, body@.len() == 0, report_view(body@)));
}

/// The IDs of some modules, joined with `, `.
fn module_ids_text(l: &Vec<Module>) -> (r: String)
    ensures
        r@ == join(keys(l@), ", "@),
{
    let mut ids: Vec<String> = Vec::new();
    let mut k: usize = 0;
    while k < l.len()
        invariant
            k <= l.len(),
            string_views(ids@) == keys(l@.take(k as int)),
        decreases l.len() - k,
    {
        let ghost prev = ids@;
        ids.push(crate::utils::text::copy_string(&l[k].id));
        assert(string_views(ids@) =~= string_views(prev).push(l@[k as int].id@));
        assert(keys(l@.take(k + 1)) =~= keys(l@.take(k as int)).push(l@[k as int].id@));
        k = k + 1;
    }
    assert(l@.take(l@.len() as int) =~= l@);
    join_strings(&ids, ", ")
}

/// Writes the lines for each component of the system.
fn write_component_entries(out: &mut Vec<Line>, c: &Vec<Component>)
    ensures
        report_view(final(out)@) == report_view(old(out)@) + lines_for(c@, component_entry()),
{
    let ghost start = report_view(out@);
    let mut k: usize = 0;
    while k < c.len()
        invariant
            k <= c.len(),
            report_view(out@) == start + lines_for(c@.take(k as int), component_entry()),
        decreases c.len() - k,
    {
        proof {
            lemma_lines_for_step(c@, component_entry(), k as int);
        }
        let ghost before = report_view(out@);
        emit_entry(out, "  ", c[k].id.as_str(), c[k].name.as_str());
        if c[k].modules.len() > 0 {
            let ids = module_ids_text(&c[k].modules);
            emit_field(out, "    Modules: ", ids.as_str());
        }
        assert(report_view(out@) =~= before + component_entry()(c@[k as int]));
        k = k + 1;
    }
    proof {
        lemma_lines_for_all(c@, component_entry());
    }
}

/// Writes the component lines of each subsystem that holds components.
fn write_subsystem_component_entries(out: &mut Vec<Line>, s: &Vec<Subsystem>)
    ensures
        report_view(final(out)@) == report_view(old(out)@) + lines_for(s@, subsystem_component_entries()),
{
    let ghost start = report_view(out@);
    let mut k: usize = 0;
    while k < s.len()
        invariant
            k <= s.len(),
            report_view(out@) == start + lines_for(s@.take(k as int), subsystem_component_entries()),
        decreases s.len() - k,
    {
        proof {
            lemma_lines_for_step(s@, subsystem_component_entries(), k as int);
        }
        let ghost before = report_view(out@);
        let sub = &s[k];
        if sub.components.len() > 0 {
            let mut l = Line::new();
            l.add(Tone::Label, "Components");
            l.plain(" (in subsystem ");
            l.plain(sub.id.as_str());
            l.plain("):");
            assert(l@ =~= seq![(Tone::Label, "Components"@), p(" (in subsystem "@), p(sub.id@), p("):"@)]);
            emit(out, l);
            let ghost mid = report_view(out@);
            let ghost f = |c: Component| seq![entry_line("  "@, c.id@, c.name@)];
            let mut j: usize = 0;
            while j < sub.components.len()
                invariant
                    j <= sub.components.len(),
                    f == (|c: Component| seq![entry_line("  "@, c.id@, c.name@)]),
                    report_view(out@) == mid + lines_for(sub.components@.take(j as int), f),
                decreases sub.components.len() - j,
            {
                proof {
                    lemma_lines_for_step(sub.components@, f, j as int);
                }
                emit_entry(out, "  ", sub.components[j].id.as_str(), sub.components[j].name.as_str());
                j = j + 1;
            }
            proof {
                lemma_lines_for_all(sub.components@, f);
            }
        }
        assert(report_view(out@) =~= before + subsystem_component_entries()(s@[k as int]));
        k = k + 1;
    }
    proof {
        lemma_lines_for_all(s@, subsystem_component_entries());
    }
}

/// The module lines, or the dependency lines, of each component of the system.
fn component_lines(c: &Vec<Component>, deps: bool) -> (r: Vec<Line>)
    ensures
        report_view(r@) == lines_for(c@, if deps { component_dep_lines() } else { component_module_lines() }),
{
    let ghost f = if deps { component_dep_lines() } else { component_module_lines() };
    let mut out: Vec<Line> = Vec::new();
    assert(report_view(out@) =~= Seq::<LineView>::empty());
    let mut k: usize = 0;
    while k < c.len()
        invariant
            k <= c.len(),
            f == (if deps { component_dep_lines() } else { component_module_lines() }),
            report_view(out@) == lines_for(c@.take(k as int), f),
        decreases c.len() - k,
    {
        proof {
            lemma_lines_for_step(c@, f, k as int);
        }
        if deps {
            write_dep_list_lines(&mut out, &c[k].modules);
        } else {
            write_module_list_lines(&mut out, &c[k].modules, "  ", c[k].id.as_str());
        }
        k = k + 1;
    }
    proof {
        lemma_lines_for_all(c@, f);
    }
    out
}

/// The lines that listing the given elements of a logic view prints.
pub fn list_logic(d: &LogicConceptDiagram, element: LogicListElement) -> (r: Vec<Line>)
    ensures
        report_view(r@) == logic_list(*d, element),
{
    let mut out: Vec<Line> = Vec::new();
    assert(report_view(out@) =~= Seq::<LineView>::empty());
    let sys = &d.system;
    match element {
        LogicListElement::System => {
            emit_head(&mut out, "System", sys.id.as_str());
            emit_field(&mut out, "  Name: ", sys.name.as_str());
            emit_opt_field(&mut out, "  Description: ", &sys.description);
        },
        LogicListElement::Subsystems => {
            let mut body: Vec<Line> = Vec::new();
            assert(report_view(body@) =~= Seq::<LineView>::empty());
            let ghost f = |s: Subsystem| seq![entry_line("  "@, s.id@, s.name@)] + opt_field("    Description: "@, s.description);
            let mut k: usize = 0;
            while k < sys.subsystems.len()
                invariant
                    k <= sys.subsystems.len(),
                    f == (|s: Subsystem| seq![entry_line("  "@, s.id@, s.name@)] + opt_field("    Description: "@, s.description)),
                    report_view(body@) == lines_for(sys.subsystems@.take(k as int), f),
                decreases sys.subsystems.len() - k,
            {
                proof {
                    lemma_lines_for_step(sys.subsystems@, f, k as int);
                }
                let ghost before = report_view(body@);
                emit_entry(&mut body, "  ", sys.subsystems[k].id.as_str(), sys.subsystems[k].name.as_str());
                emit_opt_field(&mut body, "    Description: ", &sys.subsystems[k].description);
                assert(report_view(body@) =~= before + f(sys.subsystems@[k as int]));
                k = k + 1;
            }
            proof {
                lemma_lines_for_all(sys.subsystems@, f);
            }
            assert(body@.len() == 0 <==> sys.subsystems@.len() == 0) by {
                if sys.subsystems@.len() > 0 {
                    lemma_lines_for_step(sys.subsystems@, f, 0);
                    assert(sys.subsystems@.take(0) =~= Seq::<Subsystem>::empty());
                    lemma_lines_for_prefix_len(sys.subsystems@, f, 1);
                }
            }
            append_titled(&mut out, "Subsystems:", body);
        },
        LogicListElement::Components => {
            emit_title(&mut out, Tone::Label, "Components (in system):");
            if sys.components.len() == 0 {
                emit_plain(&mut out, "  (none)");
            } else {
                write_component_entries(&mut out, &sys.components);
            }
            write_subsystem_component_entries(&mut out, &sys.subsystems);
        },
        LogicListElement::Modules => {
            let body = component_lines(&sys.components, false);
            append_titled(&mut out, "Modules:", body);
        },
        LogicListElement::Interfaces => {
            let mut body: Vec<Line> = Vec::new();
            assert(report_view(body@) =~= Seq::<LineView>::empty());
            write_all_interfaces(&mut body, d);
            append_titled(&mut out, "Interfaces:", body);
        },
        LogicListElement::Dependencies => {
            let body = component_lines(&sys.components, true);
            append_titled(&mut out, "Dependencies:", body);
        },
    }
    out
}

/// Lines for a prefix come before the lines for the rest: their number never shrinks.
proof fn lemma_lines_for_prefix_len<T>(items: Seq<T>, f: spec_fn(T) -> Seq<LineView>, n: int)
    requires
        0 <= n <= items.len(),
    ensures
        lines_for(items.take(n), f).len() <= lines_for(items, f).len(),
    decreases items.len() - n,
{
    if n < items.len() {
        lemma_lines_for_step(items, f, n);
        lemma_lines_for_prefix_len(items, f, n + 1);
    } else {
        assert(items.take(n) =~= items);
    }
}

/// The first interface with ID `id`.
pub open spec fn first_interface(s: Seq<Interface>, id: Seq<char>) -> Option<Interface>
    decreases s.len(),
{
    if s.len() == 0 {
        None
    } else if s[0].id@ == id {
        Some(s[0])
    } else {
        first_interface(s.drop_first(), id)
    }
}

/// Searching two sequences is searching the first, then the second.
proof fn lemma_first_interface_append(a: Seq<Interface>, b: Seq<Interface>, id: Seq<char>)
    ensures
        first_interface(a + b, id) == match first_interface(a, id) {
            Some(x) => Some(x),
            None => first_interface(b, id),
        },
    decreases a.len(),
{
    if a.len() == 0 {
        assert(a + b =~= b);
    } else {
        assert((a + b)[0] == a[0]);
        assert((a + b).drop_first() =~= a.drop_first() + b);
        lemma_first_interface_append(a.drop_first(), b, id);
    }
}

/// The lines showing a module and the modules nested in it.
pub open spec fn module_show(m: Module, indent: Seq<char>) -> Seq<LineView>
    decreases m,
{
    seq![seq![p(indent), p("- "@), p(m.id@), p(" ("@), p(m.name@), p(")"@)]]
        + lines_if(m.interfaces@.len() > 0, seq![seq![p(indent), p("  Interfaces: "@), p(join(keys(m.interfaces@), ", "@))]])
        + lines_if(m.dependencies@.len() > 0,
            seq![seq![p(indent), p("  Dependencies: "@), p(join(string_views(m.dependencies@), ", "@))]])
        + module_list_show(m.modules@, indent + "  "@)
}

/// The lines showing a list of modules.
pub open spec fn module_list_show(l: Seq<Module>, indent: Seq<char>) -> Seq<LineView>
    decreases l,
{
    if l.len() == 0 {
        Seq::empty()
    } else {
        module_list_show(l.drop_last(), indent) + module_show(l.last(), indent)
    }
}

/// The lines showing a component.
pub open spec fn component_show(c: Component) -> Seq<LineView> {
    seq![head_line("Component"@, c.id@), field_line("  Name: "@, c.name@)]
        + opt_field("  Description: "@, c.description)
        + seq![plain_line("  Modules:"@)]
        + module_list_show(c.modules@, "    "@)
        + lines_if(c.exposed_interfaces@.len() > 0,
            seq![field_line("  Exposed interfaces: "@, join(string_views(c.exposed_interfaces@), ", "@))])
}

/// The lines that showing the element with ID `id` prints: the system, the
/// first subsystem, component or interface with that ID; none when there is none.
pub open spec fn logic_show(d: LogicConceptDiagram, id: Seq<char>) -> Option<Seq<LineView>> {
    let sys = d.system;
    if sys.id@ == id {
        Some(seq![head_line("System"@, sys.id@), field_line("  Name: "@, sys.name@)]
            + opt_field("  Description: "@, sys.description)
            + seq![field_line("  Subsystems: "@, decimal(sys.subsystems@.len())),
                field_line("  Components: "@, decimal(sys.components@.len()))])
    } else if has_key(sys.subsystems@, id) {
        let s = first_with(sys.subsystems@, id);
        Some(seq![head_line("Subsystem"@, s.id@), field_line("  Name: "@, s.name@)]
            + opt_field("  Description: "@, s.description)
            + seq![field_line("  Components: "@, decimal(s.components@.len()))])
    } else if component_site(sys, id) is Some {
        Some(component_show(component_at(sys, component_site(sys, id)->Some_0)))
    } else {
        match first_interface(all_interfaces(d), id) {
            Some(i) => Some(seq![head_line("Interface"@, i.id@), field_line("  Name: "@, i.name@)]
                + opt_field("  Description: "@, i.description)),
            None => None,
        }
    }
}

/// The first interface with ID `id` among some interfaces.
fn find_in_interfaces<'a>(s: &'a Vec<Interface>, id: &String) -> (r: Option<&'a Interface>)
    ensures
        match r {
            Some(i) => first_interface(s@, id@) == Some(*i),
            None => first_interface(s@, id@) is None,
        },
{
    let mut k: usize = 0;
    assert(s@.skip(0) =~= s@);
    while k < s.len()
        invariant
            k <= s.len(),
            first_interface(s@, id@) == first_interface(s@.skip(k as int), id@),
        decreases s.len() - k,
    {
        assert(s@.skip(k as int).drop_first() =~= s@.skip(k + 1));
        assert(s@.skip(k as int)[0] == s@[k as int]);
        if same_text(&s[k].id, id) {
            return Some(&s[k]);
        }
        k = k + 1;
    }
    None
}

/// The first interface with ID `id` of a module tree.
fn find_in_tree<'a>(m: &'a Module, id: &String) -> (r: Option<&'a Interface>)
    ensures
        match r {
            Some(i) => first_interface(tree_interfaces(*m), id@) == Some(*i),
            None => first_interface(tree_interfaces(*m), id@) is None,
        },
    decreases m,
{
    proof {
        lemma_first_interface_append(m.interfaces@, forest_interfaces(m.modules@), id@);
    }
    match find_in_interfaces(&m.interfaces, id) {
        Some(i) => Some(i),
        None => find_in_forest(&m.modules, id),
    }
}

/// The first interface with ID `id` of a list of module trees.
fn find_in_forest<'a>(l: &'a Vec<Module>, id: &String) -> (r: Option<&'a Interface>)
    ensures
        match r {
            Some(i) => first_interface(forest_interfaces(l@), id@) == Some(*i),
            None => first_interface(forest_interfaces(l@), id@) is None,
        },
    decreases l,
{
    let mut k: usize = 0;
    while k < l.len()
        invariant
            k <= l.len(),
            first_interface(forest_interfaces(l@.take(k as int)), id@) is None,
        decreases l.len() - k,
    {
        assert(l@.take(k + 1).drop_last() =~= l@.take(k as int));
        proof {
            assert(decreases_to!(*l => l@[k as int]));
            lemma_first_interface_append(forest_interfaces(l@.take(k as int)), tree_interfaces(l@[k as int]), id@);
        }
        match find_in_tree(&l[k], id) {
            Some(i) => {
                proof {
                    lemma_forest_prefix_first(l@, id@, k + 1);
                }
                return Some(i);
            },
            None => {},
        }
        k = k + 1;
    }
    assert(l@.take(l@.len() as int) =~= l@);
    None
}

/// A hit in the trees of a prefix is the hit in the whole list.
proof fn lemma_forest_prefix_first(l: Seq<Module>, id: Seq<char>, n: int)
    requires
        0 <= n <= l.len(),
        first_interface(forest_interfaces(l.take(n)), id) is Some,
    ensures
        first_interface(forest_interfaces(l), id) == first_interface(forest_interfaces(l.take(n)), id),
    decreases l.len() - n,
{
    if n < l.len() {
        assert(l.take(n + 1).drop_last() =~= l.take(n));
        lemma_first_interface_append(forest_interfaces(l.take(n)), tree_interfaces(l[n]), id);
        lemma_forest_prefix_first(l, id, n + 1);
    } else {
        assert(l.take(n) =~= l);
    }
}

/// The first interface with ID `id` of the modules of some components.
fn find_in_components<'a>(c: &'a Vec<Component>, id: &String) -> (r: Option<&'a Interface>)
    ensures
        match r {
            Some(i) => first_interface(component_interfaces(c@), id@) == Some(*i),
            None => first_interface(component_interfaces(c@), id@) is None,
        },
{
    let mut k: usize = 0;
    while k < c.len()
        invariant
            k <= c.len(),
            first_interface(component_interfaces(c@.take(k as int)), id@) is None,
        decreases c.len() - k,
    {
        assert(c@.take(k + 1).drop_last() =~= c@.take(k as int));
        proof {
            lemma_first_interface_append(component_interfaces(c@.take(k as int)), forest_interfaces(c@[k as int].modules@), id@);
        }
        match find_in_forest(&c[k].modules, id) {
            Some(i) => {
                proof {
                    lemma_components_prefix_first(c@, id@, k + 1);
                }
                return Some(i);
            },
            None => {},
        }
        k = k + 1;
    }
    assert(c@.take(c@.len() as int) =~= c@);
    None
}

/// A hit in the components of a prefix is the hit in the whole list.
proof fn lemma_components_prefix_first(c: Seq<Component>, id: Seq<char>, n: int)
    requires
        0 <= n <= c.len(),
        first_interface(component_interfaces(c.take(n)), id) is Some,
    ensures
        first_interface(component_interfaces(c), id) == first_interface(component_interfaces(c.take(n)), id),
    decreases c.len() - n,
{
    if n < c.len() {
        assert(c.take(n + 1).drop_last() =~= c.take(n));
        lemma_first_interface_append(component_interfaces(c.take(n)), forest_interfaces(c[n].modules@), id);
        lemma_components_prefix_first(c, id, n + 1);
    } else {
        assert(c.take(n) =~= c);
    }
}

/// A hit in the subsystems of a prefix is the hit in the whole list.
proof fn lemma_subsystems_prefix_first(s: Seq<Subsystem>, id: Seq<char>, n: int)
    requires
        0 <= n <= s.len(),
        first_interface(subsystem_interfaces(s.take(n)), id) is Some,
    ensures
        first_interface(subsystem_interfaces(s), id) == first_interface(subsystem_interfaces(s.take(n)), id),
    decreases s.len() - n,
{
    if n < s.len() {
        assert(s.take(n + 1).drop_last() =~= s.take(n));
        lemma_first_interface_append(subsystem_interfaces(s.take(n)), component_interfaces(s[n].components@), id);
        lemma_subsystems_prefix_first(s, id, n + 1);
    } else {
        assert(s.take(n) =~= s);
    }
}

/// The first interface with ID `id` of the logic view.
fn find_interface<'a>(d: &'a LogicConceptDiagram, id: &String) -> (r: Option<&'a Interface>)
    ensures
        match r {
            Some(i) => first_interface(all_interfaces(*d), id@) == Some(*i),
            None => first_interface(all_interfaces(*d), id@) is None,
        },
{
    let sys = &d.system;
    let ghost a = sys.interfaces@;
    let ghost b = forest_interfaces(sys.modules@);
    let ghost c = component_interfaces(sys.components@);
    let ghost e = subsystem_interfaces(sys.subsystems@);
    proof {
        lemma_first_interface_append(a, b, id@);
        lemma_first_interface_append(a + b, c, id@);
        lemma_first_interface_append(a + b + c, e, id@);
    }
    match find_in_interfaces(&sys.interfaces, id) {
        Some(i) => {
            return Some(i);
        },
        None => {},
    }
    match find_in_forest(&sys.modules, id) {
        Some(i) => {
            return Some(i);
        },
        None => {},
    }
    match find_in_components(&sys.components, id) {
        Some(i) => {
            return Some(i);
        },
        None => {},
    }
    let subs = &sys.subsystems;
    let mut k: usize = 0;
    while k < subs.len()
        invariant
            k <= subs.len(),
            subs@ == sys.subsystems@,
            first_interface(all_interfaces(*d), id@) == first_interface(subsystem_interfaces(subs@), id@),
            first_interface(subsystem_interfaces(subs@.take(k as int)), id@) is None,
        decreases subs.len() - k,
    {
        assert(subs@.take(k + 1).drop_last() =~= subs@.take(k as int));
        proof {
            lemma_first_interface_append(subsystem_interfaces(subs@.take(k as int)), component_interfaces(subs@[k as int].components@), id@);
        }
        match find_in_components(&subs[k].components, id) {
            Some(i) => {
                proof {
                    lemma_subsystems_prefix_first(subs@, id@, k + 1);
                }
                return Some(i);
            },
            None => {},
        }
        k = k + 1;
    }
    assert(subs@.take(subs@.len() as int) =~= subs@);
    None
}

/// The IDs of some interfaces, joined with `, `.
fn interface_ids_text(l: &Vec<Interface>) -> (r: String)
    ensures
        r@ == join(keys(l@), ", "@),
{
    let mut ids: Vec<String> = Vec::new();
    let mut k: usize = 0;
    while k < l.len()
        invariant
            k <= l.len(),
            string_views(ids@) == keys(l@.take(k as int)),
        decreases l.len() - k,
    {
        let ghost prev = ids@;
        ids.push(copy_string(&l[k].id));
        assert(string_views(ids@) =~= string_views(prev).push(l@[k as int].id@));
        assert(keys(l@.take(k + 1)) =~= keys(l@.take(k as int)).push(l@[k as int].id@));
        k = k + 1;
    }
    assert(l@.take(l@.len() as int) =~= l@);
    join_strings(&ids, ", ")
}

/// Writes a line `<indent><key><value>`.
fn emit_indented(out: &mut Vec<Line>, indent: &str, key: &str, value: &str)
    ensures
        report_view(final(out)@) == report_view(old(out)@).push(seq![p(indent@), p(key@), p(value@)]),
{
    let mut l = Line::new();
    l.plain(indent);
    l.plain(key);
    l.plain(value);
    assert(l@ =~= seq![p(indent@), p(key@), p(value@)]);
    emit(out, l);
}

/// Writes the lines showing a module and the modules nested in it.
fn write_module_show(out: &mut Vec<Line>, m: &Module, indent: &str)
    ensures
        report_view(final(out)@) == report_view(old(out)@) + module_show(*m, indent@),
    decreases m,
{
    let ghost start = report_view(out@);
    let mut l = Line::new();
    l.plain(indent);
    l.plain("- ");
    l.plain(m.id.as_str());
    l.plain(" (");
    l.plain(m.name.as_str());
    l.plain(")");
    assert(l@ =~= seq![p(indent@), p("- "@), p(m.id@), p(" ("@), p(m.name@), p(")"@)]);
    emit(out, l);
    if m.interfaces.len() > 0 {
        let ids = interface_ids_text(&m.interfaces);
        emit_indented(out, indent, "  Interfaces: ", ids.as_str());
    }
    if m.dependencies.len() > 0 {
        let deps = join_strings(&m.dependencies, ", ");
        emit_indented(out, indent, "  Dependencies: ", deps.as_str());
    }
    let deeper = concat2(indent, "  ");
    write_module_list_show(out, &m.modules, deeper.as_str());
    assert(report_view(out@) =~= start + module_show(*m, indent@));
}

/// Writes the lines showing a list of modules.
fn write_module_list_show(out: &mut Vec<Line>, l: &Vec<Module>, indent: &str)
    ensures
        report_view(final(out)@) == report_view(old(out)@) + module_list_show(l@, indent@),
    decreases l,
{
    let ghost start = report_view(out@);
    let mut k: usize = 0;
    while k < l.len()
        invariant
            k <= l.len(),
            report_view(out@) == start + module_list_show(l@.take(k as int), indent@),
        decreases l.len() - k,
    {
        assert(l@.take(k + 1).drop_last() =~= l@.take(k as int));
        proof {
            assert(decreases_to!(*l => l@[k as int]));
        }
        write_module_show(out, &l[k], indent);
        assert(start + module_list_show(l@.take(k + 1), indent@)
            =~= start + module_list_show(l@.take(k as int), indent@) + module_show(l@[k as int], indent@));
        k = k + 1;
    }
    assert(l@.take(l@.len() as int) =~= l@);
}

/// Writes the lines showing a component.
fn write_component_show(out: &mut Vec<Line>, c: &Component)
    ensures
        report_view(final(out)@) == report_view(old(out)@) + component_show(*c),
{
    let ghost start = report_view(out@);
    emit_head(out, "Component", c.id.as_str());
    emit_field(out, "  Name: ", c.name.as_str());
    emit_opt_field(out, "  Description: ", &c.description);
    emit_plain(out, "  Modules:");
    write_module_list_show(out, &c.modules, "    ");
    if c.exposed_interfaces.len() > 0 {
        let ids = join_strings(&c.exposed_interfaces, ", ");
        emit_field(out, "  Exposed interfaces: ", ids.as_str());
    }
    assert(report_view(out@) =~= start + component_show(*c));
}

/// The lines that showing the element with ID `id` prints, or the error when
/// the logic view has no such element.
pub fn show_logic(d: &LogicConceptDiagram, id: &str) -> (r: Result<Vec<Line>>)
    ensures
        match logic_show(*d, id@) {
            Some(lines) => r matches Ok(v) && report_view(v@) == lines,
            None => fails_with(r, ErrorKind::ElementNotFound, id@),
        },
{
    let key = to_owned_string(id);
    let sys = &d.system;
    let mut out: Vec<Line> = Vec::new();
    assert(report_view(out@) =~= Seq::<LineView>::empty());
    if same_text(&sys.id, &key) {
        emit_head(&mut out, "System", sys.id.as_str());
        emit_field(&mut out, "  Name: ", sys.name.as_str());
        emit_opt_field(&mut out, "  Description: ", &sys.description);
        let n = decimal_string(sys.subsystems.len() as u64);
        emit_field(&mut out, "  Subsystems: ", n.as_str());
        let m = decimal_string(sys.components.len() as u64);
        emit_field(&mut out, "  Components: ", m.as_str());
        assert(report_view(out@) =~= logic_show(*d, id@)->Some_0);
        return Ok(out);
    }
    match position_of(&sys.subsystems, &key) {
        Some(i) => {
            proof {
                lemma_first_key_unique(sys.subsystems@, id@, i as int);
            }
            let s = &sys.subsystems[i];
            emit_head(&mut out, "Subsystem", s.id.as_str());
            emit_field(&mut out, "  Name: ", s.name.as_str());
            emit_opt_field(&mut out, "  Description: ", &s.description);
            let n = decimal_string(s.components.len() as u64);
            emit_field(&mut out, "  Components: ", n.as_str());
            assert(report_view(out@) =~= logic_show(*d, id@)->Some_0);
            return Ok(out);
        },
        None => {},
    }
    match locate_component(sys, &key) {
        Some(at) => {
            write_component_show(&mut out, component_ref(sys, at));
            return Ok(out);
        },
        None => {},
    }
    match find_interface(d, &key) {
        Some(i) => {
            emit_head(&mut out, "Interface", i.id.as_str());
            emit_field(&mut out, "  Name: ", i.name.as_str());
            emit_opt_field(&mut out, "  Description: ", &i.description);
            assert(report_view(out@) =~= logic_show(*d, id@)->Some_0);
            Ok(out)
        },
        None => Err(AppError::ElementNotFound(key)),
    }
}

} // verus!
