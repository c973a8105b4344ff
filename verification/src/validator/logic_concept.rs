use vstd::prelude::*;
use crate::model::logic::concept::{LogicConceptDiagram, System, Subsystem, Component, Module, Interface, ElementContainment, str_views};
use crate::model::logic::concept_model::{LogicArchitectureConceptModel, ElementTypeDefinition, level_of, level_admits, type_used};
use crate::validator::result::{ValidationResult, Severity, Finding, finding, findings_of};
use crate::validator::support::{gather, finding_if, report, lemma_gather_step, lemma_gather_all, upper_snake, is_upper_snake};
use crate::utils::text::{concat2, concat3, concat4, is_blank, to_owned_string, same_text};

verus! {

/// The findings on one ID of kind `kind`: an empty ID is an error, an ID
/// that is not in upper snake case a warning, both at `loc`.
pub open spec fn id_findings(kind: Seq<char>, rule: Seq<char>, id: Seq<char>, loc: Seq<char>) -> Seq<Finding> {
    finding_if(
        id.len() == 0,
        finding("C001"@, "NonEmptyId"@, kind + " ID cannot be empty"@, Severity::Error, Some(loc)),
    ) + finding_if(
        !upper_snake(id) && id.len() != 0,
        finding("N001"@, rule, kind + " ID '"@ + id + "' does not follow UPPER_SNAKE_CASE convention"@,
            Severity::Warning, Some(loc)),
    )
}

/// The findings on an interface defined under `path`.
pub open spec fn interface_findings(path: Seq<char>) -> spec_fn(int, Interface) -> Seq<Finding> {
    |k: int, it: Interface| id_findings("Interface"@, "InterfaceIdNaming"@, it.id@, path + ".interfaces."@ + it.id@)
}

/// The findings on an interface ID listed at `loc`.
pub open spec fn interface_ref_findings(loc: Seq<char>) -> spec_fn(int, String) -> Seq<Finding> {
    |k: int, x: String| id_findings("Interface"@, "InterfaceIdNaming"@, x@, loc)
}

/// The findings on a module under `parent`, its interfaces, the interfaces
/// it uses and its nested modules.
pub open spec fn module_findings(m: Module, parent: Seq<char>) -> Seq<Finding>
    decreases m,
{
    let path = parent + ".modules."@ + m.id@;
    id_findings("Module"@, "ModuleIdNaming"@, m.id@, path)
        + gather(m.interfaces@, interface_findings(path))
        + gather(m.dependencies@, interface_ref_findings(path + ".dependencies"@))
        + module_list_findings(m.modules@, path)
}

/// The findings on a list of modules under `parent`, in order.
pub open spec fn module_list_findings(l: Seq<Module>, parent: Seq<char>) -> Seq<Finding>
    decreases l,
{
    if l.len() == 0 {
        Seq::empty()
    } else {
        module_list_findings(l.drop_last(), parent) + module_findings(l.last(), parent)
    }
}

/// The findings on a component under `parent`, its modules and the
/// interfaces it exposes.
pub open spec fn component_findings(c: Component, parent: Seq<char>) -> Seq<Finding> {
    let path = parent + ".components."@ + c.id@;
    id_findings("Component"@, "ComponentIdNaming"@, c.id@, path)
        + module_list_findings(c.modules@, path)
        + gather(c.exposed_interfaces@, interface_ref_findings(path + ".exposed_interfaces"@))
}

/// The findings on each component under `parent`.
pub open spec fn components_under(parent: Seq<char>) -> spec_fn(int, Component) -> Seq<Finding> {
    |j: int, c: Component| component_findings(c, parent)
}

/// The findings on a subsystem under `parent` and its components.
pub open spec fn subsystem_findings(s: Subsystem, parent: Seq<char>) -> Seq<Finding> {
    let path = parent + ".subsystems."@ + s.id@;
    id_findings("Subsystem"@, "SubsystemIdNaming"@, s.id@, path)
        + gather(s.components@, components_under(path))
}

/// The findings on each subsystem under `parent`.
pub open spec fn subsystems_under(parent: Seq<char>) -> spec_fn(int, Subsystem) -> Seq<Finding> {
    |i: int, s: Subsystem| subsystem_findings(s, parent)
}

/// All findings on a logic view, in the order they are checked: the
/// system's ID, then its subsystems, then its components. Modules and
/// interfaces placed directly in the system are not checked.
pub open spec fn logic_concept_findings(d: LogicConceptDiagram) -> Seq<Finding> {
    id_findings("System"@, "SystemIdNaming"@, d.system.id@, "system.id"@)
        + gather(d.system.subsystems@, subsystems_under("system"@))
        + gather(d.system.components@, components_under("system"@))
}

/// Checks one ID.
fn check_id(result: &mut ValidationResult, kind: &str, rule: &str, id: &String, loc: &str)
    ensures
        old(result).wf() ==> final(result).wf(),
        findings_of(final(result).errors@) == findings_of(old(result).errors@) + id_findings(kind@, rule@, id@, loc@),
{
    let ghost start = findings_of(result.errors@);
    if is_blank(id) {
        report(result, "C001", "NonEmptyId", concat2(kind, " ID cannot be empty"), Severity::Error,
            Some(to_owned_string(loc)));
    }
    if !is_upper_snake(id.as_str()) && !is_blank(id) {
        let head = concat2(kind, " ID '");
        report(result, "N001", rule,
            concat3(head.as_str(), id.as_str(), "' does not follow UPPER_SNAKE_CASE convention"), Severity::Warning,
            Some(to_owned_string(loc)));
    }
    assert(findings_of(result.errors@) =~= start + id_findings(kind@, rule@, id@, loc@));
}

/// Checks the interfaces a module defines.
fn check_interfaces(result: &mut ValidationResult, items: &Vec<Interface>, path: &String)
    ensures
        old(result).wf() ==> final(result).wf(),
        findings_of(final(result).errors@) == findings_of(old(result).errors@) + gather(items@, interface_findings(path@)),
{
    let ghost was_wf = result.wf();
    let ghost base = findings_of(result.errors@);
    let mut k: usize = 0;
    while k < items.len()
        invariant
            k <= items.len(),
            was_wf ==> result.wf(),
            findings_of(result.errors@) == base + gather(items@.take(k as int), interface_findings(path@)),
        decreases items.len() - k,
    {
        proof {
            lemma_gather_step(items@, interface_findings(path@), k as int);
        }
        let ghost before = findings_of(result.errors@);
        let loc = concat3(path.as_str(), ".interfaces.", items[k].id.as_str());
        check_id(result, "Interface", "InterfaceIdNaming", &items[k].id, loc.as_str());
        assert(findings_of(result.errors@) =~= before + interface_findings(path@)(k as int, items@[k as int]));
        k = k + 1;
    }
    proof {
        lemma_gather_all(items@, interface_findings(path@));
    }
}

/// Checks a list of interface IDs, all reported at `loc`.
fn check_interface_refs(result: &mut ValidationResult, items: &Vec<String>, loc: &String)
    ensures
        old(result).wf() ==> final(result).wf(),
        findings_of(final(result).errors@) == findings_of(old(result).errors@) + gather(items@, interface_ref_findings(loc@)),
{
    let ghost was_wf = result.wf();
    let ghost base = findings_of(result.errors@);
    let mut k: usize = 0;
    while k < items.len()
        invariant
            k <= items.len(),
            was_wf ==> result.wf(),
            findings_of(result.errors@) == base + gather(items@.take(k as int), interface_ref_findings(loc@)),
        decreases items.len() - k,
    {
        proof {
            lemma_gather_step(items@, interface_ref_findings(loc@), k as int);
        }
        let ghost before = findings_of(result.errors@);
        check_id(result, "Interface", "InterfaceIdNaming", &items[k], loc.as_str());
        assert(findings_of(result.errors@) =~= before + interface_ref_findings(loc@)(k as int, items@[k as int]));
        k = k + 1;
    }
    proof {
        lemma_gather_all(items@, interface_ref_findings(loc@));
    }
}

/// Checks a module, then what it holds.
fn check_module(result: &mut ValidationResult, m: &Module, parent: &str)
    ensures
        old(result).wf() ==> final(result).wf(),
        findings_of(final(result).errors@) == findings_of(old(result).errors@) + module_findings(*m, parent@),
    decreases m,
{
    let ghost start = findings_of(result.errors@);
    let path = concat3(parent, ".modules.", m.id.as_str());
    check_id(result, "Module", "ModuleIdNaming", &m.id, path.as_str());
    check_interfaces(result, &m.interfaces, &path);
    let deps = concat2(path.as_str(), ".dependencies");
    check_interface_refs(result, &m.dependencies, &deps);
    check_module_list(result, &m.modules, path.as_str());
    assert(findings_of(result.errors@) =~= start + module_findings(*m, parent@));
}

/// Checks each module of a list.
fn check_module_list(result: &mut ValidationResult, l: &Vec<Module>, parent: &str)
    ensures
        old(result).wf() ==> final(result).wf(),
        findings_of(final(result).errors@) == findings_of(old(result).errors@) + module_list_findings(l@, parent@),
    decreases l,
{
    let ghost was_wf = result.wf();
    let ghost base = findings_of(result.errors@);
    let mut k: usize = 0;
    while k < l.len()
        invariant
            k <= l.len(),
            was_wf ==> result.wf(),
            findings_of(result.errors@) == base + module_list_findings(l@.take(k as int), parent@),
        decreases l.len() - k,
    {
        assert(l@.take(k + 1).drop_last() =~= l@.take(k as int));
        proof {
            assert(decreases_to!(*l => l@[k as int]));
        }
        check_module(result, &l[k], parent);
        assert(base + module_list_findings(l@.take(k + 1), parent@)
            =~= base + module_list_findings(l@.take(k as int), parent@) + module_findings(l@[k as int], parent@));
        k = k + 1;
    }
    assert(l@.take(l@.len() as int) =~= l@);
}

/// Checks a component, then what it holds.
fn check_component(result: &mut ValidationResult, c: &Component, parent: &str)
    ensures
        old(result).wf() ==> final(result).wf(),
        findings_of(final(result).errors@) == findings_of(old(result).errors@) + component_findings(*c, parent@),
{
    let ghost start = findings_of(result.errors@);
    let path = concat3(parent, ".components.", c.id.as_str());
    check_id(result, "Component", "ComponentIdNaming", &c.id, path.as_str());
    check_module_list(result, &c.modules, path.as_str());
    let exposed = concat2(path.as_str(), ".exposed_interfaces");
    check_interface_refs(result, &c.exposed_interfaces, &exposed);
    assert(findings_of(result.errors@) =~= start + component_findings(*c, parent@));
}

/// Checks each component of a list.
fn check_components(result: &mut ValidationResult, items: &Vec<Component>, parent: &str)
    ensures
        old(result).wf() ==> final(result).wf(),
        findings_of(final(result).errors@) == findings_of(old(result).errors@) + gather(items@, components_under(parent@)),
{
    let ghost was_wf = result.wf();
    let ghost base = findings_of(result.errors@);
    let mut k: usize = 0;
    while k < items.len()
        invariant
            k <= items.len(),
            was_wf ==> result.wf(),
            findings_of(result.errors@) == base + gather(items@.take(k as int), components_under(parent@)),
        decreases items.len() - k,
    {
        proof {
            lemma_gather_step(items@, components_under(parent@), k as int);
        }
        let ghost before = findings_of(result.errors@);
        check_component(result, &items[k], parent);
        assert(findings_of(result.errors@) =~= before + components_under(parent@)(k as int, items@[k as int]));
        k = k + 1;
    }
    proof {
        lemma_gather_all(items@, components_under(parent@));
    }
}

/// Checks a subsystem and its components.
fn check_subsystem(result: &mut ValidationResult, s: &Subsystem, parent: &str)
    ensures
        old(result).wf() ==> final(result).wf(),
        findings_of(final(result).errors@) == findings_of(old(result).errors@) + subsystem_findings(*s, parent@),
{
    let ghost start = findings_of(result.errors@);
    let path = concat3(parent, ".subsystems.", s.id.as_str());
    check_id(result, "Subsystem", "SubsystemIdNaming", &s.id, path.as_str());
    check_components(result, &s.components, path.as_str());
    assert(findings_of(result.errors@) =~= start + subsystem_findings(*s, parent@));
}

/// Checks the system: its ID, subsystems and components.
fn check_system(result: &mut ValidationResult, system: &System)
    ensures
        old(result).wf() ==> final(result).wf(),
        findings_of(final(result).errors@) == findings_of(old(result).errors@)
            + id_findings("System"@, "SystemIdNaming"@, system.id@, "system.id"@)
            + gather(system.subsystems@, subsystems_under("system"@))
            + gather(system.components@, components_under("system"@)),
{
    let ghost was_wf = result.wf();
    let ghost start = findings_of(result.errors@);
    check_id(result, "System", "SystemIdNaming", &system.id, "system.id");
    let ghost base = findings_of(result.errors@);
    let items = &system.subsystems;
    let mut i: usize = 0;
    while i < items.len()
        invariant
            i <= items.len(),
            was_wf ==> result.wf(),
            findings_of(result.errors@) == base + gather(items@.take(i as int), subsystems_under("system"@)),
        decreases items.len() - i,
    {
        proof {
            lemma_gather_step(items@, subsystems_under("system"@), i as int);
        }
        let ghost before = findings_of(result.errors@);
        check_subsystem(result, &items[i], "system");
        assert(findings_of(result.errors@) =~= before + subsystems_under("system"@)(i as int, items@[i as int]));
        i = i + 1;
    }
    proof {
        lemma_gather_all(items@, subsystems_under("system"@));
    }
    check_components(result, &system.components, "system");
    assert(findings_of(result.errors@) =~= start
        + id_findings("System"@, "SystemIdNaming"@, system.id@, "system.id"@)
        + gather(system.subsystems@, subsystems_under("system"@))
        + gather(system.components@, components_under("system"@)));
}

/// Checks a logic view on its own: element and interface IDs.
pub fn validate(diagram: &LogicConceptDiagram) -> (r: ValidationResult)
    ensures
        r.wf(),
        findings_of(r.errors@) == logic_concept_findings(*diagram),
{
    let mut result = ValidationResult::new();
    assert(findings_of(result.errors@) =~= Seq::<Finding>::empty());
    check_system(&mut result, &diagram.system);
    assert(findings_of(result.errors@) =~= logic_concept_findings(*diagram));
    result
}

/// Whether the concept model lets an element of type `parent` contain one of type `child`.
pub open spec fn allows(m: LogicArchitectureConceptModel, parent: Seq<char>, child: Seq<char>) -> bool {
    match level_of(m.hierarchy.levels@, parent) {
        Some(l) => level_admits(l, child),
        None => false,
    }
}

/// A hierarchy conformance finding.
pub open spec fn h001(message: Seq<char>, loc: Seq<char>) -> Finding {
    finding("H001"@, "HierarchyConformance"@, message, Severity::Error, Some(loc))
}

/// The hierarchy findings on a module reported under `loc`, then on its nested modules.
pub open spec fn module_hierarchy(m: LogicArchitectureConceptModel, md: Module, loc: Seq<char>) -> Seq<Finding>
    decreases md,
{
    finding_if(
        md.modules@.len() > 0 && !allows(m, "MODULE"@, "MODULE"@),
        h001("Module '"@ + md.id@ + "' cannot contain nested Module according to concept model"@,
            loc + "."@ + md.id@ + ".modules"@),
    ) + module_list_hierarchy(m, md.modules@, loc + "."@ + md.id@)
}

/// The hierarchy findings on a list of modules reported under `loc`.
pub open spec fn module_list_hierarchy(m: LogicArchitectureConceptModel, l: Seq<Module>, loc: Seq<char>) -> Seq<Finding>
    decreases l,
{
    if l.len() == 0 {
        Seq::empty()
    } else {
        module_list_hierarchy(m, l.drop_last(), loc) + module_hierarchy(m, l.last(), loc)
    }
}

/// The hierarchy findings on a component and its modules.
pub open spec fn component_hierarchy(m: LogicArchitectureConceptModel) -> spec_fn(int, Component) -> Seq<Finding> {
    |j: int, c: Component|
        finding_if(
            c.modules@.len() > 0 && !allows(m, "COMPONENT"@, "MODULE"@),
            h001("Component '"@ + c.id@ + "' cannot contain Module according to concept model"@,
                "components."@ + c.id@ + ".modules"@),
        ) + module_list_hierarchy(m, c.modules@, "components."@ + c.id@ + ".modules"@)
}

/// The finding on a subsystem that holds components its level may not contain.
pub open spec fn subsystem_hierarchy(m: LogicArchitectureConceptModel) -> spec_fn(int, Subsystem) -> Seq<Finding> {
    |i: int, s: Subsystem|
        finding_if(
            s.components@.len() > 0 && !allows(m, "SUBSYSTEM"@, "COMPONENT"@),
            h001("Subsystem '"@ + s.id@ + "' cannot contain Component according to concept model"@,
                "subsystems."@ + s.id@ + ".components"@),
        )
}

/// The hierarchy findings on the components of a subsystem.
pub open spec fn subsystem_component_hierarchy(m: LogicArchitectureConceptModel) -> spec_fn(int, Subsystem) -> Seq<Finding> {
    |i: int, s: Subsystem| gather(s.components@, component_hierarchy(m))
}

/// The findings of a logic view that does not follow the containment rules
/// of a concept model: what the system holds, then each subsystem, then each
/// component (the system's first, then those of each subsystem), with their
/// modules down to the deepest.
pub open spec fn hierarchy_findings(v: LogicConceptDiagram, m: LogicArchitectureConceptModel) -> Seq<Finding> {
    system_hierarchy(m, v.system)
        + gather(v.system.subsystems@, subsystem_hierarchy(m))
        + gather(v.system.components@, component_hierarchy(m))
        + gather(v.system.subsystems@, subsystem_component_hierarchy(m))
}

/// Reports a hierarchy conformance finding.
fn report_h001(result: &mut ValidationResult, message: String, loc: String)
    ensures
        old(result).wf() ==> final(result).wf(),
        findings_of(final(result).errors@) == findings_of(old(result).errors@).push(h001(message@, loc@)),
{
    report(result, "H001", "HierarchyConformance", message, Severity::Error, Some(loc));
}

/// Checks a module and its nested modules against the concept model.
fn check_module_hierarchy(m: &LogicArchitectureConceptModel, md: &Module, result: &mut ValidationResult, loc: &str)
    ensures
        old(result).wf() ==> final(result).wf(),
        findings_of(final(result).errors@) == findings_of(old(result).errors@) + module_hierarchy(*m, *md, loc@),
    decreases md,
{
    let ghost start = findings_of(result.errors@);
    if md.modules.len() > 0 && !m.can_contain("MODULE", "MODULE") {
        report_h001(result,
            concat3("Module '", md.id.as_str(), "' cannot contain nested Module according to concept model"),
            concat4(loc, ".", md.id.as_str(), ".modules"));
    }
    let inner = concat3(loc, ".", md.id.as_str());
    check_module_list_hierarchy(m, &md.modules, result, inner.as_str());
    assert(findings_of(result.errors@) =~= start + module_hierarchy(*m, *md, loc@));
}

/// Checks each module of a list against the concept model.
fn check_module_list_hierarchy(m: &LogicArchitectureConceptModel, l: &Vec<Module>, result: &mut ValidationResult, loc: &str)
    ensures
        old(result).wf() ==> final(result).wf(),
        findings_of(final(result).errors@) == findings_of(old(result).errors@) + module_list_hierarchy(*m, l@, loc@),
    decreases l,
{
    let ghost was_wf = result.wf();
    let ghost base = findings_of(result.errors@);
    let mut k: usize = 0;
    while k < l.len()
        invariant
            k <= l.len(),
            was_wf ==> result.wf(),
            findings_of(result.errors@) == base + module_list_hierarchy(*m, l@.take(k as int), loc@),
        decreases l.len() - k,
    {
        assert(l@.take(k + 1).drop_last() =~= l@.take(k as int));
        proof {
            assert(decreases_to!(*l => l@[k as int]));
        }
        check_module_hierarchy(m, &l[k], result, loc);
        assert(base + module_list_hierarchy(*m, l@.take(k + 1), loc@)
            =~= base + module_list_hierarchy(*m, l@.take(k as int), loc@) + module_hierarchy(*m, l@[k as int], loc@));
        k = k + 1;
    }
    assert(l@.take(l@.len() as int) =~= l@);
}

/// Checks a component and its modules against the concept model.
fn check_component_hierarchy(m: &LogicArchitectureConceptModel, c: &Component, result: &mut ValidationResult)
    ensures
        old(result).wf() ==> final(result).wf(),
        findings_of(final(result).errors@) == findings_of(old(result).errors@) + component_hierarchy(*m)(0, *c),
{
    let ghost start = findings_of(result.errors@);
    if c.modules.len() > 0 && !m.can_contain("COMPONENT", "MODULE") {
        report_h001(result,
            concat3("Component '", c.id.as_str(), "' cannot contain Module according to concept model"),
            concat3("components.", c.id.as_str(), ".modules"));
    }
    let loc = concat3("components.", c.id.as_str(), ".modules");
    check_module_list_hierarchy(m, &c.modules, result, loc.as_str());
    assert(findings_of(result.errors@) =~= start + component_hierarchy(*m)(0, *c));
}

/// Checks each component of a list against the concept model.
fn check_components_hierarchy(m: &LogicArchitectureConceptModel, items: &Vec<Component>, result: &mut ValidationResult)
    ensures
        old(result).wf() ==> final(result).wf(),
        findings_of(final(result).errors@) == findings_of(old(result).errors@) + gather(items@, component_hierarchy(*m)),
{
    let ghost was_wf = result.wf();
    let ghost base = findings_of(result.errors@);
    let mut k: usize = 0;
    while k < items.len()
        invariant
            k <= items.len(),
            was_wf ==> result.wf(),
            findings_of(result.errors@) == base + gather(items@.take(k as int), component_hierarchy(*m)),
        decreases items.len() - k,
    {
        proof {
            lemma_gather_step(items@, component_hierarchy(*m), k as int);
        }
        let ghost before = findings_of(result.errors@);
        check_component_hierarchy(m, &items[k], result);
        assert(findings_of(result.errors@) =~= before + component_hierarchy(*m)(k as int, items@[k as int]));
        k = k + 1;
    }
    proof {
        lemma_gather_all(items@, component_hierarchy(*m));
    }
}

/// The findings on what the system holds directly.
pub open spec fn system_hierarchy(m: LogicArchitectureConceptModel, sys: System) -> Seq<Finding> {
    finding_if(
        sys.subsystems@.len() > 0 && !allows(m, "SYSTEM"@, "SUBSYSTEM"@),
        h001("System cannot contain Subsystem according to concept model"@, "system.subsystems"@),
    ) + finding_if(
        sys.components@.len() > 0 && !allows(m, "SYSTEM"@, "COMPONENT"@),
        h001("System cannot contain Component according to concept model"@, "system.components"@),
    ) + finding_if(
        sys.modules@.len() > 0 && !allows(m, "SYSTEM"@, "MODULE"@),
        h001("System cannot contain Module according to concept model"@, "system.modules"@),
    ) + module_list_hierarchy(m, sys.modules@, "system.modules"@)
}

/// Checks what the system holds directly, and its modules.
fn check_system_hierarchy(m: &LogicArchitectureConceptModel, sys: &System, result: &mut ValidationResult)
    ensures
        old(result).wf() ==> final(result).wf(),
        findings_of(final(result).errors@) == findings_of(old(result).errors@) + system_hierarchy(*m, *sys),
{
    let ghost start = findings_of(result.errors@);
    if sys.subsystems.len() > 0 && !m.can_contain("SYSTEM", "SUBSYSTEM") {
        report_h001(result, String::from_str("System cannot contain Subsystem according to concept model"),
            String::from_str("system.subsystems"));
    }
    if sys.components.len() > 0 && !m.can_contain("SYSTEM", "COMPONENT") {
        report_h001(result, String::from_str("System cannot contain Component according to concept model"),
            String::from_str("system.components"));
    }
    if sys.modules.len() > 0 {
        if !m.can_contain("SYSTEM", "MODULE") {
            report_h001(result, String::from_str("System cannot contain Module according to concept model"),
                String::from_str("system.modules"));
        }
    }
    check_module_list_hierarchy(m, &sys.modules, result, "system.modules");
    assert(findings_of(result.errors@) =~= start + system_hierarchy(*m, *sys));
}

/// Checks which subsystems hold components their level may not contain.
fn check_subsystems_hierarchy(m: &LogicArchitectureConceptModel, subs: &Vec<Subsystem>, result: &mut ValidationResult)
    ensures
        old(result).wf() ==> final(result).wf(),
        findings_of(final(result).errors@) == findings_of(old(result).errors@) + gather(subs@, subsystem_hierarchy(*m)),
{
    let ghost was_wf = result.wf();
    let ghost mid = findings_of(result.errors@);
    let mut i: usize = 0;
    while i < subs.len()
        invariant
            i <= subs.len(),
            was_wf ==> result.wf(),
            findings_of(result.errors@) == mid + gather(subs@.take(i as int), subsystem_hierarchy(*m)),
        decreases subs.len() - i,
    {
        proof {
            lemma_gather_step(subs@, subsystem_hierarchy(*m), i as int);
        }
        let ghost before = findings_of(result.errors@);
        let s = &subs[i];
        if s.components.len() > 0 && !m.can_contain("SUBSYSTEM", "COMPONENT") {
            report_h001(result,
                concat3("Subsystem '", s.id.as_str(), "' cannot contain Component according to concept model"),
                concat3("subsystems.", s.id.as_str(), ".components"));
        }
        assert(findings_of(result.errors@) =~= before + subsystem_hierarchy(*m)(i as int, subs@[i as int]));
        i = i + 1;
    }
    proof {
        lemma_gather_all(subs@, subsystem_hierarchy(*m));
    }
}

/// Checks the components of each subsystem.
fn check_subsystem_components_hierarchy(m: &LogicArchitectureConceptModel, subs: &Vec<Subsystem>, result: &mut ValidationResult)
    ensures
        old(result).wf() ==> final(result).wf(),
        findings_of(final(result).errors@) == findings_of(old(result).errors@) + gather(subs@, subsystem_component_hierarchy(*m)),
{
    let ghost was_wf = result.wf();
    let ghost late = findings_of(result.errors@);
    let mut j: usize = 0;
    while j < subs.len()
        invariant
            j <= subs.len(),
            was_wf ==> result.wf(),
            findings_of(result.errors@) == late + gather(subs@.take(j as int), subsystem_component_hierarchy(*m)),
        decreases subs.len() - j,
    {
        proof {
            lemma_gather_step(subs@, subsystem_component_hierarchy(*m), j as int);
        }
        let ghost before = findings_of(result.errors@);
        check_components_hierarchy(m, &subs[j].components, result);
        assert(findings_of(result.errors@) =~= before + subsystem_component_hierarchy(*m)(j as int, subs@[j as int]));
        j = j + 1;
    }
    proof {
        lemma_gather_all(subs@, subsystem_component_hierarchy(*m));
    }
}

/// Checks a logic view against the containment rules of a concept model,
/// adding one finding for each element that holds what its type may not contain.
pub fn validate_hierarchy_conformance(
    logic_view: &LogicConceptDiagram,
    concept_model: &LogicArchitectureConceptModel,
    result: &mut ValidationResult,
)
    ensures
        old(result).wf() ==> final(result).wf(),
        findings_of(final(result).errors@) == findings_of(old(result).errors@) + hierarchy_findings(*logic_view, *concept_model),
{
    let ghost start = findings_of(result.errors@);
    let sys = &logic_view.system;
    check_system_hierarchy(concept_model, sys, result);
    check_subsystems_hierarchy(concept_model, &sys.subsystems, result);
    check_components_hierarchy(concept_model, &sys.components, result);
    check_subsystem_components_hierarchy(concept_model, &sys.subsystems, result);
    assert(findings_of(result.errors@) =~= start + hierarchy_findings(*logic_view, *concept_model));
}

/// Whether some component holds modules.
pub open spec fn comps_hold_modules(c: Seq<Component>) -> bool {
    exists|i: int| 0 <= i < c.len() && #[trigger] c[i].modules@.len() > 0
}

/// Whether some subsystem holds components.
pub open spec fn subs_hold_components(s: Seq<Subsystem>) -> bool {
    exists|i: int| 0 <= i < s.len() && #[trigger] s[i].components@.len() > 0
}

/// Whether some component of some subsystem holds modules.
pub open spec fn subs_hold_modules(s: Seq<Subsystem>) -> bool {
    exists|i: int| 0 <= i < s.len() && comps_hold_modules(#[trigger] s[i].components@)
}

/// Whether some module of the list holds nested modules.
pub open spec fn nested(l: Seq<Module>) -> bool {
    exists|i: int| 0 <= i < l.len() && #[trigger] l[i].modules@.len() > 0
}

/// Whether some component holds a module with nested modules.
pub open spec fn comps_nested(c: Seq<Component>) -> bool {
    exists|i: int| 0 <= i < c.len() && nested(#[trigger] c[i].modules@)
}

/// Whether some component of some subsystem holds a module with nested modules.
pub open spec fn subs_nested(s: Seq<Subsystem>) -> bool {
    exists|i: int| 0 <= i < s.len() && comps_nested(#[trigger] s[i].components@)
}

/// Whether the logic view holds a component anywhere.
pub open spec fn uses_components(sys: System) -> bool {
    sys.components@.len() > 0 || subs_hold_components(sys.subsystems@)
}

/// Whether the logic view holds a module anywhere.
pub open spec fn uses_modules(sys: System) -> bool {
    sys.modules@.len() > 0 || comps_hold_modules(sys.components@) || subs_hold_modules(sys.subsystems@)
}

/// Whether the logic view holds a module nested in another anywhere.
pub open spec fn uses_nested_modules(sys: System) -> bool {
    nested(sys.modules@) || comps_nested(sys.components@) || subs_nested(sys.subsystems@)
}

/// `[t]` when `b` holds, else nothing.
pub open spec fn listed_if(b: bool, t: Seq<char>) -> Seq<Seq<char>> {
    if b {
        seq![t]
    } else {
        Seq::empty()
    }
}

/// The element types that a logic view instantiates, nested modules counting as submodules.
pub open spec fn view_used_types(v: LogicConceptDiagram) -> Seq<Seq<char>> {
    listed_if(v.system.subsystems@.len() > 0, "SUBSYSTEM"@)
        + listed_if(uses_components(v.system), "COMPONENT"@)
        + listed_if(uses_modules(v.system), "MODULE"@)
        + listed_if(uses_nested_modules(v.system), "SUBMODULE"@)
}

/// The IDs of the element types of a concept model that no used type names
/// (compared in upper case), in order.
pub open spec fn unused_ids(m: LogicArchitectureConceptModel, used: Seq<Seq<char>>) -> Seq<Seq<char>> {
    m.element_types@.filter(|et: ElementTypeDefinition| !type_used(used, et.id@)).map_values(|et: ElementTypeDefinition| et.id@)
}

/// How serious an unused element type is: a warning when the concept model
/// has containment levels, an error when it has none.
pub open spec fn unused_severity(m: LogicArchitectureConceptModel) -> Severity {
    if m.hierarchy.levels@.len() > 0 { Severity::Warning } else { Severity::Error }
}

/// The finding on one unused element type.
pub open spec fn unused_finding(sev: Severity) -> spec_fn(int, Seq<char>) -> Seq<Finding> {
    |i: int, t: Seq<char>|
        seq![finding("H002"@, "UnusedElementType"@,
            "Element type '"@ + t + "' is defined in concept model but not used in logic view"@, sev,
            Some("logic_architecture_concept_model.element_types"@))]
}

/// One finding for each element type of a concept model that is not among `used`.
pub open spec fn unused_findings(m: LogicArchitectureConceptModel, used: Seq<Seq<char>>) -> Seq<Finding> {
    gather(unused_ids(m, used), unused_finding(unused_severity(m)))
}

/// Reports each element type of the concept model that is not among `used`.
pub(crate) fn report_unused(m: &LogicArchitectureConceptModel, used: &Vec<&str>, result: &mut ValidationResult)
    ensures
        old(result).wf() ==> final(result).wf(),
        findings_of(final(result).errors@) == findings_of(old(result).errors@) + unused_findings(*m, str_views(used@)),
{
    let ghost was_wf = result.wf();
    let unused = m.get_unused_element_types(used.as_slice());
    let ghost ids = unused_ids(*m, str_views(used@));
    assert(str_views(unused@) == ids);
    let severity = if m.hierarchy.levels.len() > 0 { Severity::Warning } else { Severity::Error };
    let ghost check = unused_finding(unused_severity(*m));
    let ghost base = findings_of(result.errors@);
    let mut k: usize = 0;
    while k < unused.len()
        invariant
            k <= unused.len(),
            was_wf ==> result.wf(),
            str_views(unused@) == ids,
            severity == unused_severity(*m),
            check == unused_finding(unused_severity(*m)),
            findings_of(result.errors@) == base + gather(ids.take(k as int), check),
        decreases unused.len() - k,
    {
        proof {
            lemma_gather_step(ids, check, k as int);
        }
        let ghost before = findings_of(result.errors@);
        let t: &str = unused[k];
        assert(t@ == ids[k as int]);
        report(result, "H002", "UnusedElementType",
            concat3("Element type '", t, "' is defined in concept model but not used in logic view"), severity,
            Some(String::from_str("logic_architecture_concept_model.element_types")));
        assert(findings_of(result.errors@) =~= before + check(k as int, ids[k as int]));
        k = k + 1;
    }
    proof {
        lemma_gather_all(ids, check);
    }
}

/// Whether some subsystem holds components.
pub(crate) fn any_subsystem_components(s: &Vec<Subsystem>) -> (r: bool)
    ensures
        r == subs_hold_components(s@),
{
    let mut i: usize = 0;
    while i < s.len()
        invariant
            i <= s.len(),
            forall|j: int| 0 <= j < i ==> #[trigger] s@[j].components@.len() == 0,
        decreases s.len() - i,
    {
        if s[i].components.len() > 0 {
            return true;
        }
        i = i + 1;
    }
    false
}

/// Whether some component holds modules.
pub(crate) fn any_component_modules(c: &Vec<Component>) -> (r: bool)
    ensures
        r == comps_hold_modules(c@),
{
    let mut i: usize = 0;
    while i < c.len()
        invariant
            i <= c.len(),
            forall|j: int| 0 <= j < i ==> #[trigger] c@[j].modules@.len() == 0,
        decreases c.len() - i,
    {
        if c[i].modules.len() > 0 {
            return true;
        }
        i = i + 1;
    }
    false
}

/// Whether some component of some subsystem holds modules.
pub(crate) fn any_subsystem_modules(s: &Vec<Subsystem>) -> (r: bool)
    ensures
        r == subs_hold_modules(s@),
{
    let mut i: usize = 0;
    while i < s.len()
        invariant
            i <= s.len(),
            forall|j: int| 0 <= j < i ==> !comps_hold_modules(#[trigger] s@[j].components@),
        decreases s.len() - i,
    {
        if any_component_modules(&s[i].components) {
            return true;
        }
        i = i + 1;
    }
    false
}

/// Whether some module of the list holds nested modules.
fn any_nested(l: &Vec<Module>) -> (r: bool)
    ensures
        r == nested(l@),
{
    let mut i: usize = 0;
    while i < l.len()
        invariant
            i <= l.len(),
            forall|j: int| 0 <= j < i ==> #[trigger] l@[j].modules@.len() == 0,
        decreases l.len() - i,
    {
        if l[i].modules.len() > 0 {
            return true;
        }
        i = i + 1;
    }
    false
}

/// Whether some component holds a module with nested modules.
fn any_component_nested(c: &Vec<Component>) -> (r: bool)
    ensures
        r == comps_nested(c@),
{
    let mut i: usize = 0;
    while i < c.len()
        invariant
            i <= c.len(),
            forall|j: int| 0 <= j < i ==> !nested(#[trigger] c@[j].modules@),
        decreases c.len() - i,
    {
        if any_nested(&c[i].modules) {
            return true;
        }
        i = i + 1;
    }
    false
}

/// Whether some component of some subsystem holds a module with nested modules.
fn any_subsystem_nested(s: &Vec<Subsystem>) -> (r: bool)
    ensures
        r == subs_nested(s@),
{
    let mut i: usize = 0;
    while i < s.len()
        invariant
            i <= s.len(),
            forall|j: int| 0 <= j < i ==> !comps_nested(#[trigger] s@[j].components@),
        decreases s.len() - i,
    {
        if any_component_nested(&s[i].components) {
            return true;
        }
        i = i + 1;
    }
    false
}

/// Adds `t` to the used types when `b` holds.
fn use_if<'a>(used: &mut Vec<&'a str>, b: bool, t: &'a str)
    ensures
        str_views(final(used)@) == str_views(old(used)@) + listed_if(b, t@),
{
    let ghost prev = used@;
    if b {
        used.push(t);
    }
    assert(str_views(used@) =~= str_views(prev) + listed_if(b, t@));
}

/// Adds the element types that a logic view instantiates.
fn collect_view_types(v: &LogicConceptDiagram, used: &mut Vec<&str>)
    ensures
        str_views(final(used)@) == str_views(old(used)@) + view_used_types(*v),
{
    let ghost start = str_views(used@);
    let sys = &v.system;
    use_if(used, sys.subsystems.len() > 0, "SUBSYSTEM");
    use_if(used, sys.components.len() > 0 || any_subsystem_components(&sys.subsystems), "COMPONENT");
    let has_modules = sys.modules.len() > 0 || any_component_modules(&sys.components)
        || any_subsystem_modules(&sys.subsystems);
    use_if(used, has_modules, "MODULE");
    let has_nested = any_nested(&sys.modules) || any_component_nested(&sys.components)
        || any_subsystem_nested(&sys.subsystems);
    use_if(used, has_nested, "SUBMODULE");
    assert(str_views(used@) =~= start + view_used_types(*v));
}

/// Reports each element type of the concept model that the logic view does
/// not instantiate (nested modules count as submodules).
pub fn validate_unused_element_types(
    logic_view: &LogicConceptDiagram,
    concept_model: &LogicArchitectureConceptModel,
    result: &mut ValidationResult,
)
    ensures
        old(result).wf() ==> final(result).wf(),
        findings_of(final(result).errors@) == findings_of(old(result).errors@)
            + unused_findings(*concept_model, view_used_types(*logic_view)),
{
    let mut used: Vec<&str> = Vec::new();
    assert(str_views(used@) =~= Seq::<Seq<char>>::empty());
    collect_view_types(logic_view, &mut used);
    assert(str_views(used@) =~= view_used_types(*logic_view));
    report_unused(concept_model, &used, result);
}

/// Whether some containment names `id` as its child.
pub open spec fn listed_child(cs: Seq<ElementContainment>, id: Seq<char>) -> bool {
    exists|i: int| 0 <= i < cs.len() && #[trigger] cs[i].child_id@ == id
}

/// An orphan element finding.
pub open spec fn o001(kind: Seq<char>, id: Seq<char>, loc: Seq<char>) -> Finding {
    finding("O001"@, "OrphanElement"@,
        kind + " '"@ + id + "' is not contained by any parent element. Add containment relationship."@,
        Severity::Error, Some(loc))
}

/// The finding on a subsystem that no containment lists as a child.
pub open spec fn orphan_subsystem(cs: Seq<ElementContainment>) -> spec_fn(int, Subsystem) -> Seq<Finding> {
    |i: int, s: Subsystem| finding_if(!listed_child(cs, s.id@), o001("Subsystem"@, s.id@, "subsystems."@ + s.id@))
}

/// The finding on a component that no containment lists as a child.
pub open spec fn orphan_component(cs: Seq<ElementContainment>) -> spec_fn(int, Component) -> Seq<Finding> {
    |i: int, c: Component| finding_if(!listed_child(cs, c.id@), o001("Component"@, c.id@, "components."@ + c.id@))
}

/// The finding on a system-level module that no containment lists as a child.
pub open spec fn orphan_module(cs: Seq<ElementContainment>) -> spec_fn(int, Module) -> Seq<Finding> {
    |i: int, md: Module| finding_if(!listed_child(cs, md.id@), o001("Module"@, md.id@, "modules."@ + md.id@))
}

/// The orphan findings of a logic view: when the concept model has
/// containment levels, each subsystem, component and system-level module
/// that no containment lists as a child; otherwise none.
pub open spec fn orphan_findings(v: LogicConceptDiagram, m: LogicArchitectureConceptModel) -> Seq<Finding> {
    if m.hierarchy.levels@.len() == 0 {
        Seq::empty()
    } else {
        let cs = v.containments@;
        gather(v.system.subsystems@, orphan_subsystem(cs))
            + gather(v.system.components@, orphan_component(cs))
            + gather(v.system.modules@, orphan_module(cs))
    }
}

/// Whether some containment names `id` as its child.
fn is_listed_child(cs: &Vec<ElementContainment>, id: &String) -> (r: bool)
    ensures
        r == listed_child(cs@, id@),
{
    let mut i: usize = 0;
    while i < cs.len()
        invariant
            i <= cs.len(),
            forall|j: int| 0 <= j < i ==> #[trigger] cs@[j].child_id@ != id@,
        decreases cs.len() - i,
    {
        if same_text(&cs[i].child_id, id) {
            return true;
        }
        i = i + 1;
    }
    false
}

/// Reports the subsystems that no containment lists as a child.
fn report_orphan_subsystems(cs: &Vec<ElementContainment>, items: &Vec<Subsystem>, result: &mut ValidationResult)
    ensures
        old(result).wf() ==> final(result).wf(),
        findings_of(final(result).errors@) == findings_of(old(result).errors@) + gather(items@, orphan_subsystem(cs@)),
{
    let ghost was_wf = result.wf();
    let ghost base = findings_of(result.errors@);
    let mut k: usize = 0;
    while k < items.len()
        invariant
            k <= items.len(),
            was_wf ==> result.wf(),
            findings_of(result.errors@) == base + gather(items@.take(k as int), orphan_subsystem(cs@)),
        decreases items.len() - k,
    {
        proof {
            lemma_gather_step(items@, orphan_subsystem(cs@), k as int);
        }
        let ghost before = findings_of(result.errors@);
        let id = &items[k].id;
        if !is_listed_child(cs, id) {
            report(result, "O001", "OrphanElement",
                concat4("Subsystem", " '", id.as_str(), "' is not contained by any parent element. Add containment relationship."),
                Severity::Error, Some(concat2("subsystems.", id.as_str())));
        }
        assert(findings_of(result.errors@) =~= before + orphan_subsystem(cs@)(k as int, items@[k as int]));
        k = k + 1;
    }
    proof {
        lemma_gather_all(items@, orphan_subsystem(cs@));
    }
}

/// Reports the components that no containment lists as a child.
fn report_orphan_components(cs: &Vec<ElementContainment>, items: &Vec<Component>, result: &mut ValidationResult)
    ensures
        old(result).wf() ==> final(result).wf(),
        findings_of(final(result).errors@) == findings_of(old(result).errors@) + gather(items@, orphan_component(cs@)),
{
    let ghost was_wf = result.wf();
    let ghost base = findings_of(result.errors@);
    let mut k: usize = 0;
    while k < items.len()
        invariant
            k <= items.len(),
            was_wf ==> result.wf(),
            findings_of(result.errors@) == base + gather(items@.take(k as int), orphan_component(cs@)),
        decreases items.len() - k,
    {
        proof {
            lemma_gather_step(items@, orphan_component(cs@), k as int);
        }
        let ghost before = findings_of(result.errors@);
        let id = &items[k].id;
        if !is_listed_child(cs, id) {
            report(result, "O001", "OrphanElement",
                concat4("Component", " '", id.as_str(), "' is not contained by any parent element. Add containment relationship."),
                Severity::Error, Some(concat2("components.", id.as_str())));
        }
        assert(findings_of(result.errors@) =~= before + orphan_component(cs@)(k as int, items@[k as int]));
        k = k + 1;
    }
    proof {
        lemma_gather_all(items@, orphan_component(cs@));
    }
}

/// Reports the system-level modules that no containment lists as a child.
fn report_orphan_modules(cs: &Vec<ElementContainment>, items: &Vec<Module>, result: &mut ValidationResult)
    ensures
        old(result).wf() ==> final(result).wf(),
        findings_of(final(result).errors@) == findings_of(old(result).errors@) + gather(items@, orphan_module(cs@)),
{
    let ghost was_wf = result.wf();
    let ghost base = findings_of(result.errors@);
    let mut k: usize = 0;
    while k < items.len()
        invariant
            k <= items.len(),
            was_wf ==> result.wf(),
            findings_of(result.errors@) == base + gather(items@.take(k as int), orphan_module(cs@)),
        decreases items.len() - k,
    {
        proof {
            lemma_gather_step(items@, orphan_module(cs@), k as int);
        }
        let ghost before = findings_of(result.errors@);
        let id = &items[k].id;
        if !is_listed_child(cs, id) {
            report(result, "O001", "OrphanElement",
                concat4("Module", " '", id.as_str(), "' is not contained by any parent element. Add containment relationship."),
                Severity::Error, Some(concat2("modules.", id.as_str())));
        }
        assert(findings_of(result.errors@) =~= before + orphan_module(cs@)(k as int, items@[k as int]));
        k = k + 1;
    }
    proof {
        lemma_gather_all(items@, orphan_module(cs@));
    }
}

/// Reports the subsystems, components and system-level modules of a logic
/// view that no containment lists as a child, when the concept model has
/// containment levels.
pub fn validate_orphan_elements(
    logic_view: &LogicConceptDiagram,
    concept_model: &LogicArchitectureConceptModel,
    result: &mut ValidationResult,
)
    ensures
        old(result).wf() ==> final(result).wf(),
        findings_of(final(result).errors@) == findings_of(old(result).errors@) + orphan_findings(*logic_view, *concept_model),
{
    let ghost start = findings_of(result.errors@);
    if concept_model.hierarchy.levels.len() == 0 {
        assert(findings_of(result.errors@) =~= start + orphan_findings(*logic_view, *concept_model));
        return;
    }
    let cs = &logic_view.containments;
    report_orphan_subsystems(cs, &logic_view.system.subsystems, result);
    report_orphan_components(cs, &logic_view.system.components, result);
    report_orphan_modules(cs, &logic_view.system.modules, result);
    assert(findings_of(result.errors@) =~= start + orphan_findings(*logic_view, *concept_model));
}

} // verus!
