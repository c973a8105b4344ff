use vstd::prelude::*;
use crate::cli::args::LogicAddCommand;
use crate::cli::commands::context_model::given_or_id;
use crate::model::logic::concept::{LogicConceptDiagram, Module, Component, Subsystem, DiagramKind};
use crate::model::logic::concept_model::{LogicArchitectureConceptModel, has_type, level_of};
use crate::model::workspace::Workspace;
use crate::store::LogicOperations;
use crate::store::logic_operations::{
    same_header, same_links, add_subsystem_post, add_component_post, add_component_to_subsystem_post,
    add_module_to_system_post, add_submodule_post, add_standalone_interface_post, add_provide_relation_post,
    add_element_containment_post, add_dependency_simple_post, expose_interface_post,
    is_first_tree, is_first_comp_with, is_first_sub_with, comps_have, forest_has, component_site, iface_known,
    tree_holds, lemma_first_tree_unique, first_component_with, locate_component,
};
use crate::utils::error::{AppError, ErrorKind, Result, fails_with};
use crate::utils::keyed::{has_key, contains_key};
use crate::utils::text::{
    uppercase, to_upper, has_text, contains_text, same_text, to_owned_string, copy_string, concat2, concat5, opt_view,
    as_opt_str,
};

verus! {

/// The kinds of elements of a logic view, as containment rules name them.
#[derive(Debug, Clone, Copy, PartialEq, Eq, Structural)]
pub enum ElementKind {
    System,
    Subsystem,
    Component,
    Submodule,
    Module,
    Interface,
}

/// The name of a kind in containment rules.
pub open spec fn kind_name(k: ElementKind) -> Seq<char> {
    match k {
        ElementKind::System => "SYSTEM"@,
        ElementKind::Subsystem => "SUBSYSTEM"@,
        ElementKind::Component => "COMPONENT"@,
        ElementKind::Submodule => "SUBMODULE"@,
        ElementKind::Module => "MODULE"@,
        ElementKind::Interface => "INTERFACE"@,
    }
}

/// The name of a kind as the concept-model commands take it.
pub open spec fn kind_word(k: ElementKind) -> Seq<char> {
    match k {
        ElementKind::System => "system"@,
        ElementKind::Subsystem => "subsystem"@,
        ElementKind::Component => "component"@,
        ElementKind::Submodule => "submodule"@,
        ElementKind::Module => "module"@,
        ElementKind::Interface => "interface"@,
    }
}

/// The name of a kind in containment rules.
pub fn kind_name_str(k: ElementKind) -> (r: &'static str)
    ensures
        r@ == kind_name(k),
{
    match k {
        ElementKind::System => "SYSTEM",
        ElementKind::Subsystem => "SUBSYSTEM",
        ElementKind::Component => "COMPONENT",
        ElementKind::Submodule => "SUBMODULE",
        ElementKind::Module => "MODULE",
        ElementKind::Interface => "INTERFACE",
    }
}

/// The name of a kind as the concept-model commands take it.
pub fn kind_word_str(k: ElementKind) -> (r: &'static str)
    ensures
        r@ == kind_word(k),
{
    match k {
        ElementKind::System => "system",
        ElementKind::Subsystem => "subsystem",
        ElementKind::Component => "component",
        ElementKind::Submodule => "submodule",
        ElementKind::Module => "module",
        ElementKind::Interface => "interface",
    }
}

/// The kind of a module found in the first tree of `l` holding `id`: a
/// submodule when it is nested below that tree's root.
pub open spec fn forest_kind(l: Seq<Module>, id: Seq<char>) -> ElementKind {
    let k = choose|k: int| is_first_tree(l, id, k);
    if l[k].id@ == id { ElementKind::Module } else { ElementKind::Submodule }
}

/// The kind of the module with ID `id` in the first component holding it.
pub open spec fn components_kind(c: Seq<Component>, id: Seq<char>) -> Option<ElementKind> {
    if comps_have(c, id) {
        Some(forest_kind(c[choose|i: int| is_first_comp_with(c, id, i)].modules@, id))
    } else {
        None
    }
}

/// The kind of the module with ID `id` in the first subsystem's component holding it.
pub open spec fn subsystems_kind(s: Seq<Subsystem>, id: Seq<char>) -> Option<ElementKind> {
    if exists|k: int| is_first_sub_with(s, id, k) {
        components_kind(s[choose|k: int| is_first_sub_with(s, id, k)].components@, id)
    } else {
        None
    }
}

/// The kind of the element with ID `id`: the system, a subsystem, a
/// component, a recorded submodule, a system-level module, a module in a
/// component (a submodule when nested in another), or an interface.
pub open spec fn element_kind_of(d: LogicConceptDiagram, id: Seq<char>) -> Option<ElementKind> {
    if d.system.id@ == id {
        Some(ElementKind::System)
    } else if has_key(d.system.subsystems@, id) {
        Some(ElementKind::Subsystem)
    } else if component_site(d.system, id) is Some {
        Some(ElementKind::Component)
    } else if has_text(d.submodule_ids@, id) {
        Some(ElementKind::Submodule)
    } else if has_key(d.system.modules@, id) {
        Some(ElementKind::Module)
    } else if components_kind(d.system.components@, id) is Some {
        components_kind(d.system.components@, id)
    } else if subsystems_kind(d.system.subsystems@, id) is Some {
        subsystems_kind(d.system.subsystems@, id)
    } else if iface_known(d, id) {
        Some(ElementKind::Interface)
    } else {
        None
    }
}

/// The kind of the module in the first tree of `l` holding `id`.
fn module_kind_in(l: &Vec<Module>, id: &String) -> (r: ElementKind)
    requires
        forest_has(l@, id@),
    ensures
        r == forest_kind(l@, id@),
{
    let mut k: usize = 0;
    while k < l.len()
        invariant
            k <= l.len(),
            forest_has(l@, id@),
            forall|j: int| 0 <= j < k ==> !crate::store::logic_operations::tree_has(#[trigger] l@[j], id@),
        decreases l.len() - k,
    {
        if tree_holds(&l[k], id) {
            proof {
                assert(is_first_tree(l@, id@, k as int));
                lemma_first_tree_unique(l@, id@, k as int);
            }
            if same_text(&l[k].id, id) {
                return ElementKind::Module;
            } else {
                return ElementKind::Submodule;
            }
        }
        k = k + 1;
    }
    proof {
        let w = choose|w: int| 0 <= w < l@.len() && crate::store::logic_operations::tree_has(#[trigger] l@[w], id@);
        assert(!crate::store::logic_operations::tree_has(l@[w], id@));
    }
    ElementKind::Module
}

/// The kind of the module with ID `id` in the first component holding it.
fn kind_in_components(c: &Vec<Component>, id: &String) -> (r: Option<ElementKind>)
    ensures
        r == components_kind(c@, id@),
{
    match first_component_with(c, id) {
        Some(i) => Some(module_kind_in(&c[i].modules, id)),
        None => None,
    }
}

/// The kind of the module with ID `id` in the first subsystem's component holding it.
fn kind_in_subsystems(s: &Vec<Subsystem>, id: &String) -> (r: Option<ElementKind>)
    ensures
        r == subsystems_kind(s@, id@),
{
    let mut k: usize = 0;
    while k < s.len()
        invariant
            k <= s.len(),
            forall|j: int| 0 <= j < k ==> !comps_have(#[trigger] s@[j].components@, id@),
        decreases s.len() - k,
    {
        match first_component_with(&s[k].components, id) {
            Some(i) => {
                proof {
                    assert(is_first_sub_with(s@, id@, k as int));
                    let w = choose|j: int| is_first_sub_with(s@, id@, j);
                    if w < k {
                        assert(!comps_have(s@[w].components@, id@));
                    }
                    if k < w {
                        assert(!comps_have(s@[k as int].components@, id@));
                    }
                }
                return Some(module_kind_in(&s[k].components[i].modules, id));
            },
            None => {},
        }
        k = k + 1;
    }
    proof {
        if exists|j: int| is_first_sub_with(s@, id@, j) {
            let w = choose|j: int| is_first_sub_with(s@, id@, j);
            assert(!comps_have(s@[w].components@, id@));
        }
    }
    None
}

/// The kind of the element with ID `id`.
pub fn element_kind(d: &LogicConceptDiagram, id: &str) -> (r: Option<ElementKind>)
    ensures
        r == element_kind_of(*d, id@),
{
    let key = to_owned_string(id);
    let sys = &d.system;
    if same_text(&sys.id, &key) {
        return Some(ElementKind::System);
    }
    if contains_key(&sys.subsystems, &key) {
        return Some(ElementKind::Subsystem);
    }
    if locate_component(sys, &key).is_some() {
        return Some(ElementKind::Component);
    }
    if contains_text(&d.submodule_ids, &key) {
        return Some(ElementKind::Submodule);
    }
    if contains_key(&sys.modules, &key) {
        return Some(ElementKind::Module);
    }
    let in_components = kind_in_components(&sys.components, &key);
    if in_components.is_some() {
        return in_components;
    }
    let in_subsystems = kind_in_subsystems(&sys.subsystems, &key);
    if in_subsystems.is_some() {
        return in_subsystems;
    }
    if crate::store::logic_operations::interface_defined(d, &key) {
        return Some(ElementKind::Interface);
    }
    None
}

/// The message when the concept model is missing.
pub open spec fn concept_missing_message() -> Seq<char> {
    "Logic Architecture Concept Model not initialized. Run 'concept-model init' first."@
}

/// Whether the concept model lets kind `p` contain kind `c`, as
/// `has_containment` checks it.
pub open spec fn rule_allows(m: LogicArchitectureConceptModel, p: ElementKind, c: ElementKind) -> bool {
    match level_of(m.hierarchy.levels@, uppercase(kind_name(p))) {
        Some(l) => has_text(l.can_contain@, uppercase(kind_name(c))),
        None => false,
    }
}

/// What `check_element_type_allowed` answers: an element of a type may be
/// added only when the concept model exists and defines the type.
pub open spec fn element_type_allowed_post(w: Workspace, type_label: Seq<char>, r: Result<()>) -> bool {
    match w.logic_architecture_concept_model {
        None => fails_with(r, ErrorKind::InvalidOperation, concept_missing_message()),
        Some(m) => if has_type(m.element_types@, type_label) {
            r is Ok
        } else {
            fails_with(r, ErrorKind::InvalidOperation,
                "Element type '"@ + uppercase(type_label)
                    + "' is not defined in the concept model. Add it first with 'concept-model add element "@
                    + type_label + "'"@)
        },
    }
}

/// Refuses an element type that the concept model does not define.
pub fn check_element_type_allowed(workspace: &Workspace, type_label: &str) -> (r: Result<()>)
    ensures
        element_type_allowed_post(*workspace, type_label@, r),
{
    match &workspace.logic_architecture_concept_model {
        None => Err(AppError::InvalidOperation(String::from_str(
            "Logic Architecture Concept Model not initialized. Run 'concept-model init' first.",
        ))),
        Some(model) => {
            if model.has_element_type(type_label) {
                Ok(())
            } else {
                let upper = to_upper(type_label);
                Err(AppError::InvalidOperation(concat5(
                    "Element type '",
                    upper.as_str(),
                    "' is not defined in the concept model. Add it first with 'concept-model add element ",
                    type_label,
                    "'",
                )))
            }
        },
    }
}

/// What `check_containment_allowed` answers: with a concept model and a
/// logic view, both ends must be elements of the logic view, and the concept
/// model must let the parent's kind contain the child's kind.
pub open spec fn containment_allowed_post(w: Workspace, parent: Seq<char>, child: Seq<char>, r: Result<()>) -> bool {
    match w.logic_architecture_concept_model {
        None => fails_with(r, ErrorKind::InvalidOperation, concept_missing_message()),
        Some(m) => match w.logic_view {
            None => r is Ok,
            Some(d) => match (element_kind_of(d, parent), element_kind_of(d, child)) {
                (Some(p), Some(c)) => if rule_allows(m, p, c) {
                    r is Ok
                } else {
                    fails_with(r, ErrorKind::InvalidOperation,
                        "Concept model does not allow '"@ + kind_name(p) + "' to contain '"@ + kind_name(c)
                            + "'. Add containment with 'concept-model add containment "@ + kind_word(p) + " "@
                            + kind_word(c) + "'"@)
                },
                (None, _) => fails_with(r, ErrorKind::ElementNotFound, "parent element: "@ + parent),
                (_, None) => fails_with(r, ErrorKind::ElementNotFound, "child element: "@ + child),
            },
        },
    }
}

/// Refuses a containment that the concept model does not allow.
pub fn check_containment_allowed(workspace: &Workspace, parent_id: &str, child_id: &str) -> (r: Result<()>)
    ensures
        containment_allowed_post(*workspace, parent_id@, child_id@, r),
{
    let model = match &workspace.logic_architecture_concept_model {
        Some(m) => m,
        None => {
            return Err(AppError::InvalidOperation(String::from_str(
                "Logic Architecture Concept Model not initialized. Run 'concept-model init' first.",
            )));
        },
    };
    let logic = match &workspace.logic_view {
        Some(d) => d,
        None => {
            return Ok(());
        },
    };
    let pk = element_kind(logic, parent_id);
    let ck = element_kind(logic, child_id);
    match pk {
        Some(p) => match ck {
            Some(c) => {
                if !model.has_containment(kind_name_str(p), kind_name_str(c)) {
                    let head = concat5("Concept model does not allow '", kind_name_str(p), "' to contain '", kind_name_str(c),
                        "'. Add containment with 'concept-model add containment ");
                    return Err(AppError::InvalidOperation(concat5(head.as_str(), kind_word_str(p), " ", kind_word_str(c), "'")));
                }
                Ok(())
            },
            None => Err(AppError::ElementNotFound(concat2("child element: ", child_id))),
        },
        None => Err(AppError::ElementNotFound(concat2("parent element: ", parent_id))),
    }
}

/// `w1` is `w0` with the logic view `d` and a new modification time.
pub open spec fn with_logic_view(w0: Workspace, w1: Workspace, d: LogicConceptDiagram) -> bool {
    &&& w1.logic_view == Some(d)
    &&& w1.version == w0.version
    &&& w1.metadata.title == w0.metadata.title
    &&& w1.metadata.description == w0.metadata.description
    &&& w1.metadata.created_at == w0.metadata.created_at
    &&& w1.metadata.updated_at >= 0
    &&& w1.context_diagram == w0.context_diagram
    &&& w1.logic_architecture_concept_model == w0.logic_architecture_concept_model
    &&& w1.runtime_view == w0.runtime_view
    &&& w1.code_model == w0.code_model
    &&& w1.build_model == w0.build_model
    &&& w1.delivery_model == w0.delivery_model
    &&& w1.deployment_model == w0.deployment_model
}

/// The title of the logic view of system `id`.
pub open spec fn logic_title(id: Seq<char>) -> Seq<char> {
    id + " Logic Concept Diagram"@
}

/// A new logic view of system `id`, as `LogicConceptDiagram::new` makes it
/// under the title `logic_title(id)`.
pub open spec fn fresh_logic_view(d: LogicConceptDiagram, id: Seq<char>) -> bool {
    &&& d.version@ == "1.0"@
    &&& d.kind == DiagramKind::LogicConceptDiagram
    &&& d.metadata.title@ == logic_title(id)
    &&& d.metadata.created_at >= 0
    &&& d.metadata.updated_at >= 0
    &&& d.metadata.description is None
    &&& d.system.id@ == id
    &&& d.system.name@ == id
    &&& d.system.description is None
    &&& d.system.subsystems@.len() == 0
    &&& d.system.components@.len() == 0
    &&& d.system.modules@.len() == 0
    &&& d.system.interfaces@.len() == 0
    &&& d.provide_relations@.len() == 0
    &&& d.containments@.len() == 0
    &&& d.submodule_ids@.len() == 0
    &&& d.dependencies@.len() == 0
}

/// A new workspace for system `id`: titled like its logic view, and holding
/// only a new logic view of the system.
pub open spec fn new_system_workspace(w: Workspace, id: Seq<char>) -> bool {
    &&& w.version@ == "1.0"@
    &&& w.metadata.title@ == logic_title(id)
    &&& w.metadata.created_at >= 0
    &&& w.metadata.updated_at >= 0
    &&& w.metadata.description is None
    &&& w.context_diagram is None
    &&& w.logic_architecture_concept_model is None
    &&& (w.logic_view matches Some(d) && fresh_logic_view(d, id))
    &&& w.runtime_view is None
    &&& w.code_model is None
    &&& w.build_model is None
    &&& w.delivery_model is None
    &&& w.deployment_model is None
}

/// The message when there is no logic view to add to.
pub open spec fn logic_missing_message() -> Seq<char> {
    "Logic view does not exist in workspace. Create it first with 'add system' command."@
}

/// The message for an element type that names none of the kinds of a logic view.
pub open spec fn unknown_type_message(type_label: Seq<char>) -> Seq<char> {
    "Unknown element type: "@ + type_label
}

/// Whether workspace `w` has no logic view for the command to work on: it
/// has none, no context diagram to take the system from, and the command
/// does not add the system.
pub open spec fn no_view_to_edit(w: Workspace, cmd: LogicAddCommand) -> bool {
    &&& w.logic_view is None
    &&& w.context_diagram is None
    &&& !(cmd is System)
}

/// The logic view that an add command works on in workspace `w`: its own;
/// else a new one for the context diagram's system; else a new one for the
/// system that the command adds.
pub open spec fn view_to_edit(w: Workspace, cmd: LogicAddCommand, d: LogicConceptDiagram) -> bool {
    match w.logic_view {
        Some(x) => d == x,
        None => match w.context_diagram {
            Some(c) => fresh_logic_view(d, c.system.id@),
            None => cmd matches LogicAddCommand::System { id, .. } && fresh_logic_view(d, id@),
        },
    }
}

/// The system of `d1` has the ID, name and description given; the rest is
/// `d0`'s, under a new modification time.
pub open spec fn system_set(
    d0: LogicConceptDiagram, d1: LogicConceptDiagram, id: Seq<char>, name: Seq<char>, description: Option<Seq<char>>,
) -> bool {
    &&& same_header(d0, d1)
    &&& same_links(d0, d1)
    &&& d1.system.id@ == id
    &&& d1.system.name@ == name
    &&& opt_view(d1.system.description) == description
    &&& d1.system.subsystems == d0.system.subsystems
    &&& d1.system.components == d0.system.components
    &&& d1.system.modules == d0.system.modules
    &&& d1.system.interfaces == d0.system.interfaces
}

/// The element type that the concept model must define before an add
/// command runs, if any: the command's own kind, or the upper-cased type
/// that a generic element names.
pub open spec fn required_type(cmd: LogicAddCommand) -> Option<Seq<char>> {
    match cmd {
        LogicAddCommand::Subsystem { .. } => Some("SUBSYSTEM"@),
        LogicAddCommand::Component { .. } => Some("COMPONENT"@),
        LogicAddCommand::Module { .. } => Some("MODULE"@),
        LogicAddCommand::Submodule { .. } => Some("SUBMODULE"@),
        LogicAddCommand::Element { type_label, .. } => Some(uppercase(type_label@)),
        _ => None,
    }
}

/// What the concept-model check before an add command answers: the
/// containment rule for a containment, the element type for the commands
/// that add an element, and nothing to refuse for the others.
pub open spec fn concept_check_post(w: Workspace, cmd: LogicAddCommand, g: Result<()>) -> bool {
    match cmd {
        LogicAddCommand::Containment { parent_id, child_id } => containment_allowed_post(w, parent_id@, child_id@, g),
        _ => match required_type(cmd) {
            Some(t) => element_type_allowed_post(w, t, g),
            None => g is Ok,
        },
    }
}

/// What an add command does to a logic view (see the operations). A generic
/// element goes by its upper-cased type to the operation of that kind.
pub open spec fn logic_add_post(d0: LogicConceptDiagram, d1: LogicConceptDiagram, cmd: LogicAddCommand, r: Result<()>) -> bool {
    match cmd {
        LogicAddCommand::System { id, name, desc } => r is Ok && system_set(d0, d1, id@, given_or_id(name, id), opt_view(desc)),
        LogicAddCommand::Subsystem { id, name, desc } =>
            add_subsystem_post(d0, d1, id@, given_or_id(name, id), opt_view(desc), r),
        LogicAddCommand::Component { id, name, desc, subsystem } => match subsystem {
            None => add_component_post(d0, d1, id@, given_or_id(name, id), opt_view(desc), r),
            Some(s) => add_component_to_subsystem_post(d0, d1, s@, id@, given_or_id(name, id), opt_view(desc), r),
        },
        LogicAddCommand::Module { id, name, desc } =>
            add_module_to_system_post(d0, d1, id@, given_or_id(name, id), opt_view(desc), r),
        LogicAddCommand::Submodule { id, name, desc } =>
            add_submodule_post(d0, d1, id@, given_or_id(name, id), opt_view(desc), r),
        LogicAddCommand::Element { type_label, id, name, desc } => {
            let t = uppercase(type_label@);
            if t == "SUBSYSTEM"@ {
                add_subsystem_post(d0, d1, id@, given_or_id(name, id), opt_view(desc), r)
            } else if t == "COMPONENT"@ {
                add_component_post(d0, d1, id@, given_or_id(name, id), opt_view(desc), r)
            } else if t == "MODULE"@ {
                add_module_to_system_post(d0, d1, id@, given_or_id(name, id), opt_view(desc), r)
            } else if t == "SUBMODULE"@ {
                add_submodule_post(d0, d1, id@, given_or_id(name, id), opt_view(desc), r)
            } else {
                fails_with(r, ErrorKind::InvalidOperation, unknown_type_message(type_label@)) && d1 == d0
            }
        },
        LogicAddCommand::Interface { id, name, desc } =>
            add_standalone_interface_post(d0, d1, id@, given_or_id(name, id), opt_view(desc), r),
        LogicAddCommand::ProvideRelation { element_id, interface_id } =>
            add_provide_relation_post(d0, d1, element_id@, interface_id@, r),
        LogicAddCommand::Containment { parent_id, child_id } =>
            add_element_containment_post(d0, d1, parent_id@, child_id@, r),
        LogicAddCommand::Dependency { module_id, interface_id } =>
            add_dependency_simple_post(d0, d1, module_id@, interface_id@, r),
        LogicAddCommand::Expose { component_id, interface_id } =>
            expose_interface_post(d0, d1, component_id@, interface_id@, r),
    }
}

/// The outcome of applying an add command to view `d0` of workspace `w0`.
pub open spec fn logic_edit_outcome(w0: Workspace, d0: LogicConceptDiagram, cmd: LogicAddCommand, r: Result<Workspace>) -> bool {
    match r {
        Ok(w1) => exists|d1: LogicConceptDiagram| logic_add_post(d0, d1, cmd, Ok(())) && with_logic_view(w0, w1, d1),
        Err(e) => exists|d1: LogicConceptDiagram| logic_add_post(d0, d1, cmd, Err(e)),
    }
}

/// The outcome of an add command on workspace `w0`: refused when there is no
/// logic view to work on; else checked against the concept model, and, when
/// the check passes, applied to the view that `view_to_edit` names.
pub open spec fn workspace_outcome(w0: Workspace, cmd: LogicAddCommand, r: Result<Workspace>) -> bool {
    if no_view_to_edit(w0, cmd) {
        fails_with(r, ErrorKind::InvalidOperation, logic_missing_message())
    } else {
        exists|g: Result<()>| #[trigger] concept_check_post(w0, cmd, g) && match g {
            Ok(()) => exists|d0: LogicConceptDiagram| #[trigger] view_to_edit(w0, cmd, d0)
                && logic_edit_outcome(w0, d0, cmd, r),
            Err(e) => r is Err && r->Err_0 == e,
        }
    }
}

/// The outcome of an add command on the workspace read from the file (`None`
/// when there is none, which only adding the system may start: it gets a new
/// workspace that holds a new logic view of the system).
pub open spec fn add_outcome(w: Option<Workspace>, cmd: LogicAddCommand, r: Result<Workspace>) -> bool {
    match w {
        Some(w0) => workspace_outcome(w0, cmd, r),
        None => exists|w0: Workspace| #[trigger] new_system_workspace(w0, cmd->System_id@) && workspace_outcome(w0, cmd, r),
    }
}

/// Sets the system's ID, name (the ID when none is given) and description.
fn set_system(diagram: &mut LogicConceptDiagram, id: String, name: Option<String>, desc: Option<String>)
    ensures
        system_set(*old(diagram), *final(diagram), id@, given_or_id(name, id), opt_view(desc)),
{
    let shown = match name {
        Some(n) => n,
        None => copy_string(&id),
    };
    diagram.system.name = shown;
    diagram.system.id = id;
    diagram.system.description = desc;
    diagram.touch();
}

/// Applies an add command to a logic view.
pub fn apply_to_logic_view(diagram: &mut LogicConceptDiagram, cmd: LogicAddCommand) -> (r: Result<()>)
    ensures
        logic_add_post(*old(diagram), *final(diagram), cmd, r),
{
    match cmd {
        LogicAddCommand::System { id, name, desc } => {
            set_system(diagram, id, name, desc);
            Ok(())
        },
        LogicAddCommand::Subsystem { id, name, desc } =>
            LogicOperations::add_subsystem(diagram, id.as_str(), as_opt_str(&name), as_opt_str(&desc)),
        LogicAddCommand::Component { id, name, desc, subsystem } => match subsystem {
            None => LogicOperations::add_component(diagram, id.as_str(), as_opt_str(&name), as_opt_str(&desc)),
            Some(s) => LogicOperations::add_component_to_subsystem(diagram, s.as_str(), id.as_str(), as_opt_str(&name),
                as_opt_str(&desc)),
        },
        LogicAddCommand::Module { id, name, desc } =>
            LogicOperations::add_module_to_system(diagram, id.as_str(), as_opt_str(&name), as_opt_str(&desc)),
        LogicAddCommand::Submodule { id, name, desc } =>
            LogicOperations::add_submodule(diagram, id.as_str(), as_opt_str(&name), as_opt_str(&desc)),
        LogicAddCommand::Element { type_label, id, name, desc } => {
            let t = to_upper(type_label.as_str());
            if same_text(&t, &to_owned_string("SUBSYSTEM")) {
                LogicOperations::add_subsystem(diagram, id.as_str(), as_opt_str(&name), as_opt_str(&desc))
            } else if same_text(&t, &to_owned_string("COMPONENT")) {
                LogicOperations::add_component(diagram, id.as_str(), as_opt_str(&name), as_opt_str(&desc))
            } else if same_text(&t, &to_owned_string("MODULE")) {
                LogicOperations::add_module_to_system(diagram, id.as_str(), as_opt_str(&name), as_opt_str(&desc))
            } else if same_text(&t, &to_owned_string("SUBMODULE")) {
                LogicOperations::add_submodule(diagram, id.as_str(), as_opt_str(&name), as_opt_str(&desc))
            } else {
                Err(AppError::InvalidOperation(concat2("Unknown element type: ", type_label.as_str())))
            }
        },
        LogicAddCommand::Interface { id, name, desc } =>
            LogicOperations::add_standalone_interface(diagram, id.as_str(), as_opt_str(&name), as_opt_str(&desc)),
        LogicAddCommand::ProvideRelation { element_id, interface_id } =>
            LogicOperations::add_provide_relation(diagram, element_id.as_str(), interface_id.as_str()),
        LogicAddCommand::Containment { parent_id, child_id } =>
            LogicOperations::add_element_containment(diagram, parent_id.as_str(), child_id.as_str()),
        LogicAddCommand::Dependency { module_id, interface_id } =>
            LogicOperations::add_dependency_simple(diagram, module_id.as_str(), interface_id.as_str()),
        LogicAddCommand::Expose { component_id, interface_id } =>
            LogicOperations::expose_interface(diagram, component_id.as_str(), interface_id.as_str()),
    }
}

/// The concept-model check that an add command calls for.
pub fn check_concept(workspace: &Workspace, cmd: &LogicAddCommand) -> (g: Result<()>)
    ensures
        concept_check_post(*workspace, *cmd, g),
{
    match cmd {
        LogicAddCommand::Subsystem { .. } => check_element_type_allowed(workspace, "SUBSYSTEM"),
        LogicAddCommand::Component { .. } => check_element_type_allowed(workspace, "COMPONENT"),
        LogicAddCommand::Module { .. } => check_element_type_allowed(workspace, "MODULE"),
        LogicAddCommand::Submodule { .. } => check_element_type_allowed(workspace, "SUBMODULE"),
        LogicAddCommand::Element { type_label, .. } => {
            let t = to_upper(type_label.as_str());
            check_element_type_allowed(workspace, t.as_str())
        },
        LogicAddCommand::Containment { parent_id, child_id } =>
            check_containment_allowed(workspace, parent_id.as_str(), child_id.as_str()),
        _ => Ok(()),
    }
}

/// A new logic view of system `id`.
fn new_logic_view(id: &str) -> (d: LogicConceptDiagram)
    ensures
        fresh_logic_view(d, id@),
{
    let title = concat2(id, " Logic Concept Diagram");
    LogicConceptDiagram::new(id, title.as_str())
}

fn store_logic_view(workspace: Workspace, d: LogicConceptDiagram) -> (w: Workspace)
    ensures
        with_logic_view(workspace, w, d),
{
    let mut w = workspace;
    w.logic_view = Some(d);
    w.touch();
    w
}

/// Applies an add command to the workspace, which has a logic view to work on.
fn edit_workspace(workspace: Workspace, cmd: LogicAddCommand) -> (r: Result<Workspace>)
    ensures
        workspace_outcome(workspace, cmd, r),
{
    let ghost w0 = workspace;
    let ghost c = cmd;
    let adds_system = match &cmd {
        LogicAddCommand::System { .. } => true,
        _ => false,
    };
    if workspace.logic_view.is_none() && workspace.context_diagram.is_none() && !adds_system {
        return Err(AppError::InvalidOperation(String::from_str(
            "Logic view does not exist in workspace. Create it first with 'add system' command.",
        )));
    }
    let g = check_concept(&workspace, &cmd);
    match g {
        Err(e) => {
            assert(concept_check_post(w0, c, g));
            return Err(e);
        },
        Ok(()) => {},
    }
    let mut w = workspace;
    let d0 = match w.logic_view.take() {
        Some(d) => d,
        None => match &w.context_diagram {
            Some(ctx) => new_logic_view(ctx.system.id.as_str()),
            None => match &cmd {
                LogicAddCommand::System { id, .. } => new_logic_view(id.as_str()),
                _ => new_logic_view(""),
            },
        },
    };
    assert(view_to_edit(w0, c, d0));
    let mut v = d0;
    match apply_to_logic_view(&mut v, cmd) {
        Ok(()) => {
            let w1 = store_logic_view(w, v);
            assert(logic_add_post(d0, v, c, Ok(())) && with_logic_view(w0, w1, v));
            assert(logic_edit_outcome(w0, d0, c, Ok(w1)));
            assert(concept_check_post(w0, c, g));
            Ok(w1)
        },
        Err(e) => {
            assert(logic_add_post(d0, v, c, Err(e)));
            assert(logic_edit_outcome(w0, d0, c, Err(e)));
            assert(concept_check_post(w0, c, g));
            Err(e)
        },
    }
}

/// A new workspace for the system that the command adds.
fn new_system_workspace_for(cmd: &LogicAddCommand) -> (w: Workspace)
    requires
        *cmd is System,
    ensures
        new_system_workspace(w, cmd->System_id@),
{
    let id = match cmd {
        LogicAddCommand::System { id, .. } => id.as_str(),
        _ => "",
    };
    let title = concat2(id, " Logic Concept Diagram");
    let mut w = Workspace::new(title.as_str());
    w.logic_view = Some(LogicConceptDiagram::new(id, title.as_str()));
    w
}

/// Applies an add command to the workspace read from the file (`None` when
/// there is none, which only adding the system may start), and gives back the
/// workspace to write.
pub fn apply_add(workspace: Option<Workspace>, cmd: LogicAddCommand) -> (r: Result<Workspace>)
    requires
        workspace is None ==> cmd is System,
    ensures
        add_outcome(workspace, cmd, r),
{
    match workspace {
        Some(w) => edit_workspace(w, cmd),
        None => {
            let w0 = new_system_workspace_for(&cmd);
            let ghost c = cmd;
            let r = edit_workspace(w0, cmd);
            assert(new_system_workspace(w0, c->System_id@) && workspace_outcome(w0, c, r));
            r
        },
    }
}

} // verus!
