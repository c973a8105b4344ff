use vstd::prelude::*;
use crate::cli::args::{ConceptModelAddCommand, ConceptModelRemoveCommand};
use crate::cli::commands::context_model::{fresh_workspace, given_or_id};
use crate::model::logic::concept_model::{
    LogicArchitectureConceptModel, ConceptModelKind, LevelDefinition, has_type, element_type_added,
    containment_added,
};
use crate::model::workspace::Workspace;
use crate::utils::error::{AppError, ErrorKind, Result, fails_with};
use crate::utils::keyed::{has_key, is_first_key, key_differs, position_of};
use crate::utils::text::{uppercase, concat2, concat4, copy_string};

verus! {

/// The title of a concept model created on demand.
pub open spec fn default_concept_title() -> Seq<char> {
    "Logic Architecture Concept Model"@
}

/// The title of the workspace used when the model file does not exist.
pub open spec fn new_project_title() -> Seq<char> {
    "New Project"@
}

/// The error message for a command that needs a concept model and finds none.
pub open spec fn no_concept_message() -> Seq<char> {
    "Concept model not found. Run 'init' first."@
}

/// A new concept model as `LogicArchitectureConceptModel::new(title)` makes it.
pub open spec fn fresh_concept(m: LogicArchitectureConceptModel, title: Seq<char>) -> bool {
    &&& m.version@ == "1.0"@
    &&& m.kind == ConceptModelKind::LogicArchitectureConceptModel
    &&& m.metadata.title@ == title
    &&& m.metadata.created_at >= 0
    &&& m.metadata.updated_at >= 0
    &&& m.metadata.description is None
    &&& m.hierarchy.levels@.len() == 0
    &&& m.element_types@.len() == 0
}

/// `w1` is `w0` with the concept model `m` and a new modification time.
pub open spec fn with_concept_model(w0: Workspace, w1: Workspace, m: LogicArchitectureConceptModel) -> bool {
    &&& w1.logic_architecture_concept_model == Some(m)
    &&& w1.version == w0.version
    &&& w1.metadata.title == w0.metadata.title
    &&& w1.metadata.description == w0.metadata.description
    &&& w1.metadata.created_at == w0.metadata.created_at
    &&& w1.metadata.updated_at >= 0
    &&& w1.context_diagram == w0.context_diagram
    &&& w1.logic_view == w0.logic_view
    &&& w1.runtime_view == w0.runtime_view
    &&& w1.code_model == w0.code_model
    &&& w1.build_model == w0.build_model
    &&& w1.delivery_model == w0.delivery_model
    &&& w1.deployment_model == w0.deployment_model
}

/// `m1` keeps the version and kind of `m0`.
pub open spec fn same_kind(m0: LogicArchitectureConceptModel, m1: LogicArchitectureConceptModel) -> bool {
    m1.version == m0.version && m1.kind == m0.kind
}

/// What an add command does to a concept model.
pub open spec fn add_model_post(
    m0: LogicArchitectureConceptModel,
    m1: LogicArchitectureConceptModel,
    cmd: ConceptModelAddCommand,
    r: Result<()>,
) -> bool {
    match cmd {
        ConceptModelAddCommand::Element { element_type } => if has_type(m0.element_types@, uppercase(element_type@)) {
            fails_with(r, ErrorKind::ElementAlreadyExists, "element type: "@ + element_type@)
        } else {
            &&& r is Ok
            &&& element_type_added(m0.element_types, m1.element_types, element_type@, true)
            &&& m1.hierarchy == m0.hierarchy
            &&& same_kind(m0, m1)
        },
        ConceptModelAddCommand::Containment { parent, child } => {
            &&& exists|added: bool| {
                &&& containment_added(m0.hierarchy.levels@, m1.hierarchy.levels@, parent@, child@, added)
                &&& added ==> r is Ok
                &&& !added ==> fails_with(r, ErrorKind::ElementAlreadyExists,
                    "containment: "@ + parent@ + " -> "@ + child@)
            }
            &&& m1.element_types == m0.element_types
            &&& same_kind(m0, m1)
        },
        ConceptModelAddCommand::Level { id, name, desc, can_contain } => if has_key(m0.hierarchy.levels@, id@) {
            fails_with(r, ErrorKind::ElementAlreadyExists, "level: "@ + id@)
        } else {
            &&& r is Ok
            &&& m1.hierarchy.levels@.drop_last() == m0.hierarchy.levels@
            &&& m1.hierarchy.levels@.len() == m0.hierarchy.levels@.len() + 1
            &&& m1.hierarchy.levels@.last().id == id
            &&& m1.hierarchy.levels@.last().name@ == given_or_id(name, id)
            &&& m1.hierarchy.levels@.last().description == desc
            &&& m1.hierarchy.levels@.last().can_contain == can_contain
            &&& m1.element_types == m0.element_types
            &&& same_kind(m0, m1)
        },
    }
}

/// What a remove command does to a concept model.
pub open spec fn remove_model_post(
    m0: LogicArchitectureConceptModel,
    m1: LogicArchitectureConceptModel,
    cmd: ConceptModelRemoveCommand,
    r: Result<()>,
) -> bool {
    match cmd {
        ConceptModelRemoveCommand::Element { element_type } => if has_key(m0.element_types@, uppercase(element_type@)) {
            &&& r is Ok
            &&& m1.element_types@ == m0.element_types@.filter(key_differs(uppercase(element_type@)))
            &&& m1.hierarchy == m0.hierarchy
            &&& same_kind(m0, m1)
        } else {
            fails_with(r, ErrorKind::ElementNotFound, "element type: "@ + element_type@)
        },
        ConceptModelRemoveCommand::Level { id } => if has_key(m0.hierarchy.levels@, id@) {
            &&& r is Ok
            &&& exists|i: int| is_first_key(m0.hierarchy.levels@, id@, i)
                && m1.hierarchy.levels@ == m0.hierarchy.levels@.remove(i)
            &&& m1.element_types == m0.element_types
            &&& same_kind(m0, m1)
        } else {
            fails_with(r, ErrorKind::ElementNotFound, "level: "@ + id@)
        },
    }
}

/// The workspace a command starts from: the one read from the file, or a new
/// one when there is no file.
pub open spec fn base_workspace(w: Option<Workspace>, w0: Workspace) -> bool {
    match w {
        Some(x) => w0 == x,
        None => fresh_workspace(w0, new_project_title()),
    }
}

/// The outcome of an add command on model `m0` of workspace `w0`.
pub open spec fn add_model_outcome(w0: Workspace, m0: LogicArchitectureConceptModel, cmd: ConceptModelAddCommand, r: Result<Workspace>) -> bool {
    match r {
        Ok(w1) => exists|m1: LogicArchitectureConceptModel| add_model_post(m0, m1, cmd, Ok(())) && with_concept_model(w0, w1, m1),
        Err(e) => exists|m1: LogicArchitectureConceptModel| add_model_post(m0, m1, cmd, Err(e)),
    }
}

/// The outcome of an add command, starting from workspace `w0`. An element
/// type or a containment rule creates the concept model when it is missing; a
/// level needs one.
pub open spec fn add_outcome_from(w: Option<Workspace>, w0: Workspace, cmd: ConceptModelAddCommand, r: Result<Workspace>) -> bool {
    &&& base_workspace(w, w0)
    &&& match w0.logic_architecture_concept_model {
        Some(m0) => add_model_outcome(w0, m0, cmd, r),
        None => match cmd {
            ConceptModelAddCommand::Level { .. } => fails_with(r, ErrorKind::InvalidOperation, no_concept_message()),
            _ => exists|m0: LogicArchitectureConceptModel|
                fresh_concept(m0, default_concept_title()) && add_model_outcome(w0, m0, cmd, r),
        },
    }
}

/// The outcome of an add command on the workspace read from the file (`None`
/// when there is none).
pub open spec fn add_outcome(w: Option<Workspace>, cmd: ConceptModelAddCommand, r: Result<Workspace>) -> bool {
    exists|w0: Workspace| #[trigger] add_outcome_from(w, w0, cmd, r)
}

/// The outcome of a remove command, starting from workspace `w0`.
pub open spec fn remove_outcome_from(w: Option<Workspace>, w0: Workspace, cmd: ConceptModelRemoveCommand, r: Result<Workspace>) -> bool {
    &&& base_workspace(w, w0)
    &&& match w0.logic_architecture_concept_model {
        None => fails_with(r, ErrorKind::InvalidOperation, no_concept_message()),
        Some(m0) => match r {
            Ok(w1) => exists|m1: LogicArchitectureConceptModel| remove_model_post(m0, m1, cmd, Ok(())) && with_concept_model(w0, w1, m1),
            Err(e) => exists|m1: LogicArchitectureConceptModel| remove_model_post(m0, m1, cmd, Err(e)),
        },
    }
}

/// The outcome of a remove command on the workspace read from the file.
pub open spec fn remove_outcome(w: Option<Workspace>, cmd: ConceptModelRemoveCommand, r: Result<Workspace>) -> bool {
    exists|w0: Workspace| #[trigger] remove_outcome_from(w, w0, cmd, r)
}

/// Applies an add command to a concept model.
pub fn add_to_model(model: &mut LogicArchitectureConceptModel, cmd: ConceptModelAddCommand) -> (r: Result<()>)
    ensures
        add_model_post(*old(model), *final(model), cmd, r),
{
    match cmd {
        ConceptModelAddCommand::Element { element_type } => {
            if model.add_element_type(element_type.as_str()) {
                Ok(())
            } else {
                Err(AppError::ElementAlreadyExists(concat2("element type: ", element_type.as_str())))
            }
        },
        ConceptModelAddCommand::Containment { parent, child } => {
            if model.add_containment(parent.as_str(), child.as_str()) {
                Ok(())
            } else {
                Err(AppError::ElementAlreadyExists(concat4("containment: ", parent.as_str(), " -> ", child.as_str())))
            }
        },
        ConceptModelAddCommand::Level { id, name, desc, can_contain } => {
            if model.get_level(id.as_str()).is_some() {
                return Err(AppError::ElementAlreadyExists(concat2("level: ", id.as_str())));
            }
            let shown = match name {
                Some(n) => n,
                None => copy_string(&id),
            };
            let ghost before = model.hierarchy.levels@;
            model.hierarchy.levels.push(LevelDefinition { id, name: shown, description: desc, can_contain });
            assert(model.hierarchy.levels@.drop_last() =~= before);
            model.touch();
            Ok(())
        },
    }
}

/// Applies a remove command to a concept model.
pub fn remove_from_model(model: &mut LogicArchitectureConceptModel, cmd: ConceptModelRemoveCommand) -> (r: Result<()>)
    ensures
        remove_model_post(*old(model), *final(model), cmd, r),
{
    match cmd {
        ConceptModelRemoveCommand::Element { element_type } => {
            if model.remove_element_type(element_type.as_str()) {
                Ok(())
            } else {
                Err(AppError::ElementNotFound(concat2("element type: ", element_type.as_str())))
            }
        },
        ConceptModelRemoveCommand::Level { id } => {
            match position_of(&model.hierarchy.levels, &id) {
                Some(i) => {
                    model.hierarchy.levels.remove(i);
                    model.touch();
                    Ok(())
                },
                None => Err(AppError::ElementNotFound(concat2("level: ", id.as_str()))),
            }
        },
    }
}

fn store_model(workspace: Workspace, model: LogicArchitectureConceptModel) -> (w: Workspace)
    ensures
        with_concept_model(workspace, w, model),
{
    let mut w = workspace;
    w.logic_architecture_concept_model = Some(model);
    w.touch();
    w
}

fn edit_model(workspace: Workspace, model: LogicArchitectureConceptModel, cmd: ConceptModelAddCommand) -> (r: Result<Workspace>)
    ensures
        add_model_outcome(workspace, model, cmd, r),
{
    let mut m = model;
    let ghost c = cmd;
    match add_to_model(&mut m, cmd) {
        Ok(()) => {
            let w = store_model(workspace, m);
            assert(add_model_post(model, m, c, Ok(())) && with_concept_model(workspace, w, m));
            Ok(w)
        },
        Err(e) => {
            assert(add_model_post(model, m, c, Err(e)));
            Err(e)
        },
    }
}

fn start(workspace: Option<Workspace>) -> (w: Workspace)
    ensures
        base_workspace(workspace, w),
{
    match workspace {
        Some(w) => w,
        None => Workspace::new("New Project"),
    }
}

/// Applies an add command to the workspace read from the file (`None` when
/// there is none, in which case a new project is started), and gives back the
/// workspace to write.
pub fn apply_add(workspace: Option<Workspace>, cmd: ConceptModelAddCommand) -> (r: Result<Workspace>)
    ensures
        add_outcome(workspace, cmd, r),
{
    let w = start(workspace);
    let ghost w0 = w;
    let mut w = w;
    let ghost c = cmd;
    let r = match w.logic_architecture_concept_model.take() {
        Some(m) => {
            let r = edit_model(w, m, cmd);
            proof {
                if r is Ok {
                    let w1 = r->Ok_0;
                    let m1 = choose|m1: LogicArchitectureConceptModel| add_model_post(m, m1, c, Ok(())) && with_concept_model(w, w1, m1);
                    assert(add_model_post(m, m1, c, Ok(())) && with_concept_model(w0, w1, m1));
                }
            }
            r
        },
        None => match cmd {
            ConceptModelAddCommand::Level { .. } => Err(AppError::InvalidOperation(
                String::from_str("Concept model not found. Run 'init' first."),
            )),
            _ => {
                let m = LogicArchitectureConceptModel::new("Logic Architecture Concept Model");
                let ghost m0 = m;
                let r = edit_model(w, m, cmd);
                proof {
                    if r is Ok {
                        let w1 = r->Ok_0;
                        let m1 = choose|m1: LogicArchitectureConceptModel| add_model_post(m0, m1, c, Ok(())) && with_concept_model(w, w1, m1);
                        assert(add_model_post(m0, m1, c, Ok(())) && with_concept_model(w0, w1, m1));
                    }
                    assert(fresh_concept(m0, default_concept_title()) && add_model_outcome(w0, m0, c, r));
                }
                r
            },
        },
    };
    assert(add_outcome_from(workspace, w0, c, r));
    r
}

/// Applies a remove command to the workspace read from the file (`None` when
/// there is none), and gives back the workspace to write.
pub fn apply_remove(workspace: Option<Workspace>, cmd: ConceptModelRemoveCommand) -> (r: Result<Workspace>)
    ensures
        remove_outcome(workspace, cmd, r),
{
    let w = start(workspace);
    let ghost w0 = w;
    let mut w = w;
    let ghost c = cmd;
    let r = match w.logic_architecture_concept_model.take() {
        None => Err(AppError::InvalidOperation(String::from_str("Concept model not found. Run 'init' first."))),
        Some(m0) => {
            let mut m = m0;
            match remove_from_model(&mut m, cmd) {
                Ok(()) => {
                    let w1 = store_model(w, m);
                    assert(remove_model_post(m0, m, c, Ok(())) && with_concept_model(w0, w1, m));
                    Ok(w1)
                },
                Err(e) => {
                    assert(remove_model_post(m0, m, c, Err(e)));
                    Err(e)
                },
            }
        },
    };
    assert(remove_outcome_from(workspace, w0, c, r));
    r
}

} // verus!
