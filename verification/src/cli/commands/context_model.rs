use vstd::prelude::*;
use crate::cli::args::{AddCommand, RemoveCommand};
use crate::model::c4::context::{ContextDiagram, DiagramKind};
use crate::model::workspace::Workspace;
use crate::store::operations::{
    Operations, set_system_post, add_actor_post, add_external_system_post, add_interface_post,
    add_provide_relation_post, add_interface_usage_post, remove_actor_post, remove_external_system_post,
    remove_interface_post, remove_provide_relation_post, remove_interface_usage_post,
};
use crate::utils::error::{AppError, ErrorKind, Result, fails_with};
use crate::utils::text::{opt_view, concat2, concat3, as_opt_str};

verus! {

/// The name an element gets: the given one, else its ID.
pub open spec fn given_or_id(name: Option<String>, id: String) -> Seq<char> {
    match name {
        Some(n) => n@,
        None => id@,
    }
}

/// A new workspace as `Workspace::new(title)` makes it.
pub open spec fn fresh_workspace(w: Workspace, title: Seq<char>) -> bool {
    &&& w.version@ == "1.0"@
    &&& w.metadata.title@ == title
    &&& w.metadata.created_at >= 0
    &&& w.metadata.updated_at >= 0
    &&& w.metadata.description is None
    &&& w.context_diagram is None
    &&& w.logic_architecture_concept_model is None
    &&& w.logic_view is None
    &&& w.runtime_view is None
    &&& w.code_model is None
    &&& w.build_model is None
    &&& w.delivery_model is None
    &&& w.deployment_model is None
}

/// `w1` is `w0` with the context diagram `d` and a new modification time.
pub open spec fn with_context_diagram(w0: Workspace, w1: Workspace, d: ContextDiagram) -> bool {
    &&& w1.context_diagram == Some(d)
    &&& w1.version == w0.version
    &&& w1.metadata.title == w0.metadata.title
    &&& w1.metadata.description == w0.metadata.description
    &&& w1.metadata.created_at == w0.metadata.created_at
    &&& w1.metadata.updated_at >= 0
    &&& w1.logic_architecture_concept_model == w0.logic_architecture_concept_model
    &&& w1.logic_view == w0.logic_view
    &&& w1.runtime_view == w0.runtime_view
    &&& w1.code_model == w0.code_model
    &&& w1.build_model == w0.build_model
    &&& w1.delivery_model == w0.delivery_model
    &&& w1.deployment_model == w0.deployment_model
}

/// A new context diagram as `ContextDiagram::new(id, title)` makes it.
pub open spec fn fresh_context(d: ContextDiagram, id: Seq<char>, title: Seq<char>) -> bool {
    &&& d.version@ == "1.0"@
    &&& d.kind == DiagramKind::ContextDiagram
    &&& d.metadata.title@ == title
    &&& d.metadata.created_at >= 0
    &&& d.metadata.updated_at >= 0
    &&& d.metadata.description is None
    &&& d.system.id@ == id
    &&& d.system.name@ == id
    &&& d.system.description is None
    &&& d.actors@.len() == 0
    &&& d.external_systems@.len() == 0
    &&& d.interfaces@.len() == 0
    &&& d.interface_providers@.len() == 0
    &&& d.interface_usages@.len() == 0
}

/// The title of the diagram created for a new system.
pub open spec fn new_diagram_title(id: Seq<char>) -> Seq<char> {
    id + " Context Diagram"@
}

/// The error message for a command other than `add system` on a missing file.
pub open spec fn missing_file_message(path: Seq<char>) -> Seq<char> {
    "File '"@ + path + "' does not exist. Create it first with 'add system' command."@
}

/// The error message for a command other than `add system` on a workspace
/// without a context diagram.
pub open spec fn no_context_message() -> Seq<char> {
    "Context diagram does not exist in workspace. Create it first with 'add system' command."@
}

/// The error message for a removal from a workspace without a context diagram.
pub open spec fn context_not_found_message() -> Seq<char> {
    "context_diagram not found in workspace"@
}

/// `d1` is `d0` with the system's name and description replaced where given;
/// nothing changes when neither is given.
pub open spec fn renamed_system(d0: ContextDiagram, d1: ContextDiagram, name: Option<String>, desc: Option<String>) -> bool {
    &&& d1.version == d0.version
    &&& d1.kind == d0.kind
    &&& d1.metadata.title == d0.metadata.title
    &&& d1.metadata.description == d0.metadata.description
    &&& d1.metadata.created_at == d0.metadata.created_at
    &&& d1.system.id == d0.system.id
    &&& d1.system.name@ == given_or_id(name, d0.system.name)
    &&& d1.system.description == (match desc {
        Some(x) => Some(x),
        None => d0.system.description,
    })
    &&& d1.actors == d0.actors
    &&& d1.external_systems == d0.external_systems
    &&& d1.interfaces == d0.interfaces
    &&& d1.interface_providers == d0.interface_providers
    &&& d1.interface_usages == d0.interface_usages
    &&& (name is None && desc is None) ==> d1 == d0
}

/// What an add command does to a context diagram (see the operations).
pub open spec fn add_post(d0: ContextDiagram, d1: ContextDiagram, cmd: AddCommand, r: Result<()>) -> bool {
    match cmd {
        AddCommand::System { id, name, desc } => set_system_post(d0, d1, id@, opt_view(name), opt_view(desc), r),
        AddCommand::Actor { id, name, desc, actor_type } =>
            add_actor_post(d0, d1, id@, given_or_id(name, id), opt_view(desc), actor_type, r),
        AddCommand::ExternalSystem { id, name, desc, tech } =>
            add_external_system_post(d0, d1, id@, given_or_id(name, id), opt_view(desc), opt_view(tech), r),
        AddCommand::Interface { id, name, desc, protocol } =>
            add_interface_post(d0, d1, id@, given_or_id(name, id), opt_view(desc), protocol, r),
        AddCommand::ProvideRelation { system_id, interface_id } =>
            add_provide_relation_post(d0, d1, system_id@, interface_id@, r),
        AddCommand::InterfaceUsage { actor_id, interface_id } =>
            add_interface_usage_post(d0, d1, actor_id@, interface_id@, r),
    }
}

/// What a remove command does to a context diagram (see the operations).
pub open spec fn remove_post(d0: ContextDiagram, d1: ContextDiagram, cmd: RemoveCommand, r: Result<()>) -> bool {
    match cmd {
        RemoveCommand::Actor { id } => remove_actor_post(d0, d1, id@, r),
        RemoveCommand::ExternalSystem { id } => remove_external_system_post(d0, d1, id@, r),
        RemoveCommand::Interface { id } => remove_interface_post(d0, d1, id@, r),
        RemoveCommand::ProvideRelation { system_id, interface_id } =>
            remove_provide_relation_post(d0, d1, system_id@, interface_id@, r),
        RemoveCommand::InterfaceUsage { actor_id, interface_id } =>
            remove_interface_usage_post(d0, d1, actor_id@, interface_id@, r),
    }
}

/// The outcome of applying an add command to diagram `d0` of workspace `w0`:
/// on success the workspace holds the edited diagram; on failure the
/// operation's error comes back.
pub open spec fn add_edit_outcome(w0: Workspace, d0: ContextDiagram, cmd: AddCommand, r: Result<Workspace>) -> bool {
    match r {
        Ok(w1) => exists|d1: ContextDiagram| add_post(d0, d1, cmd, Ok(())) && with_context_diagram(w0, w1, d1),
        Err(e) => exists|d1: ContextDiagram| add_post(d0, d1, cmd, Err(e)),
    }
}

/// The outcome of an add command on the workspace read from the file (`None`
/// when there is no file). Only `add system` may start a new file or a new
/// context diagram.
pub open spec fn add_outcome(w: Option<Workspace>, cmd: AddCommand, path: Seq<char>, r: Result<Workspace>) -> bool {
    match w {
        None => match cmd {
            AddCommand::System { id, name, desc } => r matches Ok(w1)
                && exists|w0: Workspace, d0: ContextDiagram, d1: ContextDiagram| {
                    &&& fresh_workspace(w0, new_diagram_title(id@))
                    &&& fresh_context(d0, id@, new_diagram_title(id@))
                    &&& renamed_system(d0, d1, name, desc)
                    &&& with_context_diagram(w0, w1, d1)
                },
            _ => fails_with(r, ErrorKind::InvalidOperation, missing_file_message(path)),
        },
        Some(w0) => match w0.context_diagram {
            Some(d0) => add_edit_outcome(w0, d0, cmd, r),
            None => match cmd {
                AddCommand::System { id, .. } => exists|d0: ContextDiagram|
                    fresh_context(d0, id@, new_diagram_title(id@)) && add_edit_outcome(w0, d0, cmd, r),
                _ => fails_with(r, ErrorKind::InvalidOperation, no_context_message()),
            },
        },
    }
}

/// The outcome of a remove command on a workspace.
pub open spec fn remove_outcome(w0: Workspace, cmd: RemoveCommand, r: Result<Workspace>) -> bool {
    match w0.context_diagram {
        None => fails_with(r, ErrorKind::ElementNotFound, context_not_found_message()),
        Some(d0) => match r {
            Ok(w1) => exists|d1: ContextDiagram| remove_post(d0, d1, cmd, Ok(())) && with_context_diagram(w0, w1, d1),
            Err(e) => exists|d1: ContextDiagram| remove_post(d0, d1, cmd, Err(e)),
        },
    }
}

/// Applies an add command to a context diagram.
pub fn apply_to_diagram(diagram: &mut ContextDiagram, cmd: AddCommand) -> (r: Result<()>)
    ensures
        add_post(*old(diagram), *final(diagram), cmd, r),
{
    match cmd {
        AddCommand::System { id, name, desc } =>
            Operations::set_system(diagram, id.as_str(), as_opt_str(&name), as_opt_str(&desc)),
        AddCommand::Actor { id, name, desc, actor_type } =>
            Operations::add_actor(diagram, id.as_str(), as_opt_str(&name), as_opt_str(&desc), actor_type),
        AddCommand::ExternalSystem { id, name, desc, tech } =>
            Operations::add_external_system(diagram, id.as_str(), as_opt_str(&name), as_opt_str(&desc), as_opt_str(&tech)),
        AddCommand::Interface { id, name, desc, protocol } =>
            Operations::add_interface(diagram, id.as_str(), as_opt_str(&name), as_opt_str(&desc), protocol),
        AddCommand::ProvideRelation { system_id, interface_id } =>
            Operations::add_provide_relation(diagram, system_id.as_str(), interface_id.as_str()),
        AddCommand::InterfaceUsage { actor_id, interface_id } =>
            Operations::add_interface_usage(diagram, actor_id.as_str(), interface_id.as_str()),
    }
}

/// Applies a remove command to a context diagram.
pub fn remove_from_diagram(diagram: &mut ContextDiagram, cmd: RemoveCommand) -> (r: Result<()>)
    ensures
        remove_post(*old(diagram), *final(diagram), cmd, r),
{
    match cmd {
        RemoveCommand::Actor { id } => Operations::remove_actor(diagram, id.as_str()),
        RemoveCommand::ExternalSystem { id } => Operations::remove_external_system(diagram, id.as_str()),
        RemoveCommand::Interface { id } => Operations::remove_interface(diagram, id.as_str()),
        RemoveCommand::ProvideRelation { system_id, interface_id } =>
            Operations::remove_provide_relation(diagram, system_id.as_str(), interface_id.as_str()),
        RemoveCommand::InterfaceUsage { actor_id, interface_id } =>
            Operations::remove_interface_usage(diagram, actor_id.as_str(), interface_id.as_str()),
    }
}

fn store_diagram(workspace: Workspace, diagram: ContextDiagram) -> (w: Workspace)
    ensures
        with_context_diagram(workspace, w, diagram),
{
    let mut w = workspace;
    w.context_diagram = Some(diagram);
    w.touch();
    w
}

fn edit_diagram(workspace: Workspace, diagram: ContextDiagram, cmd: AddCommand) -> (r: Result<Workspace>)
    ensures
        add_edit_outcome(workspace, diagram, cmd, r),
{
    let mut d = diagram;
    let ghost c = cmd;
    match apply_to_diagram(&mut d, cmd) {
        Ok(()) => {
            let w = store_diagram(workspace, d);
            assert(add_post(diagram, d, c, Ok(())));
            Ok(w)
        },
        Err(e) => {
            assert(add_post(diagram, d, c, Err(e)));
            Err(e)
        },
    }
}

fn new_file(id: String, name: Option<String>, desc: Option<String>) -> (w: Workspace)
    ensures
        exists|w0: Workspace, d0: ContextDiagram, d1: ContextDiagram| {
            &&& fresh_workspace(w0, new_diagram_title(id@))
            &&& fresh_context(d0, id@, new_diagram_title(id@))
            &&& renamed_system(d0, d1, name, desc)
            &&& with_context_diagram(w0, w, d1)
        },
{
    let ghost (id_in, name_in, desc_in) = (id, name, desc);
    let title = concat2(id.as_str(), " Context Diagram");
    let w0 = Workspace::new(title.as_str());
    let ghost w0_in = w0;
    let mut d = ContextDiagram::new(id.as_str(), title.as_str());
    let ghost d0 = d;
    if name.is_some() || desc.is_some() {
        match name {
            Some(n) => {
                d.system.name = n;
            },
            None => {},
        }
        match desc {
            Some(x) => {
                d.system.description = Some(x);
            },
            None => {},
        }
        d.touch();
    }
    assert(renamed_system(d0, d, name_in, desc_in));
    let w = store_diagram(w0, d);
    assert(fresh_workspace(w0_in, new_diagram_title(id_in@)) && fresh_context(d0, id_in@, new_diagram_title(id_in@))
        && renamed_system(d0, d, name_in, desc_in) && with_context_diagram(w0_in, w, d));
    w
}

/// Applies an add command to the workspace read from `path` (`None` when the
/// file does not exist), and gives back the workspace to write. A missing file
/// or context diagram is created by `add system` only; with a new file the
/// system takes the given name and description directly.
pub fn apply_add(workspace: Option<Workspace>, cmd: AddCommand, path: &str) -> (r: Result<Workspace>)
    ensures
        add_outcome(workspace, cmd, path@, r),
{
    match workspace {
        None => match cmd {
            AddCommand::System { id, name, desc } => Ok(new_file(id, name, desc)),
            _ => {
                let msg = concat3("File '", path, "' does not exist. Create it first with 'add system' command.");
                assert(msg@ == missing_file_message(path@));
                Err(AppError::InvalidOperation(msg))
            },
        },
        Some(w) => {
            let ghost w_in = w;
            let mut w = w;
            let existing = w.context_diagram.take();
            match existing {
                Some(d) => {
                    let ghost c = cmd;
                    let r = edit_diagram(w, d, cmd);
                    proof {
                        if r is Ok {
                            let w1 = r->Ok_0;
                            let d1 = choose|d1: ContextDiagram| add_post(d, d1, c, Ok(())) && with_context_diagram(w, w1, d1);
                            assert(add_post(d, d1, c, Ok(())) && with_context_diagram(w_in, w1, d1));
                        }
                    }
                    r
                },
                None => match cmd {
                    AddCommand::System { id, name, desc } => {
                        let title = concat2(id.as_str(), " Context Diagram");
                        let d = ContextDiagram::new(id.as_str(), title.as_str());
                        edit_diagram(w, d, AddCommand::System { id, name, desc })
                    },
                    _ => Err(AppError::InvalidOperation(String::from_str(
                        "Context diagram does not exist in workspace. Create it first with 'add system' command.",
                    ))),
                },
            }
        },
    }
}

/// Applies a remove command to a workspace, and gives back the workspace to write.
pub fn apply_remove(workspace: Workspace, cmd: RemoveCommand) -> (r: Result<Workspace>)
    ensures
        remove_outcome(workspace, cmd, r),
{
    let mut w = workspace;
    match w.context_diagram.take() {
        None => Err(AppError::ElementNotFound(String::from_str("context_diagram not found in workspace"))),
        Some(d0) => {
            let mut d = d0;
            let ghost c = cmd;
            match remove_from_diagram(&mut d, cmd) {
                Ok(()) => {
                    let w1 = store_diagram(w, d);
                    assert(remove_post(d0, d, c, Ok(())) && with_context_diagram(workspace, w1, d));
                    Ok(w1)
                },
                Err(e) => {
                    assert(remove_post(d0, d, c, Err(e)));
                    Err(e)
                },
            }
        },
    }
}

} // verus!
