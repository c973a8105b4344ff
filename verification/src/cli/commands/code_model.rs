use vstd::prelude::*;
use crate::cli::args::{CodeModelAddCommand, CodeModelRemoveCommand};
use crate::cli::commands::context_model::given_or_id;
use crate::model::code::code_model::{CodeModel, CodeDiagramKind};
use crate::model::workspace::Workspace;
use crate::store::code_operations::{
    CodeOperations, add_package_post, remove_package_post, add_dependency_post, remove_dependency_post,
};
use crate::validator::workspace::in_logic_view;
use crate::utils::error::{AppError, ErrorKind, Result, fails_with};
use crate::utils::text::{opt_view, concat3, as_opt_str};

verus! {

/// `w1` is `w0` with the code model `m` and a new modification time.
pub open spec fn with_code_model(w0: Workspace, w1: Workspace, m: CodeModel) -> bool {
    &&& w1.code_model == Some(m)
    &&& w1.version == w0.version
    &&& w1.metadata.title == w0.metadata.title
    &&& w1.metadata.description == w0.metadata.description
    &&& w1.metadata.created_at == w0.metadata.created_at
    &&& w1.metadata.updated_at >= 0
    &&& w1.context_diagram == w0.context_diagram
    &&& w1.logic_architecture_concept_model == w0.logic_architecture_concept_model
    &&& w1.logic_view == w0.logic_view
    &&& w1.runtime_view == w0.runtime_view
    &&& w1.build_model == w0.build_model
    &&& w1.delivery_model == w0.delivery_model
    &&& w1.deployment_model == w0.deployment_model
}

/// A new code model as `CodeModel::new(title)` makes it.
pub open spec fn fresh_code_model(m: CodeModel, title: Seq<char>) -> bool {
    &&& m.version@ == "1.0"@
    &&& m.kind == CodeDiagramKind::CodeModel
    &&& m.metadata.title@ == title
    &&& m.metadata.created_at >= 0
    &&& m.metadata.updated_at >= 0
    &&& m.metadata.description is None
    &&& m.packages@.len() == 0
    &&& m.dependencies@.len() == 0
}

/// The error message for a workspace without a code model.
pub open spec fn code_not_found_message() -> Seq<char> {
    "code_model not found in workspace"@
}

/// What an add command does to a code model (see the operations).
pub open spec fn add_post(m0: CodeModel, m1: CodeModel, cmd: CodeModelAddCommand, r: Result<()>) -> bool {
    match cmd {
        CodeModelAddCommand::Package { id, name, desc, language, framework, path, element_id } =>
            add_package_post(m0, m1, id@, given_or_id(name, id), opt_view(desc), language, opt_view(framework),
                opt_view(path), opt_view(element_id), r),
        CodeModelAddCommand::Dependency { from, to } => add_dependency_post(m0, m1, from@, to@, r),
    }
}

/// What a remove command does to a code model (see the operations).
pub open spec fn remove_post(m0: CodeModel, m1: CodeModel, cmd: CodeModelRemoveCommand, r: Result<()>) -> bool {
    match cmd {
        CodeModelRemoveCommand::Package { id } => remove_package_post(m0, m1, id@, r),
        CodeModelRemoveCommand::Dependency { from, to } => remove_dependency_post(m0, m1, from@, to@, r),
    }
}

/// The error message, if any, for the logic view element a new package names.
pub open spec fn element_problem(w: Workspace, element_id: Option<String>) -> Option<Seq<char>> {
    match element_id {
        None => None,
        Some(eid) => match w.logic_view {
            Some(_) => if in_logic_view(w, eid@) {
                None
            } else {
                Some("element_id '"@ + eid@ + "' not found in logic_view"@)
            },
            None => Some("logic_view not found in workspace"@),
        },
    }
}

/// The outcome of an add command on code model `m0` of workspace `w0`.
pub open spec fn edit_outcome(w0: Workspace, m0: CodeModel, cmd: CodeModelAddCommand, r: Result<Workspace>) -> bool {
    match r {
        Ok(w1) => exists|m1: CodeModel| add_post(m0, m1, cmd, Ok(())) && with_code_model(w0, w1, m1),
        Err(e) => exists|m1: CodeModel| add_post(m0, m1, cmd, Err(e)),
    }
}

/// The outcome of an add command on a workspace. A package must name an
/// element of the logic view, if any; it creates the code model ("Code
/// Model") when missing. A dependency needs a code model.
pub open spec fn add_outcome(w0: Workspace, cmd: CodeModelAddCommand, r: Result<Workspace>) -> bool {
    match cmd {
        CodeModelAddCommand::Package { element_id, .. } => match element_problem(w0, element_id) {
            Some(msg) => fails_with(r, ErrorKind::ElementNotFound, msg),
            None => match w0.code_model {
                Some(m0) => edit_outcome(w0, m0, cmd, r),
                None => exists|m0: CodeModel| fresh_code_model(m0, "Code Model"@) && edit_outcome(w0, m0, cmd, r),
            },
        },
        CodeModelAddCommand::Dependency { .. } => match w0.code_model {
            Some(m0) => edit_outcome(w0, m0, cmd, r),
            None => fails_with(r, ErrorKind::ElementNotFound, code_not_found_message()),
        },
    }
}

/// The outcome of a remove command on a workspace.
pub open spec fn remove_outcome(w0: Workspace, cmd: CodeModelRemoveCommand, r: Result<Workspace>) -> bool {
    match w0.code_model {
        None => fails_with(r, ErrorKind::ElementNotFound, code_not_found_message()),
        Some(m0) => match r {
            Ok(w1) => exists|m1: CodeModel| remove_post(m0, m1, cmd, Ok(())) && with_code_model(w0, w1, m1),
            Err(e) => exists|m1: CodeModel| remove_post(m0, m1, cmd, Err(e)),
        },
    }
}

/// Applies an add command to a code model.
pub fn add_to_model(model: &mut CodeModel, cmd: CodeModelAddCommand) -> (r: Result<()>)
    ensures
        add_post(*old(model), *final(model), cmd, r),
{
    match cmd {
        CodeModelAddCommand::Package { id, name, desc, language, framework, path, element_id } =>
            CodeOperations::add_package(model, id.as_str(), as_opt_str(&name), as_opt_str(&desc), language,
                as_opt_str(&framework), as_opt_str(&path), as_opt_str(&element_id)),
        CodeModelAddCommand::Dependency { from, to } => CodeOperations::add_dependency(model, from.as_str(), to.as_str()),
    }
}

/// Applies a remove command to a code model.
pub fn remove_from_model(model: &mut CodeModel, cmd: CodeModelRemoveCommand) -> (r: Result<()>)
    ensures
        remove_post(*old(model), *final(model), cmd, r),
{
    match cmd {
        CodeModelRemoveCommand::Package { id } => CodeOperations::remove_package(model, id.as_str()),
        CodeModelRemoveCommand::Dependency { from, to } =>
            CodeOperations::remove_dependency(model, from.as_str(), to.as_str()),
    }
}

/// Checks the logic view element that a new package names.
fn check_element(workspace: &Workspace, element_id: &Option<String>) -> (r: Result<()>)
    ensures
        match element_problem(*workspace, *element_id) {
            Some(msg) => fails_with(r, ErrorKind::ElementNotFound, msg),
            None => r is Ok,
        },
{
    match element_id {
        None => Ok(()),
        Some(eid) => match &workspace.logic_view {
            Some(lv) => {
                if lv.get_element_name(eid.as_str()).is_none() {
                    Err(AppError::ElementNotFound(concat3("element_id '", eid.as_str(), "' not found in logic_view")))
                } else {
                    Ok(())
                }
            },
            None => Err(AppError::ElementNotFound(String::from_str("logic_view not found in workspace"))),
        },
    }
}

fn store_model(workspace: Workspace, model: CodeModel) -> (w: Workspace)
    ensures
        with_code_model(workspace, w, model),
{
    let mut w = workspace;
    w.code_model = Some(model);
    w.touch();
    w
}

fn edit_model(workspace: Workspace, model: CodeModel, cmd: CodeModelAddCommand) -> (r: Result<Workspace>)
    ensures
        edit_outcome(workspace, model, cmd, r),
{
    let mut m = model;
    let ghost c = cmd;
    match add_to_model(&mut m, cmd) {
        Ok(()) => {
            let w = store_model(workspace, m);
            assert(add_post(model, m, c, Ok(())) && with_code_model(workspace, w, m));
            Ok(w)
        },
        Err(e) => {
            assert(add_post(model, m, c, Err(e)));
            Err(e)
        },
    }
}

/// Applies an add command to a workspace, and gives back the workspace to write.
pub fn apply_add(workspace: Workspace, cmd: CodeModelAddCommand) -> (r: Result<Workspace>)
    ensures
        add_outcome(workspace, cmd, r),
{
    let creates = match &cmd {
        CodeModelAddCommand::Package { element_id, .. } => {
            match check_element(&workspace, element_id) {
                Err(e) => {
                    return Err(e);
                },
                Ok(()) => {},
            }
            true
        },
        CodeModelAddCommand::Dependency { .. } => false,
    };
    let ghost w0 = workspace;
    let ghost c = cmd;
    let mut w = workspace;
    match w.code_model.take() {
        Some(m) => {
            let r = edit_model(w, m, cmd);
            proof {
                if r is Ok {
                    let w1 = r->Ok_0;
                    let m1 = choose|m1: CodeModel| add_post(m, m1, c, Ok(())) && with_code_model(w, w1, m1);
                    assert(add_post(m, m1, c, Ok(())) && with_code_model(w0, w1, m1));
                }
            }
            r
        },
        None => {
            if creates {
                let m = CodeModel::new("Code Model");
                let ghost m0 = m;
                let r = edit_model(w, m, cmd);
                proof {
                    if r is Ok {
                        let w1 = r->Ok_0;
                        let m1 = choose|m1: CodeModel| add_post(m0, m1, c, Ok(())) && with_code_model(w, w1, m1);
                        assert(add_post(m0, m1, c, Ok(())) && with_code_model(w0, w1, m1));
                    }
                    assert(fresh_code_model(m0, "Code Model"@) && edit_outcome(w0, m0, c, r));
                }
                r
            } else {
                Err(AppError::ElementNotFound(String::from_str("code_model not found in workspace")))
            }
        },
    }
}

/// Applies a remove command to a workspace, and gives back the workspace to write.
pub fn apply_remove(workspace: Workspace, cmd: CodeModelRemoveCommand) -> (r: Result<Workspace>)
    ensures
        remove_outcome(workspace, cmd, r),
{
    let mut w = workspace;
    match w.code_model.take() {
        None => Err(AppError::ElementNotFound(String::from_str("code_model not found in workspace"))),
        Some(m0) => {
            let mut m = m0;
            let ghost c = cmd;
            match remove_from_model(&mut m, cmd) {
                Ok(()) => {
                    let w1 = store_model(w, m);
                    assert(remove_post(m0, m, c, Ok(())) && with_code_model(workspace, w1, m));
                    Ok(w1)
                },
                Err(e) => {
                    assert(remove_post(m0, m, c, Err(e)));
                    Err(e)
                },
            }
        },
    }
}

} // verus!
