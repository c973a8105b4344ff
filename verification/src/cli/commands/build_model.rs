use vstd::prelude::*;
use crate::cli::args::{BuildModelAddCommand, BuildModelRemoveCommand};
use crate::cli::commands::context_model::given_or_id;
use crate::model::builds::build_model::{BuildModel, BuildDiagramKind};
use crate::model::workspace::Workspace;
use crate::store::build_operations::{
    BuildOperations, add_artifact_post, remove_artifact_post, add_dependency_post, remove_dependency_post,
};
use crate::utils::error::{AppError, ErrorKind, Result, fails_with};
use crate::utils::keyed::{all_known, is_first_unknown, first_unknown, lemma_first_unknown_unique};
use crate::utils::text::{opt_view, string_views, concat3, as_opt_str};

verus! {

/// `w1` is `w0` with the build model `m` and a new modification time.
pub open spec fn with_build_model(w0: Workspace, w1: Workspace, m: BuildModel) -> bool {
    &&& w1.build_model == Some(m)
    &&& w1.version == w0.version
    &&& w1.metadata.title == w0.metadata.title
    &&& w1.metadata.description == w0.metadata.description
    &&& w1.metadata.created_at == w0.metadata.created_at
    &&& w1.metadata.updated_at >= 0
    &&& w1.context_diagram == w0.context_diagram
    &&& w1.logic_architecture_concept_model == w0.logic_architecture_concept_model
    &&& w1.logic_view == w0.logic_view
    &&& w1.runtime_view == w0.runtime_view
    &&& w1.code_model == w0.code_model
    &&& w1.delivery_model == w0.delivery_model
    &&& w1.deployment_model == w0.deployment_model
}

/// A new build model as `BuildModel::new(title)` makes it.
pub open spec fn fresh_build_model(m: BuildModel, title: Seq<char>) -> bool {
    &&& m.version@ == "1.0"@
    &&& m.kind == BuildDiagramKind::BuildModel
    &&& m.metadata.title@ == title
    &&& m.metadata.created_at >= 0
    &&& m.metadata.updated_at >= 0
    &&& m.metadata.description is None
    &&& m.artifacts@.len() == 0
    &&& m.dependencies@.len() == 0
}

/// The error message for a workspace without a build model.
pub open spec fn build_not_found_message() -> Seq<char> {
    "build_model not found in workspace"@
}

/// What an add command does to a build model (see the operations).
pub open spec fn add_post(m0: BuildModel, m1: BuildModel, cmd: BuildModelAddCommand, r: Result<()>) -> bool {
    match cmd {
        BuildModelAddCommand::Artifact {
            id, name, desc, build_tool, output_type, source_packages, build_file, profile, build_args,
        } => add_artifact_post(m0, m1, id@, given_or_id(name, id), opt_view(desc), build_tool, output_type,
            string_views(source_packages@), opt_view(build_file), profile, opt_view(build_args), r),
        BuildModelAddCommand::Dependency { from, to } => add_dependency_post(m0, m1, from@, to@, r),
    }
}

/// What a remove command does to a build model (see the operations).
pub open spec fn remove_post(m0: BuildModel, m1: BuildModel, cmd: BuildModelRemoveCommand, r: Result<()>) -> bool {
    match cmd {
        BuildModelRemoveCommand::Artifact { id } => remove_artifact_post(m0, m1, id@, r),
        BuildModelRemoveCommand::Dependency { from, to } => remove_dependency_post(m0, m1, from@, to@, r),
    }
}

/// The error message, if any, for the source packages of a new artifact: each
/// must be a package of the code model, which must exist when any is named.
pub open spec fn sources_problem(w: Workspace, sources: Vec<String>) -> Option<Seq<char>> {
    if sources@.len() == 0 {
        None
    } else {
        match w.code_model {
            Some(c) => if all_known(c.packages@, sources@) {
                None
            } else {
                Some("source_package '"@ + sources@[choose|i: int| is_first_unknown(c.packages@, sources@, i)]@
                    + "' not found in code_model"@)
            },
            None => Some("code_model not found in workspace"@),
        }
    }
}

/// The outcome of an add command on build model `m0` of workspace `w0`.
pub open spec fn edit_outcome(w0: Workspace, m0: BuildModel, cmd: BuildModelAddCommand, r: Result<Workspace>) -> bool {
    match r {
        Ok(w1) => exists|m1: BuildModel| add_post(m0, m1, cmd, Ok(())) && with_build_model(w0, w1, m1),
        Err(e) => exists|m1: BuildModel| add_post(m0, m1, cmd, Err(e)),
    }
}

/// The outcome of an add command on a workspace. An artifact's source
/// packages are checked first; it creates the build model ("Build Model")
/// when missing. A dependency needs a build model.
pub open spec fn add_outcome(w0: Workspace, cmd: BuildModelAddCommand, r: Result<Workspace>) -> bool {
    match cmd {
        BuildModelAddCommand::Artifact { source_packages, .. } => match sources_problem(w0, source_packages) {
            Some(msg) => fails_with(r, ErrorKind::ElementNotFound, msg),
            None => match w0.build_model {
                Some(m0) => edit_outcome(w0, m0, cmd, r),
                None => exists|m0: BuildModel| fresh_build_model(m0, "Build Model"@) && edit_outcome(w0, m0, cmd, r),
            },
        },
        BuildModelAddCommand::Dependency { .. } => match w0.build_model {
            Some(m0) => edit_outcome(w0, m0, cmd, r),
            None => fails_with(r, ErrorKind::ElementNotFound, build_not_found_message()),
        },
    }
}

/// The outcome of a remove command on a workspace.
pub open spec fn remove_outcome(w0: Workspace, cmd: BuildModelRemoveCommand, r: Result<Workspace>) -> bool {
    match w0.build_model {
        None => fails_with(r, ErrorKind::ElementNotFound, build_not_found_message()),
        Some(m0) => match r {
            Ok(w1) => exists|m1: BuildModel| remove_post(m0, m1, cmd, Ok(())) && with_build_model(w0, w1, m1),
            Err(e) => exists|m1: BuildModel| remove_post(m0, m1, cmd, Err(e)),
        },
    }
}

/// Applies an add command to a build model.
pub fn add_to_model(model: &mut BuildModel, cmd: BuildModelAddCommand) -> (r: Result<()>)
    ensures
        add_post(*old(model), *final(model), cmd, r),
{
    match cmd {
        BuildModelAddCommand::Artifact {
            id, name, desc, build_tool, output_type, source_packages, build_file, profile, build_args,
        } => BuildOperations::add_artifact(model, id.as_str(), as_opt_str(&name), as_opt_str(&desc), build_tool,
            output_type, source_packages, as_opt_str(&build_file), profile, as_opt_str(&build_args)),
        BuildModelAddCommand::Dependency { from, to } => BuildOperations::add_dependency(model, from.as_str(), to.as_str()),
    }
}

/// Applies a remove command to a build model.
pub fn remove_from_model(model: &mut BuildModel, cmd: BuildModelRemoveCommand) -> (r: Result<()>)
    ensures
        remove_post(*old(model), *final(model), cmd, r),
{
    match cmd {
        BuildModelRemoveCommand::Artifact { id } => BuildOperations::remove_artifact(model, id.as_str()),
        BuildModelRemoveCommand::Dependency { from, to } =>
            BuildOperations::remove_dependency(model, from.as_str(), to.as_str()),
    }
}

/// Checks the source packages of a new artifact against the code model.
fn check_sources(workspace: &Workspace, sources: &Vec<String>) -> (r: Result<()>)
    ensures
        match sources_problem(*workspace, *sources) {
            Some(msg) => fails_with(r, ErrorKind::ElementNotFound, msg),
            None => r is Ok,
        },
{
    if sources.len() == 0 {
        return Ok(());
    }
    match &workspace.code_model {
        Some(code) => match first_unknown(&code.packages, sources) {
            Some(i) => {
                proof {
                    lemma_first_unknown_unique(code.packages@, sources@, i as int);
                }
                Err(AppError::ElementNotFound(concat3("source_package '", sources[i].as_str(), "' not found in code_model")))
            },
            None => Ok(()),
        },
        None => Err(AppError::ElementNotFound(String::from_str("code_model not found in workspace"))),
    }
}

fn store_model(workspace: Workspace, model: BuildModel) -> (w: Workspace)
    ensures
        with_build_model(workspace, w, model),
{
    let mut w = workspace;
    w.build_model = Some(model);
    w.touch();
    w
}

fn edit_model(workspace: Workspace, model: BuildModel, cmd: BuildModelAddCommand) -> (r: Result<Workspace>)
    ensures
        edit_outcome(workspace, model, cmd, r),
{
    let mut m = model;
    let ghost c = cmd;
    match add_to_model(&mut m, cmd) {
        Ok(()) => {
            let w = store_model(workspace, m);
            assert(add_post(model, m, c, Ok(())) && with_build_model(workspace, w, m));
            Ok(w)
        },
        Err(e) => {
            assert(add_post(model, m, c, Err(e)));
            Err(e)
        },
    }
}

/// Applies an add command to a workspace, and gives back the workspace to write.
pub fn apply_add(workspace: Workspace, cmd: BuildModelAddCommand) -> (r: Result<Workspace>)
    ensures
        add_outcome(workspace, cmd, r),
{
    let creates = match &cmd {
        BuildModelAddCommand::Artifact { source_packages, .. } => {
            match check_sources(&workspace, source_packages) {
                Err(e) => {
                    return Err(e);
                },
                Ok(()) => {},
            }
            true
        },
        BuildModelAddCommand::Dependency { .. } => false,
    };
    let ghost w0 = workspace;
    let ghost c = cmd;
    let mut w = workspace;
    match w.build_model.take() {
        Some(m) => {
            let r = edit_model(w, m, cmd);
            proof {
                if r is Ok {
                    let w1 = r->Ok_0;
                    let m1 = choose|m1: BuildModel| add_post(m, m1, c, Ok(())) && with_build_model(w, w1, m1);
                    assert(add_post(m, m1, c, Ok(())) && with_build_model(w0, w1, m1));
                }
            }
            r
        },
        None => {
            if creates {
                let m = BuildModel::new("Build Model");
                let ghost m0 = m;
                let r = edit_model(w, m, cmd);
                proof {
                    if r is Ok {
                        let w1 = r->Ok_0;
                        let m1 = choose|m1: BuildModel| add_post(m0, m1, c, Ok(())) && with_build_model(w, w1, m1);
                        assert(add_post(m0, m1, c, Ok(())) && with_build_model(w0, w1, m1));
                    }
                    assert(fresh_build_model(m0, "Build Model"@) && edit_outcome(w0, m0, c, r));
                }
                r
            } else {
                Err(AppError::ElementNotFound(String::from_str("build_model not found in workspace")))
            }
        },
    }
}

/// Applies a remove command to a workspace, and gives back the workspace to write.
pub fn apply_remove(workspace: Workspace, cmd: BuildModelRemoveCommand) -> (r: Result<Workspace>)
    ensures
        remove_outcome(workspace, cmd, r),
{
    let mut w = workspace;
    match w.build_model.take() {
        None => Err(AppError::ElementNotFound(String::from_str("build_model not found in workspace"))),
        Some(m0) => {
            let mut m = m0;
            let ghost c = cmd;
            match remove_from_model(&mut m, cmd) {
                Ok(()) => {
                    let w1 = store_model(w, m);
                    assert(remove_post(m0, m, c, Ok(())) && with_build_model(workspace, w1, m));
                    Ok(w1)
                },
                Err(e) => {
                    assert(remove_post(m0, m, c, Err(e)));
                    Err(e)
                },
            }
        },
    }
}

} // verus!
