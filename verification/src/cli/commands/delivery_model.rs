use vstd::prelude::*;
use crate::cli::args::{DeliveryModelAddCommand, DeliveryModelRemoveCommand};
use crate::cli::commands::context_model::given_or_id;
use crate::model::delivery::delivery_model::{DeliveryModel, DeliveryDiagramKind};
use crate::model::workspace::Workspace;
use crate::store::delivery_operations::{DeliveryOperations, add_package_post, remove_package_post};
use crate::utils::error::{AppError, ErrorKind, Result, fails_with};
use crate::utils::keyed::{all_known, is_first_unknown, first_unknown, lemma_first_unknown_unique};
use crate::utils::text::{opt_view, string_views, concat3, as_opt_str};

verus! {

/// `w1` is `w0` with the delivery model `m` and a new modification time.
pub open spec fn with_delivery_model(w0: Workspace, w1: Workspace, m: DeliveryModel) -> bool {
    &&& w1.delivery_model == Some(m)
    &&& w1.version == w0.version
    &&& w1.metadata.title == w0.metadata.title
    &&& w1.metadata.description == w0.metadata.description
    &&& w1.metadata.created_at == w0.metadata.created_at
    &&& w1.metadata.updated_at >= 0
    &&& w1.context_diagram == w0.context_diagram
    &&& w1.logic_architecture_concept_model == w0.logic_architecture_concept_model
    &&& w1.logic_view == w0.logic_view
    &&& w1.runtime_view == w0.runtime_view
    &&& w1.code_model == w0.code_model
    &&& w1.build_model == w0.build_model
    &&& w1.deployment_model == w0.deployment_model
}

/// A new delivery model as `DeliveryModel::new(title)` makes it.
pub open spec fn fresh_delivery_model(m: DeliveryModel, title: Seq<char>) -> bool {
    &&& m.version@ == "1.0"@
    &&& m.kind == DeliveryDiagramKind::DeliveryModel
    &&& m.metadata.title@ == title
    &&& m.metadata.created_at >= 0
    &&& m.metadata.updated_at >= 0
    &&& m.metadata.description is None
    &&& m.packages@.len() == 0
}

/// What an add command does to a delivery model (see the operations).
pub open spec fn add_post(m0: DeliveryModel, m1: DeliveryModel, cmd: DeliveryModelAddCommand, r: Result<()>) -> bool {
    match cmd {
        DeliveryModelAddCommand::Package { id, name, desc, version, delivery_type, artifacts, registry } =>
            add_package_post(m0, m1, id@, given_or_id(name, id), opt_view(desc), opt_view(version), delivery_type,
                string_views(artifacts@), opt_view(registry), r),
    }
}

/// What a remove command does to a delivery model (see the operations).
pub open spec fn remove_post(m0: DeliveryModel, m1: DeliveryModel, cmd: DeliveryModelRemoveCommand, r: Result<()>) -> bool {
    match cmd {
        DeliveryModelRemoveCommand::Package { id } => remove_package_post(m0, m1, id@, r),
    }
}

/// The error message, if any, for the artifacts of a new package: each must
/// be an artifact of the build model, which must exist when any is named.
pub open spec fn artifacts_problem(w: Workspace, artifacts: Vec<String>) -> Option<Seq<char>> {
    if artifacts@.len() == 0 {
        None
    } else {
        match w.build_model {
            Some(b) => if all_known(b.artifacts@, artifacts@) {
                None
            } else {
                Some("artifact '"@ + artifacts@[choose|i: int| is_first_unknown(b.artifacts@, artifacts@, i)]@
                    + "' not found in build_model"@)
            },
            None => Some("build_model not found in workspace"@),
        }
    }
}

/// The outcome of an add command on delivery model `m0` of workspace `w0`.
pub open spec fn edit_outcome(w0: Workspace, m0: DeliveryModel, cmd: DeliveryModelAddCommand, r: Result<Workspace>) -> bool {
    match r {
        Ok(w1) => exists|m1: DeliveryModel| add_post(m0, m1, cmd, Ok(())) && with_delivery_model(w0, w1, m1),
        Err(e) => exists|m1: DeliveryModel| add_post(m0, m1, cmd, Err(e)),
    }
}

/// The outcome of an add command on a workspace: a package's artifacts are
/// checked first; the delivery model ("Delivery Model") is created when missing.
pub open spec fn add_outcome(w0: Workspace, cmd: DeliveryModelAddCommand, r: Result<Workspace>) -> bool {
    match cmd {
        DeliveryModelAddCommand::Package { artifacts, .. } => match artifacts_problem(w0, artifacts) {
            Some(msg) => fails_with(r, ErrorKind::ElementNotFound, msg),
            None => match w0.delivery_model {
                Some(m0) => edit_outcome(w0, m0, cmd, r),
                None => exists|m0: DeliveryModel| fresh_delivery_model(m0, "Delivery Model"@) && edit_outcome(w0, m0, cmd, r),
            },
        },
    }
}

/// The outcome of a remove command on a workspace.
pub open spec fn remove_outcome(w0: Workspace, cmd: DeliveryModelRemoveCommand, r: Result<Workspace>) -> bool {
    match w0.delivery_model {
        None => fails_with(r, ErrorKind::ElementNotFound, "delivery_model not found in workspace"@),
        Some(m0) => match r {
            Ok(w1) => exists|m1: DeliveryModel| remove_post(m0, m1, cmd, Ok(())) && with_delivery_model(w0, w1, m1),
            Err(e) => exists|m1: DeliveryModel| remove_post(m0, m1, cmd, Err(e)),
        },
    }
}

/// Applies an add command to a delivery model.
pub fn add_to_model(model: &mut DeliveryModel, cmd: DeliveryModelAddCommand) -> (r: Result<()>)
    ensures
        add_post(*old(model), *final(model), cmd, r),
{
    match cmd {
        DeliveryModelAddCommand::Package { id, name, desc, version, delivery_type, artifacts, registry } =>
            DeliveryOperations::add_package(model, id.as_str(), as_opt_str(&name), as_opt_str(&desc),
                as_opt_str(&version), delivery_type, artifacts, as_opt_str(&registry)),
    }
}

/// Applies a remove command to a delivery model.
pub fn remove_from_model(model: &mut DeliveryModel, cmd: DeliveryModelRemoveCommand) -> (r: Result<()>)
    ensures
        remove_post(*old(model), *final(model), cmd, r),
{
    match cmd {
        DeliveryModelRemoveCommand::Package { id } => DeliveryOperations::remove_package(model, id.as_str()),
    }
}

/// Checks the artifacts of a new package against the build model.
fn check_artifacts(workspace: &Workspace, artifacts: &Vec<String>) -> (r: Result<()>)
    ensures
        match artifacts_problem(*workspace, *artifacts) {
            Some(msg) => fails_with(r, ErrorKind::ElementNotFound, msg),
            None => r is Ok,
        },
{
    if artifacts.len() == 0 {
        return Ok(());
    }
    match &workspace.build_model {
        Some(build) => match first_unknown(&build.artifacts, artifacts) {
            Some(i) => {
                proof {
                    lemma_first_unknown_unique(build.artifacts@, artifacts@, i as int);
                }
                Err(AppError::ElementNotFound(concat3("artifact '", artifacts[i].as_str(), "' not found in build_model")))
            },
            None => Ok(()),
        },
        None => Err(AppError::ElementNotFound(String::from_str("build_model not found in workspace"))),
    }
}

fn store_model(workspace: Workspace, model: DeliveryModel) -> (w: Workspace)
    ensures
        with_delivery_model(workspace, w, model),
{
    let mut w = workspace;
    w.delivery_model = Some(model);
    w.touch();
    w
}

fn edit_model(workspace: Workspace, model: DeliveryModel, cmd: DeliveryModelAddCommand) -> (r: Result<Workspace>)
    ensures
        edit_outcome(workspace, model, cmd, r),
{
    let mut m = model;
    let ghost c = cmd;
    match add_to_model(&mut m, cmd) {
        Ok(()) => {
            let w = store_model(workspace, m);
            assert(add_post(model, m, c, Ok(())) && with_delivery_model(workspace, w, m));
            Ok(w)
        },
        Err(e) => {
            assert(add_post(model, m, c, Err(e)));
            Err(e)
        },
    }
}

/// Applies an add command to a workspace, and gives back the workspace to write.
pub fn apply_add(workspace: Workspace, cmd: DeliveryModelAddCommand) -> (r: Result<Workspace>)
    ensures
        add_outcome(workspace, cmd, r),
{
    match &cmd {
        DeliveryModelAddCommand::Package { artifacts, .. } => {
            match check_artifacts(&workspace, artifacts) {
                Err(e) => {
                    return Err(e);
                },
                Ok(()) => {},
            }
        },
    }
    let ghost w0 = workspace;
    let ghost c = cmd;
    let mut w = workspace;
    match w.delivery_model.take() {
        Some(m) => {
            let r = edit_model(w, m, cmd);
            proof {
                if r is Ok {
                    let w1 = r->Ok_0;
                    let m1 = choose|m1: DeliveryModel| add_post(m, m1, c, Ok(())) && with_delivery_model(w, w1, m1);
                    assert(add_post(m, m1, c, Ok(())) && with_delivery_model(w0, w1, m1));
                }
            }
            r
        },
        None => {
            let m = DeliveryModel::new("Delivery Model");
            let ghost m0 = m;
            let r = edit_model(w, m, cmd);
            proof {
                if r is Ok {
                    let w1 = r->Ok_0;
                    let m1 = choose|m1: DeliveryModel| add_post(m0, m1, c, Ok(())) && with_delivery_model(w, w1, m1);
                    assert(add_post(m0, m1, c, Ok(())) && with_delivery_model(w0, w1, m1));
                }
                assert(fresh_delivery_model(m0, "Delivery Model"@) && edit_outcome(w0, m0, c, r));
            }
            r
        },
    }
}

/// Applies a remove command to a workspace, and gives back the workspace to write.
pub fn apply_remove(workspace: Workspace, cmd: DeliveryModelRemoveCommand) -> (r: Result<Workspace>)
    ensures
        remove_outcome(workspace, cmd, r),
{
    let mut w = workspace;
    match w.delivery_model.take() {
        None => Err(AppError::ElementNotFound(String::from_str("delivery_model not found in workspace"))),
        Some(m0) => {
            let mut m = m0;
            let ghost c = cmd;
            match remove_from_model(&mut m, cmd) {
                Ok(()) => {
                    let w1 = store_model(w, m);
                    assert(remove_post(m0, m, c, Ok(())) && with_delivery_model(workspace, w1, m));
                    Ok(w1)
                },
                Err(e) => {
                    assert(remove_post(m0, m, c, Err(e)));
                    Err(e)
                },
            }
        },
    }
}

} // verus!
