use vstd::prelude::*;
use crate::cli::args::{DeploymentModelAddCommand, DeploymentModelRemoveCommand};
use crate::cli::commands::context_model::given_or_id;
use crate::model::deployment::deployment_model::{DeploymentModel, DeploymentDiagramKind};
use crate::model::workspace::Workspace;
use crate::store::deployment_operations::{
    DeploymentOperations, add_environment_post, add_node_post, add_service_post, add_network_link_post,
    remove_environment_post, remove_node_post, remove_service_post, remove_network_link_post,
};
use crate::utils::error::{AppError, ErrorKind, Result, fails_with};
use crate::utils::keyed::has_key;
use crate::utils::text::{opt_view, concat3, as_opt_str};

verus! {

/// `w1` is `w0` with the deployment model `m` and a new modification time.
pub open spec fn with_deployment_model(w0: Workspace, w1: Workspace, m: DeploymentModel) -> bool {
    &&& w1.deployment_model == Some(m)
    &&& w1.version == w0.version
    &&& w1.metadata.title == w0.metadata.title
    &&& w1.metadata.description == w0.metadata.description
    &&& w1.metadata.created_at == w0.metadata.created_at
    &&& w1.metadata.updated_at >= 0
    &&& w1.context_diagram == w0.context_diagram
    &&& w1.logic_architecture_concept_model == w0.logic_architecture_concept_model
    &&& w1.logic_view == w0.logic_view
    &&& w1.runtime_view == w0.runtime_view
    &&& w1.code_model == w0.code_model
    &&& w1.build_model == w0.build_model
    &&& w1.delivery_model == w0.delivery_model
}

/// A new deployment model as `DeploymentModel::new(title)` makes it.
pub open spec fn fresh_deployment_model(m: DeploymentModel, title: Seq<char>) -> bool {
    &&& m.version@ == "1.0"@
    &&& m.kind == DeploymentDiagramKind::DeploymentModel
    &&& m.metadata.title@ == title
    &&& m.metadata.created_at >= 0
    &&& m.metadata.updated_at >= 0
    &&& m.metadata.description is None
    &&& m.environments@.len() == 0
    &&& m.nodes@.len() == 0
    &&& m.services@.len() == 0
    &&& m.network_links@.len() == 0
}

/// The error message for a workspace without a deployment model.
pub open spec fn deployment_not_found_message() -> Seq<char> {
    "deployment_model 在工作空间中未找到"@
}

/// What an add command does to a deployment model (see the operations).
pub open spec fn add_post(m0: DeploymentModel, m1: DeploymentModel, cmd: DeploymentModelAddCommand, r: Result<()>) -> bool {
    match cmd {
        DeploymentModelAddCommand::Environment { id, name, desc } =>
            add_environment_post(m0, m1, id@, given_or_id(name, id), opt_view(desc), r),
        DeploymentModelAddCommand::Node { id, name, desc, node_type, environment, technology } =>
            add_node_post(m0, m1, id@, given_or_id(name, id), opt_view(desc), node_type, opt_view(environment),
                opt_view(technology), r),
        DeploymentModelAddCommand::Service { id, name, desc, delivery_package, target_node, replicas, port } =>
            add_service_post(m0, m1, id@, given_or_id(name, id), opt_view(desc), delivery_package@, target_node@,
                replicas, port, r),
        DeploymentModelAddCommand::NetworkLink { id, from, to, protocol, port, desc } =>
            add_network_link_post(m0, m1, id@, from@, to@, opt_view(protocol), port, opt_view(desc), r),
    }
}

/// What a remove command does to a deployment model (see the operations).
pub open spec fn remove_post(m0: DeploymentModel, m1: DeploymentModel, cmd: DeploymentModelRemoveCommand, r: Result<()>) -> bool {
    match cmd {
        DeploymentModelRemoveCommand::Environment { id } => remove_environment_post(m0, m1, id@, r),
        DeploymentModelRemoveCommand::Node { id } => remove_node_post(m0, m1, id@, r),
        DeploymentModelRemoveCommand::Service { id } => remove_service_post(m0, m1, id@, r),
        DeploymentModelRemoveCommand::NetworkLink { id } => remove_network_link_post(m0, m1, id@, r),
    }
}

/// The error message, if any, for the delivery package of a new service: it
/// must be a package of the delivery model, which must exist.
pub open spec fn package_problem(w: Workspace, cmd: DeploymentModelAddCommand) -> Option<Seq<char>> {
    match cmd {
        DeploymentModelAddCommand::Service { delivery_package, .. } => match w.delivery_model {
            Some(d) => if has_key(d.packages@, delivery_package@) {
                None
            } else {
                Some("delivery_package '"@ + delivery_package@ + "' 在 delivery_model 中未找到"@)
            },
            None => Some("delivery_model 在工作空间中未找到"@),
        },
        _ => None,
    }
}

/// The outcome of an add command on deployment model `m0` of workspace `w0`.
pub open spec fn edit_outcome(w0: Workspace, m0: DeploymentModel, cmd: DeploymentModelAddCommand, r: Result<Workspace>) -> bool {
    match r {
        Ok(w1) => exists|m1: DeploymentModel| add_post(m0, m1, cmd, Ok(())) && with_deployment_model(w0, w1, m1),
        Err(e) => exists|m1: DeploymentModel| add_post(m0, m1, cmd, Err(e)),
    }
}

/// The outcome of an add command on a workspace: a service's delivery
/// package is checked first; the deployment model ("Deployment Model") is
/// created when missing.
pub open spec fn add_outcome(w0: Workspace, cmd: DeploymentModelAddCommand, r: Result<Workspace>) -> bool {
    match package_problem(w0, cmd) {
        Some(msg) => fails_with(r, ErrorKind::ElementNotFound, msg),
        None => match w0.deployment_model {
            Some(m0) => edit_outcome(w0, m0, cmd, r),
            None => exists|m0: DeploymentModel| fresh_deployment_model(m0, "Deployment Model"@) && edit_outcome(w0, m0, cmd, r),
        },
    }
}

/// The outcome of a remove command on a workspace.
pub open spec fn remove_outcome(w0: Workspace, cmd: DeploymentModelRemoveCommand, r: Result<Workspace>) -> bool {
    match w0.deployment_model {
        None => fails_with(r, ErrorKind::ElementNotFound, deployment_not_found_message()),
        Some(m0) => match r {
            Ok(w1) => exists|m1: DeploymentModel| remove_post(m0, m1, cmd, Ok(())) && with_deployment_model(w0, w1, m1),
            Err(e) => exists|m1: DeploymentModel| remove_post(m0, m1, cmd, Err(e)),
        },
    }
}

/// Applies an add command to a deployment model.
pub fn add_to_model(model: &mut DeploymentModel, cmd: DeploymentModelAddCommand) -> (r: Result<()>)
    ensures
        add_post(*old(model), *final(model), cmd, r),
{
    match cmd {
        DeploymentModelAddCommand::Environment { id, name, desc } =>
            DeploymentOperations::add_environment(model, id.as_str(), as_opt_str(&name), as_opt_str(&desc)),
        DeploymentModelAddCommand::Node { id, name, desc, node_type, environment, technology } =>
            DeploymentOperations::add_node(model, id.as_str(), as_opt_str(&name), as_opt_str(&desc), node_type,
                as_opt_str(&environment), as_opt_str(&technology)),
        DeploymentModelAddCommand::Service { id, name, desc, delivery_package, target_node, replicas, port } =>
            DeploymentOperations::add_service(model, id.as_str(), as_opt_str(&name), as_opt_str(&desc),
                delivery_package.as_str(), target_node.as_str(), replicas, port),
        DeploymentModelAddCommand::NetworkLink { id, from, to, protocol, port, desc } =>
            DeploymentOperations::add_network_link(model, id.as_str(), from.as_str(), to.as_str(),
                as_opt_str(&protocol), port, as_opt_str(&desc)),
    }
}

/// Applies a remove command to a deployment model.
pub fn remove_from_model(model: &mut DeploymentModel, cmd: DeploymentModelRemoveCommand) -> (r: Result<()>)
    ensures
        remove_post(*old(model), *final(model), cmd, r),
{
    match cmd {
        DeploymentModelRemoveCommand::Environment { id } => DeploymentOperations::remove_environment(model, id.as_str()),
        DeploymentModelRemoveCommand::Node { id } => DeploymentOperations::remove_node(model, id.as_str()),
        DeploymentModelRemoveCommand::Service { id } => DeploymentOperations::remove_service(model, id.as_str()),
        DeploymentModelRemoveCommand::NetworkLink { id } => DeploymentOperations::remove_network_link(model, id.as_str()),
    }
}

/// Checks the delivery package of a new service against the delivery model.
fn check_package(workspace: &Workspace, cmd: &DeploymentModelAddCommand) -> (r: Result<()>)
    ensures
        match package_problem(*workspace, *cmd) {
            Some(msg) => fails_with(r, ErrorKind::ElementNotFound, msg),
            None => r is Ok,
        },
{
    match cmd {
        DeploymentModelAddCommand::Service { delivery_package, .. } => match &workspace.delivery_model {
            Some(d) => {
                if d.find_package(delivery_package.as_str()).is_none() {
                    Err(AppError::ElementNotFound(
                        concat3("delivery_package '", delivery_package.as_str(), "' 在 delivery_model 中未找到"),
                    ))
                } else {
                    Ok(())
                }
            },
            None => Err(AppError::ElementNotFound(String::from_str("delivery_model 在工作空间中未找到"))),
        },
        _ => Ok(()),
    }
}

fn store_model(workspace: Workspace, model: DeploymentModel) -> (w: Workspace)
    ensures
        with_deployment_model(workspace, w, model),
{
    let mut w = workspace;
    w.deployment_model = Some(model);
    w.touch();
    w
}

fn edit_model(workspace: Workspace, model: DeploymentModel, cmd: DeploymentModelAddCommand) -> (r: Result<Workspace>)
    ensures
        edit_outcome(workspace, model, cmd, r),
{
    let mut m = model;
    let ghost c = cmd;
    match add_to_model(&mut m, cmd) {
        Ok(()) => {
            let w = store_model(workspace, m);
            assert(add_post(model, m, c, Ok(())) && with_deployment_model(workspace, w, m));
            Ok(w)
        },
        Err(e) => {
            assert(add_post(model, m, c, Err(e)));
            Err(e)
        },
    }
}

/// Applies an add command to a workspace, and gives back the workspace to write.
pub fn apply_add(workspace: Workspace, cmd: DeploymentModelAddCommand) -> (r: Result<Workspace>)
    ensures
        add_outcome(workspace, cmd, r),
{
    match check_package(&workspace, &cmd) {
        Err(e) => {
            return Err(e);
        },
        Ok(()) => {},
    }
    let ghost w0 = workspace;
    let ghost c = cmd;
    let mut w = workspace;
    match w.deployment_model.take() {
        Some(m) => {
            let r = edit_model(w, m, cmd);
            proof {
                if r is Ok {
                    let w1 = r->Ok_0;
                    let m1 = choose|m1: DeploymentModel| add_post(m, m1, c, Ok(())) && with_deployment_model(w, w1, m1);
                    assert(add_post(m, m1, c, Ok(())) && with_deployment_model(w0, w1, m1));
                }
            }
            r
        },
        None => {
            let m = DeploymentModel::new("Deployment Model");
            let ghost m0 = m;
            let r = edit_model(w, m, cmd);
            proof {
                if r is Ok {
                    let w1 = r->Ok_0;
                    let m1 = choose|m1: DeploymentModel| add_post(m0, m1, c, Ok(())) && with_deployment_model(w, w1, m1);
                    assert(add_post(m0, m1, c, Ok(())) && with_deployment_model(w0, w1, m1));
                }
                assert(fresh_deployment_model(m0, "Deployment Model"@) && edit_outcome(w0, m0, c, r));
            }
            r
        },
    }
}

/// Applies a remove command to a workspace, and gives back the workspace to write.
pub fn apply_remove(workspace: Workspace, cmd: DeploymentModelRemoveCommand) -> (r: Result<Workspace>)
    ensures
        remove_outcome(workspace, cmd, r),
{
    let mut w = workspace;
    match w.deployment_model.take() {
        None => Err(AppError::ElementNotFound(String::from_str("deployment_model 在工作空间中未找到"))),
        Some(m0) => {
            let mut m = m0;
            let ghost c = cmd;
            match remove_from_model(&mut m, cmd) {
                Ok(()) => {
                    let w1 = store_model(w, m);
                    assert(remove_post(m0, m, c, Ok(())) && with_deployment_model(workspace, w1, m));
                    Ok(w1)
                },
                Err(e) => {
                    assert(remove_post(m0, m, c, Err(e)));
                    Err(e)
                },
            }
        },
    }
}

} // verus!
